pub mod basic_prop;
pub mod collection_prop;
pub mod config_element;
pub mod element_prop;
pub mod error;
pub mod number;
pub mod test_class;
pub mod test_plan;
pub mod thread;
pub mod xml;

pub use basic_prop::{BoolProp, IntProp, LongProp, PropView, StringProp};
pub use collection_prop::{CollectionProp, PropertyMap};
pub use config_element::HeaderManager;
pub use element_prop::{
    CompositeProp, ElementArgument, ElementHeader, ElementLoopController, ElementProp, ElementType,
};
pub use error::{view_result, DecodeError, DecodeErrorView};
pub use test_class::TestClass;
pub use test_plan::TestPlan;
pub use thread::ThreadGroup;
pub use xml::{Element, XmlNode};

use crate::collection_prop::first_wins;
use crate::xml::element_nodes;

use vstd::prelude::*;

verus! {

/// Types decoded from one generic XML element.
pub trait Deserializer: Sized + View {
    /// What decoding `e` gives: the decoded value's view, or the error.
    spec fn decoded(e: Element) -> Result<Self::V, DecodeErrorView>;

    /// Decodes `e`.
    fn parse(e: &Element) -> (r: Result<Self, DecodeError>)
        ensures
            view_result(r) == Self::decoded(*e),
    ;
}

/// Records that read as a name and a value.
pub trait Pairable {
    /// The name and the value.
    spec fn pair(&self) -> (Seq<char>, Seq<char>);

    /// Borrows the name and the value.
    fn to_pair(&self) -> (r: (&str, &str))
        ensures
            r.0@ == self.pair().0,
            r.1@ == self.pair().1,
    ;
}

/// Records that fold into a name-to-value mapping.
pub trait HashMappable {
    /// The name/value pairs, in order.
    spec fn pairs(&self) -> Seq<(Seq<char>, Seq<char>)>;

    /// Folds the pairs into a mapping; the first pair with a name decides its value.
    fn to_hash_map(&self) -> (r: PropertyMap)
        ensures
            r@ == first_wins(self.pairs()),
    ;
}

/// Decodes each of `elems` as a `T`, in order; the first failure is the result.
pub open spec fn decode_all<T: Deserializer>(elems: Seq<Element>) -> Result<Seq<T::V>, DecodeErrorView>
    decreases elems.len(),
{
    if elems.len() == 0 {
        Ok(Seq::empty())
    } else {
        match decode_all::<T>(elems.drop_last()) {
            Err(x) => Err(x),
            Ok(s) => match T::decoded(elems.last()) {
                Err(x) => Err(x),
                Ok(v) => Ok(s.push(v)),
            },
        }
    }
}

/// The views of a vector's items.
pub open spec fn views<T: View>(v: Seq<T>) -> Seq<T::V> {
    v.map_values(|t: T| t@)
}

/// The view of a decoded vector: the views of its items, or the same error.
pub open spec fn views_result<T: View>(r: Result<Vec<T>, DecodeError>) -> Result<Seq<T::V>, DecodeErrorView> {
    match r {
        Ok(v) => Ok(views(v@)),
        Err(x) => Err(x@),
    }
}

proof fn lemma_decode_all_error_stays<T: Deserializer>(nodes: Seq<XmlNode>, i: int, j: int)
    requires
        0 <= i <= j <= nodes.len(),
        decode_all::<T>(element_nodes(nodes.subrange(0, i))) is Err,
    ensures
        decode_all::<T>(element_nodes(nodes.subrange(0, j))) == decode_all::<T>(
            element_nodes(nodes.subrange(0, i)),
        ),
    decreases j - i,
{
    if j > i {
        lemma_decode_all_error_stays::<T>(nodes, i, j - 1);
        let p = nodes.subrange(0, j);
        assert(p.drop_last() =~= nodes.subrange(0, j - 1));
        let shorter = element_nodes(nodes.subrange(0, j - 1));
        if let XmlNode::Element(_) = p.last() {
            assert(element_nodes(p).drop_last() =~= shorter);
        }
    }
}

/// Decodes every element child of `e` as a `T`, in document order.
pub fn parse_elements<T: Deserializer>(e: &Element) -> (r: Result<Vec<T>, DecodeError>)
    ensures
        views_result(r) == decode_all::<T>(e.elements()),
{
    let n = e.children.len();
    let mut out: Vec<T> = Vec::new();
    let mut i: usize = 0;
    proof {
        assert(e.children@.subrange(0, 0) =~= Seq::<XmlNode>::empty());
        assert(views(out@) =~= Seq::<T::V>::empty());
    }
    while i < n
        invariant
            n == e.children@.len(),
            0 <= i <= n,
            decode_all::<T>(element_nodes(e.children@.subrange(0, i as int))) == Ok::<
                Seq<T::V>,
                DecodeErrorView,
            >(views(out@)),
        decreases n - i,
    {
        let ghost before = out@;
        let ghost p = e.children@.subrange(0, i as int + 1);
        proof {
            assert(p.drop_last() =~= e.children@.subrange(0, i as int));
            assert(p.last() == e.children@[i as int]);
        }
        if let XmlNode::Element(c) = &e.children[i] {
            match T::parse(c) {
                Ok(v) => {
                    out.push(v);
                    proof {
                        assert(element_nodes(p).drop_last() =~= element_nodes(
                            e.children@.subrange(0, i as int),
                        ));
                        assert(views(out@) =~= views(before).push(v@));
                    }
                },
                Err(x) => {
                    proof {
                        assert(element_nodes(p).drop_last() =~= element_nodes(
                            e.children@.subrange(0, i as int),
                        ));
                        lemma_decode_all_error_stays::<T>(e.children@, i as int + 1, n as int);
                        assert(e.children@.subrange(0, n as int) =~= e.children@);
                    }
                    return Err(x);
                },
            }
        }
        i = i + 1;
    }
    proof {
        assert(e.children@.subrange(0, n as int) =~= e.children@);
    }
    Ok(out)
}

/// What `decode_all` gives, item by item: one decoded item per element, in order.
pub proof fn lemma_decode_all_items<T: Deserializer>(elems: Seq<Element>)
    ensures
        decode_all::<T>(elems) matches Ok(items) ==> items.len() == elems.len() && forall|i: int|
            0 <= i < elems.len() ==> T::decoded(#[trigger] elems[i]) == Ok::<T::V, DecodeErrorView>(
                items[i],
            ),
    decreases elems.len(),
{
    if elems.len() > 0 {
        let p = elems.drop_last();
        lemma_decode_all_items::<T>(p);
        if let Ok(items) = decode_all::<T>(elems) {
            assert forall|i: int| 0 <= i < elems.len() implies T::decoded(#[trigger] elems[i])
                == Ok::<T::V, DecodeErrorView>(items[i]) by {
                if i < p.len() {
                    assert(elems[i] == p[i]);
                }
            }
        }
    }
}

} // verus!
