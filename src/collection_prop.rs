use crate::element_prop::{ElementArgument, ElementHeader};
use crate::error::{DecodeError, DecodeErrorView};
use crate::xml::{opt_view, text_eq, Element};
use crate::{decode_all, parse_elements, views, Deserializer, HashMappable, Pairable};
use vstd::prelude::*;

verus! {

/// The mapping that a sequence of name/value pairs folds into: the first pair with a
/// given name decides its value.
pub open spec fn first_wins(pairs: Seq<(Seq<char>, Seq<char>)>) -> Map<Seq<char>, Seq<char>>
    decreases pairs.len(),
{
    if pairs.len() == 0 {
        Map::empty()
    } else {
        let m = first_wins(pairs.drop_last());
        if m.contains_key(pairs.last().0) {
            m
        } else {
            m.insert(pairs.last().0, pairs.last().1)
        }
    }
}

/// The name/value pairs of a sequence of records.
pub open spec fn pairs_of<T: Pairable>(items: Seq<T>) -> Seq<(Seq<char>, Seq<char>)> {
    items.map_values(|t: T| t.pair())
}

pub open spec fn entry_views(entries: Seq<(String, String)>) -> Seq<(Seq<char>, Seq<char>)> {
    entries.map_values(|p: (String, String)| (p.0@, p.1@))
}

proof fn lemma_first_wins_finite(pairs: Seq<(Seq<char>, Seq<char>)>)
    ensures
        first_wins(pairs).dom().finite(),
        forall|k: Seq<char>|
            #![trigger first_wins(pairs).contains_key(k)]
            first_wins(pairs).contains_key(k) <==> exists|i: int|
                0 <= i < pairs.len() && (#[trigger] pairs[i]).0 == k,
    decreases pairs.len(),
{
    if pairs.len() > 0 {
        let p = pairs.drop_last();
        lemma_first_wins_finite(p);
        assert forall|k: Seq<char>| #[trigger]
            first_wins(pairs).contains_key(k) <==> exists|i: int|
                0 <= i < pairs.len() && (#[trigger] pairs[i]).0 == k by {
            if first_wins(pairs).contains_key(k) && k != pairs.last().0 {
                let i = choose|i: int| 0 <= i < p.len() && (#[trigger] p[i]).0 == k;
                assert(pairs[i] == p[i]);
            }
            if exists|i: int| 0 <= i < pairs.len() && (#[trigger] pairs[i]).0 == k {
                let i = choose|i: int| 0 <= i < pairs.len() && (#[trigger] pairs[i]).0 == k;
                if i < p.len() {
                    assert(p[i] == pairs[i]);
                }
            }
        }
    }
}

/// A mapping from names to values, each name once, kept in the order of insertion.
#[derive(Debug)]
pub struct PropertyMap {
    entries: Vec<(String, String)>,
}

impl View for PropertyMap {
    type V = Map<Seq<char>, Seq<char>>;

    closed spec fn view(&self) -> Map<Seq<char>, Seq<char>> {
        first_wins(entry_views(self.entries@))
    }
}

impl PropertyMap {
    /// No name appears twice.
    #[verifier::type_invariant]
    spec fn wf(&self) -> bool {
        forall|i: int, j: int|
            0 <= i < j < self.entries@.len() ==> (#[trigger] self.entries@[i]).0@
                != (#[trigger] self.entries@[j]).0@
    }

    /// The empty mapping.
    pub fn new() -> (r: PropertyMap)
        ensures
            r@ == Map::<Seq<char>, Seq<char>>::empty(),
    {
        let r = PropertyMap { entries: Vec::new() };
        proof {
            assert(entry_views(r.entries@) =~= Seq::empty());
        }
        r
    }

    /// The value of `key`, if present.
    pub fn get(&self, key: &str) -> (r: Option<String>)
        ensures
            opt_view(r) == (if self@.contains_key(key@) {
                Some(self@[key@])
            } else {
                None
            }),
    {
        let n = self.entries.len();
        let ghost all = entry_views(self.entries@);
        let mut i: usize = 0;
        while i < n
            invariant
                n == self.entries@.len(),
                all == entry_views(self.entries@),
                0 <= i <= n,
                forall|j: int| 0 <= j < i ==> (#[trigger] all[j]).0 != key@,
            decreases n - i,
        {
            if text_eq(self.entries[i].0.as_str(), key) {
                proof {
                    self.lemma_first_match(key@, i as int);
                }
                return Some(self.entries[i].1.clone());
            }
            i = i + 1;
        }
        proof {
            lemma_first_wins_finite(all);
        }
        None
    }

    proof fn lemma_first_match(&self, key: Seq<char>, i: int)
        requires
            0 <= i < self.entries@.len(),
            entry_views(self.entries@)[i].0 == key,
            forall|j: int| 0 <= j < i ==> (#[trigger] entry_views(self.entries@)[j]).0 != key,
        ensures
            self@.contains_key(key),
            self@[key] == entry_views(self.entries@)[i].1,
    {
        lemma_first_wins_prefix(entry_views(self.entries@), key, i, self.entries@.len() as int);
    }

    /// Adds `key` with `value` unless `key` is already present.
    pub fn insert(&mut self, key: String, value: String)
        ensures
            final(self)@ == (if old(self)@.contains_key(key@) {
                old(self)@
            } else {
                old(self)@.insert(key@, value@)
            }),
    {
        proof {
            use_type_invariant(&*self);
        }
        let n = self.entries.len();
        let ghost all = entry_views(self.entries@);
        let mut i: usize = 0;
        while i < n
            invariant
                n == self.entries@.len(),
                all == entry_views(self.entries@),
                0 <= i <= n,
                self.wf(),
                *self == *old(self),
                forall|j: int| 0 <= j < i ==> (#[trigger] all[j]).0 != key@,
            decreases n - i,
        {
            if text_eq(self.entries[i].0.as_str(), key.as_str()) {
                proof {
                    self.lemma_first_match(key@, i as int);
                }
                return;
            }
            i = i + 1;
        }
        proof {
            lemma_first_wins_finite(all);
        }
        let mut entries: Vec<(String, String)> = Vec::new();
        std::mem::swap(&mut entries, &mut self.entries);
        let ghost before = entries@;
        entries.push((key, value));
        proof {
            let now = entry_views(entries@);
            assert(now.drop_last() =~= all);
            assert forall|a: int, b: int|
                0 <= a < b < entries@.len() implies (#[trigger] entries@[a]).0@
                != (#[trigger] entries@[b]).0@ by {
                if b == n {
                    assert(all[a].0 == before[a].0@);
                } else {
                    assert(entries@[a] == before[a] && entries@[b] == before[b]);
                }
            }
        }
        self.entries = entries;
    }

    /// The number of names.
    pub fn len(&self) -> (r: usize)
        ensures
            r == self@.dom().len(),
    {
        proof {
            use_type_invariant(self);
            lemma_unique_len(self.entries@);
        }
        self.entries.len()
    }
}

proof fn lemma_first_wins_prefix(pairs: Seq<(Seq<char>, Seq<char>)>, key: Seq<char>, i: int, j: int)
    requires
        0 <= i < j <= pairs.len(),
        pairs[i].0 == key,
        forall|m: int| 0 <= m < i ==> (#[trigger] pairs[m]).0 != key,
    ensures
        first_wins(pairs.subrange(0, j)).contains_key(key),
        first_wins(pairs.subrange(0, j))[key] == pairs[i].1,
        j == pairs.len() ==> first_wins(pairs).contains_key(key) && first_wins(pairs)[key]
            == pairs[i].1,
    decreases j - i,
{
    let s = pairs.subrange(0, j);
    assert(s.drop_last() =~= pairs.subrange(0, j - 1));
    if j == i + 1 {
        let p = pairs.subrange(0, i);
        lemma_first_wins_finite(p);
        if first_wins(p).contains_key(key) {
            let m = choose|m: int| 0 <= m < p.len() && (#[trigger] p[m]).0 == key;
            assert(p[m] == pairs[m]);
        }
    } else {
        lemma_first_wins_prefix(pairs, key, i, j - 1);
    }
    if j == pairs.len() {
        assert(s =~= pairs);
    }
}

proof fn lemma_unique_len(entries: Seq<(String, String)>)
    requires
        forall|i: int, j: int|
            0 <= i < j < entries.len() ==> (#[trigger] entries[i]).0@ != (#[trigger] entries[j]).0@,
    ensures
        first_wins(entry_views(entries)).dom().len() == entries.len(),
    decreases entries.len(),
{
    if entries.len() > 0 {
        let p = entries.drop_last();
        lemma_unique_len(p);
        let v = entry_views(entries);
        assert(v.drop_last() =~= entry_views(p));
        lemma_first_wins_finite(entry_views(p));
        if first_wins(entry_views(p)).contains_key(v.last().0) {
            let m = choose|m: int|
                0 <= m < entry_views(p).len() && (#[trigger] entry_views(p)[m]).0 == v.last().0;
            assert(entries[m] == p[m]);
            assert(entries[m].0@ != entries[entries.len() - 1].0@);
        }
    }
}

/// `<collectionProp>`: a named, ordered sequence of composite properties of one shape.
#[derive(Debug, PartialEq, Eq)]
pub struct CollectionProp<T> {
    pub props: Vec<T>,
}

impl<T: View> View for CollectionProp<T> {
    type V = Seq<T::V>;

    open spec fn view(&self) -> Seq<T::V> {
        views(self.props@)
    }
}

/// Decodes a `collectionProp` named `name`: each element child as a `T`, in order.
pub open spec fn decode_collection<T: Deserializer>(e: Element, name: Seq<char>) -> Result<
    Seq<T::V>,
    DecodeErrorView,
> {
    if e.name@ != "collectionProp"@ {
        Err(DecodeErrorView::UnexpectedTag("collectionProp"@))
    } else {
        match e.attr("name"@) {
            None => Err(DecodeErrorView::MissingAttribute("name"@)),
            Some(n) => if n != name {
                Err(DecodeErrorView::UnexpectedTag(name))
            } else {
                decode_all::<T>(e.elements())
            },
        }
    }
}

fn parse_collection<T: Deserializer>(e: &Element, name: &str) -> (r: Result<
    CollectionProp<T>,
    DecodeError,
>)
    ensures
        crate::error::view_result(r) == decode_collection::<T>(*e, name@),
{
    if !text_eq(e.name.as_str(), "collectionProp") {
        return Err(DecodeError::UnexpectedTag("collectionProp".to_owned()));
    }
    match e.attribute("name") {
        None => Err(DecodeError::MissingAttribute("name".to_owned())),
        Some(n) => {
            if !text_eq(n.as_str(), name) {
                return Err(DecodeError::UnexpectedTag(name.to_owned()));
            }
            match parse_elements::<T>(e) {
                Ok(props) => Ok(CollectionProp { props }),
                Err(x) => Err(x),
            }
        },
    }
}

impl Deserializer for CollectionProp<ElementHeader> {
    open spec fn decoded(e: Element) -> Result<Seq<<ElementHeader as View>::V>, DecodeErrorView> {
        decode_collection::<ElementHeader>(e, "HeaderManager.headers"@)
    }

    fn parse(e: &Element) -> (r: Result<CollectionProp<ElementHeader>, DecodeError>) {
        parse_collection::<ElementHeader>(e, "HeaderManager.headers")
    }
}

impl Deserializer for CollectionProp<ElementArgument> {
    open spec fn decoded(e: Element) -> Result<Seq<<ElementArgument as View>::V>, DecodeErrorView> {
        decode_collection::<ElementArgument>(e, "Arguments.arguments"@)
    }

    fn parse(e: &Element) -> (r: Result<CollectionProp<ElementArgument>, DecodeError>) {
        parse_collection::<ElementArgument>(e, "Arguments.arguments")
    }
}

impl<T: Pairable> HashMappable for CollectionProp<T> {
    open spec fn pairs(&self) -> Seq<(Seq<char>, Seq<char>)> {
        pairs_of(self.props@)
    }

    fn to_hash_map(&self) -> (r: PropertyMap) {
        let mut m = PropertyMap::new();
        let n = self.props.len();
        let ghost all = pairs_of(self.props@);
        let mut i: usize = 0;
        proof {
            assert(all.subrange(0, 0) =~= Seq::<(Seq<char>, Seq<char>)>::empty());
        }
        while i < n
            invariant
                n == self.props@.len(),
                all == pairs_of(self.props@),
                0 <= i <= n,
                m@ == first_wins(all.subrange(0, i as int)),
            decreases n - i,
        {
            let (k, v) = self.props[i].to_pair();
            m.insert(k.to_owned(), v.to_owned());
            proof {
                assert(all.subrange(0, i as int + 1).drop_last() =~= all.subrange(0, i as int));
            }
            i = i + 1;
        }
        proof {
            assert(all.subrange(0, n as int) =~= all);
        }
        m
    }
}

/// A decoded collection holds exactly one item per element child, each decoded from that
/// child, in document order; text children add nothing.
pub proof fn lemma_collection_order<T: Deserializer>(e: Element, name: Seq<char>)
    ensures
        decode_collection::<T>(e, name) matches Ok(items) ==> items.len() == e.elements().len()
            && forall|i: int|
            0 <= i < items.len() ==> T::decoded(#[trigger] e.elements()[i]) == Ok::<
                T::V,
                DecodeErrorView,
            >(items[i]),
{
    crate::lemma_decode_all_items::<T>(e.elements());
}

} // verus!
