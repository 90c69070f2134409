use crate::config_element::{decode_header_manager, HeaderManager, HeaderManagerView};
use crate::error::{view_result, DecodeError, DecodeErrorView};
use crate::test_plan::{decode_test_plan, TestPlan, TestPlanView};
use crate::thread::{decode_thread_group, ThreadGroup, ThreadGroupView};
use crate::xml::{text_eq, Element, XmlNode};
use vstd::prelude::*;

verus! {

broadcast use {
    vstd::std_specs::vec::axiom_vec_decreases_to_view,
    vstd::seq::axiom_seq_index_decreases,
    vstd::seq::axiom_seq_subrange_decreases,
};

/// A decoded test-plan element with the elements nested under it, in document order.
#[derive(Debug)]
pub enum TestClass {
    TestPlan(TestPlan, Vec<TestClass>),
    ThreadGroup(ThreadGroup, Vec<TestClass>),
    HeaderManager(HeaderManager, Vec<TestClass>),
    /// An element of a kind that has no decoder.
    Unknown,
}

/// The view of a decoded tree.
pub enum TestClassView {
    TestPlan(TestPlanView, Seq<TestClassView>),
    ThreadGroup(ThreadGroupView, Seq<TestClassView>),
    HeaderManager(HeaderManagerView, Seq<TestClassView>),
    Unknown,
}

pub open spec fn class_view(t: TestClass) -> TestClassView
    decreases t,
{
    match t {
        TestClass::TestPlan(p, subs) => TestClassView::TestPlan(p@, class_views(subs@)),
        TestClass::ThreadGroup(g, subs) => TestClassView::ThreadGroup(g@, class_views(subs@)),
        TestClass::HeaderManager(h, subs) => TestClassView::HeaderManager(h@, class_views(subs@)),
        TestClass::Unknown => TestClassView::Unknown,
    }
}

pub open spec fn class_views(s: Seq<TestClass>) -> Seq<TestClassView>
    decreases s,
{
    if s.len() == 0 {
        Seq::empty()
    } else {
        class_views(s.drop_last()).push(class_view(s.last()))
    }
}

impl View for TestClass {
    type V = TestClassView;

    open spec fn view(&self) -> TestClassView {
        class_view(*self)
    }
}

/// Decodes the element `e` by its tag, with `subs` as the trees nested under it; a tag
/// with no decoder gives `Unknown`.
pub open spec fn decode_node(e: Element, subs: Seq<TestClassView>) -> Result<
    TestClassView,
    DecodeErrorView,
> {
    if e.name@ == "TestPlan"@ {
        match decode_test_plan(e) {
            Ok(p) => Ok(TestClassView::TestPlan(p, subs)),
            Err(x) => Err(x),
        }
    } else if e.name@ == "ThreadGroup"@ {
        match decode_thread_group(e) {
            Ok(g) => Ok(TestClassView::ThreadGroup(g, subs)),
            Err(x) => Err(x),
        }
    } else if e.name@ == "HeaderManager"@ {
        match decode_header_manager(e) {
            Ok(h) => Ok(TestClassView::HeaderManager(h, subs)),
            Err(x) => Err(x),
        }
    } else {
        Ok(TestClassView::Unknown)
    }
}

/// Decodes the element `e` paired with its sibling-group `group`: first the pairs of the
/// group, in document order, then `e` itself.
pub open spec fn decode_tree(e: Element, group: Element) -> Result<TestClassView, DecodeErrorView>
    decreases group, group.children@.len() + 1,
{
    if group.name@ != "hashTree"@ {
        Err(DecodeErrorView::UnexpectedTag("hashTree"@))
    } else if group.children@.len() % 2 != 0 {
        Err(DecodeErrorView::MalformedTree)
    } else {
        match decode_pairs(group, group.children@.len() / 2) {
            Err(x) => Err(x),
            Ok(subs) => decode_node(e, subs),
        }
    }
}

/// Decodes the first `k` element/group pairs among the children of `group`.
pub open spec fn decode_pairs(group: Element, k: nat) -> Result<Seq<TestClassView>, DecodeErrorView>
    decreases group, k,
{
    if k == 0 {
        Ok(Seq::empty())
    } else if 2 * k > group.children@.len() {
        Err(DecodeErrorView::MalformedTree)
    } else {
        match decode_pairs(group, (k - 1) as nat) {
            Err(x) => Err(x),
            Ok(s) => match (group.children@[2 * k - 2], group.children@[2 * k - 1]) {
                (XmlNode::Element(a), XmlNode::Element(b)) => match decode_tree(a, b) {
                    Ok(t) => Ok(s.push(t)),
                    Err(x) => Err(x),
                },
                _ => Err(DecodeErrorView::MalformedTree),
            },
        }
    }
}

/// Decodes a whole document: its root holds exactly one child, which holds exactly the
/// top-level element and its sibling-group.
pub open spec fn decode_root(doc: Element) -> Result<TestClassView, DecodeErrorView> {
    if doc.children@.len() != 1 {
        Err(DecodeErrorView::MalformedTree)
    } else {
        match doc.children@[0] {
            XmlNode::Element(top) => if top.children@.len() != 2 {
                Err(DecodeErrorView::MalformedTree)
            } else {
                match (top.children@[0], top.children@[1]) {
                    (XmlNode::Element(a), XmlNode::Element(b)) => decode_tree(a, b),
                    _ => Err(DecodeErrorView::MalformedTree),
                }
            },
            _ => Err(DecodeErrorView::MalformedTree),
        }
    }
}

proof fn lemma_pairs_error_stays(group: Element, k: nat, j: nat)
    requires
        k <= j,
        2 * j <= group.children@.len(),
        decode_pairs(group, k) is Err,
    ensures
        decode_pairs(group, j) == decode_pairs(group, k),
    decreases j - k,
{
    if j > k {
        lemma_pairs_error_stays(group, k, (j - 1) as nat);
    }
}

impl TestClass {
    /// Decodes a whole document.
    pub fn root(ele: &Element) -> (r: Result<TestClass, DecodeError>)
        ensures
            view_result(r) == decode_root(*ele),
    {
        if ele.children.len() != 1 {
            return Err(DecodeError::MalformedTree);
        }
        match &ele.children[0] {
            XmlNode::Element(top) => {
                if top.children.len() != 2 {
                    return Err(DecodeError::MalformedTree);
                }
                match (&top.children[0], &top.children[1]) {
                    (XmlNode::Element(a), XmlNode::Element(b)) => TestClass::parse(a, b),
                    _ => Err(DecodeError::MalformedTree),
                }
            },
            _ => Err(DecodeError::MalformedTree),
        }
    }

    /// Decodes the element `e` paired with its sibling-group `hash_tree`.
    pub fn parse(e: &Element, hash_tree: &Element) -> (r: Result<TestClass, DecodeError>)
        ensures
            view_result(r) == decode_tree(*e, *hash_tree),
        decreases hash_tree,
    {
        if !text_eq(hash_tree.name.as_str(), "hashTree") {
            return Err(DecodeError::UnexpectedTag("hashTree".to_owned()));
        }
        let n = hash_tree.children.len();
        if n % 2 != 0 {
            return Err(DecodeError::MalformedTree);
        }
        let mut subs: Vec<TestClass> = Vec::new();
        let mut k: usize = 0;
        proof {
            assert(class_views(subs@) =~= Seq::<TestClassView>::empty());
        }
        while k < n / 2
            invariant
                n == hash_tree.children@.len(),
                n % 2 == 0,
                hash_tree.name@ == "hashTree"@,
                0 <= k <= n / 2,
                decode_pairs(*hash_tree, k as nat) == Ok::<Seq<TestClassView>, DecodeErrorView>(
                    class_views(subs@),
                ),
            decreases n / 2 - k,
        {
            let ghost before = subs@;
            match (&hash_tree.children[2 * k], &hash_tree.children[2 * k + 1]) {
                (XmlNode::Element(a), XmlNode::Element(b)) => {
                    proof {
                        assert(decreases_to!(hash_tree.children@ => hash_tree.children@[2 * k + 1]));
                    }
                    match TestClass::parse(a, b) {
                        Ok(t) => {
                            subs.push(t);
                            proof {
                                assert(subs@.drop_last() =~= before);
                            }
                        },
                        Err(x) => {
                            proof {
                                let k1 = (k + 1) as nat;
                                assert(2 * k1 - 2 == 2 * k && 2 * k1 - 1 == 2 * k + 1);
                                assert(decode_pairs(*hash_tree, k1) == Err::<
                                    Seq<TestClassView>,
                                    DecodeErrorView,
                                >(x@));
                                lemma_pairs_error_stays(*hash_tree, k1, (n / 2) as nat);
                            }
                            return Err(x);
                        },
                    }
                },
                _ => {
                    proof {
                        let k1 = (k + 1) as nat;
                        assert(2 * k1 - 2 == 2 * k && 2 * k1 - 1 == 2 * k + 1);
                        assert(decode_pairs(*hash_tree, k1) == Err::<
                            Seq<TestClassView>,
                            DecodeErrorView,
                        >(DecodeErrorView::MalformedTree));
                        lemma_pairs_error_stays(*hash_tree, k1, (n / 2) as nat);
                    }
                    return Err(DecodeError::MalformedTree);
                },
            }
            k = k + 1;
        }
        if text_eq(e.name.as_str(), "TestPlan") {
            match TestPlan::parse(e) {
                Ok(p) => Ok(TestClass::TestPlan(p, subs)),
                Err(x) => Err(x),
            }
        } else if text_eq(e.name.as_str(), "ThreadGroup") {
            match ThreadGroup::parse(e) {
                Ok(g) => Ok(TestClass::ThreadGroup(g, subs)),
                Err(x) => Err(x),
            }
        } else if text_eq(e.name.as_str(), "HeaderManager") {
            match HeaderManager::parse(e) {
                Ok(h) => Ok(TestClass::HeaderManager(h, subs)),
                Err(x) => Err(x),
            }
        } else {
            Ok(TestClass::Unknown)
        }
    }
}

/// Sibling-groups come in element/group pairs: a group that decodes has an even number of
/// children, and a `hashTree` with an odd number of children is `MalformedTree`.
pub proof fn lemma_sibling_group_even(e: Element, group: Element)
    ensures
        decode_tree(e, group) is Ok ==> group.children@.len() % 2 == 0,
        group.name@ == "hashTree"@ && group.children@.len() % 2 == 1 ==> decode_tree(e, group)
            == Err::<TestClassView, DecodeErrorView>(DecodeErrorView::MalformedTree),
{
}

/// Decoding is deterministic: two decodings of the same document give equal trees, or
/// the same error.
pub proof fn lemma_decode_deterministic(
    doc: Element,
    first: Result<TestClass, DecodeError>,
    second: Result<TestClass, DecodeError>,
)
    requires
        view_result(first) == decode_root(doc),
        view_result(second) == decode_root(doc),
    ensures
        view_result(first) == view_result(second),
{
}

} // verus!
