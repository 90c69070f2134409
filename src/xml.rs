use vstd::prelude::*;

verus! {

/// One child of an XML element, as a generic XML tree builder hands it over.
#[derive(Debug)]
pub enum XmlNode {
    Element(Element),
    Comment(String),
    CData(String),
    Text(String),
    ProcessingInstruction(String, Option<String>),
}

/// A generic XML element: a tag name, its attributes and its ordered children.
///
/// Attribute names are expected to be distinct; lookups take the first match.
#[derive(Debug)]
pub struct Element {
    pub name: String,
    pub attributes: Vec<(String, String)>,
    pub children: Vec<XmlNode>,
}

/// The value of the first attribute named `key`.
pub open spec fn attr_lookup(attrs: Seq<(String, String)>, key: Seq<char>) -> Option<Seq<char>>
    decreases attrs.len(),
{
    if attrs.len() == 0 {
        None
    } else if attrs[0].0@ == key {
        Some(attrs[0].1@)
    } else {
        attr_lookup(attrs.drop_first(), key)
    }
}

/// The element-typed nodes of `nodes`, in document order.
pub open spec fn element_nodes(nodes: Seq<XmlNode>) -> Seq<Element>
    decreases nodes.len(),
{
    if nodes.len() == 0 {
        Seq::empty()
    } else {
        let rest = element_nodes(nodes.drop_last());
        match nodes.last() {
            XmlNode::Element(e) => rest.push(e),
            _ => rest,
        }
    }
}

/// The content of the first text node of `nodes`.
pub open spec fn first_text(nodes: Seq<XmlNode>) -> Option<Seq<char>>
    decreases nodes.len(),
{
    if nodes.len() == 0 {
        None
    } else {
        match nodes[0] {
            XmlNode::Text(t) => Some(t@),
            _ => first_text(nodes.drop_first()),
        }
    }
}

/// The first element of `nodes` whose `name` attribute is `key`.
pub open spec fn find_named(nodes: Seq<XmlNode>, key: Seq<char>) -> Option<Element>
    decreases nodes.len(),
{
    if nodes.len() == 0 {
        None
    } else {
        match nodes[0] {
            XmlNode::Element(e) if e.attr("name"@) == Some(key) => Some(e),
            _ => find_named(nodes.drop_first(), key),
        }
    }
}

/// The first element of `nodes` whose tag is `tag`.
pub open spec fn find_tagged(nodes: Seq<XmlNode>, tag: Seq<char>) -> Option<Element>
    decreases nodes.len(),
{
    if nodes.len() == 0 {
        None
    } else {
        match nodes[0] {
            XmlNode::Element(e) if e.name@ == tag => Some(e),
            _ => find_tagged(nodes.drop_first(), tag),
        }
    }
}

/// The first element of `nodes` tagged `tag` whose attribute `key` is `value`.
pub open spec fn find_tagged_with(
    nodes: Seq<XmlNode>,
    tag: Seq<char>,
    key: Seq<char>,
    value: Seq<char>,
) -> Option<Element>
    decreases nodes.len(),
{
    if nodes.len() == 0 {
        None
    } else {
        match nodes[0] {
            XmlNode::Element(e) if e.name@ == tag && e.attr(key) == Some(value) => Some(e),
            _ => find_tagged_with(nodes.drop_first(), tag, key, value),
        }
    }
}

/// The view of an optional owned string.
pub open spec fn opt_view(o: Option<String>) -> Option<Seq<char>> {
    match o {
        Some(s) => Some(s@),
        None => None,
    }
}

/// Whether two strings hold the same characters.
pub fn text_eq(a: &str, b: &str) -> (r: bool)
    ensures
        r == (a@ == b@),
{
    a.to_owned() == b.to_owned()
}

proof fn lemma_tail_drop_first<T>(s: Seq<T>, i: int)
    requires
        0 <= i < s.len(),
    ensures
        s.subrange(i, s.len() as int).drop_first() == s.subrange(i + 1, s.len() as int),
        s.subrange(i, s.len() as int)[0] == s[i],
{
    assert(s.subrange(i, s.len() as int).drop_first() =~= s.subrange(i + 1, s.len() as int));
}

proof fn lemma_prefix_drop_last<T>(s: Seq<T>, i: int)
    requires
        0 <= i < s.len(),
    ensures
        s.subrange(0, i + 1).drop_last() == s.subrange(0, i),
        s.subrange(0, i + 1).last() == s[i],
{
    assert(s.subrange(0, i + 1).drop_last() =~= s.subrange(0, i));
}

impl Element {
    /// The value of the first attribute named `key`.
    pub open spec fn attr(&self, key: Seq<char>) -> Option<Seq<char>> {
        attr_lookup(self.attributes@, key)
    }

    /// The element-typed children, in document order.
    pub open spec fn elements(&self) -> Seq<Element> {
        element_nodes(self.children@)
    }

    /// The content of the first text child.
    pub open spec fn text(&self) -> Option<Seq<char>> {
        first_text(self.children@)
    }

    /// Looks up the value of the attribute `key` (the first one, if repeated).
    pub fn attribute(&self, key: &str) -> (r: Option<String>)
        ensures
            opt_view(r) == self.attr(key@),
    {
        let n = self.attributes.len();
        let mut i: usize = 0;
        proof {
            assert(self.attributes@.subrange(0, n as int) =~= self.attributes@);
        }
        while i < n
            invariant
                n == self.attributes@.len(),
                0 <= i <= n,
                attr_lookup(self.attributes@, key@) == attr_lookup(
                    self.attributes@.subrange(i as int, n as int),
                    key@,
                ),
            decreases n - i,
        {
            proof {
                lemma_tail_drop_first(self.attributes@, i as int);
            }
            if text_eq(self.attributes[i].0.as_str(), key) {
                return Some(self.attributes[i].1.clone());
            }
            i = i + 1;
        }
        None
    }

    /// The content of the first text child, if there is one.
    pub fn text_content(&self) -> (r: Option<String>)
        ensures
            opt_view(r) == self.text(),
    {
        let n = self.children.len();
        let mut i: usize = 0;
        proof {
            assert(self.children@.subrange(0, n as int) =~= self.children@);
        }
        while i < n
            invariant
                n == self.children@.len(),
                0 <= i <= n,
                first_text(self.children@) == first_text(
                    self.children@.subrange(i as int, n as int),
                ),
            decreases n - i,
        {
            proof {
                lemma_tail_drop_first(self.children@, i as int);
            }
            if let XmlNode::Text(t) = &self.children[i] {
                return Some(t.clone());
            }
            i = i + 1;
        }
        None
    }

    /// The number of element-typed children.
    pub fn element_count(&self) -> (r: usize)
        ensures
            r == self.elements().len(),
    {
        let n = self.children.len();
        let mut count: usize = 0;
        let mut i: usize = 0;
        while i < n
            invariant
                n == self.children@.len(),
                0 <= i <= n,
                count == element_nodes(self.children@.subrange(0, i as int)).len(),
                count <= i,
            decreases n - i,
        {
            proof {
                lemma_prefix_drop_last(self.children@, i as int);
            }
            if let XmlNode::Element(_) = &self.children[i] {
                count = count + 1;
            }
            i = i + 1;
        }
        proof {
            assert(self.children@.subrange(0, n as int) =~= self.children@);
        }
        count
    }

    /// The first element child whose `name` attribute is `key`.
    pub fn child_named(&self, key: &str) -> (r: Option<&Element>)
        ensures
            match r {
                Some(c) => find_named(self.children@, key@) == Some(*c),
                None => find_named(self.children@, key@) is None,
            },
    {
        let n = self.children.len();
        let mut i: usize = 0;
        proof {
            assert(self.children@.subrange(0, n as int) =~= self.children@);
        }
        while i < n
            invariant
                n == self.children@.len(),
                0 <= i <= n,
                find_named(self.children@, key@) == find_named(
                    self.children@.subrange(i as int, n as int),
                    key@,
                ),
            decreases n - i,
        {
            proof {
                lemma_tail_drop_first(self.children@, i as int);
            }
            if let XmlNode::Element(c) = &self.children[i] {
                if let Some(v) = c.attribute("name") {
                    if text_eq(v.as_str(), key) {
                        return Some(c);
                    }
                }
            }
            i = i + 1;
        }
        None
    }

    /// The first element child whose tag is `tag`.
    pub fn child_tagged(&self, tag: &str) -> (r: Option<&Element>)
        ensures
            match r {
                Some(c) => find_tagged(self.children@, tag@) == Some(*c),
                None => find_tagged(self.children@, tag@) is None,
            },
    {
        let n = self.children.len();
        let mut i: usize = 0;
        proof {
            assert(self.children@.subrange(0, n as int) =~= self.children@);
        }
        while i < n
            invariant
                n == self.children@.len(),
                0 <= i <= n,
                find_tagged(self.children@, tag@) == find_tagged(
                    self.children@.subrange(i as int, n as int),
                    tag@,
                ),
            decreases n - i,
        {
            proof {
                lemma_tail_drop_first(self.children@, i as int);
            }
            if let XmlNode::Element(c) = &self.children[i] {
                if text_eq(c.name.as_str(), tag) {
                    return Some(c);
                }
            }
            i = i + 1;
        }
        None
    }

    /// The first element child tagged `tag` whose attribute `key` is `value`.
    pub fn child_tagged_with(&self, tag: &str, key: &str, value: &str) -> (r: Option<&Element>)
        ensures
            match r {
                Some(c) => find_tagged_with(self.children@, tag@, key@, value@) == Some(*c),
                None => find_tagged_with(self.children@, tag@, key@, value@) is None,
            },
    {
        let n = self.children.len();
        let mut i: usize = 0;
        proof {
            assert(self.children@.subrange(0, n as int) =~= self.children@);
        }
        while i < n
            invariant
                n == self.children@.len(),
                0 <= i <= n,
                find_tagged_with(self.children@, tag@, key@, value@) == find_tagged_with(
                    self.children@.subrange(i as int, n as int),
                    tag@,
                    key@,
                    value@,
                ),
            decreases n - i,
        {
            proof {
                lemma_tail_drop_first(self.children@, i as int);
            }
            if let XmlNode::Element(c) = &self.children[i] {
                if text_eq(c.name.as_str(), tag) {
                    if let Some(v) = c.attribute(key) {
                        if text_eq(v.as_str(), value) {
                            return Some(c);
                        }
                    }
                }
            }
            i = i + 1;
        }
        None
    }
}

} // verus!
