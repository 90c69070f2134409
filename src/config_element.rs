use crate::collection_prop::{decode_collection, first_wins, PropertyMap};
use crate::element_prop::{ElementHeader, HeaderView};
use crate::error::{DecodeError, DecodeErrorView};
use crate::number::{bool_text_value, read_bool};
use crate::xml::{find_tagged, text_eq, Element};
use crate::{CollectionProp, Deserializer, HashMappable};
use vstd::prelude::*;

verus! {

/// The `testname` and `enabled` attributes of a configuration element tagged `tag`.
pub open spec fn identity(e: Element, tag: Seq<char>) -> Result<(Seq<char>, bool), DecodeErrorView> {
    if e.name@ != tag {
        Err(DecodeErrorView::UnexpectedTag(tag))
    } else {
        match e.attr("testname"@) {
            None => Err(DecodeErrorView::MissingAttribute("testname"@)),
            Some(name) => match e.attr("enabled"@) {
                None => Err(DecodeErrorView::MissingAttribute("enabled"@)),
                Some(enabled) => match bool_text_value(enabled) {
                    Some(b) => Ok((name, b)),
                    None => Err(DecodeErrorView::TypeMismatch("enabled"@)),
                },
            },
        }
    }
}

/// Reads the `testname` and `enabled` attributes of a configuration element tagged `tag`.
pub fn parse_identity(e: &Element, tag: &str) -> (r: Result<(String, bool), DecodeError>)
    ensures
        match r {
            Ok((name, enabled)) => identity(*e, tag@) == Ok::<(Seq<char>, bool), DecodeErrorView>(
                (name@, enabled),
            ),
            Err(x) => identity(*e, tag@) == Err::<(Seq<char>, bool), DecodeErrorView>(x@),
        },
{
    if !text_eq(e.name.as_str(), tag) {
        return Err(DecodeError::UnexpectedTag(tag.to_owned()));
    }
    let name = match e.attribute("testname") {
        None => return Err(DecodeError::MissingAttribute("testname".to_owned())),
        Some(n) => n,
    };
    let enabled = match e.attribute("enabled") {
        None => return Err(DecodeError::MissingAttribute("enabled".to_owned())),
        Some(v) => v,
    };
    match read_bool(enabled.as_str()) {
        Some(b) => Ok((name, b)),
        None => Err(DecodeError::TypeMismatch("enabled".to_owned())),
    }
}

/// The name/value pairs of decoded headers.
pub open spec fn header_pairs(hs: Seq<HeaderView>) -> Seq<(Seq<char>, Seq<char>)> {
    hs.map_values(|h: HeaderView| (h.name, h.value))
}

/// The view of a header manager.
pub struct HeaderManagerView {
    pub test_name: Seq<char>,
    pub enabled: bool,
    pub headers: Map<Seq<char>, Seq<char>>,
}

/// Decodes `<HeaderManager>` from its attributes and its `HeaderManager.headers` collection.
pub open spec fn decode_header_manager(e: Element) -> Result<HeaderManagerView, DecodeErrorView> {
    match identity(e, "HeaderManager"@) {
        Err(x) => Err(x),
        Ok((test_name, enabled)) => match find_tagged(e.children@, "collectionProp"@) {
            None => Err(DecodeErrorView::MissingChild("collectionProp"@)),
            Some(c) => match decode_collection::<ElementHeader>(c, "HeaderManager.headers"@) {
                Err(x) => Err(x),
                Ok(hs) => Ok(
                    HeaderManagerView { test_name, enabled, headers: first_wins(header_pairs(hs)) },
                ),
            },
        },
    }
}

/// HTTP Header Manager
/// `<HeaderManager>`
#[derive(Debug)]
pub struct HeaderManager {
    pub test_name: String,
    pub enabled: bool,
    pub headers: PropertyMap,
}

impl View for HeaderManager {
    type V = HeaderManagerView;

    open spec fn view(&self) -> HeaderManagerView {
        HeaderManagerView { test_name: self.test_name@, enabled: self.enabled, headers: self.headers@ }
    }
}

impl HeaderManager {
    /// Decodes a `<HeaderManager>` element.
    pub fn parse(e: &Element) -> (r: Result<HeaderManager, DecodeError>)
        ensures
            crate::error::view_result(r) == decode_header_manager(*e),
    {
        let (test_name, enabled) = match parse_identity(e, "HeaderManager") {
            Ok(p) => p,
            Err(x) => return Err(x),
        };
        let c = match e.child_tagged("collectionProp") {
            None => return Err(DecodeError::MissingChild("collectionProp".to_owned())),
            Some(c) => c,
        };
        let collection = match CollectionProp::<ElementHeader>::parse(c) {
            Ok(coll) => coll,
            Err(x) => return Err(x),
        };
        let headers = collection.to_hash_map();
        proof {
            assert(collection.pairs() =~= header_pairs(collection@));
        }
        Ok(HeaderManager { test_name, enabled, headers })
    }
}

} // verus!
