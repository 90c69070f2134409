use crate::collection_prop::{decode_collection, first_wins, PropertyMap};
use crate::config_element::{identity, parse_identity};
use crate::element_prop::{ArgumentView, ElementArgument};
use crate::error::{DecodeError, DecodeErrorView};
use crate::xml::{find_tagged, find_tagged_with, Element};
use crate::{CollectionProp, Deserializer, HashMappable};
use vstd::prelude::*;

verus! {

/// The name/value pairs of decoded arguments; their metadata is not kept.
pub open spec fn argument_pairs(args: Seq<ArgumentView>) -> Seq<(Seq<char>, Seq<char>)> {
    args.map_values(|a: ArgumentView| (a.name, a.value))
}

/// The view of a test plan.
pub struct TestPlanView {
    pub test_name: Seq<char>,
    pub enabled: bool,
    pub variables: Map<Seq<char>, Seq<char>>,
}

/// Decodes `<TestPlan>`: its attributes, and the `Arguments.arguments` collection inside
/// its first `elementProp` of shape `Arguments`, folded into a mapping.
pub open spec fn decode_test_plan(e: Element) -> Result<TestPlanView, DecodeErrorView> {
    match identity(e, "TestPlan"@) {
        Err(x) => Err(x),
        Ok((test_name, enabled)) => match find_tagged_with(
            e.children@,
            "elementProp"@,
            "elementType"@,
            "Arguments"@,
        ) {
            None => Err(DecodeErrorView::MissingChild("Arguments"@)),
            Some(a) => match find_tagged(a.children@, "collectionProp"@) {
                None => Err(DecodeErrorView::MissingChild("collectionProp"@)),
                Some(c) => match decode_collection::<ElementArgument>(c, "Arguments.arguments"@) {
                    Err(x) => Err(x),
                    Ok(args) => Ok(
                        TestPlanView {
                            test_name,
                            enabled,
                            variables: first_wins(argument_pairs(args)),
                        },
                    ),
                },
            },
        },
    }
}

/// TestPlan
#[derive(Debug)]
pub struct TestPlan {
    pub test_name: String,
    pub enabled: bool,
    pub variables: PropertyMap,
}

impl View for TestPlan {
    type V = TestPlanView;

    open spec fn view(&self) -> TestPlanView {
        TestPlanView { test_name: self.test_name@, enabled: self.enabled, variables: self.variables@ }
    }
}

impl TestPlan {
    /// Decodes a `<TestPlan>` element.
    pub fn parse(e: &Element) -> (r: Result<TestPlan, DecodeError>)
        ensures
            crate::error::view_result(r) == decode_test_plan(*e),
    {
        let (test_name, enabled) = match parse_identity(e, "TestPlan") {
            Ok(p) => p,
            Err(x) => return Err(x),
        };
        let a = match e.child_tagged_with("elementProp", "elementType", "Arguments") {
            None => return Err(DecodeError::MissingChild("Arguments".to_owned())),
            Some(a) => a,
        };
        let c = match a.child_tagged("collectionProp") {
            None => return Err(DecodeError::MissingChild("collectionProp".to_owned())),
            Some(c) => c,
        };
        let collection = match CollectionProp::<ElementArgument>::parse(c) {
            Ok(coll) => coll,
            Err(x) => return Err(x),
        };
        let variables = collection.to_hash_map();
        proof {
            assert(collection.pairs() =~= argument_pairs(collection@));
        }
        Ok(TestPlan { test_name, enabled, variables })
    }
}

} // verus!
