use crate::basic_prop::{PropView, StringProp};
use crate::error::{view_result, DecodeError, DecodeErrorView};
use crate::number::{i32_text_value, read_i32};
use crate::xml::{find_named, opt_view, text_eq, Element};
use crate::{decode_all, parse_elements, views, Deserializer, Pairable};
use vstd::prelude::*;

verus! {

/// The shapes that an `elementProp` can declare in its `elementType` attribute.
#[derive(Debug, Clone, Copy, PartialEq, Eq, Structural)]
pub enum ElementType {
    Header,
    Argument,
    Arguments,
    LoopController,
}

/// The shape that a discriminator text names, if any.
pub open spec fn element_type_of(s: Seq<char>) -> Option<ElementType> {
    if s == "Header"@ {
        Some(ElementType::Header)
    } else if s == "Argument"@ {
        Some(ElementType::Argument)
    } else if s == "Arguments"@ {
        Some(ElementType::Arguments)
    } else if s == "LoopController"@ {
        Some(ElementType::LoopController)
    } else {
        None
    }
}

impl ElementType {
    /// Reads a discriminator text.
    pub fn from_text(s: &str) -> (r: Option<ElementType>)
        ensures
            r == element_type_of(s@),
    {
        if text_eq(s, "Header") {
            Some(ElementType::Header)
        } else if text_eq(s, "Argument") {
            Some(ElementType::Argument)
        } else if text_eq(s, "Arguments") {
            Some(ElementType::Arguments)
        } else if text_eq(s, "LoopController") {
            Some(ElementType::LoopController)
        } else {
            None
        }
    }
}

/// The text of the discriminator of an `elementProp` element.
pub open spec fn discriminator_text(e: Element) -> Result<Seq<char>, DecodeErrorView> {
    if e.name@ != "elementProp"@ {
        Err(DecodeErrorView::UnexpectedTag("elementProp"@))
    } else {
        match e.attr("elementType"@) {
            None => Err(DecodeErrorView::MissingAttribute("elementType"@)),
            Some(k) => Ok(k),
        }
    }
}

/// The discriminator of an `elementProp` element.
pub open spec fn discriminator(e: Element) -> Result<ElementType, DecodeErrorView> {
    match discriminator_text(e) {
        Err(x) => Err(x),
        Ok(k) => match element_type_of(k) {
            Some(t) => Ok(t),
            None => Err(DecodeErrorView::UnknownVariant(k)),
        },
    }
}

fn parse_discriminator_text(e: &Element) -> (r: Result<String, DecodeError>)
    ensures
        view_result(r) == discriminator_text(*e),
{
    if !text_eq(e.name.as_str(), "elementProp") {
        return Err(DecodeError::UnexpectedTag("elementProp".to_owned()));
    }
    match e.attribute("elementType") {
        None => Err(DecodeError::MissingAttribute("elementType".to_owned())),
        Some(k) => Ok(k),
    }
}

/// Reads the discriminator of an `elementProp` element.
pub fn parse_discriminator(e: &Element) -> (r: Result<ElementType, DecodeError>)
    ensures
        match r {
            Ok(t) => discriminator(*e) == Ok::<ElementType, DecodeErrorView>(t),
            Err(x) => discriminator(*e) == Err::<ElementType, DecodeErrorView>(x@),
        },
{
    let k = match parse_discriminator_text(e) {
        Err(x) => return Err(x),
        Ok(k) => k,
    };
    match ElementType::from_text(k.as_str()) {
        Some(t) => Ok(t),
        None => Err(DecodeError::UnknownVariant(k)),
    }
}

/// Checks that `e` is an `elementProp` of the shape `kind`; gives its discriminator.
pub open spec fn check_shape(e: Element, kind: ElementType) -> Result<Seq<char>, DecodeErrorView> {
    match discriminator_text(e) {
        Err(x) => Err(x),
        Ok(k) => if element_type_of(k) == Some(kind) {
            Ok(k)
        } else {
            Err(DecodeErrorView::UnknownVariant(k))
        },
    }
}

fn parse_shape(e: &Element, kind: ElementType) -> (r: Result<String, DecodeError>)
    ensures
        view_result(r) == check_shape(*e, kind),
{
    let k = match parse_discriminator_text(e) {
        Err(x) => return Err(x),
        Ok(k) => k,
    };
    match ElementType::from_text(k.as_str()) {
        Some(t) => if t == kind {
            Ok(k)
        } else {
            Err(DecodeError::UnknownVariant(k))
        },
        None => Err(DecodeError::UnknownVariant(k)),
    }
}

/// The value of the first string property named `key`.
pub open spec fn prop_value(props: Seq<PropView<Seq<char>>>, key: Seq<char>) -> Option<Seq<char>>
    decreases props.len(),
{
    if props.len() == 0 {
        None
    } else if props[0].name == key {
        Some(props[0].value)
    } else {
        prop_value(props.drop_first(), key)
    }
}

fn find_prop_value(props: &Vec<StringProp>, key: &str) -> (r: Option<String>)
    ensures
        opt_view(r) == prop_value(views(props@), key@),
{
    let n = props.len();
    let mut i: usize = 0;
    let ghost all = views(props@);
    proof {
        assert(all.subrange(0, n as int) =~= all);
    }
    while i < n
        invariant
            n == props@.len(),
            all == views(props@),
            0 <= i <= n,
            prop_value(all, key@) == prop_value(all.subrange(i as int, n as int), key@),
        decreases n - i,
    {
        proof {
            assert(all.subrange(i as int, n as int).drop_first() =~= all.subrange(
                i as int + 1,
                n as int,
            ));
        }
        if text_eq(props[i].name.as_str(), key) {
            return Some(props[i].value.clone());
        }
        i = i + 1;
    }
    None
}

/// The string properties of a composite with exactly `arity` element children.
pub open spec fn composite_props(e: Element, kind: ElementType, arity: nat) -> Result<
    Seq<PropView<Seq<char>>>,
    DecodeErrorView,
> {
    match check_shape(e, kind) {
        Err(x) => Err(x),
        Ok(k) => if e.elements().len() != arity {
            Err(DecodeErrorView::ArityMismatch(k))
        } else {
            decode_all::<StringProp>(e.elements())
        },
    }
}

fn parse_composite_props(e: &Element, kind: ElementType, arity: usize) -> (r: Result<
    Vec<StringProp>,
    DecodeError,
>)
    ensures
        crate::views_result(r) == composite_props(*e, kind, arity as nat),
{
    let k = match parse_shape(e, kind) {
        Err(x) => return Err(x),
        Ok(k) => k,
    };
    if e.element_count() != arity {
        return Err(DecodeError::ArityMismatch(k));
    }
    parse_elements::<StringProp>(e)
}

/// The view of a header: its name and its value.
pub struct HeaderView {
    pub name: Seq<char>,
    pub value: Seq<char>,
}

/// Decodes `<elementProp elementType="Header">` holding `Header.name` and `Header.value`.
pub open spec fn decode_header(e: Element) -> Result<HeaderView, DecodeErrorView> {
    match composite_props(e, ElementType::Header, 2) {
        Err(x) => Err(x),
        Ok(props) => match (prop_value(props, "Header.name"@), prop_value(props, "Header.value"@)) {
            (Some(name), Some(value)) => Ok(HeaderView { name, value }),
            (None, _) => Err(DecodeErrorView::MissingChild("Header.name"@)),
            (_, None) => Err(DecodeErrorView::MissingChild("Header.value"@)),
        },
    }
}

/// `<elementProp elementType="Header">`
#[derive(Debug, PartialEq, Eq)]
pub struct ElementHeader {
    pub name: String,
    pub value: String,
}

impl View for ElementHeader {
    type V = HeaderView;

    open spec fn view(&self) -> HeaderView {
        HeaderView { name: self.name@, value: self.value@ }
    }
}

impl Pairable for ElementHeader {
    open spec fn pair(&self) -> (Seq<char>, Seq<char>) {
        (self.name@, self.value@)
    }

    fn to_pair(&self) -> (r: (&str, &str)) {
        (self.name.as_str(), self.value.as_str())
    }
}

impl Deserializer for ElementHeader {
    open spec fn decoded(e: Element) -> Result<HeaderView, DecodeErrorView> {
        decode_header(e)
    }

    fn parse(e: &Element) -> (r: Result<ElementHeader, DecodeError>) {
        let props = match parse_composite_props(e, ElementType::Header, 2) {
            Ok(p) => p,
            Err(x) => return Err(x),
        };
        let name = find_prop_value(&props, "Header.name");
        let value = find_prop_value(&props, "Header.value");
        match (name, value) {
            (Some(name), Some(value)) => Ok(ElementHeader { name, value }),
            (None, _) => Err(DecodeError::MissingChild("Header.name".to_owned())),
            (_, None) => Err(DecodeError::MissingChild("Header.value".to_owned())),
        }
    }
}

/// The view of an argument: its name, its value and its metadata.
pub struct ArgumentView {
    pub name: Seq<char>,
    pub value: Seq<char>,
    pub metadata: Seq<char>,
}

/// Decodes `<elementProp elementType="Argument">` holding `Argument.name`,
/// `Argument.value` and `Argument.metadata`.
pub open spec fn decode_argument(e: Element) -> Result<ArgumentView, DecodeErrorView> {
    match composite_props(e, ElementType::Argument, 3) {
        Err(x) => Err(x),
        Ok(props) => match (
            prop_value(props, "Argument.name"@),
            prop_value(props, "Argument.value"@),
            prop_value(props, "Argument.metadata"@),
        ) {
            (Some(name), Some(value), Some(metadata)) => Ok(ArgumentView { name, value, metadata }),
            (None, _, _) => Err(DecodeErrorView::MissingChild("Argument.name"@)),
            (_, None, _) => Err(DecodeErrorView::MissingChild("Argument.value"@)),
            (_, _, None) => Err(DecodeErrorView::MissingChild("Argument.metadata"@)),
        },
    }
}

/// `<elementProp elementType="Argument">`
#[derive(Debug, PartialEq, Eq)]
pub struct ElementArgument {
    pub name: String,
    pub value: String,
    pub metadata: String,
}

impl View for ElementArgument {
    type V = ArgumentView;

    open spec fn view(&self) -> ArgumentView {
        ArgumentView { name: self.name@, value: self.value@, metadata: self.metadata@ }
    }
}

impl Pairable for ElementArgument {
    open spec fn pair(&self) -> (Seq<char>, Seq<char>) {
        (self.name@, self.value@)
    }

    fn to_pair(&self) -> (r: (&str, &str)) {
        (self.name.as_str(), self.value.as_str())
    }
}

impl Deserializer for ElementArgument {
    open spec fn decoded(e: Element) -> Result<ArgumentView, DecodeErrorView> {
        decode_argument(e)
    }

    fn parse(e: &Element) -> (r: Result<ElementArgument, DecodeError>) {
        let props = match parse_composite_props(e, ElementType::Argument, 3) {
            Ok(p) => p,
            Err(x) => return Err(x),
        };
        let name = find_prop_value(&props, "Argument.name");
        let value = find_prop_value(&props, "Argument.value");
        let metadata = find_prop_value(&props, "Argument.metadata");
        match (name, value, metadata) {
            (Some(name), Some(value), Some(metadata)) => Ok(
                ElementArgument { name, value, metadata },
            ),
            (None, _, _) => Err(DecodeError::MissingChild("Argument.name".to_owned())),
            (_, None, _) => Err(DecodeError::MissingChild("Argument.value".to_owned())),
            (_, _, None) => Err(DecodeError::MissingChild("Argument.metadata".to_owned())),
        }
    }
}

/// Decodes `<elementProp elementType="LoopController">` from its `LoopController.loops`
/// property; the other properties of a loop controller are not kept.
pub open spec fn decode_loop_controller(e: Element) -> Result<ElementLoopController, DecodeErrorView> {
    match check_shape(e, ElementType::LoopController) {
        Err(x) => Err(x),
        Ok(_) => match find_named(e.children@, "LoopController.loops"@) {
            None => Err(DecodeErrorView::MissingChild("LoopController.loops"@)),
            Some(c) => match c.text() {
                None => Err(DecodeErrorView::TypeMismatch("LoopController.loops"@)),
                Some(t) => match i32_text_value(t) {
                    None => Err(DecodeErrorView::TypeMismatch("LoopController.loops"@)),
                    Some(loops) => Ok(ElementLoopController { loops }),
                },
            },
        },
    }
}

/// `<elementProp elementType="LoopController">`
#[derive(Debug, Clone, Copy, PartialEq, Eq, Structural)]
pub struct ElementLoopController {
    pub loops: i32,
}

impl View for ElementLoopController {
    type V = ElementLoopController;

    open spec fn view(&self) -> ElementLoopController {
        *self
    }
}

impl Deserializer for ElementLoopController {
    open spec fn decoded(e: Element) -> Result<ElementLoopController, DecodeErrorView> {
        decode_loop_controller(e)
    }

    fn parse(e: &Element) -> (r: Result<ElementLoopController, DecodeError>) {
        match parse_shape(e, ElementType::LoopController) {
            Err(x) => return Err(x),
            Ok(_) => {},
        }
        let c = match e.child_named("LoopController.loops") {
            None => return Err(DecodeError::MissingChild("LoopController.loops".to_owned())),
            Some(c) => c,
        };
        let t = match c.text_content() {
            None => return Err(DecodeError::TypeMismatch("LoopController.loops".to_owned())),
            Some(t) => t,
        };
        match read_i32(t.as_str()) {
            None => Err(DecodeError::TypeMismatch("LoopController.loops".to_owned())),
            Some(loops) => Ok(ElementLoopController { loops }),
        }
    }
}

/// The view of an `elementProp` header: its name and its declared shape.
pub struct ElementPropView {
    pub name: Seq<char>,
    pub element_type: ElementType,
}

/// Decodes the `name` and `elementType` attributes of an `elementProp`.
pub open spec fn decode_element_prop(e: Element) -> Result<ElementPropView, DecodeErrorView> {
    match discriminator(e) {
        Err(x) => Err(x),
        Ok(element_type) => match e.attr("name"@) {
            None => Err(DecodeErrorView::MissingAttribute("name"@)),
            Some(name) => Ok(ElementPropView { name, element_type }),
        },
    }
}

/// `<elementProp>`: the name and declared shape of a composite property.
#[derive(Debug, PartialEq, Eq)]
pub struct ElementProp {
    pub name: String,
    pub element_type: ElementType,
}

impl View for ElementProp {
    type V = ElementPropView;

    open spec fn view(&self) -> ElementPropView {
        ElementPropView { name: self.name@, element_type: self.element_type }
    }
}

impl Deserializer for ElementProp {
    open spec fn decoded(e: Element) -> Result<ElementPropView, DecodeErrorView> {
        decode_element_prop(e)
    }

    fn parse(e: &Element) -> (r: Result<ElementProp, DecodeError>) {
        let element_type = match parse_discriminator(e) {
            Err(x) => return Err(x),
            Ok(t) => t,
        };
        match e.attribute("name") {
            None => Err(DecodeError::MissingAttribute("name".to_owned())),
            Some(name) => Ok(ElementProp { name, element_type }),
        }
    }
}

/// The view of a composite property of any shape.
pub enum CompositeView {
    Header(HeaderView),
    Argument(ArgumentView),
    LoopController(ElementLoopController),
}

/// Decodes an `elementProp` by the shape that its discriminator selects.
pub open spec fn decode_composite(e: Element) -> Result<CompositeView, DecodeErrorView> {
    match discriminator_text(e) {
        Err(x) => Err(x),
        Ok(k) => match element_type_of(k) {
            Some(ElementType::Header) => match decode_header(e) {
                Ok(h) => Ok(CompositeView::Header(h)),
                Err(x) => Err(x),
            },
            Some(ElementType::Argument) => match decode_argument(e) {
                Ok(a) => Ok(CompositeView::Argument(a)),
                Err(x) => Err(x),
            },
            Some(ElementType::LoopController) => match decode_loop_controller(e) {
                Ok(l) => Ok(CompositeView::LoopController(l)),
                Err(x) => Err(x),
            },
            _ => Err(DecodeErrorView::UnknownVariant(k)),
        },
    }
}

/// A composite property, of whichever shape its discriminator declares.
#[derive(Debug, PartialEq, Eq)]
pub enum CompositeProp {
    Header(ElementHeader),
    Argument(ElementArgument),
    LoopController(ElementLoopController),
}

impl View for CompositeProp {
    type V = CompositeView;

    open spec fn view(&self) -> CompositeView {
        match self {
            CompositeProp::Header(h) => CompositeView::Header(h@),
            CompositeProp::Argument(a) => CompositeView::Argument(a@),
            CompositeProp::LoopController(l) => CompositeView::LoopController(*l),
        }
    }
}

impl Deserializer for CompositeProp {
    open spec fn decoded(e: Element) -> Result<CompositeView, DecodeErrorView> {
        decode_composite(e)
    }

    fn parse(e: &Element) -> (r: Result<CompositeProp, DecodeError>) {
        let k = match parse_discriminator_text(e) {
            Err(x) => return Err(x),
            Ok(k) => k,
        };
        match ElementType::from_text(k.as_str()) {
            Some(ElementType::Header) => match ElementHeader::parse(e) {
                Ok(h) => Ok(CompositeProp::Header(h)),
                Err(x) => Err(x),
            },
            Some(ElementType::Argument) => match ElementArgument::parse(e) {
                Ok(a) => Ok(CompositeProp::Argument(a)),
                Err(x) => Err(x),
            },
            Some(ElementType::LoopController) => match ElementLoopController::parse(e) {
                Ok(l) => Ok(CompositeProp::LoopController(l)),
                Err(x) => Err(x),
            },
            _ => Err(DecodeError::UnknownVariant(k)),
        }
    }
}

/// Header and Argument composites demand two and three element children: another count
/// gives `ArityMismatch`. A discriminator other than `Header`, `Argument` and
/// `LoopController`, such as `k`, gives `UnknownVariant`, whichever composite decoder
/// reads it.
pub proof fn lemma_composite_arity_and_variant(e: Element, k: Seq<char>)
    ensures
        e.name@ == "elementProp"@ && e.attr("elementType"@) == Some("Header"@) && e.elements().len()
            != 2 ==> decode_header(e) == Err::<HeaderView, DecodeErrorView>(
            DecodeErrorView::ArityMismatch("Header"@),
        ) && decode_composite(e) == Err::<CompositeView, DecodeErrorView>(
            DecodeErrorView::ArityMismatch("Header"@),
        ),
        e.name@ == "elementProp"@ && e.attr("elementType"@) == Some("Argument"@)
            && e.elements().len() != 3 ==> decode_argument(e) == Err::<ArgumentView, DecodeErrorView>(
            DecodeErrorView::ArityMismatch("Argument"@),
        ) && decode_composite(e) == Err::<CompositeView, DecodeErrorView>(
            DecodeErrorView::ArityMismatch("Argument"@),
        ),
        e.name@ == "elementProp"@ && e.attr("elementType"@) == Some(k) && k != "Header"@ && k
            != "Argument"@ && k != "LoopController"@ ==> decode_composite(e) == Err::<
            CompositeView,
            DecodeErrorView,
        >(DecodeErrorView::UnknownVariant(k)) && decode_header(e) == Err::<HeaderView, DecodeErrorView>(
            DecodeErrorView::UnknownVariant(k),
        ) && decode_argument(e) == Err::<ArgumentView, DecodeErrorView>(
            DecodeErrorView::UnknownVariant(k),
        ) && decode_loop_controller(e) == Err::<ElementLoopController, DecodeErrorView>(
            DecodeErrorView::UnknownVariant(k),
        ),
{
    reveal_strlit("Header");
    reveal_strlit("Argument");
    assert("Argument"@ != "Header"@) by {
        assert("Argument"@.len() != "Header"@.len());
    }
}

} // verus!
