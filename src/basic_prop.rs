use crate::error::{view_result, DecodeError, DecodeErrorView};
use crate::number::{
    bool_text, bool_text_value, decimal_text, i32_text_value, i64_text_value, integer_text_value,
    lemma_bool_text_round_trip, lemma_decimal_text_round_trip, read_bool, read_i32, read_i64,
};
use crate::xml::{text_eq, Element};
use crate::Deserializer;
use vstd::prelude::*;

verus! {

/// The view of a typed property: its name and its value.
pub struct PropView<V> {
    pub name: Seq<char>,
    pub value: V,
}

/// The name of a property element tagged `tag`, checked before its value is read.
pub open spec fn prop_name(e: Element, tag: Seq<char>) -> Result<Seq<char>, DecodeErrorView> {
    if e.name@ != tag {
        Err(DecodeErrorView::UnexpectedTag(tag))
    } else {
        match e.attr("name"@) {
            Some(n) => Ok(n),
            None => Err(DecodeErrorView::MissingAttribute("name"@)),
        }
    }
}

/// Decodes `<stringProp name="..">text</stringProp>`; no text is the empty string.
pub open spec fn decode_string_prop(e: Element) -> Result<PropView<Seq<char>>, DecodeErrorView> {
    match prop_name(e, "stringProp"@) {
        Err(x) => Err(x),
        Ok(name) => Ok(
            PropView {
                name,
                value: match e.text() {
                    Some(t) => t,
                    None => Seq::empty(),
                },
            },
        ),
    }
}

/// Decodes a property tagged `tag` whose text `read` turns into a value.
pub open spec fn decode_read_prop<V>(
    e: Element,
    tag: Seq<char>,
    read: spec_fn(Seq<char>) -> Option<V>,
) -> Result<PropView<V>, DecodeErrorView> {
    match prop_name(e, tag) {
        Err(x) => Err(x),
        Ok(name) => match e.text() {
            Some(t) => match read(t) {
                Some(value) => Ok(PropView { name, value }),
                None => Err(DecodeErrorView::TypeMismatch(name)),
            },
            None => Err(DecodeErrorView::TypeMismatch(name)),
        },
    }
}

pub open spec fn decode_bool_prop(e: Element) -> Result<PropView<bool>, DecodeErrorView> {
    decode_read_prop(e, "boolProp"@, |t: Seq<char>| bool_text_value(t))
}

pub open spec fn decode_int_prop(e: Element) -> Result<PropView<i32>, DecodeErrorView> {
    decode_read_prop(e, "intProp"@, |t: Seq<char>| i32_text_value(t))
}

pub open spec fn decode_long_prop(e: Element) -> Result<PropView<i64>, DecodeErrorView> {
    decode_read_prop(e, "longProp"@, |t: Seq<char>| i64_text_value(t))
}

fn parse_prop_name(e: &Element, tag: &str) -> (r: Result<String, DecodeError>)
    ensures
        view_result(r) == prop_name(*e, tag@),
{
    if !text_eq(e.name.as_str(), tag) {
        return Err(DecodeError::UnexpectedTag(tag.to_owned()));
    }
    match e.attribute("name") {
        Some(n) => Ok(n),
        None => Err(DecodeError::MissingAttribute("name".to_owned())),
    }
}

/// `<stringProp>`
#[derive(Debug, PartialEq, Eq)]
pub struct StringProp {
    pub name: String,
    pub value: String,
}

impl View for StringProp {
    type V = PropView<Seq<char>>;

    open spec fn view(&self) -> PropView<Seq<char>> {
        PropView { name: self.name@, value: self.value@ }
    }
}

impl Deserializer for StringProp {
    open spec fn decoded(e: Element) -> Result<PropView<Seq<char>>, DecodeErrorView> {
        decode_string_prop(e)
    }

    fn parse(e: &Element) -> (r: Result<StringProp, DecodeError>) {
        let name = match parse_prop_name(e, "stringProp") {
            Ok(n) => n,
            Err(x) => return Err(x),
        };
        let value = match e.text_content() {
            Some(t) => t,
            None => String::new(),
        };
        Ok(StringProp { name, value })
    }
}

/// `<boolProp>`
#[derive(Debug, PartialEq, Eq)]
pub struct BoolProp {
    pub name: String,
    pub value: bool,
}

impl View for BoolProp {
    type V = PropView<bool>;

    open spec fn view(&self) -> PropView<bool> {
        PropView { name: self.name@, value: self.value }
    }
}

impl Deserializer for BoolProp {
    open spec fn decoded(e: Element) -> Result<PropView<bool>, DecodeErrorView> {
        decode_bool_prop(e)
    }

    fn parse(e: &Element) -> (r: Result<BoolProp, DecodeError>) {
        let name = match parse_prop_name(e, "boolProp") {
            Ok(n) => n,
            Err(x) => return Err(x),
        };
        let text = match e.text_content() {
            Some(t) => t,
            None => return Err(DecodeError::TypeMismatch(name)),
        };
        match read_bool(text.as_str()) {
            Some(value) => Ok(BoolProp { name, value }),
            None => Err(DecodeError::TypeMismatch(name)),
        }
    }
}

/// `<intProp>`
#[derive(Debug, PartialEq, Eq)]
pub struct IntProp {
    pub name: String,
    pub value: i32,
}

impl View for IntProp {
    type V = PropView<i32>;

    open spec fn view(&self) -> PropView<i32> {
        PropView { name: self.name@, value: self.value }
    }
}

impl Deserializer for IntProp {
    open spec fn decoded(e: Element) -> Result<PropView<i32>, DecodeErrorView> {
        decode_int_prop(e)
    }

    fn parse(e: &Element) -> (r: Result<IntProp, DecodeError>) {
        let name = match parse_prop_name(e, "intProp") {
            Ok(n) => n,
            Err(x) => return Err(x),
        };
        let text = match e.text_content() {
            Some(t) => t,
            None => return Err(DecodeError::TypeMismatch(name)),
        };
        match read_i32(text.as_str()) {
            Some(value) => Ok(IntProp { name, value }),
            None => Err(DecodeError::TypeMismatch(name)),
        }
    }
}

/// `<longProp>`
#[derive(Debug, PartialEq, Eq)]
pub struct LongProp {
    pub name: String,
    pub value: i64,
}

impl View for LongProp {
    type V = PropView<i64>;

    open spec fn view(&self) -> PropView<i64> {
        PropView { name: self.name@, value: self.value }
    }
}

impl Deserializer for LongProp {
    open spec fn decoded(e: Element) -> Result<PropView<i64>, DecodeErrorView> {
        decode_long_prop(e)
    }

    fn parse(e: &Element) -> (r: Result<LongProp, DecodeError>) {
        let name = match parse_prop_name(e, "longProp") {
            Ok(n) => n,
            Err(x) => return Err(x),
        };
        let text = match e.text_content() {
            Some(t) => t,
            None => return Err(DecodeError::TypeMismatch(name)),
        };
        match read_i64(text.as_str()) {
            Some(value) => Ok(LongProp { name, value }),
            None => Err(DecodeError::TypeMismatch(name)),
        }
    }
}

/// Decoding a property and writing its value back as text gives the source text again:
/// a string property's value is its text (empty when it has none), a boolean property's
/// text is `true` or `false` as its value says, and an integer property's text denotes
/// the same integer as the canonical decimal text of its value.
pub proof fn lemma_property_text_round_trip(e: Element)
    ensures
        decode_string_prop(e) matches Ok(p) ==> p.value == match e.text() {
            Some(t) => t,
            None => Seq::<char>::empty(),
        },
        decode_bool_prop(e) matches Ok(p) ==> e.text() == Some(bool_text(p.value))
            && bool_text_value(bool_text(p.value)) == Some(p.value),
        decode_int_prop(e) matches Ok(p) ==> e.text() matches Some(t) && integer_text_value(t)
            == Some(p.value as int) && integer_text_value(decimal_text(p.value as int)) == Some(
            p.value as int,
        ),
        decode_long_prop(e) matches Ok(p) ==> e.text() matches Some(t) && integer_text_value(t)
            == Some(p.value as int) && integer_text_value(decimal_text(p.value as int)) == Some(
            p.value as int,
        ),
{
    if let Ok(p) = decode_bool_prop(e) {
        lemma_bool_text_round_trip(p.value);
    }
    if let Ok(p) = decode_int_prop(e) {
        lemma_decimal_text_round_trip(p.value as int);
    }
    if let Ok(p) = decode_long_prop(e) {
        lemma_decimal_text_round_trip(p.value as int);
    }
}

} // verus!
