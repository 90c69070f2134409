use crate::basic_prop::{decode_bool_prop, decode_string_prop, BoolProp, StringProp};
use crate::config_element::{identity, parse_identity};
use crate::element_prop::{decode_loop_controller, ElementLoopController};
use crate::error::{DecodeError, DecodeErrorView};
use crate::number::{i32_text_value, read_i32};
use crate::xml::{find_named, Element};
use crate::Deserializer;
use vstd::prelude::*;

verus! {

/// The value of the string property named `key` among the children of `e`.
pub open spec fn named_string(e: Element, key: Seq<char>) -> Result<Seq<char>, DecodeErrorView> {
    match find_named(e.children@, key) {
        None => Err(DecodeErrorView::MissingChild(key)),
        Some(c) => match decode_string_prop(c) {
            Err(x) => Err(x),
            Ok(p) => Ok(p.value),
        },
    }
}

/// The string property named `key`, read as an `i32`.
pub open spec fn named_i32(e: Element, key: Seq<char>) -> Result<i32, DecodeErrorView> {
    match named_string(e, key) {
        Err(x) => Err(x),
        Ok(t) => match i32_text_value(t) {
            Some(v) => Ok(v),
            None => Err(DecodeErrorView::TypeMismatch(key)),
        },
    }
}

/// The string property named `key`, read as an `i32` where it holds one: an absent
/// property, or text that is no `i32`, gives `None`.
pub open spec fn optional_i32(e: Element, key: Seq<char>) -> Result<Option<i32>, DecodeErrorView> {
    match find_named(e.children@, key) {
        None => Ok(None),
        Some(c) => match decode_string_prop(c) {
            Err(x) => Err(x),
            Ok(p) => Ok(i32_text_value(p.value)),
        },
    }
}

/// The value of the boolean property named `key` among the children of `e`.
pub open spec fn named_bool(e: Element, key: Seq<char>) -> Result<bool, DecodeErrorView> {
    match find_named(e.children@, key) {
        None => Err(DecodeErrorView::MissingChild(key)),
        Some(c) => match decode_bool_prop(c) {
            Err(x) => Err(x),
            Ok(p) => Ok(p.value),
        },
    }
}

/// The loop count of the loop controller named `key` among the children of `e`.
pub open spec fn named_loops(e: Element, key: Seq<char>) -> Result<i32, DecodeErrorView> {
    match find_named(e.children@, key) {
        None => Err(DecodeErrorView::MissingChild(key)),
        Some(c) => match decode_loop_controller(c) {
            Err(x) => Err(x),
            Ok(l) => Ok(l.loops),
        },
    }
}

/// The view of a thread group.
pub struct ThreadGroupView {
    pub test_name: Seq<char>,
    pub enabled: bool,
    pub on_sample_error: Seq<char>,
    pub loops: i32,
    pub num_threads: i32,
    pub ramp_time: i32,
    pub scheduler: bool,
    pub duration: Option<i32>,
    pub delay: Option<i32>,
}

/// Decodes `<ThreadGroup>`; its properties are read in the order of the fields, and the
/// first failure is the result.
pub open spec fn decode_thread_group(e: Element) -> Result<ThreadGroupView, DecodeErrorView> {
    match identity(e, "ThreadGroup"@) {
        Err(x) => Err(x),
        Ok((test_name, enabled)) => match named_string(e, "ThreadGroup.on_sample_error"@) {
            Err(x) => Err(x),
            Ok(on_sample_error) => match named_loops(e, "ThreadGroup.main_controller"@) {
                Err(x) => Err(x),
                Ok(loops) => match named_i32(e, "ThreadGroup.num_threads"@) {
                    Err(x) => Err(x),
                    Ok(num_threads) => match named_i32(e, "ThreadGroup.ramp_time"@) {
                        Err(x) => Err(x),
                        Ok(ramp_time) => match named_bool(e, "ThreadGroup.scheduler"@) {
                            Err(x) => Err(x),
                            Ok(scheduler) => match optional_i32(e, "ThreadGroup.duration"@) {
                                Err(x) => Err(x),
                                Ok(duration) => match optional_i32(e, "ThreadGroup.delay"@) {
                                    Err(x) => Err(x),
                                    Ok(delay) => Ok(
                                        ThreadGroupView {
                                            test_name,
                                            enabled,
                                            on_sample_error,
                                            loops,
                                            num_threads,
                                            ramp_time,
                                            scheduler,
                                            duration,
                                            delay,
                                        },
                                    ),
                                },
                            },
                        },
                    },
                },
            },
        },
    }
}

fn parse_named_string(e: &Element, key: &str) -> (r: Result<String, DecodeError>)
    ensures
        crate::error::view_result(r) == named_string(*e, key@),
{
    match e.child_named(key) {
        None => Err(DecodeError::MissingChild(key.to_owned())),
        Some(c) => match StringProp::parse(c) {
            Err(x) => Err(x),
            Ok(p) => Ok(p.value),
        },
    }
}

fn parse_named_i32(e: &Element, key: &str) -> (r: Result<i32, DecodeError>)
    ensures
        crate::error::view_result(r) == named_i32(*e, key@),
{
    match parse_named_string(e, key) {
        Err(x) => Err(x),
        Ok(t) => match read_i32(t.as_str()) {
            Some(v) => Ok(v),
            None => Err(DecodeError::TypeMismatch(key.to_owned())),
        },
    }
}

fn parse_optional_i32(e: &Element, key: &str) -> (r: Result<Option<i32>, DecodeError>)
    ensures
        crate::error::view_result(r) == optional_i32(*e, key@),
{
    match e.child_named(key) {
        None => Ok(None),
        Some(c) => match StringProp::parse(c) {
            Err(x) => Err(x),
            Ok(p) => Ok(read_i32(p.value.as_str())),
        },
    }
}

fn parse_named_bool(e: &Element, key: &str) -> (r: Result<bool, DecodeError>)
    ensures
        crate::error::view_result(r) == named_bool(*e, key@),
{
    match e.child_named(key) {
        None => Err(DecodeError::MissingChild(key.to_owned())),
        Some(c) => match BoolProp::parse(c) {
            Err(x) => Err(x),
            Ok(p) => Ok(p.value),
        },
    }
}

fn parse_named_loops(e: &Element, key: &str) -> (r: Result<i32, DecodeError>)
    ensures
        crate::error::view_result(r) == named_loops(*e, key@),
{
    match e.child_named(key) {
        None => Err(DecodeError::MissingChild(key.to_owned())),
        Some(c) => match ElementLoopController::parse(c) {
            Err(x) => Err(x),
            Ok(l) => Ok(l.loops),
        },
    }
}

/// `<ThreadGroup>`
#[derive(Debug, PartialEq, Eq)]
pub struct ThreadGroup {
    pub test_name: String,
    pub enabled: bool,
    pub on_sample_error: String,
    pub loops: i32,
    pub num_threads: i32,
    pub ramp_time: i32,
    pub scheduler: bool,
    pub duration: Option<i32>,
    pub delay: Option<i32>,
}

impl View for ThreadGroup {
    type V = ThreadGroupView;

    open spec fn view(&self) -> ThreadGroupView {
        ThreadGroupView {
            test_name: self.test_name@,
            enabled: self.enabled,
            on_sample_error: self.on_sample_error@,
            loops: self.loops,
            num_threads: self.num_threads,
            ramp_time: self.ramp_time,
            scheduler: self.scheduler,
            duration: self.duration,
            delay: self.delay,
        }
    }
}

impl ThreadGroup {
    /// Decodes a `<ThreadGroup>` element. `ThreadGroup.duration` and `ThreadGroup.delay`
    /// are optional: when absent, or when their text is no integer, they are `None`.
    pub fn parse(e: &Element) -> (r: Result<ThreadGroup, DecodeError>)
        ensures
            crate::error::view_result(r) == decode_thread_group(*e),
    {
        let (test_name, enabled) = match parse_identity(e, "ThreadGroup") {
            Ok(p) => p,
            Err(x) => return Err(x),
        };
        let on_sample_error = match parse_named_string(e, "ThreadGroup.on_sample_error") {
            Ok(v) => v,
            Err(x) => return Err(x),
        };
        let loops = match parse_named_loops(e, "ThreadGroup.main_controller") {
            Ok(v) => v,
            Err(x) => return Err(x),
        };
        let num_threads = match parse_named_i32(e, "ThreadGroup.num_threads") {
            Ok(v) => v,
            Err(x) => return Err(x),
        };
        let ramp_time = match parse_named_i32(e, "ThreadGroup.ramp_time") {
            Ok(v) => v,
            Err(x) => return Err(x),
        };
        let scheduler = match parse_named_bool(e, "ThreadGroup.scheduler") {
            Ok(v) => v,
            Err(x) => return Err(x),
        };
        let duration = match parse_optional_i32(e, "ThreadGroup.duration") {
            Ok(v) => v,
            Err(x) => return Err(x),
        };
        let delay = match parse_optional_i32(e, "ThreadGroup.delay") {
            Ok(v) => v,
            Err(x) => return Err(x),
        };
        Ok(
            ThreadGroup {
                test_name,
                enabled,
                on_sample_error,
                loops,
                num_threads,
                ramp_time,
                scheduler,
                duration,
                delay,
            },
        )
    }
}

} // verus!
