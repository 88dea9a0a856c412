//! The terms in which laws speak of what a row carries.
use crate::json::JsonView;
use crate::model::Cost;
use vstd::prelude::*;

verus! {

/// The unsigned integer that a value is.
pub open spec fn number(v: Option<JsonView>) -> Option<u64> {
    match v {
        Some(JsonView::Number(n)) => n.unsigned,
        _ => None,
    }
}

/// The first of two values that is an unsigned integer; zero where neither is.
pub open spec fn first_number(a: Option<JsonView>, b: Option<JsonView>) -> u64 {
    match (number(a), number(b)) {
        (Some(n), _) => n,
        (None, Some(n)) => n,
        (None, None) => 0,
    }
}

/// The unsigned integer that a value is; zero where it is none.
pub open spec fn tally(v: Option<JsonView>) -> u64 {
    first_number(v, None)
}

/// The cost that a value reports.
pub open spec fn dollars(v: Option<JsonView>) -> Option<Cost> {
    match v {
        Some(JsonView::Number(n)) => match n.double_bits {
            Some(bits) => Some(Cost::Reported(bits)),
            None => None,
        },
        _ => None,
    }
}

/// Whether a value is the truth value `true`.
pub open spec fn affirmed(v: Option<JsonView>) -> bool {
    v == Some(JsonView::Bool(true))
}

/// The string that a value is; empty where it is none.
pub open spec fn words(v: Option<JsonView>) -> Seq<char> {
    match v {
        Some(JsonView::Str(s)) => s,
        _ => Seq::empty(),
    }
}

/// The value of a field of a field.
pub open spec fn inside(v: JsonView, outer: Seq<char>, inner: Seq<char>) -> Option<JsonView> {
    match v.get(outer) {
        Some(w) => w.get(inner),
        None => None,
    }
}

/// The first of two texts that is not empty.
pub open spec fn either(a: Seq<char>, b: Seq<char>) -> Seq<char> {
    if a.len() > 0 {
        a
    } else {
        b
    }
}

/// A text, unless it is empty.
pub open spec fn given(s: Seq<char>) -> Option<Seq<char>> {
    if s.len() > 0 {
        Some(s)
    } else {
        None
    }
}

/// Whether a process is known to have failed.
pub open spec fn failed_exit(exit_code: Option<i32>) -> bool {
    exit_code matches Some(code) && code != 0
}

} // verus!
