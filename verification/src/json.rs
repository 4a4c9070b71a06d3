//! A plain model of JSON values, as the manifest and playlist logic reads them.

use vstd::prelude::*;

verus! {

/// A JSON number as it was written: a non-negative integer, a negative
/// integer, or a floating-point number kept as its canonical decimal text.
#[derive(Debug, Clone)]
pub enum JsonNumber {
    /// An integer in `0..=u64::MAX`.
    PosInt(u64),
    /// An integer in `i64::MIN..0`.
    NegInt(i64),
    /// Any other number, as its shortest round-trip text.
    Float(String),
}

/// A JSON value. An object's members hold each key once; their order carries no
/// meaning: `same_json` compares objects as maps from keys to values.
#[derive(Debug)]
pub enum JsonValue {
    /// `null`.
    Null,
    /// `true` or `false`.
    Bool(bool),
    /// A number.
    Number(JsonNumber),
    /// A string.
    String(String),
    /// An array.
    Array(Vec<JsonValue>),
    /// An object.
    Object(Vec<(String, JsonValue)>),
}

/// Whether two numbers denote the same JSON number.
pub open spec fn same_number(a: JsonNumber, b: JsonNumber) -> bool {
    match (a, b) {
        (JsonNumber::PosInt(x), JsonNumber::PosInt(y)) => x == y,
        (JsonNumber::NegInt(x), JsonNumber::NegInt(y)) => x == y,
        (JsonNumber::Float(x), JsonNumber::Float(y)) => x@ == y@,
        _ => false,
    }
}

/// Whether `i` is an index of a sequence of length `n`.
pub open spec fn is_index(i: int, n: nat) -> bool {
    0 <= i < n
}

/// Whether a float's text is that of zero, with either sign.
pub open spec fn zero_text(t: Seq<char>) -> bool {
    t == "0.0"@ || t == "-0.0"@
}

/// Whether two numbers match: by their text, or, when `numeric`, also as the floats
/// `0.0` and `-0.0`, which compare equal.
pub open spec fn number_match(a: JsonNumber, b: JsonNumber, numeric: bool) -> bool {
    ||| same_number(a, b)
    ||| numeric && (a matches JsonNumber::Float(x) && b matches JsonNumber::Float(y) && zero_text(x@)
        && zero_text(y@))
}

/// Whether two values match: arrays element by element, objects as maps from keys to
/// values, whatever the order of their members, and numbers by `number_match`.
pub open spec fn json_match(a: JsonValue, b: JsonValue, numeric: bool) -> bool
    decreases a,
{
    match (a, b) {
        (JsonValue::Null, JsonValue::Null) => true,
        (JsonValue::Bool(x), JsonValue::Bool(y)) => x == y,
        (JsonValue::Number(x), JsonValue::Number(y)) => number_match(x, y, numeric),
        (JsonValue::String(x), JsonValue::String(y)) => x@ == y@,
        (JsonValue::Array(xs), JsonValue::Array(ys)) => {
            &&& xs@.len() == ys@.len()
            &&& forall|i: int| 0 <= i < xs@.len() ==> json_match(#[trigger] xs@[i], ys@[i], numeric)
        },
        (JsonValue::Object(xs), JsonValue::Object(ys)) => {
            &&& xs@.len() == ys@.len()
            &&& forall|i: int|
                #[trigger] is_index(i, xs@.len()) ==> exists|j: int|
                    0 <= j < ys@.len() && (#[trigger] ys@[j]).0@ == xs@[i].0@ && json_match(
                        xs@[i].1,
                        ys@[j].1,
                        numeric,
                    )
            &&& forall|j: int|
                #[trigger] is_index(j, ys@.len()) ==> exists|i: int|
                    0 <= i < xs@.len() && (#[trigger] xs@[i]).0@ == ys@[j].0@ && json_match(
                        xs@[i].1,
                        ys@[j].1,
                        numeric,
                    )
        },
        _ => false,
    }
}

/// Whether two values write out as the same JSON text (`serde_json::to_string`, whose
/// objects come out in key order): floats by their text, so `0.0` and `-0.0` differ.
pub open spec fn same_json(a: JsonValue, b: JsonValue) -> bool {
    json_match(a, b, false)
}

/// Whether two values are equal as `serde_json` values (`==`): like `same_json`, except
/// that the floats `0.0` and `-0.0` are equal.
pub open spec fn json_eq(a: JsonValue, b: JsonValue) -> bool {
    json_match(a, b, true)
}

impl Clone for JsonValue {
    #[verifier::loop_isolation(false)]
    fn clone(&self) -> (r: Self)
        ensures
            same_json(*self, r),
        decreases self,
    {
        match self {
            JsonValue::Null => JsonValue::Null,
            JsonValue::Bool(b) => JsonValue::Bool(*b),
            JsonValue::Number(n) => JsonValue::Number(match n {
                JsonNumber::PosInt(p) => JsonNumber::PosInt(*p),
                JsonNumber::NegInt(p) => JsonNumber::NegInt(*p),
                JsonNumber::Float(t) => JsonNumber::Float(t.clone()),
            }),
            JsonValue::String(t) => JsonValue::String(t.clone()),
            JsonValue::Array(xs) => {
                let mut out: Vec<JsonValue> = Vec::new();
                let mut i: usize = 0;
                while i < xs.len()
                    invariant
                        i <= xs@.len(),
                        out@.len() == i,
                        forall|k: int| 0 <= k < i ==> same_json(#[trigger] xs@[k], out@[k]),
                    decreases xs@.len() - i,
                {
                    assert(decreases_to!(*xs => xs@));
                    assert(decreases_to!(*self => xs@[i as int]));
                    out.push(xs[i].clone());
                    i += 1;
                }
                JsonValue::Array(out)
            },
            JsonValue::Object(xs) => {
                let mut out: Vec<(String, JsonValue)> = Vec::new();
                let mut i: usize = 0;
                while i < xs.len()
                    invariant
                        i <= xs@.len(),
                        out@.len() == i,
                        forall|k: int|
                            0 <= k < i ==> (#[trigger] xs@[k]).0@ == out@[k].0@ && same_json(
                                xs@[k].1,
                                out@[k].1,
                            ),
                    decreases xs@.len() - i,
                {
                    assert(decreases_to!(*xs => xs@));
                    assert(decreases_to!(*self => xs@[i as int].1));
                    out.push((xs[i].0.clone(), xs[i].1.clone()));
                    i += 1;
                }
                assert forall|k: int| #[trigger] is_index(k, xs@.len()) implies exists|j: int|
                    0 <= j < out@.len() && (#[trigger] out@[j]).0@ == xs@[k].0@ && same_json(
                        xs@[k].1,
                        out@[j].1,
                    ) by {
                    assert(xs@[k].0@ == out@[k].0@);
                }
                assert forall|j: int| #[trigger] is_index(j, out@.len()) implies exists|k: int|
                    0 <= k < xs@.len() && (#[trigger] xs@[k]).0@ == out@[j].0@ && same_json(
                        xs@[k].1,
                        out@[j].1,
                    ) by {
                    assert(xs@[j].0@ == out@[j].0@);
                }
                JsonValue::Object(out)
            },
        }
    }
}

impl JsonValue {
    /// Whether `self` and `other` write out as the same JSON text.
    pub fn same_as(&self, other: &JsonValue) -> (r: bool)
        ensures
            r == same_json(*self, *other),
    {
        self.matches_json(other, false)
    }

    /// Whether `self` and `other` are equal as `serde_json` values.
    pub fn equals(&self, other: &JsonValue) -> (r: bool)
        ensures
            r == json_eq(*self, *other),
    {
        self.matches_json(other, true)
    }

    /// Whether `self` and `other` match, as `json_match` says.
    #[verifier::loop_isolation(false)]
    fn matches_json(&self, other: &JsonValue, numeric: bool) -> (r: bool)
        ensures
            r == json_match(*self, *other, numeric),
        decreases self,
    {
        match (self, other) {
            (JsonValue::Null, JsonValue::Null) => true,
            (JsonValue::Bool(x), JsonValue::Bool(y)) => *x == *y,
            (JsonValue::Number(x), JsonValue::Number(y)) => match (x, y) {
                (JsonNumber::PosInt(p), JsonNumber::PosInt(q)) => *p == *q,
                (JsonNumber::NegInt(p), JsonNumber::NegInt(q)) => *p == *q,
                (JsonNumber::Float(p), JsonNumber::Float(q)) => *p == *q || (numeric && is_zero_text(p)
                    && is_zero_text(q)),
                _ => false,
            },
            (JsonValue::String(x), JsonValue::String(y)) => *x == *y,
            (JsonValue::Array(xs), JsonValue::Array(ys)) => {
                if xs.len() != ys.len() {
                    return false;
                }
                let mut i: usize = 0;
                while i < xs.len()
                    invariant
                        xs@.len() == ys@.len(),
                        i <= xs@.len(),
                        forall|k: int| 0 <= k < i ==> json_match(#[trigger] xs@[k], ys@[k], numeric),
                    decreases xs@.len() - i,
                {
                    assert(decreases_to!(*xs => xs@));
                    assert(decreases_to!(*self => xs@[i as int]));
                    if !xs[i].matches_json(&ys[i], numeric) {
                        return false;
                    }
                    i += 1;
                }
                true
            },
            (JsonValue::Object(xs), JsonValue::Object(ys)) => {
                if xs.len() != ys.len() {
                    return false;
                }
                let mut i: usize = 0;
                while i < xs.len()
                    invariant
                        xs@.len() == ys@.len(),
                        i <= xs@.len(),
                        forall|k: int|
                            #[trigger] is_index(k, xs@.len()) && k < i ==> exists|m: int|
                                0 <= m < ys@.len() && (#[trigger] ys@[m]).0@ == xs@[k].0@
                                    && json_match(xs@[k].1, ys@[m].1, numeric),
                    decreases xs@.len() - i,
                {
                    assert(decreases_to!(*xs => xs@));
                    assert(decreases_to!(*self => xs@[i as int].1));
                    let mut j: usize = 0;
                    let mut found = false;
                    while j < ys.len()
                        invariant
                            i < xs@.len(),
                            j <= ys@.len(),
                            found ==> exists|m: int|
                                0 <= m < ys@.len() && (#[trigger] ys@[m]).0@ == xs@[i as int].0@
                                    && json_match(xs@[i as int].1, ys@[m].1, numeric),
                            !found ==> forall|m: int|
                                0 <= m < j ==> !((#[trigger] ys@[m]).0@ == xs@[i as int].0@
                                    && json_match(xs@[i as int].1, ys@[m].1, numeric)),
                        decreases ys@.len() - j,
                    {
                        if !found && xs[i].0 == ys[j].0 && xs[i].1.matches_json(&ys[j].1, numeric) {
                            found = true;
                        }
                        j += 1;
                    }
                    if !found {
                        assert(is_index(i as int, xs@.len()));
                        return false;
                    }
                    i += 1;
                }
                let mut j: usize = 0;
                while j < ys.len()
                    invariant
                        xs@.len() == ys@.len(),
                        j <= ys@.len(),
                        forall|k: int|
                            #[trigger] is_index(k, xs@.len()) ==> exists|m: int|
                                0 <= m < ys@.len() && (#[trigger] ys@[m]).0@ == xs@[k].0@
                                    && json_match(xs@[k].1, ys@[m].1, numeric),
                        forall|m: int|
                            #[trigger] is_index(m, ys@.len()) && m < j ==> exists|k: int|
                                0 <= k < xs@.len() && (#[trigger] xs@[k]).0@ == ys@[m].0@
                                    && json_match(xs@[k].1, ys@[m].1, numeric),
                    decreases ys@.len() - j,
                {
                    let mut i: usize = 0;
                    let mut found = false;
                    while i < xs.len()
                        invariant
                            j < ys@.len(),
                            i <= xs@.len(),
                            found ==> exists|k: int|
                                0 <= k < xs@.len() && (#[trigger] xs@[k]).0@ == ys@[j as int].0@
                                    && json_match(xs@[k].1, ys@[j as int].1, numeric),
                            !found ==> forall|k: int|
                                0 <= k < i ==> !((#[trigger] xs@[k]).0@ == ys@[j as int].0@
                                    && json_match(xs@[k].1, ys@[j as int].1, numeric)),
                        decreases xs@.len() - i,
                    {
                        assert(decreases_to!(*xs => xs@));
                        assert(decreases_to!(*self => xs@[i as int].1));
                        if !found && xs[i].0 == ys[j].0 && xs[i].1.matches_json(&ys[j].1, numeric) {
                            found = true;
                        }
                        i += 1;
                    }
                    if !found {
                        assert(is_index(j as int, ys@.len()));
                        return false;
                    }
                    j += 1;
                }
                true
            },
            _ => false,
        }
    }
}

/// Whether a float's text is that of zero.
fn is_zero_text(t: &String) -> (r: bool)
    ensures
        r == zero_text(t@),
{
    crate::text::same_text(t.as_str(), "0.0") || crate::text::same_text(t.as_str(), "-0.0")
}

} // verus!
