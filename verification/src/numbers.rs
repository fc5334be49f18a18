//! Numbers in JSON values: reading them, telling their sign, and writing down
//! how others are worked out from them.
use vstd::prelude::*;
use crate::json;
use crate::json::{Json, JsonV, Op, Real};
use crate::text;

verus! {

/// The number that a value is or that its text spells.
pub open spec fn number_of(v: Option<JsonV>) -> Option<JsonV> {
    match v {
        Some(JsonV::Int(n)) => Some(JsonV::Int(n)),
        Some(JsonV::Real(r)) => Some(JsonV::Real(r)),
        Some(JsonV::Calc(op, s)) => Some(JsonV::Calc(op, s)),
        Some(JsonV::Str(s)) => match json::real_of_text(text::trim(s)) {
            Some(r) => Some(JsonV::Real(r)),
            None => None,
        },
        _ => None,
    }
}

/// The number that a value is or that its text spells.
pub fn number(v: Option<&Json>) -> (r: Option<Json>)
    ensures
        crate::account::opt_json(r) == number_of(json::opt_view(v)),
{
    match v {
        Some(j) => match j {
            Json::Int(_) | Json::Real(_) | Json::Calc(_, _) => Some(j.clone()),
            Json::Str(s) => {
                let t: String = text::trimmed(s.as_str());
                match json::parse_real(t.as_str()) {
                    Some(x) => Some(Json::Real(x)),
                    None => None,
                }
            },
            _ => None,
        },
        None => None,
    }
}

/// A number, as opposed to a text that spells one.
pub open spec fn is_number(v: JsonV) -> bool {
    v is Int || v is Real || v is Calc
}

/// Whether a double is above zero, by its bits: the sign bit is clear, it is not
/// zero, and it is a number.
pub open spec fn above_zero(r: Real) -> bool {
    0 < r.bits <= 0x7ff0_0000_0000_0000
}

/// Whether a value is a number above zero.
pub open spec fn positive(v: Option<JsonV>) -> bool {
    match v {
        Some(JsonV::Int(n)) => n > 0,
        Some(JsonV::Real(r)) => above_zero(r),
        _ => false,
    }
}

/// Whether a value is a number above zero. One that is still to be worked out
/// counts as none.
pub fn is_positive(v: Option<&Json>) -> (b: bool)
    ensures
        b == positive(json::opt_view(v)),
{
    match v {
        Some(j) => match j {
            Json::Int(n) => *n > 0,
            Json::Real(r) => 0 < r.bits && r.bits <= 0x7ff0_0000_0000_0000,
            _ => false,
        },
        None => false,
    }
}

/// The number, or zero where that is larger.
pub open spec fn at_least_zero(v: JsonV) -> JsonV {
    JsonV::Calc(Op::AtLeastZero, seq![v])
}

/// The first less the second.
pub open spec fn minus(a: JsonV, b: JsonV) -> JsonV {
    JsonV::Calc(Op::Minus, seq![a, b])
}

/// All added up.
pub open spec fn sum(s: Seq<JsonV>) -> JsonV {
    JsonV::Calc(Op::Sum, s)
}

/// The number as a double: one that is no double yet is still to be worked out as one.
pub open spec fn as_double(v: JsonV) -> JsonV {
    if v is Real {
        v
    } else {
        sum(seq![v])
    }
}

/// The number as a double.
pub fn to_be_double(v: Json) -> (r: Json)
    ensures
        r@ == as_double(v@),
{
    match v {
        Json::Real(_) => v,
        _ => {
            let list: Vec<Json> = vec![v];
            assert(json::list_view(list@) =~= seq![v@]);
            total(list)
        },
    }
}

/// The number, or zero where that is larger.
pub fn floor(v: Json) -> (r: Json)
    ensures
        r@ == at_least_zero(v@),
{
    let list: Vec<Json> = vec![v];
    assert(json::list_view(list@) =~= seq![v@]);
    Json::Calc(Op::AtLeastZero, list)
}

/// The first less the second.
pub fn difference(a: Json, b: Json) -> (r: Json)
    ensures
        r@ == minus(a@, b@),
{
    let list: Vec<Json> = vec![a, b];
    assert(json::list_view(list@) =~= seq![a@, b@]);
    Json::Calc(Op::Minus, list)
}

/// All added up.
pub fn total(list: Vec<Json>) -> (r: Json)
    ensures
        r@ == sum(json::list_view(list@)),
{
    Json::Calc(Op::Sum, list)
}

} // verus!
