//! What is told of an account's credits.
use vstd::prelude::*;
use crate::account;
use crate::credits;
use crate::credits::{AnswersV, CreditStep, PostStep, TimeReadingV};
use crate::json;
use crate::json::{JsonV, Op};
use crate::text;
use crate::variant;
use crate::variant::WbVariant;

verus! {

proof fn told_names()
    ensures
        "ok"@ != "accountId"@,
        "ok"@ != "accountName"@,
        "ok"@ != "updatedAt"@,
        "ok"@ != "totalCapacity"@,
        "ok"@ != "totalRemaining"@,
        "ok"@ != "expiringSoonRemaining"@,
        "ok"@ != "expiredRemaining"@,
        "ok"@ != "soonestExpireAt"@,
        "ok"@ != "expiringSoon"@,
        "ok"@ != "expired"@,
        "ok"@ != "resources"@,
        "accountId"@ != "accountName"@,
        "accountId"@ != "updatedAt"@,
        "accountId"@ != "totalCapacity"@,
        "accountId"@ != "totalRemaining"@,
        "accountId"@ != "expiringSoonRemaining"@,
        "accountId"@ != "expiredRemaining"@,
        "accountId"@ != "soonestExpireAt"@,
        "accountId"@ != "expiringSoon"@,
        "accountId"@ != "expired"@,
        "accountId"@ != "resources"@,
        "accountName"@ != "updatedAt"@,
        "accountName"@ != "totalCapacity"@,
        "accountName"@ != "totalRemaining"@,
        "accountName"@ != "expiringSoonRemaining"@,
        "accountName"@ != "expiredRemaining"@,
        "accountName"@ != "soonestExpireAt"@,
        "accountName"@ != "expiringSoon"@,
        "accountName"@ != "expired"@,
        "accountName"@ != "resources"@,
        "updatedAt"@ != "totalCapacity"@,
        "updatedAt"@ != "totalRemaining"@,
        "updatedAt"@ != "expiringSoonRemaining"@,
        "updatedAt"@ != "expiredRemaining"@,
        "updatedAt"@ != "soonestExpireAt"@,
        "updatedAt"@ != "expiringSoon"@,
        "updatedAt"@ != "expired"@,
        "updatedAt"@ != "resources"@,
        "totalCapacity"@ != "totalRemaining"@,
        "totalCapacity"@ != "expiringSoonRemaining"@,
        "totalCapacity"@ != "expiredRemaining"@,
        "totalCapacity"@ != "soonestExpireAt"@,
        "totalCapacity"@ != "expiringSoon"@,
        "totalCapacity"@ != "expired"@,
        "totalCapacity"@ != "resources"@,
        "totalRemaining"@ != "expiringSoonRemaining"@,
        "totalRemaining"@ != "expiredRemaining"@,
        "totalRemaining"@ != "soonestExpireAt"@,
        "totalRemaining"@ != "expiringSoon"@,
        "totalRemaining"@ != "expired"@,
        "totalRemaining"@ != "resources"@,
        "expiringSoonRemaining"@ != "expiredRemaining"@,
        "expiringSoonRemaining"@ != "soonestExpireAt"@,
        "expiringSoonRemaining"@ != "expiringSoon"@,
        "expiringSoonRemaining"@ != "expired"@,
        "expiringSoonRemaining"@ != "resources"@,
        "expiredRemaining"@ != "soonestExpireAt"@,
        "expiredRemaining"@ != "expiringSoon"@,
        "expiredRemaining"@ != "expired"@,
        "expiredRemaining"@ != "resources"@,
        "soonestExpireAt"@ != "expiringSoon"@,
        "soonestExpireAt"@ != "expired"@,
        "soonestExpireAt"@ != "resources"@,
        "expiringSoon"@ != "expired"@,
        "expiringSoon"@ != "resources"@,
        "expired"@ != "resources"@,
{
    reveal_strlit("ok");
    reveal_strlit("accountId");
    reveal_strlit("accountName");
    reveal_strlit("updatedAt");
    reveal_strlit("totalCapacity");
    reveal_strlit("totalRemaining");
    reveal_strlit("expiringSoonRemaining");
    reveal_strlit("expiredRemaining");
    reveal_strlit("soonestExpireAt");
    reveal_strlit("expiringSoon");
    reveal_strlit("expired");
    reveal_strlit("resources");
    assert("ok"@.len() == 2);
    assert("accountId"@.len() == 9);
    assert("accountName"@.len() == 11);
    assert("updatedAt"@.len() == 9);
    assert("totalCapacity"@.len() == 13);
    assert("totalRemaining"@.len() == 14);
    assert("expiringSoonRemaining"@.len() == 21);
    assert("expiredRemaining"@.len() == 16);
    assert("soonestExpireAt"@.len() == 15);
    assert("expiringSoon"@.len() == 12);
    assert("expired"@.len() == 7);
    assert("resources"@.len() == 9);
    assert("accountId"@[0] != "updatedAt"@[0]);
    assert("accountId"@[0] != "resources"@[0]);
    assert("updatedAt"@[0] != "resources"@[0]);
}

proof fn failure_names()
    ensures
        "ok"@ != "accountId"@,
        "ok"@ != "accountName"@,
        "ok"@ != "error"@,
        "accountId"@ != "accountName"@,
        "accountId"@ != "error"@,
        "accountName"@ != "error"@,
{
    reveal_strlit("ok");
    reveal_strlit("accountId");
    reveal_strlit("accountName");
    reveal_strlit("error");
    assert("ok"@.len() == 2);
    assert("accountId"@.len() == 9);
    assert("accountName"@.len() == 11);
    assert("error"@.len() == 5);
}

proof fn package_names()
    ensures
        "packageCode"@ != "packageName"@,
        "packageCode"@ != "total"@,
        "packageCode"@ != "remaining"@,
        "packageCode"@ != "used"@,
        "packageCode"@ != "status"@,
        "packageCode"@ != "expireAt"@,
        "packageCode"@ != "expired"@,
        "packageCode"@ != "expiringSoon"@,
        "packageName"@ != "total"@,
        "packageName"@ != "remaining"@,
        "packageName"@ != "used"@,
        "packageName"@ != "status"@,
        "packageName"@ != "expireAt"@,
        "packageName"@ != "expired"@,
        "packageName"@ != "expiringSoon"@,
        "total"@ != "remaining"@,
        "total"@ != "used"@,
        "total"@ != "status"@,
        "total"@ != "expireAt"@,
        "total"@ != "expired"@,
        "total"@ != "expiringSoon"@,
        "remaining"@ != "used"@,
        "remaining"@ != "status"@,
        "remaining"@ != "expireAt"@,
        "remaining"@ != "expired"@,
        "remaining"@ != "expiringSoon"@,
        "used"@ != "status"@,
        "used"@ != "expireAt"@,
        "used"@ != "expired"@,
        "used"@ != "expiringSoon"@,
        "status"@ != "expireAt"@,
        "status"@ != "expired"@,
        "status"@ != "expiringSoon"@,
        "expireAt"@ != "expired"@,
        "expireAt"@ != "expiringSoon"@,
        "expired"@ != "expiringSoon"@,
{
    reveal_strlit("packageCode");
    reveal_strlit("packageName");
    reveal_strlit("total");
    reveal_strlit("remaining");
    reveal_strlit("used");
    reveal_strlit("status");
    reveal_strlit("expireAt");
    reveal_strlit("expired");
    reveal_strlit("expiringSoon");
    assert("packageCode"@.len() == 11);
    assert("packageName"@.len() == 11);
    assert("total"@.len() == 5);
    assert("remaining"@.len() == 9);
    assert("used"@.len() == 4);
    assert("status"@.len() == 6);
    assert("expireAt"@.len() == 8);
    assert("expired"@.len() == 7);
    assert("expiringSoon"@.len() == 12);
    assert("packageCode"@[7] != "packageName"@[7]);
}

/// Something is left of a package: a number above zero.
pub open spec fn has_left(r: JsonV) -> bool {
    match r.get("remaining"@) {
        Some(JsonV::Int(n)) => n > 0,
        Some(JsonV::Real(x)) => 0 < x.bits <= 0x7ff0_0000_0000_0000,
        _ => false,
    }
}

/// When a package ends, where that is known.
pub open spec fn ends(r: JsonV) -> Option<int> {
    match r.get("expireAt"@) {
        Some(JsonV::Int(t)) => if i64::MIN <= t <= i64::MAX {
            Some(t)
        } else {
            None
        },
        _ => None,
    }
}

/// A member that is a number.
pub open spec fn has_number(r: JsonV, key: Seq<char>) -> bool {
    match r.get(key) {
        Some(JsonV::Int(_)) => true,
        Some(JsonV::Real(_)) => true,
        Some(JsonV::Calc(_, _)) => true,
        _ => false,
    }
}

proof fn soonest_is_soonest(resources: Seq<JsonV>)
    ensures
        match credits::soonest(resources) {
            Some(t) => (exists|i: int|
                0 <= i < resources.len() && has_left(#[trigger] resources[i]) && ends(resources[i]) == Some(t)) && (
            forall|i: int|
                0 <= i < resources.len() && has_left(#[trigger] resources[i]) ==> (ends(resources[i]) matches Some(x)
                    ==> t <= x)),
            None => forall|i: int|
                0 <= i < resources.len() && has_left(#[trigger] resources[i]) ==> ends(resources[i]) is None,
        },
    decreases resources.len(),
{
    if resources.len() > 0 {
        let front = resources.subrange(0, resources.len() - 1);
        let last = resources.len() - 1;
        soonest_is_soonest(front);
        assert forall|i: int| 0 <= i < last implies front[i] == #[trigger] resources[i] by {}
        if credits::soonest(front) is Some {
            let t = credits::soonest(front)->0;
            let k = choose|i: int| 0 <= i < front.len() && has_left(#[trigger] front[i]) && ends(front[i]) == Some(t);
            assert(has_left(resources[k]) && ends(resources[k]) == Some(t));
        }
        assert(credits::soonest(resources) == (match ends(resources[last]) {
            Some(t) => if has_left(resources[last]) && (credits::soonest(front) is None || t < credits::soonest(front)->0) {
                Some(t)
            } else {
                credits::soonest(front)
            },
            None => credits::soonest(front),
        }));
        assert(has_left(resources[last]) == has_left(resources[last]));
    }
}

/// What is told to end soonest is the end of a package of which something is left, no
/// later than that of any other of which something is left; nothing is told only where
/// there is none with an end.
pub proof fn the_soonest_end_is_told(acc: JsonV, resources: Seq<JsonV>, now: int)
    ensures
        match credits::credits_of(acc, resources, now).get("soonestExpireAt"@) {
            Some(JsonV::Int(t)) => (exists|i: int|
                0 <= i < resources.len() && has_left(#[trigger] resources[i]) && ends(resources[i]) == Some(t)) && (
            forall|i: int|
                0 <= i < resources.len() && has_left(#[trigger] resources[i]) ==> (ends(resources[i]) matches Some(x)
                    ==> t <= x)),
            Some(JsonV::Null) => forall|i: int|
                0 <= i < resources.len() && has_left(#[trigger] resources[i]) ==> ends(resources[i]) is None,
            _ => false,
        },
{
    told_names();
    soonest_is_soonest(resources);
}

proof fn amounts_are(resources: Seq<JsonV>, key: Seq<char>, mark: Option<Seq<char>>)
    ensures
        credits::amounts(resources, key, mark) == resources.filter(
            |r: JsonV| has_number(r, key) && (mark is Some ==> r.get(mark->0) == Some(JsonV::Bool(true))),
        ).map_values(|r: JsonV| r.get(key)->0),
    decreases resources.len(),
{
    let keep = |r: JsonV| has_number(r, key) && (mark is Some ==> r.get(mark->0) == Some(JsonV::Bool(true)));
    let of = |r: JsonV| r.get(key)->0;
    reveal(Seq::filter);
    if resources.len() > 0 {
        let front = resources.subrange(0, resources.len() - 1);
        let last = resources[resources.len() - 1];
        assert(front =~= resources.drop_last());
        amounts_are(front, key, mark);
        if keep(last) {
            assert(front.filter(keep).push(last).map_values(of) =~= front.filter(keep).map_values(of).push(of(last)));
        }
    }
}

/// The totals that are told are summed over the packages: what they hold, what is left
/// of them, what is left of those that end soon and of those that have ended.
pub proof fn totals_are_summed_over_packages(acc: JsonV, resources: Seq<JsonV>, now: int)
    ensures
        ({
            let told = credits::credits_of(acc, resources, now);
            &&& told.get("totalCapacity"@) == Some(
                JsonV::Calc(
                    Op::Sum,
                    resources.filter(|r: JsonV| has_number(r, "total"@)).map_values(|r: JsonV| r.get("total"@)->0),
                ),
            )
            &&& told.get("totalRemaining"@) == Some(
                JsonV::Calc(
                    Op::Sum,
                    resources.filter(|r: JsonV| has_number(r, "remaining"@)).map_values(
                        |r: JsonV| r.get("remaining"@)->0,
                    ),
                ),
            )
            &&& told.get("expiringSoonRemaining"@) == Some(
                JsonV::Calc(
                    Op::Sum,
                    resources.filter(
                        |r: JsonV|
                            has_number(r, "remaining"@) && r.get("expiringSoon"@) == Some(JsonV::Bool(true)),
                    ).map_values(|r: JsonV| r.get("remaining"@)->0),
                ),
            )
            &&& told.get("expiredRemaining"@) == Some(
                JsonV::Calc(
                    Op::Sum,
                    resources.filter(
                        |r: JsonV| has_number(r, "remaining"@) && r.get("expired"@) == Some(JsonV::Bool(true)),
                    ).map_values(|r: JsonV| r.get("remaining"@)->0),
                ),
            )
            &&& told.get("resources"@) == Some(JsonV::Arr(resources))
        }),
{
    told_names();
    amounts_are(resources, "total"@, None);
    amounts_are(resources, "remaining"@, None);
    amounts_are(resources, "remaining"@, Some("expiringSoon"@));
    amounts_are(resources, "remaining"@, Some("expired"@));
    let none: Option<Seq<char>> = None;
    let soon = Some("expiringSoon"@);
    let past = Some("expired"@);
    assert((|r: JsonV| has_number(r, "total"@)) =~= (|r: JsonV|
        has_number(r, "total"@) && (none is Some ==> r.get(none->0) == Some(JsonV::Bool(true)))));
    assert((|r: JsonV| has_number(r, "remaining"@)) =~= (|r: JsonV|
        has_number(r, "remaining"@) && (none is Some ==> r.get(none->0) == Some(JsonV::Bool(true)))));
    assert((|r: JsonV| has_number(r, "remaining"@) && r.get("expiringSoon"@) == Some(JsonV::Bool(true))) =~= (|
        r: JsonV,
    |
        has_number(r, "remaining"@) && (soon is Some ==> r.get(soon->0) == Some(JsonV::Bool(true)))));
    assert((|r: JsonV| has_number(r, "remaining"@) && r.get("expired"@) == Some(JsonV::Bool(true))) =~= (|r: JsonV|
        has_number(r, "remaining"@) && (past is Some ==> r.get(past->0) == Some(JsonV::Bool(true)))));
}

/// An account is told to have credits that end soon, or that have ended, where a package
/// of which something is left does; what is told bears the account's id and name and
/// the time.
pub proof fn ends_are_told(acc: JsonV, resources: Seq<JsonV>, now: int)
    ensures
        ({
            let told = credits::credits_of(acc, resources, now);
            &&& told.get("expiringSoon"@) == Some(
                JsonV::Bool(
                    exists|i: int|
                        0 <= i < resources.len() && has_left(#[trigger] resources[i]) && resources[i].get(
                            "expiringSoon"@,
                        ) == Some(JsonV::Bool(true)),
                ),
            )
            &&& told.get("expired"@) == Some(
                JsonV::Bool(
                    exists|i: int|
                        0 <= i < resources.len() && has_left(#[trigger] resources[i]) && resources[i].get("expired"@)
                            == Some(JsonV::Bool(true)),
                ),
            )
            &&& told.get("ok"@) == Some(JsonV::Bool(true))
            &&& told.get("updatedAt"@) == Some(JsonV::Int(now))
            &&& told.get("accountName"@) == Some(JsonV::Str(account::display_name(acc)))
            &&& acc.get("id"@) matches Some(id) ==> told.get("accountId"@) == Some(id)
        }),
{
    told_names();
    marked_is(resources, "expiringSoon"@);
    marked_is(resources, "expired"@);
}

proof fn marked_is(resources: Seq<JsonV>, mark: Seq<char>)
    ensures
        credits::marked(resources, mark) == exists|i: int|
            0 <= i < resources.len() && has_left(#[trigger] resources[i]) && resources[i].get(mark) == Some(
                JsonV::Bool(true),
            ),
{
    if credits::marked(resources, mark) {
        let k = choose|i: int|
            0 <= i < resources.len() && (#[trigger] resources[i]).get_bool(mark) == Some(true)
                && crate::numbers::positive(resources[i].get("remaining"@));
        assert(has_left(resources[k]) && resources[k].get(mark) == Some(JsonV::Bool(true)));
    }
    if exists|i: int|
        0 <= i < resources.len() && has_left(#[trigger] resources[i]) && resources[i].get(mark) == Some(
            JsonV::Bool(true),
        ) {
        let k = choose|i: int|
            0 <= i < resources.len() && has_left(#[trigger] resources[i]) && resources[i].get(mark) == Some(
                JsonV::Bool(true),
            );
        assert(resources[k].get_bool(mark) == Some(true) && crate::numbers::positive(resources[k].get("remaining"@)));
    }
}

/// A package ends when its credits can no longer be used; where the credits outlast the
/// cycle by more than a year the cycle counts, and an end more than two years ahead is
/// none.
pub proof fn packages_end_with_their_credits(d: Option<i64>, c: Option<i64>, now: i64)
    ensures
        ({
            let end = credits::expiry(json::opt_int(d), json::opt_int(c), now as int);
            &&& d is None && c is None ==> end is None
            &&& d matches Some(x) ==> (c is None ==> (end == if x - now <= 63_072_000_000 {
                Some(x as int)
            } else {
                None
            }))
            &&& c matches Some(y) ==> (d is None ==> (end == if y - now <= 63_072_000_000 {
                Some(y as int)
            } else {
                None
            }))
            &&& d matches Some(x) ==> (c matches Some(y) ==> {
                let t: int = if x - y > 31_536_000_000 {
                    y as int
                } else {
                    x as int
                };
                end == if t - now <= 63_072_000_000 {
                    Some(t)
                } else {
                    None
                }
            })
        }),
{
}

/// A package has ended where its end has come, and ends soon where its end is ahead by no
/// more than seven days.
pub proof fn packages_end_soon_within_a_week(raw: JsonV, d: Option<int>, c: Option<int>, now: i64, t: i64)
    requires
        credits::expiry(d, c, now as int) == Some(t as int),
        i64::MIN <= t - now <= i64::MAX,
    ensures
        credits::package(raw, d, c, now as int).get("expireAt"@) == Some(JsonV::Int(t as int)),
        credits::package(raw, d, c, now as int).get("expired"@) == Some(JsonV::Bool(t <= now)),
        credits::package(raw, d, c, now as int).get("expiringSoon"@) == Some(
            JsonV::Bool(now < t && t - now <= 604_800_000),
        ),
{
    package_names();
}

/// A package of which no end is known has not ended and does not end soon.
pub proof fn packages_without_end_stay(raw: JsonV, d: Option<int>, c: Option<int>, now: int)
    requires
        credits::expiry(d, c, now) is None,
    ensures
        credits::package(raw, d, c, now).get("expireAt"@) == Some(JsonV::Null),
        credits::package(raw, d, c, now).get("expired"@) == Some(JsonV::Bool(false)),
        credits::package(raw, d, c, now).get("expiringSoon"@) == Some(JsonV::Bool(false)),
{
    package_names();
}

/// What a package holds is read from the first of its members that gives it: that of the
/// cycle before that of the package before that of the slice, and the precise one before
/// the rounded one.
pub proof fn total_is_read_from_the_package(raw: JsonV, n: int)
    ensures
        raw.get("CycleCapacitySizePrecise"@) == Some(JsonV::Int(n)) ==> credits::package_total(raw) == JsonV::Calc(Op::AtLeastZero, seq![JsonV::Int(n)]),
        raw.get("CycleCapacitySizePrecise"@) is None && raw.get("CycleCapacitySize"@) == Some(JsonV::Int(n)) ==> credits::package_total(raw) == JsonV::Calc(Op::AtLeastZero, seq![JsonV::Int(n)]),
        raw.get("CycleCapacitySizePrecise"@) is None && raw.get("CycleCapacitySize"@) is None && raw.get("CycleTotalCapacity"@) == Some(JsonV::Int(n)) ==> credits::package_total(raw) == JsonV::Calc(Op::AtLeastZero, seq![JsonV::Int(n)]),
        raw.get("CycleCapacitySizePrecise"@) is None && raw.get("CycleCapacitySize"@) is None && raw.get("CycleTotalCapacity"@) is None && raw.get("CapacitySizePrecise"@) == Some(JsonV::Int(n)) ==> credits::package_total(raw) == JsonV::Calc(Op::AtLeastZero, seq![JsonV::Int(n)]),
        raw.get("CycleCapacitySizePrecise"@) is None && raw.get("CycleCapacitySize"@) is None && raw.get("CycleTotalCapacity"@) is None && raw.get("CapacitySizePrecise"@) is None && raw.get("CapacitySize"@) == Some(JsonV::Int(n)) ==> credits::package_total(raw) == JsonV::Calc(Op::AtLeastZero, seq![JsonV::Int(n)]),
        raw.get("CycleCapacitySizePrecise"@) is None && raw.get("CycleCapacitySize"@) is None && raw.get("CycleTotalCapacity"@) is None && raw.get("CapacitySizePrecise"@) is None && raw.get("CapacitySize"@) is None && raw.get("SlicePeriodCapacitySizePrecise"@) == Some(JsonV::Int(n)) ==> credits::package_total(raw) == JsonV::Calc(Op::AtLeastZero, seq![JsonV::Int(n)]),
        raw.get("CycleCapacitySizePrecise"@) is None && raw.get("CycleCapacitySize"@) is None && raw.get("CycleTotalCapacity"@) is None && raw.get("CapacitySizePrecise"@) is None && raw.get("CapacitySize"@) is None && raw.get("SlicePeriodCapacitySizePrecise"@) is None && raw.get("SlicePeriodCapacitySize"@) == Some(JsonV::Int(n)) ==> credits::package_total(raw) == JsonV::Calc(Op::AtLeastZero, seq![JsonV::Int(n)]),
{
    reveal_with_fuel(credits::number_from, 8);
}

/// What is left of a package is read from the first of its members that gives it, in the
/// same order.
pub proof fn remaining_is_read_from_the_package(raw: JsonV, n: int)
    ensures
        raw.get("CycleCapacityRemainPrecise"@) == Some(JsonV::Int(n)) ==> credits::package_remaining(raw) == JsonV::Calc(Op::AtLeastZero, seq![JsonV::Int(n)]),
        raw.get("CycleCapacityRemainPrecise"@) is None && raw.get("CycleCapacityRemain"@) == Some(JsonV::Int(n)) ==> credits::package_remaining(raw) == JsonV::Calc(Op::AtLeastZero, seq![JsonV::Int(n)]),
        raw.get("CycleCapacityRemainPrecise"@) is None && raw.get("CycleCapacityRemain"@) is None && raw.get("CycleRemainCapacity"@) == Some(JsonV::Int(n)) ==> credits::package_remaining(raw) == JsonV::Calc(Op::AtLeastZero, seq![JsonV::Int(n)]),
        raw.get("CycleCapacityRemainPrecise"@) is None && raw.get("CycleCapacityRemain"@) is None && raw.get("CycleRemainCapacity"@) is None && raw.get("CapacityRemainPrecise"@) == Some(JsonV::Int(n)) ==> credits::package_remaining(raw) == JsonV::Calc(Op::AtLeastZero, seq![JsonV::Int(n)]),
        raw.get("CycleCapacityRemainPrecise"@) is None && raw.get("CycleCapacityRemain"@) is None && raw.get("CycleRemainCapacity"@) is None && raw.get("CapacityRemainPrecise"@) is None && raw.get("CapacityRemain"@) == Some(JsonV::Int(n)) ==> credits::package_remaining(raw) == JsonV::Calc(Op::AtLeastZero, seq![JsonV::Int(n)]),
        raw.get("CycleCapacityRemainPrecise"@) is None && raw.get("CycleCapacityRemain"@) is None && raw.get("CycleRemainCapacity"@) is None && raw.get("CapacityRemainPrecise"@) is None && raw.get("CapacityRemain"@) is None && raw.get("SlicePeriodCapacityRemainPrecise"@) == Some(JsonV::Int(n)) ==> credits::package_remaining(raw) == JsonV::Calc(Op::AtLeastZero, seq![JsonV::Int(n)]),
        raw.get("CycleCapacityRemainPrecise"@) is None && raw.get("CycleCapacityRemain"@) is None && raw.get("CycleRemainCapacity"@) is None && raw.get("CapacityRemainPrecise"@) is None && raw.get("CapacityRemain"@) is None && raw.get("SlicePeriodCapacityRemainPrecise"@) is None && raw.get("SlicePeriodCapacityRemain"@) == Some(JsonV::Int(n)) ==> credits::package_remaining(raw) == JsonV::Calc(Op::AtLeastZero, seq![JsonV::Int(n)]),
{
    reveal_with_fuel(credits::number_from, 8);
}

/// What was used of a package is read from the first of its members that gives it, in the
/// same order.
pub proof fn used_is_read_from_the_package(raw: JsonV, n: int)
    ensures
        raw.get("CycleCapacityUsedPrecise"@) == Some(JsonV::Int(n)) ==> credits::package_used(raw) == JsonV::Calc(Op::AtLeastZero, seq![JsonV::Int(n)]),
        raw.get("CycleCapacityUsedPrecise"@) is None && raw.get("CycleCapacityUsed"@) == Some(JsonV::Int(n)) ==> credits::package_used(raw) == JsonV::Calc(Op::AtLeastZero, seq![JsonV::Int(n)]),
        raw.get("CycleCapacityUsedPrecise"@) is None && raw.get("CycleCapacityUsed"@) is None && raw.get("CycleUsedCapacity"@) == Some(JsonV::Int(n)) ==> credits::package_used(raw) == JsonV::Calc(Op::AtLeastZero, seq![JsonV::Int(n)]),
        raw.get("CycleCapacityUsedPrecise"@) is None && raw.get("CycleCapacityUsed"@) is None && raw.get("CycleUsedCapacity"@) is None && raw.get("CapacityUsedPrecise"@) == Some(JsonV::Int(n)) ==> credits::package_used(raw) == JsonV::Calc(Op::AtLeastZero, seq![JsonV::Int(n)]),
        raw.get("CycleCapacityUsedPrecise"@) is None && raw.get("CycleCapacityUsed"@) is None && raw.get("CycleUsedCapacity"@) is None && raw.get("CapacityUsedPrecise"@) is None && raw.get("CapacityUsed"@) == Some(JsonV::Int(n)) ==> credits::package_used(raw) == JsonV::Calc(Op::AtLeastZero, seq![JsonV::Int(n)]),
        raw.get("CycleCapacityUsedPrecise"@) is None && raw.get("CycleCapacityUsed"@) is None && raw.get("CycleUsedCapacity"@) is None && raw.get("CapacityUsedPrecise"@) is None && raw.get("CapacityUsed"@) is None && raw.get("SlicePeriodCapacityUsedPrecise"@) == Some(JsonV::Int(n)) ==> credits::package_used(raw) == JsonV::Calc(Op::AtLeastZero, seq![JsonV::Int(n)]),
        raw.get("CycleCapacityUsedPrecise"@) is None && raw.get("CycleCapacityUsed"@) is None && raw.get("CycleUsedCapacity"@) is None && raw.get("CapacityUsedPrecise"@) is None && raw.get("CapacityUsed"@) is None && raw.get("SlicePeriodCapacityUsedPrecise"@) is None && raw.get("SlicePeriodCapacityUsed"@) == Some(JsonV::Int(n)) ==> credits::package_used(raw) == JsonV::Calc(Op::AtLeastZero, seq![JsonV::Int(n)]),
{
    reveal_with_fuel(credits::number_from, 8);
}

/// Of what a package holds, what is left and what was used, one that is not given follows
/// from the others.
pub proof fn amounts_follow_from_each_other(raw: JsonV, total: JsonV, left: JsonV, used: JsonV)
    ensures
        credits::amount_of(raw, credits::remaining_keys()) is None && credits::amount_of(raw, credits::used_keys())
            == Some(used) && credits::amount_of(raw, credits::total_keys()) == Some(total) ==> credits::package_remaining(
            raw,
        ) == JsonV::Calc(
            Op::AtLeastZero,
            seq![
                JsonV::Calc(
                    Op::AtLeastZero,
                    seq![JsonV::Calc(Op::Minus, seq![JsonV::Calc(Op::AtLeastZero, seq![total]), used])],
                ),
            ],
        ),
        credits::amount_of(raw, credits::used_keys()) is None ==> credits::package_used(raw) == JsonV::Calc(
            Op::AtLeastZero,
            seq![
                JsonV::Calc(
                    Op::AtLeastZero,
                    seq![JsonV::Calc(Op::Minus, seq![credits::package_total(raw), credits::package_remaining(raw)])],
                ),
            ],
        ),
        credits::amount_of(raw, credits::total_keys()) is None && credits::amount_of(raw, credits::remaining_keys())
            == Some(left) && credits::amount_of(raw, credits::used_keys()) == Some(used) ==> credits::package_total(raw)
            == JsonV::Calc(Op::AtLeastZero, seq![JsonV::Calc(Op::Sum, seq![left, used])]),
        credits::amount_of(raw, credits::total_keys()) is None && credits::amount_of(raw, credits::remaining_keys())
            == Some(left) && credits::amount_of(raw, credits::used_keys()) is None ==> credits::package_total(raw)
            == JsonV::Calc(Op::AtLeastZero, seq![left]),
{
}

/// What is told of a package: its code and name, what it holds, what is left of it and
/// what was used.
pub proof fn packages_are_told(raw: JsonV, d: Option<int>, c: Option<int>, now: int)
    ensures
        ({
            let p = credits::package(raw, d, c, now);
            &&& raw.get("PackageCode"@) matches Some(x) ==> p.get("packageCode"@) == Some(x)
            &&& raw.get("PackageCode"@) is None ==> (raw.get("packageCode"@) matches Some(x) ==> p.get("packageCode"@)
                == Some(x))
            &&& raw.get("PackageName"@) matches Some(x) ==> p.get("packageName"@) == Some(x)
            &&& raw.get("PackageName"@) is None ==> (raw.get("packageName"@) matches Some(x) ==> p.get("packageName"@)
                == Some(x))
            &&& raw.get("Status"@) matches Some(JsonV::Int(n)) ==> (0 <= n <= 1_000_000 ==> p.get("status"@) == Some(
                JsonV::Int(n),
            ))
            &&& p.get("total"@) == Some(credits::package_total(raw))
            &&& p.get("remaining"@) == Some(credits::package_remaining(raw))
            &&& p.get("used"@) == Some(credits::package_used(raw))
        }),
{
    package_names();
    reveal_with_fuel(credits::first_from, 3);
}

/// Until when the credits of a package can be used is read from the first member that
/// says so, and likewise until when its cycle lasts.
pub proof fn ends_are_read_from_the_package(raw: JsonV)
    ensures
        raw.get("DeductionEndTime"@) matches Some(x) ==> credits::first_from(raw, credits::deduction_keys(), 0) == Some(
            x,
        ),
        raw.get("DeductionEndTime"@) is None ==> (raw.get("deductionEndTime"@) matches Some(x) ==> credits::first_from(
            raw,
            credits::deduction_keys(),
            0,
        ) == Some(x)),
        raw.get("DeductionEndTime"@) is None && raw.get("deductionEndTime"@) is None ==> (raw.get(
            "ExpiredTime"@,
        ) matches Some(x) ==> credits::first_from(raw, credits::deduction_keys(), 0) == Some(x)),
        raw.get("DeductionEndTime"@) is None && raw.get("deductionEndTime"@) is None && raw.get("ExpiredTime"@) is None
            ==> credits::first_from(raw, credits::deduction_keys(), 0) == raw.get("expiredTime"@),
        raw.get("CycleEndTime"@) matches Some(x) ==> credits::first_from(raw, credits::cycle_keys(), 0) == Some(x),
        raw.get("CycleEndTime"@) is None ==> credits::first_from(raw, credits::cycle_keys(), 0) == raw.get(
            "cycleEndTime"@,
        ),
{
    reveal_with_fuel(credits::first_from, 5);
}

/// A time that is a whole number is one of seconds below ten billion, else of
/// milliseconds.
pub proof fn times_are_seconds_or_milliseconds(n: int)
    ensures
        0 <= n < 10_000_000_000 ==> credits::time_reading(Some(JsonV::Int(n))) == TimeReadingV::At(n * 1000),
        10_000_000_000 <= n <= 9_007_199_254_740_992 ==> credits::time_reading(Some(JsonV::Int(n)))
            == TimeReadingV::At(n),
        credits::time_reading(None) == TimeReadingV::Nothing,
{
}

/// Merging keeps every package that has details, and of the others each whose code no
/// package with details bears, in their order.
pub proof fn merging_adds_what_has_no_details(summary: Seq<JsonV>, details: Seq<JsonV>)
    ensures
        credits::merged(summary, details) == details + summary.filter(
            |r: JsonV|
                !(exists|i: int|
                    0 <= i < details.len() && credits::code_in(#[trigger] details[i]) is Some && credits::code_in(
                        details[i],
                    ) == credits::code_in(r)),
        ),
    decreases summary.len(),
{
    let keep = |r: JsonV|
        !(exists|i: int|
            0 <= i < details.len() && credits::code_in(#[trigger] details[i]) is Some && credits::code_in(details[i])
                == credits::code_in(r));
    reveal(Seq::filter);
    if summary.len() > 0 {
        let front = summary.subrange(0, summary.len() - 1);
        let last = summary[summary.len() - 1];
        assert(front =~= summary.drop_last());
        merging_adds_what_has_no_details(front, details);
        assert(credits::uncovered(front, details) =~= credits::merged(front, details).skip(details.len() as int));
        assert(front.filter(keep) =~= (details + front.filter(keep)).skip(details.len() as int));
        if keep(last) {
            if credits::code_in(last) is Some && credits::has_code(details, credits::code_in(last)->0) {
                let k = choose|i: int|
                    0 <= i < details.len() && credits::code_in(#[trigger] details[i]) == Some(
                        credits::code_in(last)->0,
                    );
                assert(credits::code_in(details[k]) is Some && credits::code_in(details[k]) == credits::code_in(last));
            }
            assert(credits::uncovered(summary, details) == credits::uncovered(front, details).push(last));
        } else {
            let k = choose|i: int|
                0 <= i < details.len() && credits::code_in(#[trigger] details[i]) is Some && credits::code_in(
                    details[i],
                ) == credits::code_in(last);
            assert(credits::has_code(details, credits::code_in(last)->0));
            assert(credits::uncovered(summary, details) == credits::uncovered(front, details));
        }
    } else {
        assert(details + summary.filter(keep) =~= details);
        assert(credits::merged(summary, details) =~= details);
    }
}

/// The packages with details are those of the answer on paid packages and after them
/// those of the answer on free ones, each where it succeeded; only where none of the
/// answers lists anything is there nothing.
pub proof fn details_are_the_paid_and_the_free(summary: JsonV, paid: JsonV, free: JsonV)
    ensures
        credits::succeeded(paid) && credits::succeeded(free) ==> (credits::listed(
            paid,
            "Accounts"@,
            "accounts"@,
        ) matches Some(p) ==> (credits::listed(free, "Accounts"@, "accounts"@) matches Some(f) ==> (credits::new_lists(
            summary,
            paid,
            free,
        ) matches Some(l) && l.1 == p + f))),
        !credits::succeeded(summary) && !credits::succeeded(paid) && !credits::succeeded(free) ==> credits::new_lists(
            summary,
            paid,
            free,
        ) is None,
        credits::succeeded(summary) ==> (credits::listed(summary, "Packages"@, "packages"@) matches Some(s) ==> (
        credits::new_lists(summary, paid, free) matches Some(l) && l.0 == s)),
{
}

/// A list is found in the data of an answer.
pub proof fn lists_are_found_in_the_data(resp: JsonV, data: JsonV, upper: Seq<char>, lower: Seq<char>, s: Seq<JsonV>)
    requires
        resp.get("data"@) == Some(data),
    ensures
        data.get(upper) == Some(JsonV::Arr(s)) ==> credits::listed(resp, upper, lower) == Some(s),
        data.get(upper) is None && data.get("data"@) is None && data.get("Response"@) is None && data.get(lower) == Some(
            JsonV::Arr(s),
        ) ==> credits::listed(resp, upper, lower) == Some(s),
{
    reveal_with_fuel(credits::at_path, 6);
    reveal_with_fuel(credits::list_from, 7);
    let paths = credits::list_paths(upper, lower);
    assert(paths.len() == 6);
}

/// An answer succeeded where its code is 0 or 200, and failed with any other code; a code
/// may stand in its data.
pub proof fn codes_tell_success(resp: JsonV, code: int)
    requires
        resp is Obj,
        i64::MIN <= code <= i64::MAX,
        resp.get("code"@) == Some(JsonV::Int(code)) || (resp.get("code"@) is None && (resp.get("data"@) matches Some(d)
            && d.get("code"@) == Some(JsonV::Int(code)))),
    ensures
        credits::succeeded(resp) == (code == 0 || code == 200),
        (code == 401 || code == 403) ==> credits::unauthorized(resp),
        code == 10085 ==> !credits::unauthorized(resp),
{
}

/// What an answer that failed says is told, its first 160 characters.
pub proof fn failures_are_told_as_said(acc: JsonV, resp: JsonV, said: Seq<char>)
    requires
        resp.get("message"@) == Some(JsonV::Str(said)),
        text::trim(said).len() > 0,
    ensures
        said.len() <= 160 ==> credits::error_of(resp) == said,
        said.len() > 160 ==> credits::error_of(resp) == said.subrange(0, 160),
        credits::no_credits(acc, said).get("ok"@) == Some(JsonV::Bool(false)),
        credits::no_credits(acc, said).get("error"@) == Some(JsonV::Str(said)),
        acc.get("id"@) matches Some(id) ==> credits::no_credits(acc, said).get("accountId"@) == Some(id),
{
    failure_names();
    if said.len() <= 160 {
        assert(text::head(said, 160) =~= said);
    }
}

/// The newer requests are answered where one of them lists something, else the older one
/// is made; a refused token is renewed first, where the account has what to renew it
/// with.
pub proof fn queries_fall_back(a: AnswersV, token: Seq<char>)
    ensures
        credits::unauthorized(a.summary) && a.account.get("refresh_token"@) == Some(JsonV::Str(token)) && text::trim(
            token,
        ).len() > 0 ==> credits::after_step(CreditStep::Newer, a) == CreditStep::NewerAgain,
        !credits::unauthorized(a.summary) && !credits::unauthorized(a.paid) && !credits::unauthorized(a.free)
            ==> credits::after_step(CreditStep::Newer, a) == (if credits::new_lists(a.summary, a.paid, a.free) is Some {
            CreditStep::TellNewer
        } else {
            CreditStep::Older { renewed: false }
        }),
        credits::after_step(CreditStep::NewerAgain, a) == (if credits::new_lists(a.summary, a.paid, a.free) is Some {
            CreditStep::TellNewer
        } else {
            CreditStep::Older { renewed: true }
        }),
        credits::unauthorized(a.older) && a.account.get("refresh_token"@) == Some(JsonV::Str(token)) && token.len() > 0
            ==> credits::after_step(CreditStep::Older { renewed: false }, a) == CreditStep::OlderAgain,
        credits::after_step(CreditStep::Older { renewed: true }, a) == CreditStep::TellOlder,
{
}

/// Each edition, and within the domestic one each domain, is asked at its own address.
pub proof fn editions_are_asked_at_their_address(acc: JsonV)
    ensures
        variant::variant_in(acc) == WbVariant::Ai ==> credits::base_of(acc) == "https://www.workbuddy.ai"@,
        variant::variant_in(acc) == WbVariant::Cn && acc.get("domain"@) is None ==> credits::base_of(acc)
            == "https://www.codebuddy.cn"@,
{
}

/// What is told of the packages is told of each of them in its place, with its own ends.
pub proof fn every_package_is_told(raws: Seq<JsonV>, ends: Seq<(Option<i64>, Option<i64>)>, now: int, i: int)
    requires
        ends.len() == raws.len(),
        0 <= i < raws.len(),
    ensures
        credits::packages(raws, ends, now).len() == raws.len(),
        credits::packages(raws, ends, now)[i] == credits::package(
            raws[i],
            json::opt_int(ends[i].0),
            json::opt_int(ends[i].1),
            now,
        ),
{
}

/// Any word that speaks of a login will do.
pub proof fn words_speak_of_a_login(m: Seq<char>)
    ensures
        text::has(m, "unauthorized"@) ==> credits::speaks_of_login(m),
        text::has(m, "401"@) ==> credits::speaks_of_login(m),
        text::has(m, "登录"@) ==> credits::speaks_of_login(m),
        text::has(m, "失效"@) ==> credits::speaks_of_login(m),
        text::has(m, "过期"@) ==> credits::speaks_of_login(m),
        text::has(m, "token"@) ==> credits::speaks_of_login(m),
{
}

/// A request that did not get through is sent once more; a path that does not exist is
/// passed; any other answer is the answer.
pub proof fn requests_are_sent_once_more(paths: usize, path: usize, resp: JsonV, said: Seq<char>)
    requires
        path + 1 < paths,
    ensures
        resp.get("code"@) == Some(JsonV::Int(-1)) && resp.get("message"@) == Some(JsonV::Str(said)) && text::trim(
            said,
        ).len() > 0 ==> credits::after_post(paths as int, PostStep::Send { path, again: false }, resp) == (
        PostStep::Send { path, again: true }) && credits::after_post(
            paths as int,
            PostStep::Send { path, again: true },
            resp,
        ) == PostStep::Answered,
        resp.get("code"@) == Some(JsonV::Int(404)) ==> credits::after_post(
            paths as int,
            PostStep::Send { path, again: false },
            resp,
        ) == (PostStep::Send { path: (path + 1) as usize, again: false }),
        resp.get("code"@) == Some(JsonV::Int(404)) ==> credits::after_post(
            path + 1,
            PostStep::Send { path, again: false },
            resp,
        ) == PostStep::Answered,
        resp.get("code"@) == Some(JsonV::Int(0)) ==> credits::after_post(
            paths as int,
            PostStep::Send { path, again: false },
            resp,
        ) == PostStep::Answered,
{
}

proof fn body_names()
    ensures
        "PageNumber"@ != "PageSize"@,
        "PageNumber"@ != "ProductCode"@,
        "PageNumber"@ != "Status"@,
        "PageNumber"@ != "PackageEndTimeRangeBegin"@,
        "PageNumber"@ != "PackageEndTimeRangeEnd"@,
        "PageSize"@ != "ProductCode"@,
        "PageSize"@ != "Status"@,
        "PageSize"@ != "PackageEndTimeRangeBegin"@,
        "PageSize"@ != "PackageEndTimeRangeEnd"@,
        "ProductCode"@ != "Status"@,
        "ProductCode"@ != "PackageEndTimeRangeBegin"@,
        "ProductCode"@ != "PackageEndTimeRangeEnd"@,
        "Status"@ != "PackageEndTimeRangeBegin"@,
        "Status"@ != "PackageEndTimeRangeEnd"@,
        "PackageEndTimeRangeBegin"@ != "PackageEndTimeRangeEnd"@,
{
    reveal_strlit("PageNumber");
    reveal_strlit("PageSize");
    reveal_strlit("ProductCode");
    reveal_strlit("Status");
    reveal_strlit("PackageEndTimeRangeBegin");
    reveal_strlit("PackageEndTimeRangeEnd");
    assert("PageNumber"@.len() == 10);
    assert("PageSize"@.len() == 8);
    assert("ProductCode"@.len() == 11);
    assert("Status"@.len() == 6);
    assert("PackageEndTimeRangeBegin"@.len() == 24);
    assert("PackageEndTimeRangeEnd"@.len() == 22);
}

/// The older request asks for the first hundred packages in use that end within a span.
pub proof fn older_requests_ask_for_a_span(begin: Seq<char>, end: Seq<char>)
    ensures
        ({
            let b = credits::legacy_body(begin, end);
            &&& b.get("PageNumber"@) == Some(JsonV::Int(1))
            &&& b.get("PageSize"@) == Some(JsonV::Int(100))
            &&& b.get("ProductCode"@) == Some(JsonV::Str("p_tcaca"@))
            &&& b.get("Status"@) == Some(JsonV::Arr(seq![JsonV::Int(0), JsonV::Int(3)]))
            &&& b.get("PackageEndTimeRangeBegin"@) == Some(JsonV::Str(begin))
            &&& b.get("PackageEndTimeRangeEnd"@) == Some(JsonV::Str(end))
        }),
{
    body_names();
}

} // verus!
