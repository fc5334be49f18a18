//! The ledger of rate limits: quota hits merged into events, attributed to
//! accounts and summed up per account and model; and which logs have to be
//! scanned at all.
use vstd::prelude::*;
use crate::account;
use crate::json;
use crate::json::{Json, JsonV};
use crate::log_scan;
use crate::log_scan::{AuthMarker, Hit, HitV, LogFormat};
use crate::paths;
use crate::text;
use crate::textmap;
use crate::textmap::TextMap;
use crate::variant;
use crate::variant::WbVariant;

verus! {

/// The directory of logs in a client's data.
pub const LOG_DIR_NAME: &'static str = "logs";

/// Days that the log window covers.
pub const WINDOW_DAYS: i64 = 2;

/// A day in milliseconds.
pub const DAY_MS: i64 = 86_400_000;

/// The data of CodeBuddy CLI, in the home directory.
pub const CLI_DATA_DIR: &'static str = ".codebuddy";

/// The directory of the state of CodeBuddy CLI, in the home directory.
pub const CLI_ROTATE_DIR: &'static str = ".codebuddy-rotate";

/// The state of CodeBuddy CLI.
pub const CLI_STATE_FILE: &'static str = "state.json";

/// The state of the international editor, in the store.
pub const IDE_STATE_FILE: &'static str = "codebuddy_ide.json";

/// The state of the domestic editor, in the store.
pub const CN_IDE_STATE_FILE: &'static str = "codebuddy_cn_ide.json";

/// The settings of a client that can have a hook.
pub const SETTINGS_FILE_NAME: &'static str = "settings.json";

/// The directory of an editor's logs beside those of other extensions.
pub const IDE_LOG_DIR_NAME: &'static str = "Tencent-Cloud.coding-copilot";

/// Two hits with one reset time at most this far apart are one event.
pub const MERGE_WINDOW_MS: i64 = 15_000;

/// The least time between two scans.
pub const SCAN_MIN_INTERVAL_MS: i64 = 300_000;

/// One quota event.
#[derive(Debug)]
pub struct Event {
    pub session_id: Option<String>,
    pub model: Option<String>,
    pub reset_at: i64,
    pub first_seen_at: i64,
    pub hit_count: u32,
    pub uid: Option<String>,
}

/// What an event means.
#[verifier::ext_equal]
pub struct EventV {
    pub session_id: Option<Seq<char>>,
    pub model: Option<Seq<char>>,
    pub reset_at: int,
    pub first_seen_at: int,
    pub hit_count: int,
    pub uid: Option<Seq<char>>,
}

impl Event {
    pub open spec fn view(&self) -> EventV {
        EventV {
            session_id: json::opt_string(self.session_id),
            model: json::opt_string(self.model),
            reset_at: self.reset_at as int,
            first_seen_at: self.first_seen_at as int,
            hit_count: self.hit_count as int,
            uid: json::opt_string(self.uid),
        }
    }
}

/// The events of a list.
pub open spec fn events_view(s: Seq<Event>) -> Seq<EventV> {
    s.map_values(|e: Event| e@)
}

/// Two writings of one event as one: a missing model, session or account is
/// filled in, the earlier time counts and the hits add up.
pub open spec fn merged(a: EventV, b: EventV) -> EventV {
    EventV {
        session_id: log_scan::either(a.session_id, b.session_id),
        model: log_scan::either(a.model, b.model),
        reset_at: a.reset_at,
        first_seen_at: if b.first_seen_at < a.first_seen_at {
            b.first_seen_at
        } else {
            a.first_seen_at
        },
        hit_count: a.hit_count + b.hit_count,
        uid: log_scan::either(a.uid, b.uid),
    }
}

/// The event that a single hit makes.
pub open spec fn event_of(h: HitV) -> EventV {
    EventV {
        session_id: h.session_id,
        model: h.model,
        reset_at: h.reset_at,
        first_seen_at: h.occurred_at,
        hit_count: 1,
        uid: h.uid,
    }
}

impl Event {
    /// Takes in another writing of the event.
    pub fn merge(&mut self, other: Event)
        requires
            old(self).hit_count + other.hit_count <= u32::MAX,
        ensures
            final(self)@ == merged(old(self)@, other@),
    {
        if self.model.is_none() {
            self.model = other.model;
        }
        if self.session_id.is_none() {
            self.session_id = other.session_id;
        }
        if self.uid.is_none() {
            self.uid = other.uid;
        }
        if other.first_seen_at < self.first_seen_at {
            self.first_seen_at = other.first_seen_at;
        }
        self.hit_count = self.hit_count + other.hit_count;
    }
}

/// The events with one more hit: it goes into the event with its session and
/// reset time, or becomes a new one.
pub open spec fn grouped(events: Seq<EventV>, e: EventV, i: int) -> Seq<EventV>
    decreases events.len() - i,
{
    if i < 0 || i >= events.len() {
        events.push(e)
    } else if events[i].session_id == e.session_id && events[i].reset_at == e.reset_at {
        events.update(i, merged(events[i], e))
    } else {
        grouped(events, e, i + 1)
    }
}

/// The hits from `i` on, grouped by session and reset time.
pub open spec fn group_from(events: Seq<EventV>, hits: Seq<HitV>, i: int) -> Seq<EventV>
    decreases hits.len() - i,
{
    if i < 0 || i >= hits.len() {
        events
    } else {
        group_from(grouped(events, event_of(hits[i]), 0), hits, i + 1)
    }
}

/// No session comes before any; sessions come in dictionary order.
pub open spec fn option_less(a: Option<Seq<char>>, b: Option<Seq<char>>) -> bool {
    match (a, b) {
        (None, Some(_)) => true,
        (Some(x), Some(y)) => text::less(x, y),
        _ => false,
    }
}

/// The order of events: by reset time, then by first time, then by session.
pub open spec fn event_less(a: EventV, b: EventV) -> bool {
    ||| a.reset_at < b.reset_at
    ||| a.reset_at == b.reset_at && a.first_seen_at < b.first_seen_at
    ||| a.reset_at == b.reset_at && a.first_seen_at == b.first_seen_at && option_less(
        a.session_id,
        b.session_id,
    )
}

/// Puts an event into an ordered list, before the first that comes after it.
pub open spec fn placed(events: Seq<EventV>, e: EventV, i: int) -> Seq<EventV>
    decreases events.len() - i,
{
    if i < 0 || i >= events.len() {
        events.push(e)
    } else if event_less(e, events[i]) {
        events.insert(i, e)
    } else {
        placed(events, e, i + 1)
    }
}

/// The events from `i` on, put in order.
pub open spec fn order_from(done: Seq<EventV>, events: Seq<EventV>, i: int) -> Seq<EventV>
    decreases events.len() - i,
{
    if i < 0 || i >= events.len() {
        done
    } else {
        order_from(placed(done, events[i], 0), events, i + 1)
    }
}

/// Whether an event follows another so closely that they are one.
pub open spec fn close(last: EventV, e: EventV) -> bool {
    last.reset_at == e.reset_at && e.first_seen_at - last.first_seen_at <= MERGE_WINDOW_MS
}

/// The list with one more event, which the last one takes in where they are close.
pub open spec fn joined(done: Seq<EventV>, e: EventV) -> Seq<EventV> {
    if done.len() > 0 && close(done[done.len() - 1], e) {
        done.update(done.len() - 1, merged(done[done.len() - 1], e))
    } else {
        done.push(e)
    }
}

/// The events from `i` on, close ones joined.
pub open spec fn join_from(done: Seq<EventV>, events: Seq<EventV>, i: int) -> Seq<EventV>
    decreases events.len() - i,
{
    if i < 0 || i >= events.len() {
        done
    } else {
        join_from(joined(done, events[i]), events, i + 1)
    }
}

/// The events that a list of hits amounts to: one per session and reset time,
/// and of those in order the close ones once more as one.
pub open spec fn deduped(hits: Seq<HitV>) -> Seq<EventV> {
    let groups = group_from(Seq::empty(), hits, 0);
    join_from(Seq::empty(), order_from(Seq::empty(), groups, 0), 0)
}

/// The hits of a list of events, added up.
pub open spec fn total_hits(events: Seq<EventV>) -> int
    decreases events.len(),
{
    if events.len() == 0 {
        0
    } else {
        total_hits(events.subrange(0, events.len() - 1)) + events[events.len() - 1].hit_count
    }
}

proof fn total_push(s: Seq<EventV>, e: EventV)
    ensures
        total_hits(s.push(e)) == total_hits(s) + e.hit_count,
{
    assert(s.push(e).subrange(0, s.len() as int) =~= s);
}

proof fn total_update(s: Seq<EventV>, i: int, e: EventV)
    requires
        0 <= i < s.len(),
    ensures
        total_hits(s.update(i, e)) == total_hits(s) - s[i].hit_count + e.hit_count,
    decreases s.len(),
{
    let n = s.len() - 1;
    if i == n {
        assert(s.update(i, e).subrange(0, n) =~= s.subrange(0, n));
    } else {
        assert(s.update(i, e).subrange(0, n) =~= s.subrange(0, n).update(i, e));
        total_update(s.subrange(0, n), i, e);
    }
}

proof fn total_insert(s: Seq<EventV>, i: int, e: EventV)
    requires
        0 <= i <= s.len(),
    ensures
        total_hits(s.insert(i, e)) == total_hits(s) + e.hit_count,
    decreases s.len(),
{
    let n = s.len() - 1;
    if i == s.len() {
        assert(s.insert(i, e) =~= s.push(e));
        total_push(s, e);
    } else {
        assert(s.insert(i, e).subrange(0, s.len() as int) =~= s.subrange(0, n).insert(i, e));
        total_insert(s.subrange(0, n), i, e);
    }
}

/// A hit grouped in adds its count.
proof fn total_grouped(s: Seq<EventV>, e: EventV, i: int)
    ensures
        total_hits(grouped(s, e, i)) == total_hits(s) + e.hit_count,
    decreases s.len() - i,
{
    if i < 0 || i >= s.len() {
        total_push(s, e);
    } else if s[i].session_id == e.session_id && s[i].reset_at == e.reset_at {
        total_update(s, i, merged(s[i], e));
    } else {
        total_grouped(s, e, i + 1);
    }
}

proof fn total_placed(s: Seq<EventV>, e: EventV, i: int)
    ensures
        total_hits(placed(s, e, i)) == total_hits(s) + e.hit_count,
    decreases s.len() - i,
{
    if i < 0 || i >= s.len() {
        total_push(s, e);
    } else if event_less(e, s[i]) {
        total_insert(s, i, e);
    } else {
        total_placed(s, e, i + 1);
    }
}

proof fn total_joined(s: Seq<EventV>, e: EventV)
    ensures
        total_hits(joined(s, e)) == total_hits(s) + e.hit_count,
{
    if s.len() > 0 && close(s[s.len() - 1], e) {
        total_update(s, s.len() - 1, merged(s[s.len() - 1], e));
    } else {
        total_push(s, e);
    }
}

proof fn total_group_from(s: Seq<EventV>, hits: Seq<HitV>, i: int)
    requires
        0 <= i <= hits.len(),
    ensures
        total_hits(group_from(s, hits, i)) == total_hits(s) + hits.len() - i,
    decreases hits.len() - i,
{
    if i < hits.len() {
        total_grouped(s, event_of(hits[i]), 0);
        total_group_from(grouped(s, event_of(hits[i]), 0), hits, i + 1);
    }
}

proof fn total_prefix(s: Seq<EventV>, i: int)
    requires
        0 <= i < s.len(),
    ensures
        total_hits(s.subrange(0, i + 1)) == total_hits(s.subrange(0, i)) + s[i].hit_count,
{
    assert(s.subrange(0, i + 1).subrange(0, i) =~= s.subrange(0, i));
}

proof fn total_order_from(done: Seq<EventV>, s: Seq<EventV>, i: int)
    requires
        0 <= i <= s.len(),
    ensures
        total_hits(order_from(done, s, i)) == total_hits(done) + total_hits(s) - total_hits(s.subrange(0, i)),
    decreases s.len() - i,
{
    if i < s.len() {
        total_placed(done, s[i], 0);
        total_prefix(s, i);
        total_order_from(placed(done, s[i], 0), s, i + 1);
    } else {
        assert(s.subrange(0, i) =~= s);
    }
}

proof fn total_join_from(done: Seq<EventV>, s: Seq<EventV>, i: int)
    requires
        0 <= i <= s.len(),
    ensures
        total_hits(join_from(done, s, i)) == total_hits(done) + total_hits(s) - total_hits(s.subrange(0, i)),
    decreases s.len() - i,
{
    if i < s.len() {
        total_joined(done, s[i]);
        total_prefix(s, i);
        total_join_from(joined(done, s[i]), s, i + 1);
    } else {
        assert(s.subrange(0, i) =~= s);
    }
}

/// Merging loses and invents no hit: the counts of the events add up to the
/// number of hits.
pub proof fn dedupe_keeps_hits(hits: Seq<HitV>)
    ensures
        total_hits(deduped(hits)) == hits.len(),
{
    let none = Seq::<EventV>::empty();
    let groups = group_from(none, hits, 0);
    let ordered = order_from(none, groups, 0);
    total_group_from(none, hits, 0);
    total_order_from(none, groups, 0);
    total_join_from(none, ordered, 0);
    assert(groups.subrange(0, 0) =~= none);
    assert(ordered.subrange(0, 0) =~= none);
}

/// No two neighbours of the merged events could still be one event.
pub open spec fn settled(events: Seq<EventV>) -> bool {
    forall|i: int| 0 <= i < events.len() - 1 ==> !close(#[trigger] events[i], events[i + 1])
}

/// The events are in order of reset time and, within one reset time, of first time.
pub open spec fn ordered(events: Seq<EventV>) -> bool {
    forall|i: int, j: int|
        0 <= i < j < events.len() ==> (#[trigger] events[i]).reset_at < (#[trigger] events[j]).reset_at || (
        events[i].reset_at == events[j].reset_at && events[i].first_seen_at <= events[j].first_seen_at)
}

proof fn ordered_placed(s: Seq<EventV>, e: EventV, i: int)
    requires
        ordered(s),
        0 <= i <= s.len(),
        forall|j: int| 0 <= j < i ==> !event_less(e, #[trigger] s[j]),
    ensures
        ordered(placed(s, e, i)),
    decreases s.len() - i,
{
    if i < s.len() && !event_less(e, s[i]) {
        ordered_placed(s, e, i + 1);
    }
}

proof fn ordered_order_from(done: Seq<EventV>, s: Seq<EventV>, i: int)
    requires
        ordered(done),
        0 <= i <= s.len(),
    ensures
        ordered(order_from(done, s, i)),
    decreases s.len() - i,
{
    if i < s.len() {
        ordered_placed(done, s[i], 0);
        ordered_order_from(placed(done, s[i], 0), s, i + 1);
    }
}

proof fn settled_join_from(done: Seq<EventV>, s: Seq<EventV>, i: int)
    requires
        0 <= i <= s.len(),
        ordered(s),
        ordered(done),
        settled(done),
        forall|j: int, k: int|
            0 <= j < done.len() && i <= k < s.len() ==> (#[trigger] done[j]).reset_at < (#[trigger] s[k]).reset_at || (
            done[j].reset_at == s[k].reset_at && done[j].first_seen_at <= s[k].first_seen_at),
    ensures
        settled(join_from(done, s, i)),
        ordered(join_from(done, s, i)),
    decreases s.len() - i,
{
    if i < s.len() {
        let next = joined(done, s[i]);
        if done.len() > 0 && close(done[done.len() - 1], s[i]) {
            let last = done[done.len() - 1];
            assert(merged(last, s[i]).first_seen_at == last.first_seen_at);
            assert forall|j: int| 0 <= j < next.len() - 1 implies !close(#[trigger] next[j], next[j + 1]) by {
                assert(!close(done[j], done[j + 1]));
            }
        }
        settled_join_from(next, s, i + 1);
    }
}

/// The merged events are in order, and no two neighbours with one reset time
/// lie within the merge window of each other.
pub proof fn dedupe_separates(hits: Seq<HitV>)
    ensures
        ordered(deduped(hits)),
        settled(deduped(hits)),
{
    let none = Seq::<EventV>::empty();
    let groups = group_from(none, hits, 0);
    ordered_order_from(none, groups, 0);
    settled_join_from(none, order_from(none, groups, 0), 0);
}

/// A count is no more than the total.
proof fn count_within(s: Seq<EventV>, i: int)
    requires
        0 <= i < s.len(),
        forall|j: int| 0 <= j < s.len() ==> (#[trigger] s[j]).hit_count >= 0,
    ensures
        0 <= s[i].hit_count <= total_hits(s),
    decreases s.len(),
{
    let t = s.subrange(0, s.len() - 1);
    if i < s.len() - 1 {
        count_within(t, i);
    } else {
        total_nonneg(t);
    }
}

proof fn total_nonneg(s: Seq<EventV>)
    requires
        forall|j: int| 0 <= j < s.len() ==> (#[trigger] s[j]).hit_count >= 0,
    ensures
        total_hits(s) >= 0,
    decreases s.len(),
{
    if s.len() > 0 {
        total_nonneg(s.subrange(0, s.len() - 1));
    }
}

fn same_option(a: &Option<String>, b: &Option<String>) -> (r: bool)
    ensures
        r == (json::opt_string(*a) == json::opt_string(*b)),
{
    match (a, b) {
        (None, None) => true,
        (Some(x), Some(y)) => text::same(x.as_str(), y.as_str()),
        _ => false,
    }
}

fn option_before(a: &Option<String>, b: &Option<String>) -> (r: bool)
    ensures
        r == option_less(json::opt_string(*a), json::opt_string(*b)),
{
    match (a, b) {
        (None, Some(_)) => true,
        (Some(x), Some(y)) => text::comes_before(x.as_str(), y.as_str()),
        _ => false,
    }
}

fn event_before(a: &Event, b: &Event) -> (r: bool)
    ensures
        r == event_less(a@, b@),
{
    a.reset_at < b.reset_at || (a.reset_at == b.reset_at && a.first_seen_at < b.first_seen_at) || (a.reset_at
        == b.reset_at && a.first_seen_at == b.first_seen_at && option_before(&a.session_id, &b.session_id))
}

/// Takes the event out of position `i` and puts back what it becomes with `e`.
fn merge_at(events: &mut Vec<Event>, i: usize, e: Event)
    requires
        i < old(events)@.len(),
        old(events)@[i as int].hit_count + e.hit_count <= u32::MAX,
    ensures
        events_view(final(events)@) == events_view(old(events)@).update(
            i as int,
            merged(old(events)@[i as int]@, e@),
        ),
{
    let ghost before = events@;
    let mut taken: Event = events.remove(i);
    taken.merge(e);
    events.insert(i, taken);
    assert(events_view(events@) =~= events_view(before).update(i as int, merged(before[i as int]@, e@)));
}

fn group_in(events: &mut Vec<Event>, e: Event)
    requires
        total_hits(events_view(old(events)@)) + e.hit_count <= u32::MAX,
    ensures
        events_view(final(events)@) == grouped(events_view(old(events)@), e@, 0),
{
    let ghost before = events_view(events@);
    let mut i: usize = 0;
    while i < events.len()
        invariant
            i <= events@.len(),
            events_view(events@) == before,
            before == events_view(old(events)@),
            total_hits(before) + e.hit_count <= u32::MAX,
            grouped(before, e@, 0) == grouped(before, e@, i as int),
        decreases events@.len() - i,
    {
        if same_option(&events[i].session_id, &e.session_id) && events[i].reset_at == e.reset_at {
            proof {
                count_within(before, i as int);
                assert(before[i as int] == events@[i as int]@);
            }
            merge_at(events, i, e);
            return;
        }
        assert(before[i as int] == events@[i as int]@);
        i += 1;
    }
    let ghost held = events@;
    events.push(e);
    assert(events_view(events@) =~= events_view(held).push(e@));
}

fn place_in(events: &mut Vec<Event>, e: Event)
    ensures
        events_view(final(events)@) == placed(events_view(old(events)@), e@, 0),
{
    let ghost before = events_view(events@);
    let ghost held = events@;
    let mut i: usize = 0;
    while i < events.len()
        invariant
            i <= events@.len(),
            events@ == held,
            events_view(events@) == before,
            before == events_view(old(events)@),
            placed(before, e@, 0) == placed(before, e@, i as int),
        decreases events@.len() - i,
    {
        assert(before[i as int] == events@[i as int]@);
        if event_before(&e, &events[i]) {
            events.insert(i, e);
            assert(events_view(events@) =~= before.insert(i as int, e@));
            return;
        }
        i += 1;
    }
    events.push(e);
    assert(events_view(events@) =~= before.push(e@));
}

fn join_in(events: &mut Vec<Event>, e: Event)
    requires
        total_hits(events_view(old(events)@)) + e.hit_count <= u32::MAX,
    ensures
        events_view(final(events)@) == joined(events_view(old(events)@), e@),
{
    let ghost before = events_view(events@);
    let ghost held = events@;
    let n: usize = events.len();
    if n > 0 && events[n - 1].reset_at == e.reset_at && e.first_seen_at as i128 - events[n - 1].first_seen_at as i128
        <= MERGE_WINDOW_MS as i128 {
        proof {
            count_within(before, n - 1);
            assert(before[n - 1] == held[n - 1]@);
        }
        merge_at(events, n - 1, e);
    } else {
        assert(n > 0 ==> before[n - 1] == held[n - 1]@);
        events.push(e);
        assert(events_view(events@) =~= before.push(e@));
    }
}

/// Merges hits into events, in two steps: hits with one session and reset time
/// are one event, and so are events with one reset time whose first times lie
/// within `MERGE_WINDOW_MS` of each other.
pub fn dedupe(hits: Vec<Hit>) -> (events: Vec<Event>)
    requires
        hits@.len() <= u32::MAX,
    ensures
        events_view(events@) == deduped(log_scan::hits_view(hits@)),
{
    let ghost all = log_scan::hits_view(hits@);
    let ghost none = Seq::<EventV>::empty();
    let mut groups: Vec<Event> = Vec::new();
    assert(events_view(groups@) =~= none);
    let mut i: usize = 0;
    while i < hits.len()
        invariant
            i <= hits@.len() <= u32::MAX,
            all == log_scan::hits_view(hits@),
            group_from(none, all, 0) == group_from(events_view(groups@), all, i as int),
            total_hits(events_view(groups@)) == i,
        decreases hits@.len() - i,
    {
        let h: &Hit = &hits[i];
        let e: Event = Event {
            session_id: h.session_id.clone(),
            model: h.model.clone(),
            reset_at: h.reset_at,
            first_seen_at: h.occurred_at,
            hit_count: 1,
            uid: h.uid.clone(),
        };
        assert(e@ == event_of(all[i as int]));
        proof {
            total_grouped(events_view(groups@), e@, 0);
        }
        group_in(&mut groups, e);
        i += 1;
    }
    let ghost grouped_all = events_view(groups@);
    let mut sorted: Vec<Event> = Vec::new();
    assert(events_view(sorted@) =~= none);
    proof {
        total_order_from(none, grouped_all, 0);
        assert(grouped_all.subrange(0, 0) =~= none);
    }
    let ghost order = order_from(none, grouped_all, 0);
    let ghost mut k: int = 0;
    while groups.len() > 0
        invariant
            0 <= k <= grouped_all.len(),
            events_view(groups@) == grouped_all.subrange(k, grouped_all.len() as int),
            order == order_from(events_view(sorted@), grouped_all, k),
        decreases groups@.len(),
    {
        let ghost before = groups@;
        assert(events_view(before).len() == grouped_all.len() - k);
        let e: Event = groups.remove(0);
        assert(events_view(before)[0] == e@);
        assert(events_view(before)[0] == grouped_all[k]);
        place_in(&mut sorted, e);
        proof {
            k = k + 1;
        }
        assert(events_view(groups@) =~= events_view(before).subrange(1, before.len() as int));
        assert(events_view(groups@) =~= grouped_all.subrange(k, grouped_all.len() as int));
    }
    assert(k == grouped_all.len());
    let mut out: Vec<Event> = Vec::new();
    assert(events_view(out@) =~= none);
    let ghost mut m: int = 0;
    assert(events_view(sorted@) == order);
    assert(order.subrange(0, order.len() as int) =~= order);
    assert(order.subrange(0, 0) =~= none);
    while sorted.len() > 0
        invariant
            0 <= m <= order.len(),
            total_hits(order) <= u32::MAX,
            forall|j: int| 0 <= j < order.len() ==> (#[trigger] order[j]).hit_count >= 0,
            events_view(sorted@) == order.subrange(m, order.len() as int),
            join_from(none, order, 0) == join_from(events_view(out@), order, m),
            total_hits(events_view(out@)) == total_hits(order.subrange(0, m)),
        decreases sorted@.len(),
    {
        let ghost before = sorted@;
        assert(events_view(before).len() == order.len() - m);
        let e: Event = sorted.remove(0);
        assert(events_view(before)[0] == e@);
        assert(events_view(before)[0] == order[m]);
        proof {
            total_prefix(order, m);
            total_within(order, m + 1);
            total_joined(events_view(out@), e@);
        }
        join_in(&mut out, e);
        proof {
            m = m + 1;
        }
        assert(events_view(sorted@) =~= events_view(before).subrange(1, before.len() as int));
        assert(events_view(sorted@) =~= order.subrange(m, order.len() as int));
    }
    assert(m == order.len());
    out
}

/// The total of a prefix is no more than the total.
proof fn total_within(s: Seq<EventV>, i: int)
    requires
        0 <= i <= s.len(),
        forall|j: int| 0 <= j < s.len() ==> (#[trigger] s[j]).hit_count >= 0,
    ensures
        total_hits(s.subrange(0, i)) <= total_hits(s),
    decreases s.len() - i,
{
    if i < s.len() {
        total_within(s, i + 1);
        total_prefix(s, i);
    } else {
        assert(s.subrange(0, i) =~= s);
    }
}

/// An event with the account that it belongs to.
#[derive(Debug)]
pub struct Resolved {
    pub account_id: String,
    pub model: Option<String>,
    pub reset_at: i64,
    pub first_seen_at: i64,
    pub hit_count: u32,
}

/// What an attributed event means.
#[verifier::ext_equal]
pub struct ResolvedV {
    pub account_id: Seq<char>,
    pub model: Option<Seq<char>>,
    pub reset_at: int,
    pub first_seen_at: int,
    pub hit_count: int,
}

impl Resolved {
    pub open spec fn view(&self) -> ResolvedV {
        ResolvedV {
            account_id: self.account_id@,
            model: json::opt_string(self.model),
            reset_at: self.reset_at as int,
            first_seen_at: self.first_seen_at as int,
            hit_count: self.hit_count as int,
        }
    }
}

impl Clone for Resolved {
    fn clone(&self) -> (r: Self)
        ensures
            r@ == self@,
    {
        Resolved {
            account_id: self.account_id.clone(),
            model: self.model.clone(),
            reset_at: self.reset_at,
            first_seen_at: self.first_seen_at,
            hit_count: self.hit_count,
        }
    }
}

/// The attributed events of a list.
pub open spec fn resolved_view(s: Seq<Resolved>) -> Seq<ResolvedV> {
    s.map_values(|r: Resolved| r@)
}

/// The event as one of an account's.
pub open spec fn owned_by(e: EventV, account_id: Seq<char>) -> ResolvedV {
    ResolvedV {
        account_id,
        model: e.model,
        reset_at: e.reset_at,
        first_seen_at: e.first_seen_at,
        hit_count: e.hit_count,
    }
}

/// The events that have an account, by the accounts given for each; an event
/// without one is dropped.
pub open spec fn attributed(events: Seq<EventV>, account: spec_fn(EventV) -> Option<Seq<char>>) -> Seq<ResolvedV>
    decreases events.len(),
{
    if events.len() == 0 {
        Seq::empty()
    } else {
        let rest = attributed(events.subrange(0, events.len() - 1), account);
        let last = events[events.len() - 1];
        match account(last) {
            Some(id) => rest.push(owned_by(last, id)),
            None => rest,
        }
    }
}

fn own(e: &Event, account_id: &str) -> (r: Resolved)
    ensures
        r@ == owned_by(e@, account_id@),
{
    Resolved {
        account_id: account_id.to_owned(),
        model: e.model.clone(),
        reset_at: e.reset_at,
        first_seen_at: e.first_seen_at,
        hit_count: e.hit_count,
    }
}

/// The account of an event by its session.
pub open spec fn account_by_event_session(mapping: Map<Seq<char>, Seq<char>>) -> spec_fn(EventV) -> Option<
    Seq<char>,
> {
    |e: EventV| log_scan::look(mapping, e.session_id)
}

/// Attributes events by their sessions. An event whose session belongs to no
/// known account is dropped, never given to another.
pub fn resolve(events: &[Event], mapping: &TextMap) -> (r: Vec<Resolved>)
    ensures
        resolved_view(r@) == attributed(events_view(events@), account_by_event_session(mapping@)),
{
    let mut r: Vec<Resolved> = Vec::new();
    let mut i: usize = 0;
    let ghost all = events_view(events@);
    let ghost owner = account_by_event_session(mapping@);
    assert(resolved_view(r@) =~= attributed(all.subrange(0, 0), owner));
    while i < events.len()
        invariant
            i <= events@.len(),
            all == events_view(events@),
            owner == account_by_event_session(mapping@),
            resolved_view(r@) == attributed(all.subrange(0, i as int), owner),
        decreases events@.len() - i,
    {
        let ghost held = r@;
        assert(all.subrange(0, i + 1).subrange(0, i as int) =~= all.subrange(0, i as int));
        match &events[i].session_id {
            Some(session) => match mapping.get(session.as_str()) {
                Some(id) => {
                    r.push(own(&events[i], id));
                    assert(resolved_view(r@) =~= resolved_view(held).push(r@[held.len() as int]@));
                },
                None => {},
            },
            None => {},
        }
        i += 1;
    }
    assert(all.subrange(0, all.len() as int) =~= all);
    r
}

/// The account that a client's state file names, and since when.
#[derive(Debug)]
pub struct ActiveAccount {
    pub account_id: Option<String>,
    pub updated_at: Option<i64>,
}

impl ActiveAccount {
    /// The account that the state file vouches for at an instant: it must not
    /// have been written after it.
    pub open spec fn at(self, first_seen_at: int) -> Option<Seq<char>> {
        match (self.account_id, self.updated_at) {
            (Some(id), Some(t)) => if t <= first_seen_at {
                Some(id@)
            } else {
                None
            },
            _ => None,
        }
    }

    /// Reads a client's state. A blank account counts as none.
    pub fn load(state: &Json) -> (r: ActiveAccount)
        ensures
            json::opt_string(r.account_id) == account::str_of(state@, "activeAccountId"@),
            json::opt_int(r.updated_at) == state@.get_i64("updatedAt"@),
    {
        ActiveAccount {
            account_id: account::get_str(state, "activeAccountId"),
            updated_at: state.get_i64("updatedAt"),
        }
    }

    /// The account that the state file vouches for at the time of an event.
    pub fn account_for(&self, first_seen_at: i64) -> (r: Option<&str>)
        ensures
            json::opt_text(r) == self.at(first_seen_at as int),
    {
        match (&self.account_id, self.updated_at) {
            (Some(id), Some(t)) => {
                if t <= first_seen_at {
                    Some(id.as_str())
                } else {
                    None
                }
            },
            _ => None,
        }
    }
}

/// The account of an event by the account logged in, else by the state file.
pub open spec fn account_by_event_uid(uids: Map<Seq<char>, Seq<char>>, fallback: ActiveAccount) -> spec_fn(
    EventV,
) -> Option<Seq<char>> {
    |e: EventV| log_scan::either(log_scan::look(uids, e.uid), fallback.at(e.first_seen_at))
}

/// Attributes events by the account that was logged in, else by the state file
/// where that was written before the event. Any other event is dropped.
pub fn resolve_by_uid(events: &[Event], uid_to_account: &TextMap, fallback: &ActiveAccount) -> (r: Vec<
    Resolved,
>)
    ensures
        resolved_view(r@) == attributed(
            events_view(events@),
            account_by_event_uid(uid_to_account@, *fallback),
        ),
{
    let mut r: Vec<Resolved> = Vec::new();
    let mut i: usize = 0;
    let ghost all = events_view(events@);
    let ghost owner = account_by_event_uid(uid_to_account@, *fallback);
    assert(resolved_view(r@) =~= attributed(all.subrange(0, 0), owner));
    while i < events.len()
        invariant
            i <= events@.len(),
            all == events_view(events@),
            owner == account_by_event_uid(uid_to_account@, *fallback),
            resolved_view(r@) == attributed(all.subrange(0, i as int), owner),
        decreases events@.len() - i,
    {
        let ghost held = r@;
        assert(all.subrange(0, i + 1).subrange(0, i as int) =~= all.subrange(0, i as int));
        let known: Option<&str> = match &events[i].uid {
            Some(uid) => uid_to_account.get(uid.as_str()),
            None => None,
        };
        let account: Option<&str> = match known {
            Some(id) => Some(id),
            None => fallback.account_for(events[i].first_seen_at),
        };
        assert(json::opt_text(account) == owner(all[i as int]));
        match account {
            Some(id) => {
                r.push(own(&events[i], id));
                assert(resolved_view(r@) =~= resolved_view(held).push(r@[held.len() as int]@));
            },
            None => {},
        }
        i += 1;
    }
    assert(all.subrange(0, all.len() as int) =~= all);
    r
}

/// The ids of the accounts by their uids, over the accounts from `i` on; of two
/// accounts with one uid the later counts. `only` may single out an edition.
pub open spec fn uids_from(
    m: Map<Seq<char>, Seq<char>>,
    accounts: Seq<JsonV>,
    i: int,
    only: Option<WbVariant>,
) -> Map<Seq<char>, Seq<char>>
    decreases accounts.len() - i,
{
    if i < 0 || i >= accounts.len() {
        m
    } else if only is Some && variant::variant_in(accounts[i]) != only->0 {
        uids_from(m, accounts, i + 1, only)
    } else {
        uids_from(
            log_scan::note(m, account::str_of(accounts[i], "uid"@), account::str_of(accounts[i], "id"@)),
            accounts,
            i + 1,
            only,
        )
    }
}

/// The ids of the accounts by their uids.
pub fn account_id_by_uid(accounts: &[Json], only: Option<WbVariant>) -> (m: TextMap)
    ensures
        m@ == uids_from(Map::empty(), json::list_view(accounts@), 0, only),
{
    let mut m: TextMap = TextMap::new();
    let mut i: usize = 0;
    while i < accounts.len()
        invariant
            i <= accounts@.len(),
            uids_from(Map::empty(), json::list_view(accounts@), 0, only) == uids_from(
                m@,
                json::list_view(accounts@),
                i as int,
                only,
            ),
        decreases accounts@.len() - i,
    {
        let wanted: bool = match only {
            Some(v) => WbVariant::from_account(&accounts[i]) == v,
            None => true,
        };
        if wanted {
            match (account::get_str(&accounts[i], "uid"), account::get_str(&accounts[i], "id")) {
                (Some(uid), Some(id)) => {
                    m.insert(uid, id);
                },
                _ => {},
            }
        }
        i += 1;
    }
    m
}

/// The accounts of the sessions listed from `i` on: a row gives a session and
/// the user it belongs to.
pub open spec fn sessions_from(
    m: Map<Seq<char>, Seq<char>>,
    rows: Seq<(Option<String>, Option<String>)>,
    uids: Map<Seq<char>, Seq<char>>,
    i: int,
) -> Map<Seq<char>, Seq<char>>
    decreases rows.len() - i,
{
    if i < 0 || i >= rows.len() {
        m
    } else {
        sessions_from(
            log_scan::note(m, json::opt_string(rows[i].0), log_scan::look(uids, json::opt_string(rows[i].1))),
            rows,
            uids,
            i + 1,
        )
    }
}

/// The accounts of sessions, from the rows `(session, user)` of the client's
/// database. A user who is no known account of the edition is left out.
pub fn account_by_session(rows: &[(Option<String>, Option<String>)], uids: &TextMap) -> (m: TextMap)
    ensures
        m@ == sessions_from(Map::empty(), rows@, uids@, 0),
{
    let mut m: TextMap = TextMap::new();
    let mut i: usize = 0;
    while i < rows.len()
        invariant
            i <= rows@.len(),
            sessions_from(Map::empty(), rows@, uids@, 0) == sessions_from(m@, rows@, uids@, i as int),
        decreases rows@.len() - i,
    {
        match (&rows[i].0, &rows[i].1) {
            (Some(session), Some(user)) => match uids.get(user.as_str()) {
                Some(id) => {
                    m.insert(session.clone(), id.to_owned());
                },
                None => {},
            },
            _ => {},
        }
        i += 1;
    }
    m
}

/// The rows with one more: of two with one account and model the one that
/// resets later stays.
pub open spec fn newest(rows: Seq<ResolvedV>, r: ResolvedV, i: int) -> Seq<ResolvedV>
    decreases rows.len() - i,
{
    if i < 0 || i >= rows.len() {
        rows.push(r)
    } else if rows[i].account_id == r.account_id && rows[i].model == r.model {
        if r.reset_at > rows[i].reset_at {
            rows.update(i, r)
        } else {
            rows
        }
    } else {
        newest(rows, r, i + 1)
    }
}

/// Of the rows from `i` on those that are not yet reset at `at`, one for each
/// account and model.
pub open spec fn newest_from(done: Seq<ResolvedV>, rows: Seq<ResolvedV>, i: int, at: int) -> Seq<ResolvedV>
    decreases rows.len() - i,
{
    if i < 0 || i >= rows.len() {
        done
    } else if rows[i].reset_at <= at {
        newest_from(done, rows, i + 1, at)
    } else {
        newest_from(newest(done, rows[i], 0), rows, i + 1, at)
    }
}

/// The limits in force at `at`: for each account and model the last reset time.
pub open spec fn in_force(rows: Seq<ResolvedV>, at: int) -> Seq<ResolvedV> {
    newest_from(Seq::empty(), rows, 0, at)
}

/// No two rows have one account and model, and none is reset yet.
pub open spec fn distinct_rows(rows: Seq<ResolvedV>, at: int) -> bool {
    &&& forall|i: int| 0 <= i < rows.len() ==> (#[trigger] rows[i]).reset_at > at
    &&& forall|i: int, j: int|
        0 <= i < j < rows.len() ==> !((#[trigger] rows[i]).account_id == (#[trigger] rows[j]).account_id
            && rows[i].model == rows[j].model)
}

/// Some row has that account and model and resets no earlier.
pub open spec fn covered(rows: Seq<ResolvedV>, r: ResolvedV) -> bool {
    exists|j: int|
        0 <= j < rows.len() && (#[trigger] rows[j]).account_id == r.account_id && rows[j].model == r.model
            && rows[j].reset_at >= r.reset_at
}

proof fn newest_distinct(rows: Seq<ResolvedV>, r: ResolvedV, i: int, at: int)
    requires
        distinct_rows(rows, at),
        r.reset_at > at,
        0 <= i <= rows.len(),
        forall|j: int|
            0 <= j < i ==> !((#[trigger] rows[j]).account_id == r.account_id && rows[j].model == r.model),
    ensures
        distinct_rows(newest(rows, r, i), at),
        covered(newest(rows, r, i), r),
        forall|q: ResolvedV| covered(rows, q) ==> covered(newest(rows, r, i), q),
    decreases rows.len() - i,
{
    let next = newest(rows, r, i);
    if i >= rows.len() {
        assert(next[rows.len() as int] == r);
        assert forall|q: ResolvedV| covered(rows, q) implies covered(next, q) by {
            let j = choose|j: int|
                0 <= j < rows.len() && (#[trigger] rows[j]).account_id == q.account_id && rows[j].model == q.model
                    && rows[j].reset_at >= q.reset_at;
            assert(next[j] == rows[j]);
        }
    } else if rows[i].account_id == r.account_id && rows[i].model == r.model {
        if r.reset_at > rows[i].reset_at {
            assert(next[i] == r);
            assert forall|q: ResolvedV| covered(rows, q) implies covered(next, q) by {
                let j = choose|j: int|
                    0 <= j < rows.len() && (#[trigger] rows[j]).account_id == q.account_id && rows[j].model
                        == q.model && rows[j].reset_at >= q.reset_at;
                if j != i {
                    assert(next[j] == rows[j]);
                }
            }
        }
    } else {
        newest_distinct(rows, r, i + 1, at);
    }
}

proof fn newest_from_distinct(done: Seq<ResolvedV>, rows: Seq<ResolvedV>, i: int, at: int)
    requires
        distinct_rows(done, at),
        0 <= i <= rows.len(),
        forall|k: int| 0 <= k < i && (#[trigger] rows[k]).reset_at > at ==> covered(done, rows[k]),
    ensures
        distinct_rows(newest_from(done, rows, i, at), at),
        forall|k: int|
            0 <= k < rows.len() && (#[trigger] rows[k]).reset_at > at ==> covered(
                newest_from(done, rows, i, at),
                rows[k],
            ),
    decreases rows.len() - i,
{
    if i < rows.len() {
        if rows[i].reset_at <= at {
            newest_from_distinct(done, rows, i + 1, at);
        } else {
            newest_distinct(done, rows[i], 0, at);
            newest_from_distinct(newest(done, rows[i], 0), rows, i + 1, at);
        }
    }
}

/// The limits in force: every one lies ahead, there is one for each account and
/// model, and each limit that lies ahead is covered by one that resets no
/// earlier.
pub proof fn in_force_is_newest(rows: Seq<ResolvedV>, at: int)
    ensures
        distinct_rows(in_force(rows, at), at),
        forall|k: int|
            0 <= k < rows.len() && (#[trigger] rows[k]).reset_at > at ==> covered(in_force(rows, at), rows[k]),
{
    newest_from_distinct(Seq::empty(), rows, 0, at);
}

proof fn newest_member(rows: Seq<ResolvedV>, r: ResolvedV, i: int, j: int)
    requires
        0 <= j < newest(rows, r, i).len(),
    ensures
        newest(rows, r, i)[j] == r || rows.contains(newest(rows, r, i)[j]),
    decreases rows.len() - i,
{
    if i < 0 || i >= rows.len() {
        if j < rows.len() {
            assert(rows.contains(rows[j]));
        }
    } else if rows[i].account_id == r.account_id && rows[i].model == r.model {
        if j != i || r.reset_at <= rows[i].reset_at {
            assert(rows.contains(rows[j]));
        }
    } else {
        newest_member(rows, r, i + 1, j);
    }
}

proof fn newest_from_member(done: Seq<ResolvedV>, rows: Seq<ResolvedV>, i: int, at: int)
    requires
        0 <= i <= rows.len(),
        forall|j: int| 0 <= j < done.len() ==> rows.contains(#[trigger] done[j]),
    ensures
        forall|j: int|
            0 <= j < newest_from(done, rows, i, at).len() ==> rows.contains(
                #[trigger] newest_from(done, rows, i, at)[j],
            ),
    decreases rows.len() - i,
{
    if i < rows.len() {
        if rows[i].reset_at <= at {
            newest_from_member(done, rows, i + 1, at);
            assert(newest_from(done, rows, i, at) == newest_from(done, rows, i + 1, at));
        } else {
            let next = newest(done, rows[i], 0);
            assert forall|j: int| 0 <= j < next.len() implies rows.contains(#[trigger] next[j]) by {
                newest_member(done, rows[i], 0, j);
                assert(rows.contains(rows[i]));
                if next[j] != rows[i] {
                    let k = choose|k: int| 0 <= k < done.len() && done[k] == next[j];
                    assert(rows.contains(done[k]));
                }
            }
            newest_from_member(next, rows, i + 1, at);
            assert(newest_from(done, rows, i, at) == newest_from(next, rows, i + 1, at));
        }
    } else {
        assert(newest_from(done, rows, i, at) == done);
    }
}

/// The limits in force are limits that were found: none is made up.
pub proof fn in_force_was_found(rows: Seq<ResolvedV>, at: int)
    ensures
        forall|j: int| 0 <= j < in_force(rows, at).len() ==> rows.contains(#[trigger] in_force(rows, at)[j]),
{
    newest_from_member(Seq::empty(), rows, 0, at);
}

/// The order of the limits: by account, then by reset time, then by model.
pub open spec fn row_less(a: ResolvedV, b: ResolvedV) -> bool {
    ||| text::less(a.account_id, b.account_id)
    ||| a.account_id == b.account_id && a.reset_at < b.reset_at
    ||| a.account_id == b.account_id && a.reset_at == b.reset_at && option_less(a.model, b.model)
}

/// Puts a limit into an ordered list, before the first that comes after it.
pub open spec fn row_placed(rows: Seq<ResolvedV>, r: ResolvedV, i: int) -> Seq<ResolvedV>
    decreases rows.len() - i,
{
    if i < 0 || i >= rows.len() {
        rows.push(r)
    } else if row_less(r, rows[i]) {
        rows.insert(i, r)
    } else {
        row_placed(rows, r, i + 1)
    }
}

/// The limits from `i` on, put in order.
pub open spec fn rows_from(done: Seq<ResolvedV>, rows: Seq<ResolvedV>, i: int) -> Seq<ResolvedV>
    decreases rows.len() - i,
{
    if i < 0 || i >= rows.len() {
        done
    } else {
        rows_from(row_placed(done, rows[i], 0), rows, i + 1)
    }
}

/// A limit as it is reported.
pub open spec fn limit_row(r: ResolvedV) -> JsonV {
    JsonV::empty().put("model"@, json::text_or_null(r.model)).put("resetAt"@, JsonV::Int(r.reset_at)).put(
        "firstSeenAt"@,
        JsonV::Int(r.first_seen_at),
    ).put("hitCount"@, JsonV::Int(r.hit_count))
}

/// The report with one more limit, in order of accounts.
pub open spec fn account_added(done: Seq<(Seq<char>, Seq<JsonV>)>, r: ResolvedV) -> Seq<(Seq<char>, Seq<JsonV>)> {
    let n = done.len() - 1;
    if done.len() > 0 && done[n].0 == r.account_id {
        done.update(n, (done[n].0, done[n].1.push(limit_row(r))))
    } else {
        done.push((r.account_id, seq![limit_row(r)]))
    }
}

/// The limits from `i` on, listed by account.
pub open spec fn accounts_from(
    done: Seq<(Seq<char>, Seq<JsonV>)>,
    rows: Seq<ResolvedV>,
    i: int,
) -> Seq<(Seq<char>, Seq<JsonV>)>
    decreases rows.len() - i,
{
    if i < 0 || i >= rows.len() {
        done
    } else {
        accounts_from(account_added(done, rows[i]), rows, i + 1)
    }
}

/// An account of the report.
pub open spec fn account_entry(a: (Seq<char>, Seq<JsonV>)) -> JsonV {
    JsonV::empty().put("accountId"@, JsonV::Str(a.0)).put("limited"@, JsonV::Arr(a.1))
}

/// The report of the limits in force at a scan: the accounts in dictionary
/// order, each with its limited models, the one that resets first first.
pub open spec fn payload(rows: Seq<ResolvedV>, scanned_at: int) -> JsonV {
    let ordered_rows = rows_from(Seq::empty(), in_force(rows, scanned_at), 0);
    let accounts = accounts_from(Seq::empty(), ordered_rows, 0);
    JsonV::empty().put("scannedAt"@, JsonV::Int(scanned_at)).put("windowDays"@, JsonV::Int(WINDOW_DAYS as int)).put(
        "accounts"@,
        JsonV::Arr(accounts.map_values(|a: (Seq<char>, Seq<JsonV>)| account_entry(a))),
    )
}

fn newest_in(rows: &mut Vec<Resolved>, r: Resolved)
    ensures
        resolved_view(final(rows)@) == newest(resolved_view(old(rows)@), r@, 0),
{
    let ghost before = resolved_view(rows@);
    let ghost held = rows@;
    let mut i: usize = 0;
    while i < rows.len()
        invariant
            i <= rows@.len(),
            rows@ == held,
            resolved_view(rows@) == before,
            before == resolved_view(old(rows)@),
            newest(before, r@, 0) == newest(before, r@, i as int),
        decreases rows@.len() - i,
    {
        assert(before[i as int] == rows@[i as int]@);
        if text::same(rows[i].account_id.as_str(), r.account_id.as_str()) && same_option(&rows[i].model, &r.model) {
            if r.reset_at > rows[i].reset_at {
                rows.set(i, r);
                assert(resolved_view(rows@) =~= before.update(i as int, r@));
            }
            return;
        }
        i += 1;
    }
    rows.push(r);
    assert(resolved_view(rows@) =~= before.push(r@));
}

fn row_before(a: &Resolved, b: &Resolved) -> (r: bool)
    ensures
        r == row_less(a@, b@),
{
    if text::same(a.account_id.as_str(), b.account_id.as_str()) {
        proof {
            text::less_total(a.account_id@, b.account_id@);
        }
        a.reset_at < b.reset_at || (a.reset_at == b.reset_at && option_before(&a.model, &b.model))
    } else {
        text::comes_before(a.account_id.as_str(), b.account_id.as_str())
    }
}

fn row_place_in(rows: &mut Vec<Resolved>, r: Resolved)
    ensures
        resolved_view(final(rows)@) == row_placed(resolved_view(old(rows)@), r@, 0),
{
    let ghost before = resolved_view(rows@);
    let ghost held = rows@;
    let mut i: usize = 0;
    while i < rows.len()
        invariant
            i <= rows@.len(),
            rows@ == held,
            resolved_view(rows@) == before,
            before == resolved_view(old(rows)@),
            row_placed(before, r@, 0) == row_placed(before, r@, i as int),
        decreases rows@.len() - i,
    {
        assert(before[i as int] == rows@[i as int]@);
        if row_before(&r, &rows[i]) {
            rows.insert(i, r);
            assert(resolved_view(rows@) =~= before.insert(i as int, r@));
            return;
        }
        i += 1;
    }
    rows.push(r);
    assert(resolved_view(rows@) =~= before.push(r@));
}

/// The report's accounts with their rows.
pub open spec fn accounts_view(s: Seq<(String, Vec<Json>)>) -> Seq<(Seq<char>, Seq<JsonV>)> {
    s.map_values(|a: (String, Vec<Json>)| (a.0@, json::list_view(a.1@)))
}

fn account_add(done: &mut Vec<(String, Vec<Json>)>, r: &Resolved)
    ensures
        accounts_view(final(done)@) == account_added(accounts_view(old(done)@), r@),
{
    let ghost before = accounts_view(done@);
    let row: Json = Json::object().put("model", Json::opt_string(r.model.clone())).put(
        "resetAt",
        Json::num(r.reset_at),
    ).put("firstSeenAt", Json::num(r.first_seen_at)).put("hitCount", Json::num(r.hit_count as i64));
    assert(row@ == limit_row(r@));
    let n: usize = done.len();
    if n > 0 {
        let (id, mut rows): (String, Vec<Json>) = match done.pop() {
            Some(a) => a,
            None => (String::new(), Vec::new()),
        };
        let ghost last = (id@, json::list_view(rows@));
        assert(before[n - 1] == last);
        if text::same(id.as_str(), r.account_id.as_str()) {
            let ghost held = rows@;
            rows.push(row);
            assert(json::list_view(rows@) =~= json::list_view(held).push(row@));
            done.push((id, rows));
            assert(accounts_view(done@) =~= account_added(before, r@));
            return;
        }
        done.push((id, rows));
        assert(accounts_view(done@) =~= before);
    }
    let ghost held = done@;
    let rows: Vec<Json> = vec![row];
    assert(json::list_view(rows@) =~= seq![limit_row(r@)]);
    done.push((r.account_id.clone(), rows));
    assert(accounts_view(done@) =~= account_added(before, r@));
}

/// The report of the limits in force at a scan. An account without a limited
/// model does not appear.
pub fn build_payload(resolved: Vec<Resolved>, scanned_at: i64) -> (r: Json)
    ensures
        r@ == payload(resolved_view(resolved@), scanned_at as int),
{
    let ghost all = resolved_view(resolved@);
    let ghost none = Seq::<ResolvedV>::empty();
    let mut latest: Vec<Resolved> = Vec::new();
    assert(resolved_view(latest@) =~= none);
    let mut i: usize = 0;
    while i < resolved.len()
        invariant
            i <= resolved@.len(),
            all == resolved_view(resolved@),
            in_force(all, scanned_at as int) == newest_from(
                resolved_view(latest@),
                all,
                i as int,
                scanned_at as int,
            ),
        decreases resolved@.len() - i,
    {
        if resolved[i].reset_at > scanned_at {
            newest_in(&mut latest, resolved[i].clone());
        }
        i += 1;
    }
    let ghost found = in_force(all, scanned_at as int);
    let mut sorted: Vec<Resolved> = Vec::new();
    assert(resolved_view(sorted@) =~= none);
    let mut j: usize = 0;
    while j < latest.len()
        invariant
            j <= latest@.len(),
            found == resolved_view(latest@),
            rows_from(none, found, 0) == rows_from(resolved_view(sorted@), found, j as int),
        decreases latest@.len() - j,
    {
        row_place_in(&mut sorted, latest[j].clone());
        j += 1;
    }
    let ghost ordered_rows = rows_from(none, found, 0);
    let mut by_account: Vec<(String, Vec<Json>)> = Vec::new();
    let ghost no_account = Seq::<(Seq<char>, Seq<JsonV>)>::empty();
    assert(accounts_view(by_account@) =~= no_account);
    let mut k: usize = 0;
    while k < sorted.len()
        invariant
            k <= sorted@.len(),
            ordered_rows == resolved_view(sorted@),
            accounts_from(no_account, ordered_rows, 0) == accounts_from(
                accounts_view(by_account@),
                ordered_rows,
                k as int,
            ),
        decreases sorted@.len() - k,
    {
        account_add(&mut by_account, &sorted[k]);
        k += 1;
    }
    let ghost accounts = accounts_from(no_account, ordered_rows, 0);
    let mut list: Vec<Json> = Vec::new();
    let mut n: usize = 0;
    while n < by_account.len()
        invariant
            n <= by_account@.len(),
            accounts == accounts_view(by_account@),
            list@.len() == n,
            forall|q: int| 0 <= q < n ==> (#[trigger] list@[q])@ == account_entry(accounts[q]),
        decreases by_account@.len() - n,
    {
        let rows: Json = Json::Arr(clone_list(&by_account[n].1));
        let entry: Json = Json::object().put("accountId", Json::text(by_account[n].0.as_str())).put(
            "limited",
            rows,
        );
        assert(accounts[n as int] == (by_account@[n as int].0@, json::list_view(by_account@[n as int].1@)));
        assert(entry@ == account_entry(accounts[n as int]));
        list.push(entry);
        n += 1;
    }
    assert(json::list_view(list@) =~= accounts.map_values(|a: (Seq<char>, Seq<JsonV>)| account_entry(a)));
    Json::object().put("scannedAt", Json::num(scanned_at)).put("windowDays", Json::num(WINDOW_DAYS)).put(
        "accounts",
        Json::Arr(list),
    )
}

/// A copy of a list of values.
fn clone_list(v: &Vec<Json>) -> (r: Vec<Json>)
    ensures
        json::list_view(r@) == json::list_view(v@),
{
    json::clone_slice(v.as_slice())
}

/// The two editors.
#[derive(Clone, Copy, Debug, PartialEq, Eq, Structural)]
pub enum CodeBuddyIdeFlavor {
    Intl,
    Cn,
}

impl CodeBuddyIdeFlavor {
    /// The name of the editor's data directory.
    pub open spec fn dir(self) -> Seq<char> {
        match self {
            CodeBuddyIdeFlavor::Intl => "CodeBuddy"@,
            CodeBuddyIdeFlavor::Cn => "CodeBuddy CN"@,
        }
    }
}

/// The directory of an editor's data, in the user's directory of configurations
/// where that can be told.
pub fn codebuddy_ide_data_dir(flavor: CodeBuddyIdeFlavor, config_dir: Option<&str>) -> (r: Option<String>)
    ensures
        json::opt_string(r) == (match json::opt_text(config_dir) {
            Some(dir) => Some(paths::joined(dir, flavor.dir())),
            None => None,
        }),
{
    match config_dir {
        Some(dir) => {
            let name: &str = match flavor {
                CodeBuddyIdeFlavor::Intl => "CodeBuddy",
                CodeBuddyIdeFlavor::Cn => "CodeBuddy CN",
            };
            Some(paths::join(dir, name))
        },
        None => None,
    }
}

/// A source of logs.
#[derive(Clone, Copy, Debug, PartialEq, Eq, Structural)]
pub enum ScanSource {
    WorkBuddy(WbVariant),
    Cli,
    Ide(CodeBuddyIdeFlavor),
}

impl ScanSource {
    /// The bit that stands for the source.
    pub open spec fn bit_of(self) -> u8 {
        match self {
            ScanSource::WorkBuddy(WbVariant::Cn) => 0,
            ScanSource::WorkBuddy(WbVariant::Ai) => 1,
            ScanSource::Cli => 2,
            ScanSource::Ide(CodeBuddyIdeFlavor::Intl) => 3,
            ScanSource::Ide(CodeBuddyIdeFlavor::Cn) => 4,
        }
    }

    pub fn bit(self) -> (b: u8)
        ensures
            b == self.bit_of(),
            b < 5,
    {
        match self {
            ScanSource::WorkBuddy(WbVariant::Cn) => 0,
            ScanSource::WorkBuddy(WbVariant::Ai) => 1,
            ScanSource::Cli => 2,
            ScanSource::Ide(CodeBuddyIdeFlavor::Intl) => 3,
            ScanSource::Ide(CodeBuddyIdeFlavor::Cn) => 4,
        }
    }
}

/// A set of log sources, as bits.
#[derive(Clone, Copy, Debug, PartialEq, Eq, Structural)]
pub struct ScanScope {
    bits: u8,
}

impl ScanScope {
    /// The set of the sources whose bits are set.
    pub closed spec fn has(self, source: ScanSource) -> bool {
        self.bits & (1u8 << source.bit_of()) != 0
    }

    /// No bit stands but those of the five sources.
    pub closed spec fn wf(self) -> bool {
        self.bits < 32
    }

    /// The empty set.
    pub fn none() -> (s: ScanScope)
        ensures
            s.wf(),
            forall|q: ScanSource| !s.has(q),
    {
        let s: ScanScope = ScanScope { bits: 0 };
        assert forall|q: ScanSource| !s.has(q) by {
            let b = q.bit_of();
            assert(0u8 & (1u8 << b) == 0) by (bit_vector);
        }
        s
    }

    /// All five sources.
    pub fn all() -> (s: ScanScope)
        ensures
            s.wf(),
            forall|q: ScanSource| s.has(q),
    {
        let s: ScanScope = ScanScope { bits: 31 };
        assert forall|q: ScanSource| s.has(q) by {
            let b = q.bit_of();
            assert(b < 5 ==> 31u8 & (1u8 << b) != 0) by (bit_vector);
        }
        s
    }

    /// Adds a source.
    pub fn insert(&mut self, source: ScanSource)
        requires
            old(self).wf(),
        ensures
            final(self).wf(),
            forall|q: ScanSource| final(self).has(q) <==> old(self).has(q) || q == source,
    {
        let b: u8 = source.bit();
        let ghost before = self.bits;
        self.bits = self.bits | (1u8 << b);
        proof {
            let after = self.bits;
            assert(b < 5 && before < 32 ==> (before | (1u8 << b)) < 32) by (bit_vector);
            assert forall|q: ScanSource| self.has(q) <==> old(self).has(q) || q == source by {
                let c = q.bit_of();
                assert(c < 5 && b < 5 ==> ((before | (1u8 << b)) & (1u8 << c) != 0 <==> before & (1u8 << c) != 0 || c
                    == b)) by (bit_vector);
                assert(c == b <==> q == source);
            }
        }
    }

    /// Whether a source is in the set.
    pub fn contains(self, source: ScanSource) -> (b: bool)
        ensures
            b == self.has(source),
    {
        self.bits & (1u8 << source.bit()) != 0
    }

    /// Whether every source of `other` is in the set.
    pub fn covers(self, other: ScanScope) -> (b: bool)
        requires
            self.wf(),
            other.wf(),
        ensures
            b <==> forall|q: ScanSource| other.has(q) ==> self.has(q),
    {
        let b: bool = self.bits & other.bits == other.bits;
        proof {
            let x = self.bits;
            let y = other.bits;
            assert forall|q: ScanSource| b && other.has(q) implies self.has(q) by {
                let c = q.bit_of();
                assert(c < 5 && x & y == y && y & (1u8 << c) != 0 ==> x & (1u8 << c) != 0) by (bit_vector);
            }
            if !b {
                assert(y < 32 && x & y != y ==> (y & 1 != 0 && x & 1 == 0) || (y & 2 != 0 && x & 2 == 0) || (y & 4
                    != 0 && x & 4 == 0) || (y & 8 != 0 && x & 8 == 0) || (y & 16 != 0 && x & 16 == 0))
                    by (bit_vector);
                assert(1u8 << 0u8 == 1 && 1u8 << 1u8 == 2 && 1u8 << 2u8 == 4 && 1u8 << 3u8 == 8 && 1u8 << 4u8
                    == 16) by (bit_vector);
                let a0 = ScanSource::WorkBuddy(WbVariant::Cn);
                let a1 = ScanSource::WorkBuddy(WbVariant::Ai);
                let a2 = ScanSource::Cli;
                let a3 = ScanSource::Ide(CodeBuddyIdeFlavor::Intl);
                let a4 = ScanSource::Ide(CodeBuddyIdeFlavor::Cn);
                assert(!(other.has(a0) ==> self.has(a0)) || !(other.has(a1) ==> self.has(a1)) || !(other.has(a2)
                    ==> self.has(a2)) || !(other.has(a3) ==> self.has(a3)) || !(other.has(a4) ==> self.has(a4)));
            }
        }
        b
    }
}

/// A source is listed with a mark that says yes.
pub open spec fn marked(list: Seq<(ScanSource, bool)>, source: ScanSource) -> bool {
    exists|i: int| 0 <= i < list.len() && #[trigger] list[i] == (source, true)
}

fn insert_marked(scope: &mut ScanScope, list: &[(ScanSource, bool)])
    requires
        old(scope).wf(),
    ensures
        final(scope).wf(),
        forall|q: ScanSource| final(scope).has(q) <==> old(scope).has(q) || marked(list@, q),
{
    let mut i: usize = 0;
    while i < list.len()
        invariant
            i <= list@.len(),
            scope.wf(),
            forall|q: ScanSource| scope.has(q) <==> old(scope).has(q) || marked(list@.take(i as int), q),
        decreases list@.len() - i,
    {
        let (source, wanted): (ScanSource, bool) = list[i];
        if wanted {
            scope.insert(source);
        }
        proof {
            let now = list@.take(i + 1);
            let before = list@.take(i as int);
            assert forall|q: ScanSource| marked(now, q) <==> marked(before, q) || (wanted && q == source) by {
                if marked(before, q) {
                    let k = choose|k: int| 0 <= k < before.len() && #[trigger] before[k] == (q, true);
                    assert(now[k] == (q, true));
                }
                if wanted && q == source {
                    assert(now[i as int] == (q, true));
                }
                if marked(now, q) {
                    let k = choose|k: int| 0 <= k < now.len() && #[trigger] now[k] == (q, true);
                    if k < i {
                        assert(before[k] == (q, true));
                    }
                }
            }
        }
        i += 1;
    }
    assert(list@.take(list@.len() as int) =~= list@);
}

/// Which sources have to be scanned. A hook source is marked where its data is
/// there and no hook reports for it, an editor where its data is there; editors
/// count only where their logs are to be scanned at all.
pub fn scan_scope(
    hook_sources: &[(ScanSource, bool)],
    ide_sources: &[(ScanSource, bool)],
    scan_ide_logs: bool,
) -> (s: ScanScope)
    ensures
        s.wf(),
        forall|q: ScanSource|
            s.has(q) <==> marked(hook_sources@, q) || (scan_ide_logs && marked(ide_sources@, q)),
{
    let mut scope: ScanScope = ScanScope::none();
    insert_marked(&mut scope, hook_sources);
    if scan_ide_logs {
        insert_marked(&mut scope, ide_sources);
    }
    scope
}

/// Whether the editors' logs are scanned: yes, unless the configuration says no.
pub open spec fn scans_ide_logs(cfg: JsonV) -> bool {
    cfg.get_bool("scanIdeLogs"@) != Some(false)
}

pub fn scan_ide_logs_of(cfg: &Json) -> (b: bool)
    ensures
        b == scans_ide_logs(cfg@),
{
    match cfg.get_bool("scanIdeLogs") {
        Some(b) => b,
        None => true,
    }
}

/// The outcome of the last scan.
#[derive(Debug)]
pub struct ScanCache {
    pub at: i64,
    pub scope: ScanScope,
    pub entries: Vec<Resolved>,
}

impl ScanCache {
    /// The cache answers a request: it is recent enough and covers its sources.
    pub open spec fn answers(self, requested: ScanScope, now: int) -> bool {
        now - self.at < SCAN_MIN_INTERVAL_MS && forall|q: ScanSource| requested.has(q) ==> self.scope.has(q)
    }

    /// Whether the cache answers a request: it is recent enough and covers its sources.
    pub fn covers(&self, requested: ScanScope, now: i64) -> (b: bool)
        requires
            self.scope.wf(),
            requested.wf(),
        ensures
            b == self.answers(requested, now as int),
    {
        (now as i128 - self.at as i128) < SCAN_MIN_INTERVAL_MS as i128 && self.scope.covers(requested)
    }
}

/// What to do about a request for limits.
#[derive(Debug)]
pub enum ScanDecision {
    /// The last scan still answers: its time and its rows.
    Cached(i64, Vec<Resolved>),
    /// Nothing is known and nothing may be scanned.
    Nothing,
    /// The logs have to be scanned.
    Scan,
}

/// The last scan answers where it covers the request, or where no scan is
/// allowed; else the logs are scanned, where that is allowed.
pub fn cached_scan(cache: &Option<ScanCache>, requested: ScanScope, now: i64, allow_scan: bool) -> (d: ScanDecision)
    requires
        cache matches Some(c) ==> c.scope.wf(),
        requested.wf(),
    ensures
        match (*cache, d) {
            (Some(c), ScanDecision::Cached(at, entries)) => (c.answers(requested, now as int) || !allow_scan) && at
                == c.at && resolved_view(entries@) == resolved_view(c.entries@),
            (Some(c), ScanDecision::Scan) => allow_scan && !c.answers(requested, now as int),
            (Some(_), ScanDecision::Nothing) => false,
            (None, ScanDecision::Cached(_, _)) => false,
            (None, ScanDecision::Scan) => allow_scan,
            (None, ScanDecision::Nothing) => !allow_scan,
        },
{
    match cache {
        Some(c) => {
            if c.covers(requested, now) || !allow_scan {
                ScanDecision::Cached(c.at, clone_rows(c.entries.as_slice()))
            } else {
                ScanDecision::Scan
            }
        },
        None => {
            if allow_scan {
                ScanDecision::Scan
            } else {
                ScanDecision::Nothing
            }
        },
    }
}

fn clone_rows(rows: &[Resolved]) -> (r: Vec<Resolved>)
    ensures
        resolved_view(r@) == resolved_view(rows@),
{
    let mut r: Vec<Resolved> = Vec::new();
    let mut i: usize = 0;
    while i < rows.len()
        invariant
            i <= rows@.len(),
            r@.len() == i,
            forall|j: int| 0 <= j < i ==> (#[trigger] r@[j])@ == rows@[j]@,
        decreases rows@.len() - i,
    {
        r.push(rows[i].clone());
        i += 1;
    }
    assert(resolved_view(r@) =~= resolved_view(rows@));
    r
}

/// Forgets the last scan, so that the next request scans by the sources of its own time.
pub fn invalidate_scan_cache(cache: &mut Option<ScanCache>)
    ensures
        *final(cache) == None::<ScanCache>,
{
    *cache = None;
}

/// Forgets the last scan where a change of the configuration changes which logs
/// are scanned.
pub fn config_saved(cache: &mut Option<ScanCache>, before: &Json, after: &Json)
    ensures
        scans_ide_logs(before@) != scans_ide_logs(after@) ==> *final(cache) == None::<ScanCache>,
        scans_ide_logs(before@) == scans_ide_logs(after@) ==> *final(cache) == *old(cache),
{
    if scan_ide_logs_of(before) != scan_ide_logs_of(after) {
        invalidate_scan_cache(cache);
    }
}

/// The time of the report: that of the last scan, or now where there was none.
pub fn report_time(scanned_at: i64, now: i64) -> (t: i64)
    ensures
        t == (if scanned_at > 0 {
            scanned_at
        } else {
            now
        }),
{
    if scanned_at > 0 {
        scanned_at
    } else {
        now
    }
}

/// The logs of CodeBuddy CLI.
pub fn cli_logs_root(home: &str) -> (r: String)
    ensures
        r@ == paths::joined(paths::joined(home@, CLI_DATA_DIR@), LOG_DIR_NAME@),
{
    paths::join(paths::join(home, CLI_DATA_DIR).as_str(), LOG_DIR_NAME)
}

/// The state of CodeBuddy CLI.
pub fn cli_state_path(home: &str) -> (r: String)
    ensures
        r@ == paths::joined(paths::joined(home@, CLI_ROTATE_DIR@), CLI_STATE_FILE@),
{
    paths::join(paths::join(home, CLI_ROTATE_DIR).as_str(), CLI_STATE_FILE)
}

/// The sources that can have a hook: each with its data and the settings that would
/// name the hook.
pub fn hook_sources(home: &str) -> (r: Vec<(ScanSource, String, String)>)
    ensures
        r@.len() == 3,
        r@[0].0 == ScanSource::WorkBuddy(WbVariant::Cn),
        r@[1].0 == ScanSource::WorkBuddy(WbVariant::Ai),
        r@[2].0 == ScanSource::Cli,
        r@[0].1@ == paths::joined(home@, ".workbuddy"@),
        r@[1].1@ == paths::joined(home@, ".workbuddy-ai"@),
        r@[2].1@ == paths::joined(home@, CLI_DATA_DIR@),
        forall|i: int|
            0 <= i < 3 ==> (#[trigger] r@[i]).2@ == paths::joined(r@[i].1@, SETTINGS_FILE_NAME@),
{
    let cn: String = paths::join(home, WbVariant::Cn.data_dir_name());
    let ai: String = paths::join(home, WbVariant::Ai.data_dir_name());
    let cli: String = paths::join(home, CLI_DATA_DIR);
    let cn_settings: String = paths::join(cn.as_str(), SETTINGS_FILE_NAME);
    let ai_settings: String = paths::join(ai.as_str(), SETTINGS_FILE_NAME);
    let cli_settings: String = paths::join(cli.as_str(), SETTINGS_FILE_NAME);
    vec![
        (ScanSource::WorkBuddy(WbVariant::Cn), cn, cn_settings),
        (ScanSource::WorkBuddy(WbVariant::Ai), ai, ai_settings),
        (ScanSource::Cli, cli, cli_settings),
    ]
}

/// When the window of logs begins, at a time.
pub fn window_start(now: i64) -> (r: i64)
    ensures
        r == now.wrapping_sub((WINDOW_DAYS * DAY_MS) as i64),
{
    now.wrapping_sub(WINDOW_DAYS * DAY_MS)
}

/// A file below a directory of logs: the names on the way to it, and when it was
/// last written, where that is known.
pub struct LogEntry {
    pub parts: Vec<String>,
    pub modified: Option<i64>,
}

/// A file was written in the window.
pub open spec fn recent(e: LogEntry, cutoff: i64) -> bool {
    match e.modified {
        Some(t) => t >= cutoff,
        None => false,
    }
}

/// A file is a log of WorkBuddy's or the command line's in the window: a `.log`
/// anywhere below a directory with a date for its name.
pub open spec fn windowed(e: LogEntry, cutoff: i64) -> bool {
    &&& e.parts@.len() >= 2
    &&& crate::clock::day_of_text(e.parts@[0]@).is_some()
    &&& paths::extension(e.parts@[e.parts@.len() - 1]@) == Some("log"@)
    &&& recent(e, cutoff)
}

/// A file is a log of an editor in the window: directly in the directory of its
/// extension, below a session and a window.
pub open spec fn ide_windowed(e: LogEntry, cutoff: i64) -> bool {
    &&& e.parts@.len() == 5
    &&& e.parts@[2]@ == "exthost"@
    &&& e.parts@[3]@ == IDE_LOG_DIR_NAME@
    &&& recent(e, cutoff)
}

/// A file is a log to read.
pub open spec fn to_read(e: LogEntry, format: LogFormat, cutoff: i64) -> bool {
    match format {
        LogFormat::WorkBuddy => windowed(e, cutoff),
        LogFormat::Ide => ide_windowed(e, cutoff),
    }
}

fn is_recent(e: &LogEntry, cutoff: i64) -> (b: bool)
    ensures
        b == recent(*e, cutoff),
{
    match e.modified {
        Some(t) => t >= cutoff,
        None => false,
    }
}

/// Whether a file is a log of WorkBuddy's or the command line's in the window.
pub fn is_windowed_log(e: &LogEntry, cutoff: i64) -> (b: bool)
    ensures
        b == windowed(*e, cutoff),
{
    let n: usize = e.parts.len();
    if n < 2 || !log_scan::is_dated(e.parts[0].as_str()) {
        return false;
    }
    let name: Vec<char> = text::chars_of(e.parts[n - 1].as_str());
    let ends: bool = match paths::extension_of(name.as_slice()) {
        Some(x) => text::slice_is(x, "log"),
        None => false,
    };
    ends && is_recent(e, cutoff)
}

/// Whether a file is a log of an editor in the window.
pub fn is_ide_log(e: &LogEntry, cutoff: i64) -> (b: bool)
    ensures
        b == ide_windowed(*e, cutoff),
{
    e.parts.len() == 5 && text::same(e.parts[2].as_str(), "exthost") && text::same(
        e.parts[3].as_str(),
        IDE_LOG_DIR_NAME,
    ) && is_recent(e, cutoff)
}

/// The files to read among the first `n`: their places.
pub open spec fn reading(entries: Seq<LogEntry>, format: LogFormat, cutoff: i64, n: int) -> Seq<usize>
    decreases n,
{
    if n <= 0 {
        Seq::empty()
    } else if to_read(entries[n - 1], format, cutoff) {
        reading(entries, format, cutoff, n - 1).push((n - 1) as usize)
    } else {
        reading(entries, format, cutoff, n - 1)
    }
}

/// The files to read: their places in the list.
pub fn windowed_log_files(entries: &[LogEntry], format: LogFormat, cutoff: i64) -> (r: Vec<usize>)
    ensures
        r@ == reading(entries@, format, cutoff, entries@.len() as int),
{
    let mut r: Vec<usize> = Vec::new();
    let mut i: usize = 0;
    while i < entries.len()
        invariant
            i <= entries@.len(),
            r@ == reading(entries@, format, cutoff, i as int),
        decreases entries@.len() - i,
    {
        let wanted: bool = match format {
            LogFormat::WorkBuddy => is_windowed_log(&entries[i], cutoff),
            LogFormat::Ide => is_ide_log(&entries[i], cutoff),
        };
        if wanted {
            r.push(i);
        }
        i += 1;
    }
    r
}

/// The hits of a file.
pub open spec fn file_hits(bytes: Seq<u8>, path: Seq<char>, format: LogFormat, auth: AuthMarker, hits: Seq<HitV>) -> bool {
    &&& !log_scan::has_quota_bytes(bytes) ==> hits.len() == 0
    &&& log_scan::has_quota_bytes(bytes) ==> exists|stamps: Seq<Option<int>>| #[trigger]
        log_scan::stamps_agree(log_scan::lossy_text_of(bytes), format, stamps) && hits == log_scan::scan_hits(
            log_scan::lossy_text_of(bytes),
            stamps,
            format,
            auth,
            log_scan::file_session(path),
        )
}

/// The hits of files: those of each, one after the other.
pub open spec fn files_hits(
    files: Seq<(String, Vec<u8>)>,
    format: LogFormat,
    auth: AuthMarker,
    parts: Seq<Seq<HitV>>,
) -> bool {
    &&& parts.len() == files.len()
    &&& forall|i: int|
        0 <= i < files.len() ==> file_hits(files[i].1@, files[i].0@, format, auth, #[trigger] parts[i])
}

/// Lists one after the other.
pub open spec fn chained(parts: Seq<Seq<HitV>>) -> Seq<HitV>
    decreases parts.len(),
{
    if parts.len() == 0 {
        Seq::empty()
    } else {
        chained(parts.subrange(0, parts.len() - 1)) + parts[parts.len() - 1]
    }
}

/// The hits of the files given by their paths and bytes, by the local time zone.
pub fn collect_hits(files: &[(String, Vec<u8>)], format: LogFormat, auth: AuthMarker) -> (r: Vec<Hit>)
    ensures
        exists|parts: Seq<Seq<HitV>>| #[trigger]
            files_hits(files@, format, auth, parts) && log_scan::hits_view(r@) == chained(parts),
{
    let mut r: Vec<Hit> = Vec::new();
    let ghost mut parts: Seq<Seq<HitV>> = Seq::empty();
    let mut i: usize = 0;
    assert(log_scan::hits_view(r@) =~= chained(parts));
    while i < files.len()
        invariant
            i <= files@.len(),
            parts.len() == i,
            forall|j: int|
                0 <= j < i ==> file_hits(files@[j].1@, files@[j].0@, format, auth, #[trigger] parts[j]),
            log_scan::hits_view(r@) == chained(parts),
        decreases files@.len() - i,
    {
        let mut found: Vec<Hit> = log_scan::scan_file(files[i].1.as_slice(), files[i].0.as_str(), format, auth);
        let ghost these = log_scan::hits_view(found@);
        let ghost held = r@;
        let ghost more = found@;
        assert(file_hits(files@[i as int].1@, files@[i as int].0@, format, auth, these));
        r.append(&mut found);
        proof {
            let next = parts.push(these);
            assert(next.subrange(0, next.len() - 1) =~= parts);
            assert(log_scan::hits_view(r@) =~= log_scan::hits_view(held) + these);
            parts = next;
        }
        i += 1;
    }
    assert(files_hits(files@, format, auth, parts));
    r
}

/// The events of the files given by their paths and bytes, by the local time zone;
/// none at all where there are more hits than can be counted.
pub fn collect_events(files: &[(String, Vec<u8>)], format: LogFormat, auth: AuthMarker) -> (r: Option<Vec<Event>>)
    ensures
        exists|parts: Seq<Seq<HitV>>| #[trigger]
            files_hits(files@, format, auth, parts) && (match r {
                Some(events) => events_view(events@) == deduped(chained(parts)),
                None => chained(parts).len() > u32::MAX,
            }),
{
    let hits: Vec<Hit> = collect_hits(files, format, auth);
    assert(log_scan::hits_view(hits@).len() == hits@.len());
    if hits.len() as u64 > 0xffff_ffff {
        return None;
    }
    Some(dedupe(hits))
}

/// What a source gave: its events, the rows `(session, user)` of WorkBuddy's
/// database, the text of the state file of the others.
pub struct SourceLog {
    pub events: Vec<Event>,
    pub sessions: Vec<(Option<String>, Option<String>)>,
    pub state: Option<String>,
}

/// The state of a client from the text of its file; what is no JSON is nothing.
pub open spec fn client_state(content: Option<Seq<char>>) -> JsonV {
    match content {
        Some(t) => match json::json_of_text(t) {
            Ok(value) => value,
            Err(_) => JsonV::empty(),
        },
        None => JsonV::empty(),
    }
}

/// The account that a client's state names at an instant.
pub open spec fn state_account(state: JsonV, at: int) -> Option<Seq<char>> {
    match (account::str_of(state, "activeAccountId"@), state.get_i64("updatedAt"@)) {
        (Some(id), Some(t)) => if t <= at {
            Some(id)
        } else {
            None
        },
        _ => None,
    }
}

/// The rows of one of WorkBuddy's editions: by sessions.
pub open spec fn workbuddy_rows(log: SourceLog, accounts: Seq<JsonV>, v: WbVariant) -> Seq<ResolvedV> {
    attributed(
        events_view(log.events@),
        account_by_event_session(
            sessions_from(Map::empty(), log.sessions@, uids_from(Map::empty(), accounts, 0, Some(v)), 0),
        ),
    )
}

/// The account of an event by the account logged in, else by a client's state.
pub open spec fn account_by_uid_or_state(uids: Map<Seq<char>, Seq<char>>, state: JsonV) -> spec_fn(EventV) -> Option<
    Seq<char>,
> {
    |e: EventV| log_scan::either(log_scan::look(uids, e.uid), state_account(state, e.first_seen_at))
}

/// The rows of another client: by the account logged in, else by its state.
pub open spec fn client_rows(log: SourceLog, accounts: Seq<JsonV>) -> Seq<ResolvedV> {
    attributed(
        events_view(log.events@),
        account_by_uid_or_state(
            uids_from(Map::empty(), accounts, 0, None),
            client_state(json::opt_string(log.state)),
        ),
    )
}

/// Rows where a source is wanted, none where it is not.
pub open spec fn rows_if(wanted: bool, rows: Seq<ResolvedV>) -> Seq<ResolvedV> {
    if wanted {
        rows
    } else {
        Seq::empty()
    }
}

/// What the five sources gave.
pub struct SourceLogs {
    pub workbuddy_cn: SourceLog,
    pub workbuddy_ai: SourceLog,
    pub cli: SourceLog,
    pub ide: SourceLog,
    pub cn_ide: SourceLog,
}

/// The rows of the sources in a scope, source by source.
pub open spec fn source_rows(scope: ScanScope, logs: SourceLogs, accounts: Seq<JsonV>) -> Seq<ResolvedV> {
    rows_if(
        scope.has(ScanSource::WorkBuddy(WbVariant::Cn)),
        workbuddy_rows(logs.workbuddy_cn, accounts, WbVariant::Cn),
    ) + rows_if(
        scope.has(ScanSource::WorkBuddy(WbVariant::Ai)),
        workbuddy_rows(logs.workbuddy_ai, accounts, WbVariant::Ai),
    ) + rows_if(scope.has(ScanSource::Cli), client_rows(logs.cli, accounts)) + rows_if(
        scope.has(ScanSource::Ide(CodeBuddyIdeFlavor::Intl)),
        client_rows(logs.ide, accounts),
    ) + rows_if(scope.has(ScanSource::Ide(CodeBuddyIdeFlavor::Cn)), client_rows(logs.cn_ide, accounts))
}

fn resolve_workbuddy(log: &SourceLog, accounts: &[Json], v: WbVariant) -> (r: Vec<Resolved>)
    ensures
        resolved_view(r@) == workbuddy_rows(*log, json::list_view(accounts@), v),
{
    let uids: TextMap = account_id_by_uid(accounts, Some(v));
    let sessions: TextMap = account_by_session(log.sessions.as_slice(), &uids);
    resolve(log.events.as_slice(), &sessions)
}

proof fn attributed_alike(
    events: Seq<EventV>,
    f: spec_fn(EventV) -> Option<Seq<char>>,
    g: spec_fn(EventV) -> Option<Seq<char>>,
)
    requires
        forall|e: EventV| #[trigger] f(e) == g(e),
    ensures
        attributed(events, f) == attributed(events, g),
    decreases events.len(),
{
    if events.len() > 0 {
        attributed_alike(events.subrange(0, events.len() - 1), f, g);
        let last = events[events.len() - 1];
        assert(f(last) == g(last));
    }
}

fn resolve_client(log: &SourceLog, accounts: &[Json]) -> (r: Vec<Resolved>)
    ensures
        resolved_view(r@) == client_rows(*log, json::list_view(accounts@)),
{
    let uids: TextMap = account_id_by_uid(accounts, None);
    let state: Json = match &log.state {
        Some(t) => match json::parse_json(t.as_str()) {
            Ok(value) => value,
            Err(_) => Json::object(),
        },
        None => Json::object(),
    };
    let active: ActiveAccount = ActiveAccount::load(&state);
    let r: Vec<Resolved> = resolve_by_uid(log.events.as_slice(), &uids, &active);
    proof {
        let f = account_by_event_uid(uids@, active);
        let g = account_by_uid_or_state(uids@, state@);
        assert forall|e: EventV| #[trigger] f(e) == g(e) by {
            assert(active.at(e.first_seen_at) == state_account(state@, e.first_seen_at));
        }
        attributed_alike(events_view(log.events@), f, g);
    }
    r
}

fn add_rows(r: &mut Vec<Resolved>, more: Vec<Resolved>)
    ensures
        resolved_view(final(r)@) == resolved_view(old(r)@) + resolved_view(more@),
{
    let mut more: Vec<Resolved> = more;
    let ghost held = r@;
    let ghost added = more@;
    r.append(&mut more);
    assert(resolved_view(r@) =~= resolved_view(held) + resolved_view(added));
}

/// The rows of the sources in a scope, source by source, each attributed in its way.
pub fn scan_sources(scope: ScanScope, logs: &SourceLogs, accounts: &[Json]) -> (r: Vec<Resolved>)
    ensures
        resolved_view(r@) == source_rows(scope, *logs, json::list_view(accounts@)),
{
    let mut r: Vec<Resolved> = Vec::new();
    assert(resolved_view(r@) =~= Seq::empty());
    if scope.contains(ScanSource::WorkBuddy(WbVariant::Cn)) {
        add_rows(&mut r, resolve_workbuddy(&logs.workbuddy_cn, accounts, WbVariant::Cn));
    }
    if scope.contains(ScanSource::WorkBuddy(WbVariant::Ai)) {
        add_rows(&mut r, resolve_workbuddy(&logs.workbuddy_ai, accounts, WbVariant::Ai));
    }
    if scope.contains(ScanSource::Cli) {
        add_rows(&mut r, resolve_client(&logs.cli, accounts));
    }
    if scope.contains(ScanSource::Ide(CodeBuddyIdeFlavor::Intl)) {
        add_rows(&mut r, resolve_client(&logs.ide, accounts));
    }
    if scope.contains(ScanSource::Ide(CodeBuddyIdeFlavor::Cn)) {
        add_rows(&mut r, resolve_client(&logs.cn_ide, accounts));
    }
    assert(resolved_view(r@) =~= source_rows(scope, *logs, json::list_view(accounts@)));
    r
}

} // verus!
