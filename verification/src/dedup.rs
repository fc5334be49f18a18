//! Clearing away sessions that were copied: sessions of one user that agree to
//! the millisecond in their last activity, and in title and directory. The one
//! with the smallest identifier stays; the others are marked as deleted, never
//! removed.
use vstd::prelude::*;
use crate::json;
use crate::json::{Json, JsonV};
use crate::text;
use crate::text::same;
use crate::variant;

verus! {

/// A session of a user that is not marked as deleted.
pub struct SessionRow {
    pub id: String,
    pub last_activity_at: i64,
    pub title: Option<String>,
    pub cwd: Option<String>,
}

/// A session of a user that is not marked as deleted.
pub struct SessionV {
    pub id: Seq<char>,
    pub active: int,
    pub title: Option<Seq<char>>,
    pub cwd: Option<Seq<char>>,
}

impl SessionRow {
    pub open spec fn view(&self) -> SessionV {
        SessionV {
            id: self.id@,
            active: self.last_activity_at as int,
            title: json::opt_string(self.title),
            cwd: json::opt_string(self.cwd),
        }
    }
}

/// The sessions of a list.
pub open spec fn sessions(s: Seq<SessionRow>) -> Seq<SessionV> {
    Seq::new(s.len(), |i: int| s[i]@)
}

/// Whether two sessions are copies of each other: they agree in last activity, title
/// and directory, where having none is an agreement too.
pub open spec fn copies(a: SessionV, b: SessionV) -> bool {
    a.active == b.active && a.title == b.title && a.cwd == b.cwd
}

fn same_text(a: &Option<String>, b: &Option<String>) -> (r: bool)
    ensures
        r == (json::opt_string(*a) == json::opt_string(*b)),
{
    match (a, b) {
        (Some(x), Some(y)) => same(x.as_str(), y.as_str()),
        (None, None) => true,
        _ => false,
    }
}

fn are_copies(a: &SessionRow, b: &SessionRow) -> (r: bool)
    ensures
        r == copies(a@, b@),
{
    a.last_activity_at == b.last_activity_at && same_text(&a.title, &b.title) && same_text(&a.cwd, &b.cwd)
}

/// An identifier put into a sorted list.
pub open spec fn filed(s: Seq<Seq<char>>, x: Seq<char>) -> Seq<Seq<char>>
    decreases s.len(),
{
    if s.len() == 0 || !text::less(x, s[s.len() - 1]) {
        s.push(x)
    } else {
        filed(s.subrange(0, s.len() - 1), x).push(s[s.len() - 1])
    }
}

/// The identifiers of the copies of a session among the first `n`, sorted.
pub open spec fn ids_of(s: Seq<SessionV>, x: SessionV, n: int) -> Seq<Seq<char>>
    decreases n,
{
    if n <= 0 || n > s.len() {
        Seq::empty()
    } else {
        let rest = ids_of(s, x, n - 1);
        if copies(x, s[n - 1]) {
            filed(rest, s[n - 1].id)
        } else {
            rest
        }
    }
}

proof fn filed_at(s: Seq<Seq<char>>, x: Seq<char>, i: int)
    requires
        0 <= i <= s.len(),
        forall|j: int| i <= j < s.len() ==> text::less(x, #[trigger] s[j]),
        i == 0 || !text::less(x, s[i - 1]),
    ensures
        filed(s, x) == s.insert(i, x),
    decreases s.len(),
{
    if i == s.len() {
        assert(s.insert(i, x) =~= s.push(x));
    } else {
        let n = s.len() - 1;
        filed_at(s.subrange(0, n), x, i);
        assert(s.subrange(0, n).insert(i, x).push(s[n]) =~= s.insert(i, x));
    }
}

fn file(list: &mut Vec<String>, x: String)
    ensures
        variant::strings(final(list)@) == filed(variant::strings(old(list)@), x@),
{
    let ghost before = list@;
    let mut i: usize = list.len();
    while i > 0 && text::comes_before(x.as_str(), list[i - 1].as_str())
        invariant
            i <= list@.len(),
            list@ == before,
            forall|j: int| i <= j < list@.len() ==> text::less(x@, #[trigger] variant::strings(list@)[j]),
        decreases i,
    {
        i -= 1;
    }
    proof {
        if i > 0 {
            assert(variant::strings(before)[i - 1] == before[i - 1]@);
        }
        filed_at(variant::strings(before), x@, i as int);
    }
    list.insert(i, x);
    assert(variant::strings(list@) =~= variant::strings(before).insert(i as int, x@));
}

fn find_ids(rows: &[SessionRow], k: usize) -> (r: Vec<String>)
    requires
        k < rows@.len(),
    ensures
        variant::strings(r@) == ids_of(sessions(rows@), rows@[k as int]@, rows@.len() as int),
{
    let ghost s = sessions(rows@);
    let ghost x = rows@[k as int]@;
    let mut ids: Vec<String> = Vec::new();
    let mut i: usize = 0;
    assert(variant::strings(ids@) =~= ids_of(s, x, 0));
    while i < rows.len()
        invariant
            i <= rows@.len(),
            k < rows@.len(),
            s == sessions(rows@),
            x == rows@[k as int]@,
            variant::strings(ids@) == ids_of(s, x, i as int),
        decreases rows@.len() - i,
    {
        assert(s[i as int] == rows@[i as int]@);
        if are_copies(&rows[k], &rows[i]) {
            file(&mut ids, rows[i].id.clone());
        }
        i += 1;
    }
    ids
}

/// Sessions that are copies of each other.
pub struct DupGroup {
    pub last_activity_at: i64,
    pub title: Option<String>,
    pub cwd: Option<String>,
    /// The session that stays.
    pub keep_id: String,
    /// The sessions to be marked as deleted.
    pub dup_ids: Vec<String>,
}

/// Sessions that are copies of each other: what they share, and their sorted identifiers.
pub struct GroupV {
    pub active: int,
    pub title: Option<Seq<char>>,
    pub cwd: Option<Seq<char>>,
    pub keep: Seq<char>,
    pub dups: Seq<Seq<char>>,
}

impl DupGroup {
    pub open spec fn view(&self) -> GroupV {
        GroupV {
            active: self.last_activity_at as int,
            title: json::opt_string(self.title),
            cwd: json::opt_string(self.cwd),
            keep: self.keep_id@,
            dups: variant::strings(self.dup_ids@),
        }
    }
}

/// The groups of a list.
pub open spec fn groups(s: Seq<DupGroup>) -> Seq<GroupV> {
    Seq::new(s.len(), |i: int| s[i]@)
}

/// Whether no copy of the session at `k` comes before it.
pub open spec fn is_first(s: Seq<SessionV>, k: int) -> bool {
    forall|j: int| 0 <= j < k ==> !copies(s[k], #[trigger] s[j])
}

fn comes_first(rows: &[SessionRow], k: usize) -> (b: bool)
    requires
        k < rows@.len(),
    ensures
        b == is_first(sessions(rows@), k as int),
{
    let ghost s = sessions(rows@);
    let mut j: usize = 0;
    while j < k
        invariant
            j <= k < rows@.len(),
            s == sessions(rows@),
            forall|i: int| 0 <= i < j ==> !copies(s[k as int], #[trigger] s[i]),
        decreases k - j,
    {
        assert(s[k as int] == rows@[k as int]@);
        assert(s[j as int] == rows@[j as int]@);
        if are_copies(&rows[k], &rows[j]) {
            return false;
        }
        j += 1;
    }
    true
}

/// The group of the session at `k`.
pub open spec fn group_of(s: Seq<SessionV>, k: int) -> GroupV {
    let ids = ids_of(s, s[k], s.len() as int);
    GroupV {
        active: s[k].active,
        title: s[k].title,
        cwd: s[k].cwd,
        keep: ids[0],
        dups: ids.subrange(1, ids.len() as int),
    }
}

/// Whether a group is listed before another: the larger first, then the earlier.
pub open spec fn leads(a: GroupV, b: GroupV) -> bool {
    a.dups.len() > b.dups.len() || (a.dups.len() == b.dups.len() && a.active < b.active)
}

/// A group put into a list, before those that it leads.
pub open spec fn lined_up(s: Seq<GroupV>, x: GroupV) -> Seq<GroupV>
    decreases s.len(),
{
    if s.len() == 0 || !leads(x, s[s.len() - 1]) {
        s.push(x)
    } else {
        lined_up(s.subrange(0, s.len() - 1), x).push(s[s.len() - 1])
    }
}

/// The groups of copies that begin among the first `n` sessions.
pub open spec fn copied(s: Seq<SessionV>, n: int) -> Seq<GroupV>
    decreases n,
{
    if n <= 0 || n > s.len() {
        Seq::empty()
    } else {
        let rest = copied(s, n - 1);
        if is_first(s, n - 1) && ids_of(s, s[n - 1], s.len() as int).len() > 1 {
            lined_up(rest, group_of(s, n - 1))
        } else {
            rest
        }
    }
}

proof fn lined_up_at(s: Seq<GroupV>, x: GroupV, i: int)
    requires
        0 <= i <= s.len(),
        forall|j: int| i <= j < s.len() ==> leads(x, #[trigger] s[j]),
        i == 0 || !leads(x, s[i - 1]),
    ensures
        lined_up(s, x) == s.insert(i, x),
    decreases s.len(),
{
    if i == s.len() {
        assert(s.insert(i, x) =~= s.push(x));
    } else {
        let n = s.len() - 1;
        lined_up_at(s.subrange(0, n), x, i);
        assert(s.subrange(0, n).insert(i, x).push(s[n]) =~= s.insert(i, x));
    }
}

fn leads_group(a: &DupGroup, b: &DupGroup) -> (r: bool)
    ensures
        r == leads(a@, b@),
{
    a.dup_ids.len() > b.dup_ids.len() || (a.dup_ids.len() == b.dup_ids.len() && a.last_activity_at
        < b.last_activity_at)
}

fn line_up(list: &mut Vec<DupGroup>, x: DupGroup)
    ensures
        groups(final(list)@) == lined_up(groups(old(list)@), x@),
{
    let ghost before = list@;
    let mut i: usize = list.len();
    while i > 0 && leads_group(&x, &list[i - 1])
        invariant
            i <= list@.len(),
            list@ == before,
            forall|j: int| i <= j < list@.len() ==> leads(x@, #[trigger] groups(list@)[j]),
        decreases i,
    {
        i -= 1;
    }
    proof {
        if i > 0 {
            assert(groups(before)[i - 1] == before[i - 1]@);
        }
        lined_up_at(groups(before), x@, i as int);
    }
    list.insert(i, x);
    assert(groups(list@) =~= groups(before).insert(i as int, x@));
}

fn copy_text(o: &Option<String>) -> (r: Option<String>)
    ensures
        json::opt_string(r) == json::opt_string(*o),
{
    match o {
        Some(s) => Some(s.as_str().to_owned()),
        None => None,
    }
}

/// The groups of copies among a user's sessions, the largest first, then the
/// earliest. In each, the smallest identifier stays.
pub fn find_dup_groups(rows: &[SessionRow]) -> (r: Vec<DupGroup>)
    ensures
        groups(r@) == copied(sessions(rows@), rows@.len() as int),
{
    let ghost s = sessions(rows@);
    let mut found: Vec<DupGroup> = Vec::new();
    let mut k: usize = 0;
    assert(groups(found@) =~= copied(s, 0));
    while k < rows.len()
        invariant
            k <= rows@.len(),
            s == sessions(rows@),
            groups(found@) == copied(s, k as int),
        decreases rows@.len() - k,
    {
        assert(s[k as int] == rows@[k as int]@);
        if comes_first(rows, k) {
            let mut dup_ids: Vec<String> = find_ids(rows, k);
            let ghost ids = variant::strings(dup_ids@);
            assert(ids.len() == dup_ids@.len());
            if dup_ids.len() > 1 {
                let ghost all = dup_ids@;
                let keep_id: String = dup_ids.remove(0);
                assert(variant::strings(dup_ids@) =~= ids.subrange(1, ids.len() as int));
                assert(keep_id@ == ids[0]);
                let g: DupGroup = DupGroup {
                    last_activity_at: rows[k].last_activity_at,
                    title: copy_text(&rows[k].title),
                    cwd: copy_text(&rows[k].cwd),
                    keep_id,
                    dup_ids,
                };
                assert(g@ == group_of(s, k as int));
                line_up(&mut found, g);
            }
        }
        k += 1;
    }
    found
}

/// What is told of a group.
pub open spec fn group_entry(g: GroupV) -> JsonV {
    JsonV::empty().put("lastActivityAt"@, JsonV::Int(g.active)).put(
        "title"@,
        JsonV::Str(crate::account::or_empty(g.title)),
    ).put("cwd"@, JsonV::Str(crate::account::or_empty(g.cwd))).put("count"@, JsonV::Int((g.dups.len() + 1) as int)).put(
        "keepId"@,
        JsonV::Str(g.keep),
    ).put("dupIds"@, crate::credits::text_list(g.dups))
}

fn text_or_empty(o: &Option<String>) -> (r: String)
    ensures
        r@ == crate::account::or_empty(json::opt_string(*o)),
{
    match o {
        Some(s) => s.as_str().to_owned(),
        None => String::new(),
    }
}

impl DupGroup {
    /// What is told of a group.
    pub fn to_json(&self) -> (r: Json)
        ensures
            r@ == group_entry(self@),
    {
        let mut ids: Vec<Json> = Vec::new();
        let mut i: usize = 0;
        while i < self.dup_ids.len()
            invariant
                i <= self.dup_ids@.len(),
                ids@.len() == i,
                forall|j: int| 0 <= j < i ==> (#[trigger] ids@[j])@ == JsonV::Str(self.dup_ids@[j]@),
            decreases self.dup_ids@.len() - i,
        {
            ids.push(Json::text(self.dup_ids[i].as_str()));
            i += 1;
        }
        assert(json::list_view(ids@) =~= variant::strings(self.dup_ids@).map_values(
            |t: Seq<char>| JsonV::Str(t),
        ));
        let title: String = text_or_empty(&self.title);
        let cwd: String = text_or_empty(&self.cwd);
        Json::object().put("lastActivityAt", Json::num(self.last_activity_at)).put(
            "title",
            Json::text(title.as_str()),
        ).put("cwd", Json::text(cwd.as_str())).put("count", Json::Int(self.dup_ids.len() as i128 + 1)).put(
            "keepId",
            Json::text(self.keep_id.as_str()),
        ).put("dupIds", Json::Arr(ids))
    }
}

/// How many sessions the first `n` groups would lose, counted around at the bound
/// of `usize`.
pub open spec fn to_delete(g: Seq<GroupV>, n: int) -> usize
    decreases n,
{
    if n <= 0 || n > g.len() {
        0
    } else {
        to_delete(g, n - 1).wrapping_add(g[n - 1].dups.len() as usize)
    }
}

/// How many sessions the groups would lose.
pub fn total_to_delete(found: &[DupGroup]) -> (n: usize)
    ensures
        n == to_delete(groups(found@), found@.len() as int),
{
    let ghost g = groups(found@);
    let mut n: usize = 0;
    let mut i: usize = 0;
    while i < found.len()
        invariant
            i <= found@.len(),
            g == groups(found@),
            n == to_delete(g, i as int),
        decreases found@.len() - i,
    {
        assert(g[i as int].dups.len() == found@[i as int].dup_ids@.len());
        n = n.wrapping_add(found[i].dup_ids.len());
        i += 1;
    }
    n
}

/// An answer that says what went wrong.
pub open spec fn refusal(error: Seq<char>) -> JsonV {
    JsonV::empty().put("ok"@, JsonV::Bool(false)).put("error"@, JsonV::Str(error))
}

/// An answer that says what went wrong.
pub fn refused(error: &str) -> (r: Json)
    ensures
        r@ == refusal(error@),
{
    Json::object().put("ok", Json::Bool(false)).put("error", Json::text(error))
}

/// Whose sessions are looked at: the user asked for, else the current one, else
/// an answer that says that neither is known.
pub fn chosen_user(asked: Option<String>, current: Option<String>) -> (r: Result<String, Json>)
    ensures
        match (json::opt_string(asked), json::opt_string(current)) {
            (Some(u), c) => if text::trim(u).len() > 0 {
                r matches Ok(s) && s@ == u
            } else {
                match c {
                    Some(v) => r matches Ok(s) && s@ == v,
                    None => r matches Err(j) && j@ == refusal("无法确定当前账号"@),
                }
            },
            (None, Some(v)) => r matches Ok(s) && s@ == v,
            (None, None) => r matches Err(j) && j@ == refusal("无法确定当前账号"@),
        },
{
    match asked {
        Some(u) => {
            if !text::trimmed(u.as_str()).as_str().is_empty() {
                return Ok(u);
            }
        },
        None => {},
    }
    match current {
        Some(c) => Ok(c),
        None => Err(refused("无法确定当前账号")),
    }
}

/// What is told of the copies before they are marked.
pub fn dedup_preview(uid: &str, found: &[DupGroup]) -> (r: Json)
    ensures
        r@ == JsonV::empty().put("ok"@, JsonV::Bool(true)).put("uid"@, JsonV::Str(uid@)).put(
            "groups"@,
            JsonV::Arr(groups(found@).map_values(|g: GroupV| group_entry(g))),
        ).put("totalGroups"@, JsonV::Int(found@.len() as int)).put(
            "totalToDelete"@,
            JsonV::Int(to_delete(groups(found@), found@.len() as int) as int),
        ),
{
    let ghost g = groups(found@);
    let mut list: Vec<Json> = Vec::new();
    let mut i: usize = 0;
    while i < found.len()
        invariant
            i <= found@.len(),
            g == groups(found@),
            list@.len() == i,
            forall|j: int| 0 <= j < i ==> (#[trigger] list@[j])@ == group_entry(g[j]),
        decreases found@.len() - i,
    {
        assert(g[i as int] == found@[i as int]@);
        list.push(found[i].to_json());
        i += 1;
    }
    assert(json::list_view(list@) =~= g.map_values(|x: GroupV| group_entry(x)));
    Json::object().put("ok", Json::Bool(true)).put("uid", Json::text(uid)).put("groups", Json::Arr(list)).put(
        "totalGroups",
        Json::count(found.len()),
    ).put("totalToDelete", Json::count(total_to_delete(found)))
}

/// As many question marks, with commas between them.
pub open spec fn marks(n: int) -> Seq<char>
    decreases n,
{
    if n <= 0 {
        Seq::empty()
    } else if n == 1 {
        "?"@
    } else {
        marks(n - 1) + ",?"@
    }
}

/// The statement that marks `n` sessions as deleted: the time is its first
/// parameter, the identifiers are the others.
pub fn delete_statement(n: usize) -> (r: String)
    ensures
        r@ == "UPDATE sessions SET deleted_at = ?1 WHERE id IN ("@ + marks(n as int) + ")"@,
{
    let mut list: String = String::new();
    let mut i: usize = 0;
    assert(list@ =~= marks(0));
    while i < n
        invariant
            i <= n,
            list@ == marks(i as int),
        decreases n - i,
    {
        if i == 0 {
            list = "?".to_owned();
        } else {
            list = text::concat(list.as_str(), ",?");
        }
        i += 1;
    }
    text::concat3("UPDATE sessions SET deleted_at = ?1 WHERE id IN (", list.as_str(), ")")
}

/// What is told where there is nothing to mark.
pub open spec fn nothing_found(uid: Seq<char>) -> JsonV {
    JsonV::empty().put("ok"@, JsonV::Bool(true)).put("uid"@, JsonV::Str(uid)).put("deleted"@, JsonV::Int(0)).put(
        "groups"@,
        JsonV::Arr(Seq::empty()),
    ).put("totalGroups"@, JsonV::Int(0)).put("message"@, JsonV::Str("未发现重复会话，无需清理"@))
}

/// A step of marking the copies.
#[derive(Debug, Clone, Copy, PartialEq, Eq, Structural)]
pub enum MarkStep {
    /// Begin the transaction.
    Begin,
    /// Mark the copies of a group; so many sessions were marked before.
    Mark { group: usize, deleted: usize },
    /// Make the marks last.
    Commit { deleted: usize },
    /// Take the marks back.
    Rollback,
    /// Write the journal back into the database, whatever became of the marks.
    Checkpoint(Option<usize>),
    /// Tell how many were marked, or that none was.
    Tell(Option<usize>),
}

/// The first group from `i` on that has copies; the number of groups where none has.
pub open spec fn group_from(g: Seq<GroupV>, i: int) -> int
    decreases g.len() - i,
{
    if i < 0 || i >= g.len() {
        g.len() as int
    } else if g[i].dups.len() > 0 {
        i
    } else {
        group_from(g, i + 1)
    }
}

fn next_group(found: &[DupGroup], from: usize) -> (r: usize)
    requires
        from <= found@.len(),
    ensures
        r == group_from(groups(found@), from as int),
        from <= r <= found@.len(),
{
    let ghost g = groups(found@);
    let mut i: usize = from;
    while i < found.len()
        invariant
            from <= i <= found@.len(),
            g == groups(found@),
            group_from(g, from as int) == group_from(g, i as int),
        decreases found@.len() - i,
    {
        assert(g[i as int].dups.len() == found@[i as int].dup_ids@.len());
        if found[i].dup_ids.len() > 0 {
            return i;
        }
        i += 1;
    }
    i
}

/// The step at the groups from `i` on, after `deleted` sessions were marked.
pub open spec fn mark_from(g: Seq<GroupV>, i: int, deleted: usize) -> MarkStep {
    let next = group_from(g, i);
    if next < g.len() {
        MarkStep::Mark { group: next as usize, deleted }
    } else {
        MarkStep::Commit { deleted }
    }
}

/// What comes after a step of marking. `report` says how the step went; a statement
/// that went well says how many sessions it changed.
pub open spec fn after_mark(g: Seq<GroupV>, step: MarkStep, report: Option<usize>) -> MarkStep {
    match (step, report) {
        (MarkStep::Begin, Some(_)) => mark_from(g, 0, 0),
        (MarkStep::Begin, None) => MarkStep::Tell(None),
        (MarkStep::Mark { group, deleted }, Some(n)) => mark_from(g, group + 1, deleted.wrapping_add(n)),
        (MarkStep::Mark { .. }, None) => MarkStep::Rollback,
        (MarkStep::Commit { deleted }, _) => MarkStep::Checkpoint(Some(deleted)),
        (MarkStep::Rollback, _) => MarkStep::Checkpoint(None),
        (MarkStep::Checkpoint(told), _) => MarkStep::Tell(told),
        (MarkStep::Tell(told), _) => MarkStep::Tell(told),
    }
}

fn mark_groups(found: &[DupGroup], from: usize, deleted: usize) -> (r: MarkStep)
    requires
        from <= found@.len(),
    ensures
        r == mark_from(groups(found@), from as int, deleted),
{
    let next: usize = next_group(found, from);
    if next < found.len() {
        MarkStep::Mark { group: next, deleted }
    } else {
        MarkStep::Commit { deleted }
    }
}

/// What comes after a step of marking: group by group in one transaction, which a
/// failed statement takes back.
pub fn mark_next(found: &[DupGroup], step: MarkStep, report: Option<usize>) -> (r: MarkStep)
    ensures
        r == after_mark(groups(found@), step, report),
{
    match (step, report) {
        (MarkStep::Begin, Some(_)) => mark_groups(found, 0, 0),
        (MarkStep::Begin, None) => MarkStep::Tell(None),
        (MarkStep::Mark { group, deleted }, Some(n)) => {
            if group < found.len() {
                mark_groups(found, group + 1, deleted.wrapping_add(n))
            } else {
                MarkStep::Commit { deleted: deleted.wrapping_add(n) }
            }
        },
        (MarkStep::Mark { group: _, deleted: _ }, None) => MarkStep::Rollback,
        (MarkStep::Commit { deleted }, _) => MarkStep::Checkpoint(Some(deleted)),
        (MarkStep::Rollback, _) => MarkStep::Checkpoint(None),
        (MarkStep::Checkpoint(told), _) => MarkStep::Tell(told),
        (MarkStep::Tell(told), _) => MarkStep::Tell(told),
    }
}

/// Begins to mark the copies: the first step, or what is told where there are none.
pub fn dedup_execute(uid: &str, found: &[DupGroup]) -> (r: Result<MarkStep, Json>)
    ensures
        if to_delete(groups(found@), found@.len() as int) == 0 {
            r matches Err(j) && j@ == nothing_found(uid@)
        } else {
            r matches Ok(s) && s == MarkStep::Begin
        },
{
    if total_to_delete(found) != 0 {
        return Ok(MarkStep::Begin);
    }
    let none: Vec<Json> = Vec::new();
    assert(json::list_view(none@) =~= Seq::<JsonV>::empty());
    Err(
        Json::object().put("ok", Json::Bool(true)).put("uid", Json::text(uid)).put("deleted", Json::num(0)).put(
            "groups",
            Json::Arr(none),
        ).put("totalGroups", Json::num(0)).put("message", Json::text("未发现重复会话，无需清理")),
    )
}

/// What is told in the end: how many sessions were marked, or that the transaction
/// failed and none was.
pub fn marking_told(uid: &str, found: &[DupGroup], deleted: Option<usize>) -> (r: Json)
    ensures
        match deleted {
            Some(n) => r@ == JsonV::empty().put("ok"@, JsonV::Bool(true)).put("uid"@, JsonV::Str(uid@)).put(
                "deleted"@,
                JsonV::Int(n as int),
            ).put("totalGroups"@, JsonV::Int(found@.len() as int)).put(
                "totalToDelete"@,
                JsonV::Int(to_delete(groups(found@), found@.len() as int) as int),
            ),
            None => r@ == refusal("软删事务失败，未做任何修改"@),
        },
{
    match deleted {
        Some(n) => Json::object().put("ok", Json::Bool(true)).put("uid", Json::text(uid)).put(
            "deleted",
            Json::count(n),
        ).put("totalGroups", Json::count(found.len())).put("totalToDelete", Json::count(total_to_delete(found))),
        None => refused("软删事务失败，未做任何修改"),
    }
}

/// The step after a number of steps, each with its report.
pub open spec fn after_steps(g: Seq<GroupV>, step: MarkStep, reports: Seq<Option<usize>>) -> MarkStep
    decreases reports.len(),
{
    if reports.len() == 0 {
        step
    } else {
        after_mark(g, after_steps(g, step, reports.subrange(0, reports.len() - 1)), reports[reports.len() - 1])
    }
}

/// A statement that fails undoes all: the marks are taken back, and in the end it is
/// told that none was made, however the rest goes.
pub proof fn failed_marking_is_taken_back(
    g: Seq<GroupV>,
    group: usize,
    deleted: usize,
    second: Option<usize>,
    third: Option<usize>,
)
    ensures
        after_mark(g, MarkStep::Mark { group, deleted }, None) == MarkStep::Rollback,
        after_steps(g, MarkStep::Mark { group, deleted }, seq![None, second, third]) == MarkStep::Tell(
            None,
        ),
{
    let reports = seq![None, second, third];
    reveal_with_fuel(after_steps, 4);
    assert(reports.subrange(0, 2) =~= seq![None, second]);
    assert(reports.subrange(0, 2).subrange(0, 1) =~= seq![None::<usize>]);
    assert(reports.subrange(0, 2).subrange(0, 1).subrange(0, 0) =~= Seq::<Option<usize>>::empty());
}

/// How many sessions the statements of the groups from `i` on change, by what each says.
pub open spec fn changed(g: Seq<GroupV>, counts: Seq<usize>, i: int) -> int
    decreases g.len() - i,
{
    if i < 0 || i >= g.len() {
        0
    } else if g[i].dups.len() > 0 {
        counts[i] + changed(g, counts, i + 1)
    } else {
        changed(g, counts, i + 1)
    }
}

/// The step that is reached, within `n` statements, where every statement goes well.
pub open spec fn walk(g: Seq<GroupV>, counts: Seq<usize>, step: MarkStep, n: nat) -> MarkStep
    decreases n,
{
    match step {
        MarkStep::Mark { group, .. } => if n == 0 {
            step
        } else {
            walk(g, counts, after_mark(g, step, Some(counts[group as int])), (n - 1) as nat)
        },
        _ => step,
    }
}

proof fn group_from_passes(g: Seq<GroupV>, counts: Seq<usize>, i: int)
    requires
        0 <= i <= g.len(),
    ensures
        i <= group_from(g, i) <= g.len(),
        group_from(g, i) < g.len() ==> g[group_from(g, i)].dups.len() > 0,
        changed(g, counts, i) == changed(g, counts, group_from(g, i)),
        0 <= changed(g, counts, i),
    decreases g.len() - i,
{
    if i < g.len() {
        group_from_passes(g, counts, i + 1);
        if g[i].dups.len() > 0 {
            assert(changed(g, counts, i) == counts[i] + changed(g, counts, i + 1));
        }
    }
}

proof fn walk_from(g: Seq<GroupV>, counts: Seq<usize>, i: int, deleted: usize, n: nat)
    requires
        0 <= i <= g.len() <= usize::MAX,
        n >= g.len() - i,
        deleted + changed(g, counts, i) <= usize::MAX,
    ensures
        walk(g, counts, mark_from(g, i, deleted), n) == (MarkStep::Commit {
            deleted: (deleted + changed(g, counts, i)) as usize,
        }),
    decreases n,
{
    group_from_passes(g, counts, i);
    let next = group_from(g, i);
    if next < g.len() {
        assert(changed(g, counts, next) == counts[next] + changed(g, counts, next + 1));
        group_from_passes(g, counts, next + 1);
        walk_from(g, counts, next + 1, deleted.wrapping_add(counts[next]), (n - 1) as nat);
    }
}

/// Where every statement goes well, the statements of all groups with copies are
/// made before the marks are made to last, and what is told is how many sessions
/// they changed. `counts` is what the statement of each group says.
pub proof fn every_group_is_marked(g: Seq<GroupV>, counts: Seq<usize>, begun: usize)
    requires
        g.len() <= usize::MAX,
        changed(g, counts, 0) <= usize::MAX,
    ensures
        ({
            let last = walk(g, counts, after_mark(g, MarkStep::Begin, Some(begun)), g.len());
            &&& last == (MarkStep::Commit { deleted: changed(g, counts, 0) as usize })
            &&& after_steps(g, last, seq![Some(begun), Some(begun)]) == MarkStep::Tell(
                Some(changed(g, counts, 0) as usize),
            )
        }),
{
    walk_from(g, counts, 0, 0, g.len());
    let reports = seq![Some(begun), Some(begun)];
    reveal_with_fuel(after_steps, 3);
    assert(reports.subrange(0, 1) =~= seq![Some(begun)]);
    assert(reports.subrange(0, 1).subrange(0, 0) =~= Seq::<Option<usize>>::empty());
}

/// None comes before a smaller one.
pub open spec fn sorted(s: Seq<Seq<char>>) -> bool {
    forall|i: int, j: int| 0 <= i < j < s.len() ==> !text::less(#[trigger] s[j], #[trigger] s[i])
}

proof fn filing_sorts(s: Seq<Seq<char>>, x: Seq<char>)
    requires
        sorted(s),
    ensures
        sorted(filed(s, x)),
        filed(s, x).to_multiset() == s.to_multiset().insert(x),
    decreases s.len(),
{
    broadcast use vstd::seq_lib::group_to_multiset_ensures;

    if s.len() == 0 || !text::less(x, s[s.len() - 1]) {
        let t = s.push(x);
        assert forall|i: int, j: int| 0 <= i < j < t.len() implies !text::less(#[trigger] t[j], #[trigger] t[i]) by {
            if j == s.len() && i < s.len() - 1 {
                let last = s[s.len() - 1];
                text::less_total(x, last);
                text::less_total(last, s[i]);
                if text::less(x, s[i]) {
                    text::less_total(x, s[i]);
                    if text::less(s[i], last) {
                        text::less_trans(x, s[i], last);
                    }
                }
            }
        }
    } else {
        let last = s[s.len() - 1];
        let front = s.subrange(0, s.len() - 1);
        filing_sorts(front, x);
        let p = filed(front, x);
        let t = p.push(last);
        assert(s =~= front.push(last));
        assert forall|i: int, j: int| 0 <= i < j < t.len() implies !text::less(#[trigger] t[j], #[trigger] t[i]) by {
            if j == p.len() {
                assert(p.to_multiset().contains(p[i]));
                assert(front.to_multiset().insert(x).count(p[i]) > 0);
                if p[i] != x {
                    assert(front.to_multiset().contains(p[i]));
                    assert(front.contains(p[i]));
                    let k = choose|k: int| 0 <= k < front.len() && front[k] == p[i];
                    assert(s[k] == p[i]);
                } else {
                    text::less_total(x, last);
                }
            }
        }
    }
}

proof fn ids_are_sorted(s: Seq<SessionV>, x: SessionV, n: int)
    ensures
        sorted(ids_of(s, x, n)),
    decreases n,
{
    if 0 < n <= s.len() {
        ids_are_sorted(s, x, n - 1);
        filing_sorts(ids_of(s, x, n - 1), s[n - 1].id);
    }
}

proof fn ids_have_sessions(s: Seq<SessionV>, x: SessionV, n: int, i: int)
    requires
        0 <= n <= s.len(),
        0 <= i < ids_of(s, x, n).len(),
    ensures
        exists|k: int| 0 <= k < n && copies(x, #[trigger] s[k]) && s[k].id == ids_of(s, x, n)[i],
    decreases n,
{
    broadcast use vstd::seq_lib::group_to_multiset_ensures;

    let ids = ids_of(s, x, n);
    let rest = ids_of(s, x, n - 1);
    if copies(x, s[n - 1]) {
        ids_are_sorted(s, x, n - 1);
        filing_sorts(rest, s[n - 1].id);
        assert(ids.to_multiset().contains(ids[i]));
        assert(rest.to_multiset().insert(s[n - 1].id).count(ids[i]) > 0);
        if ids[i] != s[n - 1].id {
            assert(rest.to_multiset().contains(ids[i]));
            assert(rest.contains(ids[i]));
            let j = choose|j: int| 0 <= j < rest.len() && rest[j] == ids[i];
            ids_have_sessions(s, x, n - 1, j);
        }
    } else {
        ids_have_sessions(s, x, n - 1, i);
    }
}

proof fn copied_are_groups(s: Seq<SessionV>, n: int, i: int)
    requires
        0 <= n <= s.len(),
        0 <= i < copied(s, n).len(),
    ensures
        exists|k: int|
            0 <= k < n && ids_of(s, #[trigger] s[k], s.len() as int).len() > 1 && copied(s, n)[i] == group_of(s, k),
    decreases n,
{
    let rest = copied(s, n - 1);
    if is_first(s, n - 1) && ids_of(s, s[n - 1], s.len() as int).len() > 1 {
        lined_up_has(rest, group_of(s, n - 1), i);
        if copied(s, n)[i] != group_of(s, n - 1) {
            let j = choose|j: int| 0 <= j < rest.len() && rest[j] == copied(s, n)[i];
            copied_are_groups(s, n - 1, j);
        } else {
            assert(s[n - 1] == s[n - 1]);
        }
    } else {
        copied_are_groups(s, n - 1, i);
    }
}

proof fn lined_up_has(s: Seq<GroupV>, x: GroupV, i: int)
    requires
        0 <= i < lined_up(s, x).len(),
    ensures
        lined_up(s, x)[i] == x || exists|j: int| 0 <= j < s.len() && s[j] == lined_up(s, x)[i],
    decreases s.len(),
{
    if !(s.len() == 0 || !leads(x, s[s.len() - 1])) {
        let front = s.subrange(0, s.len() - 1);
        if i < lined_up(front, x).len() {
            lined_up_has(front, x, i);
            if lined_up(front, x)[i] != x {
                let j = choose|j: int| 0 <= j < front.len() && front[j] == lined_up(front, x)[i];
                assert(s[j] == lined_up(s, x)[i]);
            }
        } else {
            assert(s[s.len() - 1] == lined_up(s, x)[i]);
        }
    } else if i < s.len() {
        assert(s[i] == lined_up(s, x)[i]);
    }
}

/// Of every group a session stays, with an identifier that none of the marked
/// ones comes before; and every marked identifier is that of a session that is a
/// copy of it.
pub proof fn smallest_stays(s: Seq<SessionV>, i: int, d: int)
    requires
        0 <= i < copied(s, s.len() as int).len(),
        0 <= d < copied(s, s.len() as int)[i].dups.len(),
    ensures
        ({
            let g = copied(s, s.len() as int)[i];
            &&& !text::less(g.dups[d], g.keep)
            &&& exists|a: int, b: int|
                #![trigger s[a], s[b]]
                0 <= a < s.len() && 0 <= b < s.len() && s[a].id == g.keep && s[b].id == g.dups[d] && copies(s[a], s[b])
        }),
{
    let n = s.len() as int;
    copied_are_groups(s, n, i);
    let k = choose|k: int|
        0 <= k < n && ids_of(s, #[trigger] s[k], n).len() > 1 && copied(s, n)[i] == group_of(s, k);
    let ids = ids_of(s, s[k], n);
    ids_are_sorted(s, s[k], n);
    assert(copied(s, n)[i].dups[d] == ids[d + 1]);
    ids_have_sessions(s, s[k], n, 0);
    ids_have_sessions(s, s[k], n, d + 1);
    let a = choose|a: int| 0 <= a < n && copies(s[k], #[trigger] s[a]) && s[a].id == ids[0];
    let b = choose|b: int| 0 <= b < n && copies(s[k], #[trigger] s[b]) && s[b].id == ids[d + 1];
    assert(copies(s[a], s[b]));
}

proof fn ids_are_complete(s: Seq<SessionV>, x: SessionV, n: int, k: int)
    requires
        0 <= k < n <= s.len(),
        copies(x, s[k]),
    ensures
        ids_of(s, x, n).contains(s[k].id),
    decreases n,
{
    broadcast use vstd::seq_lib::group_to_multiset_ensures;

    let ids = ids_of(s, x, n);
    let rest = ids_of(s, x, n - 1);
    if copies(x, s[n - 1]) {
        ids_are_sorted(s, x, n - 1);
        filing_sorts(rest, s[n - 1].id);
        if k < n - 1 {
            ids_are_complete(s, x, n - 1, k);
            assert(rest.to_multiset().contains(s[k].id));
        }
        assert(ids.to_multiset().contains(s[k].id));
    } else {
        ids_are_complete(s, x, n - 1, k);
    }
}

proof fn lined_up_keeps(s: Seq<GroupV>, x: GroupV)
    ensures
        lined_up(s, x).contains(x),
        forall|j: int| 0 <= j < s.len() ==> lined_up(s, x).contains(#[trigger] s[j]),
    decreases s.len(),
{
    let t = lined_up(s, x);
    if s.len() == 0 || !leads(x, s[s.len() - 1]) {
        assert(t[s.len() as int] == x);
        assert forall|j: int| 0 <= j < s.len() implies t.contains(#[trigger] s[j]) by {
            assert(t[j] == s[j]);
        }
    } else {
        let front = s.subrange(0, s.len() - 1);
        let p = lined_up(front, x);
        lined_up_keeps(front, x);
        assert(t == p.push(s[s.len() - 1]));
        let i = choose|i: int| 0 <= i < p.len() && p[i] == x;
        assert(t[i] == x);
        assert forall|j: int| 0 <= j < s.len() implies t.contains(#[trigger] s[j]) by {
            if j < front.len() {
                assert(p.contains(front[j]));
                let m = choose|m: int| 0 <= m < p.len() && p[m] == front[j];
                assert(t[m] == s[j]);
            } else {
                assert(t[p.len() as int] == s[j]);
            }
        }
    }
}

proof fn groups_are_complete(s: Seq<SessionV>, n: int, k: int)
    requires
        0 <= k < n <= s.len(),
        is_first(s, k),
        ids_of(s, s[k], s.len() as int).len() > 1,
    ensures
        copied(s, n).contains(group_of(s, k)),
    decreases n,
{
    let rest = copied(s, n - 1);
    if is_first(s, n - 1) && ids_of(s, s[n - 1], s.len() as int).len() > 1 {
        lined_up_keeps(rest, group_of(s, n - 1));
        if k < n - 1 {
            groups_are_complete(s, n - 1, k);
            let j = choose|j: int| 0 <= j < rest.len() && rest[j] == group_of(s, k);
            assert(copied(s, n).contains(rest[j]));
        }
    } else {
        groups_are_complete(s, n - 1, k);
    }
}

proof fn first_copy(s: Seq<SessionV>, a: int) -> (k: int)
    requires
        0 <= a < s.len(),
    ensures
        0 <= k <= a,
        is_first(s, k),
        copies(s[k], s[a]),
    decreases a,
{
    if is_first(s, a) {
        a
    } else {
        let j = choose|j: int| 0 <= j < a && copies(s[a], #[trigger] s[j]);
        first_copy(s, j)
    }
}

/// Whether an identifier is to be marked.
pub open spec fn is_marked(s: Seq<SessionV>, id: Seq<char>) -> bool {
    exists|i: int| 0 <= i < copied(s, s.len() as int).len() && (#[trigger] copied(s, s.len() as int)[i]).dups.contains(id)
}

proof fn ids_repeat(s: Seq<SessionV>, x: SessionV, n: int, a: int, b: int)
    requires
        0 <= a < b < n <= s.len(),
        copies(x, s[a]),
        copies(x, s[b]),
        s[a].id == s[b].id,
    ensures
        ids_of(s, x, n).to_multiset().count(s[a].id) >= 2,
    decreases n,
{
    broadcast use vstd::seq_lib::group_to_multiset_ensures;

    let rest = ids_of(s, x, n - 1);
    ids_are_sorted(s, x, n - 1);
    if copies(x, s[n - 1]) {
        filing_sorts(rest, s[n - 1].id);
    }
    if b == n - 1 {
        ids_are_complete(s, x, n - 1, a);
        assert(rest.to_multiset().contains(s[a].id));
    } else {
        ids_repeat(s, x, n - 1, a, b);
    }
}

/// Of two sessions that are copies of each other one is marked.
pub proof fn one_of_two_copies_goes(s: Seq<SessionV>, a: int, b: int)
    requires
        0 <= a < b < s.len(),
        copies(s[a], s[b]),
    ensures
        is_marked(s, s[a].id) || is_marked(s, s[b].id),
{
    broadcast use vstd::seq_lib::group_to_multiset_ensures;

    let n = s.len() as int;
    let k = first_copy(s, a);
    let ids = ids_of(s, s[k], n);
    ids_are_complete(s, s[k], n, a);
    ids_are_complete(s, s[k], n, b);
    let g = group_of(s, k);
    let rest = ids.subrange(1, ids.len() as int);
    if s[a].id == s[b].id {
        ids_repeat(s, s[k], n, a, b);
        assert(ids.remove(0) =~= rest);
        assert(rest.to_multiset() == ids.to_multiset().remove(ids[0]));
        assert(rest.to_multiset().contains(s[a].id));
        assert(rest.contains(s[a].id));
    } else {
        let i = choose|i: int| 0 <= i < ids.len() && ids[i] == s[a].id;
        let j = choose|j: int| 0 <= j < ids.len() && ids[j] == s[b].id;
        assert(i != j);
        if i > 0 {
            assert(rest[i - 1] == s[a].id);
        } else {
            assert(rest[j - 1] == s[b].id);
        }
    }
    assert(rest.contains(s[a].id) || rest.contains(s[b].id));
    groups_are_complete(s, n, k);
    let m = choose|m: int| 0 <= m < copied(s, n).len() && copied(s, n)[m] == g;
    assert(copied(s, n)[m].dups == rest);
}

/// The sessions that are left once the marked ones are gone.
pub open spec fn left_over(s: Seq<SessionV>) -> Seq<SessionV> {
    s.filter(|x: SessionV| !is_marked(s, x.id))
}

proof fn filtered_from(s: Seq<SessionV>, keep: spec_fn(SessionV) -> bool, a: int, b: int)
    requires
        0 <= a < b < s.filter(keep).len(),
    ensures
        exists|i: int, j: int|
            #![trigger s[i], s[j]]
            0 <= i < j < s.len() && s[i] == s.filter(keep)[a] && s[j] == s.filter(keep)[b] && keep(s[i]) && keep(s[j]),
    decreases s.len(),
{
    reveal(Seq::filter);
    let front = s.drop_last();
    let last = s.last();
    let kept = front.filter(keep);
    if b < kept.len() {
        filtered_from(front, keep, a, b);
        let (i, j) = choose|i: int, j: int|
            #![trigger front[i], front[j]]
            0 <= i < j < front.len() && front[i] == kept[a] && front[j] == kept[b] && keep(front[i]) && keep(front[j]);
        assert(s[i] == front[i] && s[j] == front[j]);
    } else {
        one_filtered_from(front, keep, a);
        let i = choose|i: int| 0 <= i < front.len() && #[trigger] front[i] == kept[a] && keep(front[i]);
        assert(s[i] == front[i] && s[s.len() - 1] == last);
    }
}

proof fn one_filtered_from(s: Seq<SessionV>, keep: spec_fn(SessionV) -> bool, a: int)
    requires
        0 <= a < s.filter(keep).len(),
    ensures
        exists|i: int| 0 <= i < s.len() && #[trigger] s[i] == s.filter(keep)[a] && keep(s[i]),
    decreases s.len(),
{
    reveal(Seq::filter);
    let front = s.drop_last();
    let kept = front.filter(keep);
    if a < kept.len() {
        one_filtered_from(front, keep, a);
        let i = choose|i: int| 0 <= i < front.len() && #[trigger] front[i] == kept[a] && keep(front[i]);
        assert(s[i] == front[i]);
    } else {
        assert(s[s.len() - 1] == s.last());
    }
}

proof fn ids_of_one(s: Seq<SessionV>, x: SessionV, n: int)
    requires
        0 <= n <= s.len(),
        forall|a: int, b: int| 0 <= a < b < n ==> !(copies(x, #[trigger] s[a]) && copies(x, #[trigger] s[b])),
    ensures
        ids_of(s, x, n).len() <= 1,
        forall|a: int| 0 <= a < n && copies(x, #[trigger] s[a]) ==> ids_of(s, x, n).len() == 1,
        ids_of(s, x, n).len() == 1 ==> exists|a: int| 0 <= a < n && copies(x, #[trigger] s[a]),
    decreases n,
{
    if n > 0 {
        ids_of_one(s, x, n - 1);
        if copies(x, s[n - 1]) {
            assert(ids_of(s, x, n - 1).len() == 0) by {
                if ids_of(s, x, n - 1).len() == 1 {
                    let a = choose|a: int| 0 <= a < n - 1 && copies(x, #[trigger] s[a]);
                    assert(!(copies(x, s[a]) && copies(x, s[n - 1])));
                }
            }
        }
    }
}

/// Marking once is enough: among the sessions that are left no copies are found, so a
/// second run finds nothing to mark and changes nothing.
pub proof fn second_run_finds_nothing(s: Seq<SessionV>)
    ensures
        copied(left_over(s), left_over(s).len() as int) == Seq::<GroupV>::empty(),
        to_delete(copied(left_over(s), left_over(s).len() as int), 0) == 0,
{
    let t = left_over(s);
    let n = t.len() as int;
    let keep = |x: SessionV| !is_marked(s, x.id);
    if copied(t, n).len() > 0 {
        copied_are_groups(t, n, 0);
        let k = choose|k: int| 0 <= k < n && ids_of(t, #[trigger] t[k], n).len() > 1 && copied(t, n)[0] == group_of(t, k);
        assert forall|a: int, b: int| 0 <= a < b < n implies !(copies(t[k], #[trigger] t[a]) && copies(
            t[k],
            #[trigger] t[b],
        )) by {
            if copies(t[k], t[a]) && copies(t[k], t[b]) {
                filtered_from(s, keep, a, b);
                let (i, j) = choose|i: int, j: int|
                    #![trigger s[i], s[j]]
                    0 <= i < j < s.len() && s[i] == s.filter(keep)[a] && s[j] == s.filter(keep)[b] && keep(s[i])
                        && keep(s[j]);
                one_of_two_copies_goes(s, i, j);
            }
        }
        ids_of_one(t, t[k], n);
    }
    assert(copied(t, n) =~= Seq::<GroupV>::empty());
}

} // verus!
