//! Exporting and importing accounts: reading an export file, merging its
//! records into the store, picking records to export.
use vstd::prelude::*;
use crate::account;
use crate::json;
use crate::json::{Json, JsonV};
use crate::text;
use crate::variant;

verus! {

/// What an import did.
#[derive(Debug, Clone, Copy, PartialEq, Eq, Structural)]
pub struct ImportResult {
    /// Records that went into the store, those that replaced one included.
    pub imported: usize,
    /// Records left out: without a token, or not in the file.
    pub skipped: usize,
    /// Records that replaced a stored account with their uid.
    pub overwritten: usize,
}

impl Default for ImportResult {
    fn default() -> (r: Self)
        ensures
            r.imported == 0 && r.skipped == 0 && r.overwritten == 0,
    {
        ImportResult { imported: 0, skipped: 0, overwritten: 0 }
    }
}

/// The first entry from `i` on that is no object.
pub open spec fn non_object_from(s: Seq<JsonV>, i: int) -> Option<int>
    decreases s.len() - i,
{
    if i < 0 || i >= s.len() {
        None
    } else if !(s[i] is Obj) {
        Some(i)
    } else {
        non_object_from(s, i + 1)
    }
}

/// The accounts that a file spells: it must be an array of objects.
pub open spec fn accounts_in(content: Seq<char>, parsed: Result<JsonV, Seq<char>>) -> Result<Seq<JsonV>, Seq<char>> {
    if text::trim(content).len() == 0 {
        Err("文件内容为空"@)
    } else {
        match parsed {
            Err(e) => Err("文件不是合法的 JSON："@ + e),
            Ok(JsonV::Arr(s)) => match non_object_from(s, 0) {
                Some(i) => Err("文件第 "@ + text::int_text(i + 1) + " 项不是合法的账号对象"@),
                None => Ok(s),
            },
            Ok(_) => Err("文件内容应为 JSON 数组（账号列表）"@),
        }
    }
}

/// The accounts or the message behind a result.
pub open spec fn list_result(r: Result<Vec<Json>, String>) -> Result<Seq<JsonV>, Seq<char>> {
    match r {
        Ok(v) => Ok(json::list_view(v@)),
        Err(e) => Err(e@),
    }
}

/// The accounts that a file spells, given what its text was read as.
pub fn check_accounts(content: &str, parsed: Result<Json, String>) -> (r: Result<Vec<Json>, String>)
    ensures
        list_result(r) == accounts_in(content@, json::parse_view(parsed)),
{
    if text::trimmed(content).as_str().is_empty() {
        return Err("文件内容为空".to_owned());
    }
    match parsed {
        Err(e) => Err(text::concat("文件不是合法的 JSON：", e.as_str())),
        Ok(Json::Arr(v)) => {
            let ghost all = json::list_view(v@);
            let mut i: usize = 0;
            while i < v.len()
                invariant
                    i <= v@.len(),
                    text::trim(content@).len() > 0,
                    all == json::list_view(v@),
                    parsed == Ok::<Json, String>(Json::Arr(v)),
                    non_object_from(all, 0) == non_object_from(all, i as int),
                decreases v@.len() - i,
            {
                if !v[i].is_obj() {
                    let number: String = text::text_of_usize(i + 1);
                    return Err(text::concat3("文件第 ", number.as_str(), " 项不是合法的账号对象"));
                }
                i += 1;
            }
            Ok(v)
        },
        Ok(_) => Err("文件内容应为 JSON 数组（账号列表）".to_owned()),
    }
}

/// The accounts that an export file spells: an array of objects, else an error
/// that says what is wrong and where.
pub fn parse_accounts_json(content: &str) -> (r: Result<Vec<Json>, String>)
    ensures
        list_result(r) == accounts_in(content@, json::json_of_text(content@)),
{
    check_accounts(content, json::parse_json(content))
}

/// What an import shows of a record beforehand: no token.
pub open spec fn preview_row(item: JsonV, index: int) -> JsonV {
    JsonV::empty().put("index"@, JsonV::Int(index)).put("uid"@, json::value_or_null(item.get("uid"@))).put(
        "nickname"@,
        json::value_or_null(item.get("nickname"@)),
    ).put("email"@, json::value_or_null(item.get("email"@))).put(
        "hasToken"@,
        JsonV::Bool(account::str_of(item, "access_token"@) is Some),
    )
}

/// What an import shows of a file beforehand.
pub open spec fn preview(items: Seq<JsonV>) -> JsonV {
    JsonV::empty().put("accounts"@, JsonV::Arr(items.map(|i: int, v: JsonV| preview_row(v, i)))).put(
        "total"@,
        JsonV::Int(items.len() as int),
    )
}

/// What an import shows of accounts beforehand: their places in the file, who
/// they are and whether they have a token, but no token.
pub fn preview_of(items: &[Json]) -> (r: Json)
    ensures
        r@ == preview(json::list_view(items@)),
{
    let ghost all = json::list_view(items@);
    let mut rows: Vec<Json> = Vec::new();
    let mut i: usize = 0;
    while i < items.len()
        invariant
            i <= items@.len(),
            all == json::list_view(items@),
            rows@.len() == i,
            forall|k: int| 0 <= k < i ==> (#[trigger] rows@[k])@ == preview_row(all[k], k),
        decreases items@.len() - i,
    {
        let item: &Json = &items[i];
        let row: Json = Json::object().put("index", Json::count(i)).put("uid", Json::or_null(item.get("uid"))).put(
            "nickname",
            Json::or_null(item.get("nickname")),
        ).put("email", Json::or_null(item.get("email"))).put(
            "hasToken",
            Json::Bool(account::get_str(item, "access_token").is_some()),
        );
        assert(row@ == preview_row(all[i as int], i as int));
        rows.push(row);
        i += 1;
    }
    assert(json::list_view(rows@) =~= all.map(|i: int, v: JsonV| preview_row(v, i)));
    Json::object().put("accounts", Json::Arr(rows)).put("total", Json::count(items.len()))
}

/// What an import shows of a file beforehand.
pub fn preview_accounts(content: &str) -> (r: Result<Json, String>)
    ensures
        match accounts_in(content@, json::json_of_text(content@)) {
            Ok(items) => r matches Ok(j) && j@ == preview(items),
            Err(e) => r matches Err(m) && m@ == e,
        },
{
    match parse_accounts_json(content) {
        Ok(items) => Ok(preview_of(items.as_slice())),
        Err(e) => Err(e),
    }
}

/// What is shown of a record beforehand has five members and no token.
pub proof fn preview_shows_no_token(item: JsonV, index: int)
    ensures
        preview_row(item, index).get("access_token"@) is None,
        preview_row(item, index).get("refresh_token"@) is None,
{
    reveal_strlit("access_token");
    reveal_strlit("refresh_token");
    reveal_strlit("index");
    reveal_strlit("uid");
    reveal_strlit("nickname");
    reveal_strlit("email");
    reveal_strlit("hasToken");
    assert("access_token"@.len() == 12 && "refresh_token"@.len() == 13 && "index"@.len() == 5);
    assert("uid"@.len() == 3 && "nickname"@.len() == 8 && "email"@.len() == 5 && "hasToken"@.len() == 8);
}

/// What became of a record.
#[derive(Debug, Clone, Copy, PartialEq, Eq, Structural)]
pub enum MergeOutcome {
    /// It was added.
    Appended,
    /// It replaced the stored account with its uid.
    Overwritten,
    /// It has no token and was left out.
    Skipped,
}

/// The first account from `i` on with that uid.
pub open spec fn uid_from(accounts: Seq<JsonV>, uid: Seq<char>, i: int) -> Option<int>
    decreases accounts.len() - i,
{
    if i < 0 || i >= accounts.len() {
        None
    } else if account::str_of(accounts[i], "uid"@) == Some(uid) {
        Some(i)
    } else {
        uid_from(accounts, uid, i + 1)
    }
}

/// The place of the account that a record replaces.
pub open spec fn replaces(accounts: Seq<JsonV>, item: JsonV) -> Option<int> {
    match account::str_of(item, "uid"@) {
        Some(uid) => uid_from(accounts, uid, 0),
        None => None,
    }
}

/// A record in place of a stored account, whose id it keeps where it has none.
pub open spec fn in_place(existing: JsonV, item: JsonV) -> JsonV {
    match (account::str_of(item, "id"@), existing.get("id"@)) {
        (None, Some(id)) => item.put("id"@, id),
        _ => item,
    }
}

/// The accounts with a record merged in.
pub open spec fn merged_record(accounts: Seq<JsonV>, item: JsonV) -> (Seq<JsonV>, MergeOutcome) {
    if account::str_of(item, "access_token"@) is None {
        (accounts, MergeOutcome::Skipped)
    } else {
        match replaces(accounts, item) {
            Some(i) => (accounts.update(i, in_place(accounts[i], item)), MergeOutcome::Overwritten),
            None => (accounts.push(item), MergeOutcome::Appended),
        }
    }
}

/// Merges a record into the accounts: it replaces the account with its uid, or
/// is added; without a token it is left out.
pub fn merge_import_record(accounts: &mut Vec<Json>, item: &Json) -> (r: MergeOutcome)
    ensures
        (json::list_view(final(accounts)@), r) == merged_record(json::list_view(old(accounts)@), item@),
{
    let ghost all = json::list_view(accounts@);
    let ghost held = accounts@;
    if account::get_str(item, "access_token").is_none() {
        return MergeOutcome::Skipped;
    }
    match account::get_str(item, "uid") {
        Some(uid) => {
            let mut i: usize = 0;
            while i < accounts.len()
                invariant
                    i <= accounts@.len(),
                    accounts@ == held,
                    all == json::list_view(held),
                    all == json::list_view(old(accounts)@),
                    item@ is Obj,
                    account::str_of(item@, "access_token"@) is Some,
                    account::str_of(item@, "uid"@) == Some(uid@),
                    uid_from(all, uid@, 0) == uid_from(all, uid@, i as int),
                decreases accounts@.len() - i,
            {
                assert(all[i as int] == held[i as int]@);
                let same_uid: bool = match account::get_str(&accounts[i], "uid") {
                    Some(u) => text::same(u.as_str(), uid.as_str()),
                    None => false,
                };
                if same_uid {
                    let next: Json = match (account::get_str(item, "id"), accounts[i].get("id")) {
                        (None, Some(id)) => item.clone().put("id", id.clone()),
                        _ => item.clone(),
                    };
                    accounts.set(i, next);
                    assert(json::list_view(accounts@) =~= all.update(i as int, next@));
                    return MergeOutcome::Overwritten;
                }
                i += 1;
            }
        },
        None => {},
    }
    accounts.push(item.clone());
    assert(json::list_view(accounts@) =~= all.push(item@));
    MergeOutcome::Appended
}

/// The state of an import: the accounts and the counts.
pub struct ImportV {
    pub accounts: Seq<JsonV>,
    pub imported: int,
    pub skipped: int,
    pub overwritten: int,
}

/// One picked place of the file: a place outside of it counts as left out.
pub open spec fn import_one(st: ImportV, items: Seq<JsonV>, index: int) -> ImportV {
    if index < 0 || index >= items.len() {
        ImportV { skipped: st.skipped + 1, ..st }
    } else {
        let (accounts, outcome) = merged_record(st.accounts, items[index]);
        match outcome {
            MergeOutcome::Appended => ImportV { accounts, imported: st.imported + 1, ..st },
            MergeOutcome::Overwritten => ImportV {
                accounts,
                imported: st.imported + 1,
                overwritten: st.overwritten + 1,
                ..st
            },
            MergeOutcome::Skipped => ImportV { accounts, skipped: st.skipped + 1, ..st },
        }
    }
}

/// The picked places from `i` on, one after the other.
pub open spec fn import_from(st: ImportV, items: Seq<JsonV>, indexes: Seq<usize>, i: int) -> ImportV
    decreases indexes.len() - i,
{
    if i < 0 || i >= indexes.len() {
        st
    } else {
        import_from(import_one(st, items, indexes[i] as int), items, indexes, i + 1)
    }
}

/// An import into accounts.
pub open spec fn imported_into(accounts: Seq<JsonV>, items: Seq<JsonV>, indexes: Seq<usize>) -> ImportV {
    import_from(ImportV { accounts, imported: 0, skipped: 0, overwritten: 0 }, items, indexes, 0)
}

/// The state that accounts and counts make up.
pub open spec fn import_state(accounts: Seq<Json>, r: ImportResult) -> ImportV {
    ImportV {
        accounts: json::list_view(accounts),
        imported: r.imported as int,
        skipped: r.skipped as int,
        overwritten: r.overwritten as int,
    }
}

/// Merges the records at the picked places of a file into the accounts.
pub fn merge_records(accounts: &mut Vec<Json>, items: &[Json], indexes: &[usize]) -> (r: ImportResult)
    ensures
        import_state(final(accounts)@, r) == imported_into(
            json::list_view(old(accounts)@),
            json::list_view(items@),
            indexes@,
        ),
        r.imported + r.skipped == indexes@.len(),
        r.overwritten <= r.imported,
{
    let mut r: ImportResult = ImportResult { imported: 0, skipped: 0, overwritten: 0 };
    let ghost all = json::list_view(items@);
    let ghost start = import_state(accounts@, r);
    let mut i: usize = 0;
    while i < indexes.len()
        invariant
            i <= indexes@.len(),
            all == json::list_view(items@),
            r.imported + r.skipped == i,
            r.overwritten <= r.imported,
            import_from(start, all, indexes@, 0) == import_from(
                import_state(accounts@, r),
                all,
                indexes@,
                i as int,
            ),
        decreases indexes@.len() - i,
    {
        let index: usize = indexes[i];
        if index >= items.len() {
            r.skipped = r.skipped + 1;
        } else {
            assert(all[index as int] == items@[index as int]@);
            match merge_import_record(accounts, &items[index]) {
                MergeOutcome::Appended => {
                    r.imported = r.imported + 1;
                },
                MergeOutcome::Overwritten => {
                    r.imported = r.imported + 1;
                    r.overwritten = r.overwritten + 1;
                },
                MergeOutcome::Skipped => {
                    r.skipped = r.skipped + 1;
                },
            }
        }
        i += 1;
    }
    r
}

/// Merges the records at the picked places of a file's text into the accounts.
/// A text that is no list of accounts leaves them as they are.
pub fn merge_import_records(accounts: &mut Vec<Json>, content: &str, indexes: &[usize]) -> (r: Result<
    ImportResult,
    String,
>)
    ensures
        match accounts_in(content@, json::json_of_text(content@)) {
            Ok(items) => r matches Ok(n) && import_state(final(accounts)@, n) == imported_into(
                json::list_view(old(accounts)@),
                items,
                indexes@,
            ),
            Err(e) => r matches Err(m) && m@ == e && final(accounts)@ == old(accounts)@,
        },
{
    match parse_accounts_json(content) {
        Ok(items) => Ok(merge_records(accounts, items.as_slice(), indexes)),
        Err(e) => Err(e),
    }
}

/// The store after an import: the merged accounts and the counts.
pub fn import_accounts(accounts: Vec<Json>, content: &str, indexes: &[usize]) -> (r: Result<
    (Vec<Json>, ImportResult),
    String,
>)
    ensures
        match accounts_in(content@, json::json_of_text(content@)) {
            Ok(items) => r matches Ok(p) && import_state(p.0@, p.1) == imported_into(
                json::list_view(accounts@),
                items,
                indexes@,
            ),
            Err(e) => r matches Err(m) && m@ == e,
        },
{
    let mut store: Vec<Json> = accounts;
    match merge_import_records(&mut store, content, indexes) {
        Ok(n) => Ok((store, n)),
        Err(e) => Err(e),
    }
}

/// No two accounts share a uid.
pub open spec fn uids_distinct(accounts: Seq<JsonV>) -> bool {
    forall|i: int, j: int|
        0 <= i < j < accounts.len() ==> account::str_of(#[trigger] accounts[i], "uid"@) is None || account::str_of(
            accounts[i],
            "uid"@,
        ) != account::str_of(#[trigger] accounts[j], "uid"@)
}

proof fn uid_from_first(accounts: Seq<JsonV>, uid: Seq<char>, from: int)
    requires
        0 <= from,
    ensures
        match uid_from(accounts, uid, from) {
            Some(k) => from <= k < accounts.len() && account::str_of(accounts[k], "uid"@) == Some(uid),
            None => forall|j: int|
                from <= j < accounts.len() ==> account::str_of(#[trigger] accounts[j], "uid"@) != Some(uid),
        },
    decreases accounts.len() - from,
{
    if from < accounts.len() && account::str_of(accounts[from], "uid"@) != Some(uid) {
        uid_from_first(accounts, uid, from + 1);
    }
}

proof fn merging_one_keeps_uids(accounts: Seq<JsonV>, item: JsonV)
    requires
        uids_distinct(accounts),
    ensures
        uids_distinct(merged_record(accounts, item).0),
{
    let next = merged_record(accounts, item).0;
    if account::str_of(item, "access_token"@) is Some {
        match account::str_of(item, "uid"@) {
            Some(uid) => {
                uid_from_first(accounts, uid, 0);
                match uid_from(accounts, uid, 0) {
                    Some(k) => {
                        let put = in_place(accounts[k], item);
                        assert(account::str_of(put, "uid"@) == Some(uid)) by {
                            reveal_strlit("id");
                            reveal_strlit("uid");
                            assert("id"@.len() != "uid"@.len());
                        }
                        assert forall|i: int, j: int|
                            0 <= i < j < next.len() implies account::str_of(#[trigger] next[i], "uid"@) is None
                            || account::str_of(next[i], "uid"@) != account::str_of(#[trigger] next[j], "uid"@) by {
                            assert(account::str_of(next[i], "uid"@) == account::str_of(accounts[i], "uid"@));
                            assert(account::str_of(next[j], "uid"@) == account::str_of(accounts[j], "uid"@));
                        }
                    },
                    None => {},
                }
            },
            None => {},
        }
    }
}

/// An import never makes two accounts share a uid: records of one uid, in the
/// file or in the store, end up as one account.
pub proof fn import_keeps_uids_distinct(st: ImportV, items: Seq<JsonV>, indexes: Seq<usize>, i: int)
    requires
        uids_distinct(st.accounts),
    ensures
        uids_distinct(import_from(st, items, indexes, i).accounts),
    decreases indexes.len() - i,
{
    if 0 <= i < indexes.len() {
        let index = indexes[i] as int;
        if index < items.len() {
            merging_one_keeps_uids(st.accounts, items[index]);
        }
        import_keeps_uids_distinct(import_one(st, items, index), items, indexes, i + 1);
    }
}

/// The ids that are not blank, trimmed.
pub open spec fn chosen_ids(ids: Seq<Seq<char>>) -> Seq<Seq<char>>
    decreases ids.len(),
{
    if ids.len() == 0 {
        Seq::empty()
    } else {
        let rest = chosen_ids(ids.subrange(0, ids.len() - 1));
        let id = text::trim(ids[ids.len() - 1]);
        if id.len() > 0 {
            rest.push(id)
        } else {
            rest
        }
    }
}

/// The first account from `i` on with that id.
pub open spec fn id_from(accounts: Seq<JsonV>, id: Seq<char>, i: int) -> Option<JsonV>
    decreases accounts.len() - i,
{
    if i < 0 || i >= accounts.len() {
        None
    } else if accounts[i].get_str("id"@) == Some(id) {
        Some(accounts[i])
    } else {
        id_from(accounts, id, i + 1)
    }
}

/// The accounts that the ids name, in the order of the ids.
pub open spec fn records_of(accounts: Seq<JsonV>, ids: Seq<Seq<char>>) -> Seq<JsonV>
    decreases ids.len(),
{
    if ids.len() == 0 {
        Seq::empty()
    } else {
        let rest = records_of(accounts, ids.subrange(0, ids.len() - 1));
        match id_from(accounts, ids[ids.len() - 1], 0) {
            Some(a) => rest.push(a),
            None => rest,
        }
    }
}

/// The records to export.
pub open spec fn exported(accounts: Seq<JsonV>, ids: Seq<Seq<char>>) -> Result<Seq<JsonV>, Seq<char>> {
    let chosen = chosen_ids(ids);
    let records = records_of(accounts, chosen);
    if chosen.len() == 0 {
        Err("请先选择要导出的账号"@)
    } else if records.len() == 0 {
        Err("未找到要导出的账号"@)
    } else {
        Ok(records)
    }
}

fn find_by_id(accounts: &[Json], id: &str) -> (r: Option<Json>)
    ensures
        account::opt_json(r) == id_from(json::list_view(accounts@), id@, 0),
{
    let ghost all = json::list_view(accounts@);
    let mut i: usize = 0;
    while i < accounts.len()
        invariant
            i <= accounts@.len(),
            all == json::list_view(accounts@),
            id_from(all, id@, 0) == id_from(all, id@, i as int),
        decreases accounts@.len() - i,
    {
        let hit: bool = match accounts[i].get_str("id") {
            Some(s) => text::same(s, id),
            None => false,
        };
        if hit {
            return Some(accounts[i].clone());
        }
        i += 1;
    }
    None
}

/// The complete records, tokens included, of the accounts that the ids name.
/// An id that names no account is passed over.
pub fn select_export_records(accounts: &[Json], ids: &[String]) -> (r: Result<Vec<Json>, String>)
    ensures
        list_result(r) == exported(json::list_view(accounts@), variant::strings(ids@)),
{
    let ghost all = json::list_view(accounts@);
    let ghost wanted = variant::strings(ids@);
    let mut records: Vec<Json> = Vec::new();
    let mut chosen: usize = 0;
    let mut i: usize = 0;
    assert(chosen_ids(wanted.subrange(0, 0)) =~= Seq::empty());
    assert(json::list_view(records@) =~= records_of(all, chosen_ids(wanted.subrange(0, 0))));
    while i < ids.len()
        invariant
            i <= ids@.len(),
            chosen <= i,
            all == json::list_view(accounts@),
            wanted == variant::strings(ids@),
            chosen == chosen_ids(wanted.subrange(0, i as int)).len(),
            json::list_view(records@) == records_of(all, chosen_ids(wanted.subrange(0, i as int))),
        decreases ids@.len() - i,
    {
        let ghost before = chosen_ids(wanted.subrange(0, i as int));
        assert(wanted.subrange(0, i + 1).subrange(0, i as int) =~= wanted.subrange(0, i as int));
        assert(wanted[i as int] == ids@[i as int]@);
        let id: String = text::trimmed(ids[i].as_str());
        if !id.as_str().is_empty() {
            chosen += 1;
            let ghost now = chosen_ids(wanted.subrange(0, i + 1));
            assert(now.subrange(0, now.len() - 1) =~= before);
            match find_by_id(accounts, id.as_str()) {
                Some(a) => {
                    let ghost held = records@;
                    records.push(a);
                    assert(json::list_view(records@) =~= json::list_view(held).push(a@));
                },
                None => {},
            }
        }
        i += 1;
    }
    assert(wanted.subrange(0, wanted.len() as int) =~= wanted);
    assert(json::list_view(records@).len() == records@.len());
    if chosen == 0 {
        return Err("请先选择要导出的账号".to_owned());
    }
    if records.len() == 0 {
        return Err("未找到要导出的账号".to_owned());
    }
    Ok(records)
}

/// A name that an export file may have: it ends in `.json` and leads nowhere else.
pub open spec fn export_name_ok(name: Seq<char>) -> bool {
    let n = text::trim(name);
    n.len() > 0 && !text::has(n, "/"@) && !text::has(n, "\\"@) && !text::has(n, ".."@) && text::ends_with(
        n,
        ".json"@,
    )
}

/// Checks the name of an export file.
pub fn validate_export_file_name(file_name: &str) -> (r: Result<(), String>)
    ensures
        r is Ok <==> export_name_ok(file_name@),
        r matches Err(e) ==> e@ == "导出文件名不合法"@,
{
    let name: String = text::trimmed(file_name);
    let n: &str = name.as_str();
    if n.is_empty() || text::contains_text(n, "/") || text::contains_text(n, "\\") || text::contains_text(n, "..")
        || !text::text_ends_with(n, ".json") {
        return Err("导出文件名不合法".to_owned());
    }
    Ok(())
}

/// The verdict on an export path, given whether it is absolute and what its
/// extension is.
pub open spec fn export_path_verdict(absolute: bool, extension: Option<Seq<char>>) -> Result<(), Seq<char>> {
    if !absolute {
        Err("导出路径必须是绝对路径"@)
    } else if extension is Some && text::lower(extension->0) == "json"@ {
        Ok(())
    } else {
        Err("导出文件名必须以 .json 结尾"@)
    }
}

/// Checks an export path, given whether it is absolute and what its extension is.
pub fn check_export_path(absolute: bool, extension: Option<String>) -> (r: Result<(), String>)
    ensures
        match (r, export_path_verdict(absolute, json::opt_string(extension))) {
            (Ok(_), Ok(_)) => true,
            (Err(e), Err(m)) => e@ == m,
            _ => false,
        },
{
    if !absolute {
        return Err("导出路径必须是绝对路径".to_owned());
    }
    let is_json: bool = match extension {
        Some(e) => text::same(text::to_lower(e.as_str()).as_str(), "json"),
        None => false,
    };
    if is_json {
        Ok(())
    } else {
        Err("导出文件名必须以 .json 结尾".to_owned())
    }
}

/// A slash of either kind stands in a path.
pub open spec fn slashed(path: Seq<char>) -> bool {
    text::has(path, "/"@) || text::has(path, "\\"@)
}

/// `std::path::Path::is_absolute`. Which paths are absolute depends on the platform;
/// on each, one that is starts with a root, or with a prefix and a root, and so has a
/// slash of one kind or the other. That is all that is claimed.
#[verifier::external_body]
fn is_absolute(path: &str) -> (b: bool)
    ensures
        b ==> slashed(path@),
{
    std::path::Path::new(path).is_absolute()
}

/// `std::path::Path::extension`, where it is Unicode. Where the file name begins
/// depends on the platform; on each, the extension follows a dot in the path. That is
/// all that is claimed.
#[verifier::external_body]
fn extension(path: &str) -> (r: Option<String>)
    ensures
        r matches Some(e) ==> text::has(path@, "."@ + e@),
{
    Some(std::path::Path::new(path).extension()?.to_str()?.to_owned())
}

/// What a platform can say of a path: whether it is absolute, and its extension.
pub open spec fn platform_says(path: Seq<char>, absolute: bool, extension: Option<Seq<char>>) -> bool {
    &&& absolute ==> slashed(path)
    &&& extension matches Some(e) ==> text::has(path, "."@ + e)
}

proof fn extension_stands_in_lower(path: Seq<char>, e: Seq<char>)
    requires
        text::has(path, "."@ + e),
        text::lower(e) == "json"@,
    ensures
        text::has(text::lower(path), ".json"@),
{
    reveal_strlit(".");
    reveal_strlit("json");
    reveal_strlit(".json");
    let n = "."@ + e;
    let i = choose|i: int| text::occurs(path, n, i);
    let low = text::lower(path);
    assert(low.len() == path.len() && text::lower(e).len() == e.len());
    assert forall|k: int| 0 <= k < 5 implies low[i + k] == ".json"@[k] by {
        assert(path.subrange(i, i + n.len())[k] == n[k]);
        if k > 0 {
            assert(text::lower(e)[k - 1] == "json"@[k - 1]);
        }
    }
    assert(low.subrange(i, i + 5) =~= ".json"@);
    assert(text::occurs(low, ".json"@, i));
}

/// Checks an export path by the rules of the platform: it must be absolute and
/// end in `.json`, in whatever case. Which paths are so depends on the platform; one
/// without a slash, or without `.json` in it, is refused on every one.
pub fn validate_export_path(path: &str) -> (r: Result<(), String>)
    ensures
        exists|absolute: bool, ext: Option<Seq<char>>| #[trigger]
            platform_says(text::trim(path@), absolute, ext) && match (r, export_path_verdict(absolute, ext)) {
                (Ok(_), Ok(_)) => true,
                (Err(e), Err(m)) => e@ == m,
                _ => false,
            },
        !slashed(text::trim(path@)) ==> (r matches Err(e) && e@ == "导出路径必须是绝对路径"@),
        r is Ok ==> slashed(text::trim(path@)) && text::has(text::lower(text::trim(path@)), ".json"@),
{
    let trimmed: String = text::trimmed(path);
    let absolute: bool = is_absolute(trimmed.as_str());
    let ext: Option<String> = extension(trimmed.as_str());
    let ghost shown = json::opt_string(ext);
    let r: Result<(), String> = check_export_path(absolute, ext);
    assert(platform_says(text::trim(path@), absolute, shown));
    proof {
        if r is Ok {
            extension_stands_in_lower(text::trim(path@), shown->0);
        }
    }
    r
}

/// The places of a list, in order.
pub open spec fn in_order(indexes: Seq<usize>, n: int) -> bool {
    indexes.len() == n && forall|i: int| 0 <= i < n ==> #[trigger] indexes[i] == i
}

proof fn first_ones_come_back(records: Seq<JsonV>, indexes: Seq<usize>, i: int)
    requires
        0 <= i <= records.len(),
        in_order(indexes, records.len() as int),
        uids_distinct(records),
        forall|k: int| 0 <= k < records.len() ==> account::str_of(#[trigger] records[k], "access_token"@) is Some,
    ensures
        import_from(
            ImportV { accounts: records.subrange(0, i), imported: i, skipped: 0, overwritten: 0 },
            records,
            indexes,
            i,
        ) == (ImportV { accounts: records, imported: records.len() as int, skipped: 0, overwritten: 0 }),
    decreases records.len() - i,
{
    let front = records.subrange(0, i);
    if i < records.len() {
        assert(indexes[i] == i);
        match account::str_of(records[i], "uid"@) {
            Some(uid) => {
                uid_from_first(front, uid, 0);
                assert forall|j: int| 0 <= j < front.len() implies account::str_of(#[trigger] front[j], "uid"@) != Some(
                    uid,
                ) by {
                    assert(front[j] == records[j]);
                }
            },
            None => {},
        }
        assert(front.push(records[i]) =~= records.subrange(0, i + 1));
        first_ones_come_back(records, indexes, i + 1);
    } else {
        assert(front =~= records);
    }
}

/// Exported records come back: imported whole into an empty store, records with
/// tokens and without a uid in common are the store, none changed and none left out.
pub proof fn exported_records_come_back(records: Seq<JsonV>, indexes: Seq<usize>)
    requires
        in_order(indexes, records.len() as int),
        uids_distinct(records),
        forall|k: int| 0 <= k < records.len() ==> account::str_of(#[trigger] records[k], "access_token"@) is Some,
    ensures
        imported_into(Seq::empty(), records, indexes) == (ImportV {
            accounts: records,
            imported: records.len() as int,
            skipped: 0,
            overwritten: 0,
        }),
{
    assert(records.subrange(0, 0) =~= Seq::empty());
    first_ones_come_back(records, indexes, 0);
}

proof fn uid_found(accounts: Seq<JsonV>, i: int, from: int)
    requires
        0 <= from <= i < accounts.len(),
        uids_distinct(accounts),
        account::str_of(accounts[i], "uid"@) is Some,
    ensures
        uid_from(accounts, account::str_of(accounts[i], "uid"@)->0, from) == Some(i),
    decreases i - from,
{
    if from < i {
        uid_found(accounts, i, from + 1);
    }
}

proof fn again_from(accounts: Seq<JsonV>, indexes: Seq<usize>, i: int)
    requires
        0 <= i <= accounts.len(),
        in_order(indexes, accounts.len() as int),
        uids_distinct(accounts),
        forall|k: int|
            0 <= k < accounts.len() ==> account::str_of(#[trigger] accounts[k], "access_token"@) is Some
                && account::str_of(accounts[k], "uid"@) is Some,
    ensures
        import_from(ImportV { accounts, imported: i, skipped: 0, overwritten: i }, accounts, indexes, i) == (ImportV {
            accounts,
            imported: accounts.len() as int,
            skipped: 0,
            overwritten: accounts.len() as int,
        }),
    decreases accounts.len() - i,
{
    if i < accounts.len() {
        assert(indexes[i] == i);
        uid_found(accounts, i, 0);
        let put = in_place(accounts[i], accounts[i]);
        assert(put == accounts[i]) by {
            if put is Obj && accounts[i] is Obj {
                assert(put->Obj_0 =~= accounts[i]->Obj_0);
            }
        }
        assert(accounts.update(i, put) =~= accounts);
        again_from(accounts, indexes, i + 1);
    }
}

/// Importing once more what is stored changes no account: every record replaces
/// the one with its uid, by itself.
pub proof fn importing_again_changes_nothing(accounts: Seq<JsonV>, indexes: Seq<usize>)
    requires
        in_order(indexes, accounts.len() as int),
        uids_distinct(accounts),
        forall|k: int|
            0 <= k < accounts.len() ==> account::str_of(#[trigger] accounts[k], "access_token"@) is Some
                && account::str_of(accounts[k], "uid"@) is Some,
    ensures
        imported_into(accounts, accounts, indexes) == (ImportV {
            accounts,
            imported: accounts.len() as int,
            skipped: 0,
            overwritten: accounts.len() as int,
        }),
{
    again_from(accounts, indexes, 0);
}

} // verus!
