use wb_switch_core::dedup::{
    chosen_user, dedup_execute, dedup_preview, delete_statement, find_dup_groups, mark_next, marking_told,
    total_to_delete, MarkStep, SessionRow,
};

fn row(id: &str, at: i64, title: Option<&str>, cwd: Option<&str>) -> SessionRow {
    SessionRow {
        id: id.to_string(),
        last_activity_at: at,
        title: title.map(str::to_string),
        cwd: cwd.map(str::to_string),
    }
}

#[test]
fn copies_share_time_title_and_directory() {
    let rows = [
        row("c", 5, Some("t"), Some("/w")),
        row("a", 5, Some("t"), Some("/w")),
        row("b", 5, Some("t"), Some("/w")),
        row("d", 5, Some("other"), Some("/w")),
        row("e", 6, Some("t"), Some("/w")),
        row("f", 5, Some("t"), Some("/v")),
    ];
    let found = find_dup_groups(&rows);
    assert_eq!(found.len(), 1);
    assert_eq!(found[0].keep_id, "a");
    assert_eq!(found[0].dup_ids, vec!["b".to_string(), "c".to_string()]);
    assert_eq!(found[0].last_activity_at, 5);
    assert_eq!(total_to_delete(&found), 2);
    let told = dedup_preview("u-1", &found);
    assert_eq!(told.get_str("uid"), Some("u-1"));
    assert_eq!(told.get_i64("totalGroups"), Some(1));
    assert_eq!(told.get_i64("totalToDelete"), Some(2));
    let done = marking_told("u-1", &found, Some(2));
    assert_eq!(done.get_bool("ok"), Some(true));
    assert_eq!(done.get_i64("deleted"), Some(2));
    let failed = marking_told("u-1", &found, None);
    assert_eq!(failed.get_bool("ok"), Some(false));
    assert_eq!(failed.get_str("error"), Some("软删事务失败，未做任何修改"));
    assert_eq!(dedup_execute("u-1", &found), Ok(MarkStep::Begin));
}

#[test]
fn nothing_is_deleted_where_there_are_no_copies() {
    let found = find_dup_groups(&[row("a", 5, None, Some("/w")), row("b", 6, None, Some("/w"))]);
    assert!(found.is_empty());
    assert_eq!(total_to_delete(&found), 0);
    let told = dedup_execute("u", &found).unwrap_err();
    assert_eq!(told.get_i64("deleted"), Some(0));
    assert_eq!(told.get_str("message"), Some("未发现重复会话，无需清理"));
}

#[test]
fn the_statement_has_a_mark_for_each_session() {
    assert_eq!(delete_statement(1), "UPDATE sessions SET deleted_at = ?1 WHERE id IN (?)");
    assert_eq!(delete_statement(3), "UPDATE sessions SET deleted_at = ?1 WHERE id IN (?,?,?)");
}

#[test]
fn the_user_asked_for_comes_first() {
    let some = |s: &str| Some(s.to_string());
    assert_eq!(chosen_user(some("u"), some("v")).unwrap(), "u");
    assert_eq!(chosen_user(some("  "), some("v")).unwrap(), "v");
    assert_eq!(chosen_user(None, some("v")).unwrap(), "v");
    assert_eq!(chosen_user(some(""), None).unwrap_err().get_str("error"), Some("无法确定当前账号"));
}

fn two_groups() -> Vec<SessionRow> {
    vec![
        row("a", 5, None, Some("/w")),
        row("b", 5, None, Some("/w")),
        row("c", 7, Some("t"), Some("/w")),
        row("d", 7, Some("t"), Some("/w")),
        row("e", 7, Some("t"), Some("/w")),
    ]
}

#[test]
fn marks_are_made_group_by_group_and_counted() {
    let found = find_dup_groups(&two_groups());
    assert_eq!(found.len(), 2);
    let mut step = dedup_execute("u", &found).unwrap();
    let mut marked = vec![];
    for _ in 0..5 {
        let report = match step {
            MarkStep::Mark { group, .. } => {
                marked.push(group);
                Some(found[group].dup_ids.len())
            }
            _ => Some(0),
        };
        step = mark_next(&found, step, report);
    }
    assert_eq!(marked, vec![0, 1]);
    assert_eq!(step, MarkStep::Tell(Some(3)));
}

#[test]
fn a_failed_statement_takes_all_marks_back() {
    let found = find_dup_groups(&two_groups());
    let step = mark_next(&found, MarkStep::Mark { group: 0, deleted: 0 }, Some(1));
    assert_eq!(step, MarkStep::Mark { group: 1, deleted: 1 });
    let step = mark_next(&found, step, None);
    assert_eq!(step, MarkStep::Rollback);
    let step = mark_next(&found, step, Some(0));
    assert_eq!(step, MarkStep::Checkpoint(None));
    assert_eq!(mark_next(&found, step, Some(0)), MarkStep::Tell(None));
    assert_eq!(mark_next(&found, MarkStep::Begin, None), MarkStep::Tell(None));
}

#[test]
fn sessions_without_a_directory_are_copies_too() {
    let found = find_dup_groups(&[row("b", 1, Some("t"), None), row("a", 1, Some("t"), None)]);
    assert_eq!(found.len(), 1);
    assert_eq!(found[0].keep_id, "a");
    assert_eq!(found[0].dup_ids, vec!["b".to_string()]);
    assert_eq!(found[0].cwd, None);
    let told = dedup_preview("u-1", &found);
    assert_eq!(told.get_arr("groups").unwrap()[0].get_str("cwd"), Some(""));
    // A missing directory agrees with no directory that is given, not even an empty one.
    assert!(find_dup_groups(&[row("a", 1, Some("t"), None), row("b", 1, Some("t"), Some(""))]).is_empty());
}

#[test]
fn a_second_run_finds_nothing() {
    let rows = two_groups();
    let marked: Vec<String> = find_dup_groups(&rows).into_iter().flat_map(|g| g.dup_ids).collect();
    let left: Vec<SessionRow> = rows.into_iter().filter(|r| !marked.contains(&r.id)).collect();
    assert_eq!(left.len(), 2);
    let found = find_dup_groups(&left);
    assert!(found.is_empty());
    let told = dedup_execute("u-1", &found).unwrap_err();
    assert_eq!(told.get_bool("ok"), Some(true));
    assert_eq!(told.get_i64("deleted"), Some(0));
    assert_eq!(told.get_i64("totalGroups"), Some(0));
}
