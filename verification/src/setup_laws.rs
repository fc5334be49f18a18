//! What finding programs, saving settings and addressing the services promise.
use vstd::prelude::*;
use crate::account;
use crate::checkin;
use crate::cli_process;
use crate::codebuddy_cli;
use crate::codebuddy_cli::{SaveReport, SaveStepV};
use crate::codebuddy_cn_ide;
use crate::codebuddy_cn_ide::WindowsRowV;
use crate::credits;
use crate::json::JsonV;
use crate::limits;
use crate::limits::{CodeBuddyIdeFlavor, ScanScope, ScanSource, SourceLogs};
use crate::log_scan::HitV;
use crate::oauth;
use crate::official_usage;
use crate::official_usage::RowV;
use crate::paths;
use crate::refresh;
use crate::text;
use crate::variant;
use crate::variant::WbVariant;

verus! {

/// On Windows a backslash goes between a directory and a name, on other systems a slash.
pub proof fn names_are_joined_as_the_system_does(base: Seq<char>, name: Seq<char>)
    requires
        base.len() > 2 && base[base.len() - 1] != '/' && base[base.len() - 1] != '\\',
        name.len() > 0 && name[0] != '/' && name[0] != '\\',
        name.len() > 1 ==> name[1] != ':',
    ensures
        paths::joined_on(base, name, true) == base + seq!['\\'] + name,
        paths::joined_on(base, name, false) == base + seq!['/'] + name,
        paths::joined_on(base + seq!['\\'], name, true) == base + seq!['\\'] + name,
        paths::joined_on(base + seq!['/'], name, false) == base + seq!['/'] + name,
{
    reveal_strlit("\\");
    reveal_strlit("/");
    assert("\\"@ =~= seq!['\\']);
    assert("/"@ =~= seq!['/']);
}

/// The last line that names the program counts.
pub proof fn the_last_line_counts(lines: Seq<Seq<char>>, k: int, n: int)
    requires
        0 <= k < n <= lines.len(),
        codebuddy_cli::node_path(text::trim(lines[k])),
        forall|j: int| k < j < n ==> !codebuddy_cli::node_path(text::trim(#[trigger] lines[j])),
    ensures
        codebuddy_cli::last_node(lines, n) == Some(text::trim(lines[k])),
    decreases n,
{
    if k < n - 1 {
        the_last_line_counts(lines, k, n - 1);
    }
}

/// A program that is found is absolute, and is the one that was looked for.
pub proof fn found_programs_are_absolute(lines: Seq<Seq<char>>, n: int)
    requires
        n <= lines.len(),
    ensures
        codebuddy_cli::last_node(lines, n) matches Some(p) ==> p.len() > 0 && p[0] == '/' && paths::last_part(
            paths::bare(p, false),
        ) == "node"@,
    decreases n,
{
    if n > 0 {
        found_programs_are_absolute(lines, n - 1);
    }
}

/// The usual places come first; the one that was found comes after them.
pub proof fn usual_programs_come_first(path: Seq<char>)
    ensures
        cli_process::node_places(None) == seq!["node"@, "/opt/homebrew/bin/node"@, "/usr/local/bin/node"@],
        cli_process::node_places(Some(path)).len() >= 3,
        cli_process::node_places(Some(path)).subrange(0, 3) == cli_process::node_places(None),
        cli_process::node_places(Some(path)).len() > 3 ==> cli_process::node_places(Some(path))[3] == path
            && cli_process::node_places(Some(path)).len() == 4,
{
    assert(cli_process::node_places(Some(path)).subrange(0, 3) =~= cli_process::node_places(None));
}

/// The shell that is configured comes first, and whatever bears the name comes last.
pub proof fn the_configured_shell_comes_first(
    configured: Seq<char>,
    programs: Option<Seq<char>>,
    programs_x86: Option<Seq<char>>,
    local: Option<Seq<char>>,
    found: Seq<char>,
)
    ensures
        ({
            let all = cli_process::shell_places(Some(configured), programs, programs_x86, local, found);
            let others = cli_process::shell_places(None, programs, programs_x86, local, found);
            &&& all.len() == others.len() + 1
            &&& all[0] == configured
            &&& all.subrange(1, all.len() as int) == others
            &&& others.len() > 0
            &&& others[others.len() - 1] == "bash.exe"@
            &&& programs matches Some(dir) ==> others[0] == paths::joined_on(dir, "Git/bin/bash.exe"@, true) && others[1]
                == paths::joined_on(dir, "Git/usr/bin/bash.exe"@, true)
        }),
{
    let all = cli_process::shell_places(Some(configured), programs, programs_x86, local, found);
    let others = cli_process::shell_places(None, programs, programs_x86, local, found);
    assert(all.subrange(1, all.len() as int) =~= others);
}

/// The shells beside every Git that is found are told, line by line.
pub proof fn shells_stand_beside_git(lines: Seq<Seq<char>>, line: Seq<char>)
    ensures
        cli_process::shells_of_lines(lines.push(line), lines.len() as int + 1) == cli_process::shells_of_lines(
            lines,
            lines.len() as int,
        ) + cli_process::shells_of_git(text::trim(line)),
{
    lines_before_are_the_same(lines, line, lines.len() as int);
    assert(lines.push(line)[lines.len() as int] == line);
}

proof fn lines_before_are_the_same(lines: Seq<Seq<char>>, line: Seq<char>, n: int)
    requires
        n <= lines.len(),
    ensures
        cli_process::shells_of_lines(lines.push(line), n) == cli_process::shells_of_lines(lines, n),
        codebuddy_cn_ide::rows_of_lines(lines.push(line), n) == codebuddy_cn_ide::rows_of_lines(lines, n),
        codebuddy_cn_ide::registry_places(lines.push(line), n) == codebuddy_cn_ide::registry_places(lines, n),
    decreases n,
{
    if n > 0 {
        lines_before_are_the_same(lines, line, n - 1);
        assert(lines.push(line)[n - 1] == lines[n - 1]);
    }
}

/// A process is told by every line that tells of one, in the order of the lines.
pub proof fn every_line_tells_of_its_process(lines: Seq<Seq<char>>, line: Seq<char>)
    ensures
        ({
            let before = codebuddy_cn_ide::rows_of_lines(lines, lines.len() as int);
            let after = codebuddy_cn_ide::rows_of_lines(lines.push(line), lines.len() as int + 1);
            &&& codebuddy_cn_ide::windows_row(line) matches Some(r) ==> after == before.push(r)
            &&& codebuddy_cn_ide::windows_row(line) is None ==> after == before
        }),
        ({
            let before = codebuddy_cn_ide::registry_places(lines, lines.len() as int);
            let after = codebuddy_cn_ide::registry_places(lines.push(line), lines.len() as int + 1);
            &&& codebuddy_cn_ide::registry_path(line) is None ==> after == before
            &&& codebuddy_cn_ide::registry_path(line) matches Some(p) ==> (codebuddy_cn_ide::cn_exe(p)
                && !codebuddy_cn_ide::own_image(p) ==> after == paths::listing(before, p, true)) && (
            !codebuddy_cn_ide::cn_exe(p) || codebuddy_cn_ide::own_image(p) ==> after == before)
        }),
{
    lines_before_are_the_same(lines, line, lines.len() as int);
    assert(lines.push(line)[lines.len() as int] == line);
}

/// A process is told by its number, its name and its path, with bars between them.
pub proof fn processes_are_told_between_bars(pid: Seq<char>, name: Seq<char>, path: Seq<char>, n: u32)
    requires
        !pid.contains('|') && !name.contains('|'),
        text::u64_of_text(text::trim(pid)) == Some(n as int),
    ensures
        codebuddy_cn_ide::windows_row(pid + seq!['|'] + name + seq!['|'] + path) == Some(
            (WindowsRowV {
                pid: n,
                name: text::trim(name),
                exe_path: if text::trim(path).len() > 0 {
                    Some(text::trim(path))
                } else {
                    None
                },
            }),
        ),
        codebuddy_cn_ide::windows_row(name) is None,
{
    let line = pid + seq!['|'] + name + seq!['|'] + path;
    let a = pid.len() as int;
    assert forall|j: int| 0 <= j < a implies line[j] != '|' by {
        assert(line[j] == pid[j]);
    }
    assert(line[a] == '|');
    text::until_unique(line, |c: char| c == '|', a);
    let rest = line.subrange(a + 1, line.len() as int);
    let k = name.len() as int;
    assert forall|j: int| 0 <= j < k implies rest[j] != '|' by {
        assert(rest[j] == name[j]);
    }
    assert(rest[k] == '|');
    text::until_unique(rest, |c: char| c == '|', k);
    assert(line.subrange(0, a) =~= pid);
    assert(rest.subrange(0, k) =~= name);
    assert(rest.subrange(k + 1, rest.len() as int) =~= path);
    assert forall|j: int| 0 <= j < name.len() implies name[j] != '|' by {}
    text::until_unique(name, |c: char| c == '|', name.len() as int);
}

/// The first line that is not blank counts.
pub proof fn the_first_filled_line_counts(lines: Seq<Seq<char>>, i: int, k: int)
    requires
        0 <= i <= k < lines.len(),
        text::trim(lines[k]).len() > 0,
        forall|j: int| i <= j < k ==> text::trim(#[trigger] lines[j]).len() == 0,
    ensures
        codebuddy_cn_ide::filled_line(lines, i) == Some(text::trim(lines[k])),
    decreases k - i,
{
    if i < k {
        the_first_filled_line_counts(lines, i + 1, k);
    }
}

/// The editor may bear two names in a directory; a place that is listed stays listed.
pub proof fn both_names_are_listed(list: Seq<Seq<char>>, base: Seq<char>, windows: bool, i: int)
    ensures
        ({
            let l = codebuddy_cn_ide::install_in(list, base, windows);
            let dir = paths::joined_on(base, "CodeBuddy CN"@, windows);
            &&& list.len() <= l.len() <= list.len() + 2
            &&& 0 <= i < list.len() ==> l[i] == list[i]
            &&& list.len() == 0 ==> l[0] == paths::joined_on(dir, "CodeBuddy CN.exe"@, windows)
            &&& l.len() == list.len() + 2 ==> l[list.len() as int] == paths::joined_on(dir, "CodeBuddy CN.exe"@, windows)
                && l[list.len() as int + 1] == paths::joined_on(dir, "CodeBuddy.exe"@, windows)
        }),
{
}

/// The bundle is the line up to the first `.app`.
pub proof fn bundles_end_in_app(line: Seq<char>)
    ensures
        codebuddy_cn_ide::bundle_in(line) matches Some(p) ==> p.len() >= 4 && p.len() <= line.len() && p == line.subrange(
            0,
            p.len() as int,
        ) && p.subrange(p.len() - 4, p.len() as int) == ".app"@ && forall|j: int|
            0 <= j < p.len() - 4 ==> !text::occurs(line, ".app"@, j),
        codebuddy_cn_ide::bundle_in(line) is None ==> !text::has(line, ".app"@),
{
    reveal_strlit(".app");
    assert(".app"@.len() == 4);
    text::find_is_first(line, ".app"@, 0);
    if codebuddy_cn_ide::bundle_in(line) is Some {
        let p = codebuddy_cn_ide::bundle_in(line)->0;
        let i = text::find(line, ".app"@)->0;
        assert(p.subrange(p.len() - 4, p.len() as int) =~= line.subrange(i, i + 4));
    }
}

/// Settings are written, read back where a token is looked for, and cached; where any of it
/// fails they are undone.
pub proof fn settings_are_saved_in_turn(report: SaveReport, token: Seq<char>)
    requires
        report is Fine || report is NoDir || report is NoWrite,
    ensures
        report is Fine ==> codebuddy_cli::save_next(SaveStepV::Write, report, Some(token)) == SaveStepV::Check
            && codebuddy_cli::save_next(SaveStepV::Write, report, None) == SaveStepV::Cache && codebuddy_cli::save_next(
            SaveStepV::Cache,
            report,
            Some(token),
        ) == SaveStepV::Done,
        !(report is Fine) ==> codebuddy_cli::save_next(SaveStepV::Write, report, Some(token)) is Undo
            && codebuddy_cli::save_next(SaveStepV::Write, report, None) is Undo && codebuddy_cli::save_next(
            SaveStepV::Cache,
            report,
            Some(token),
        ) is Undo,
        codebuddy_cli::save_next(SaveStepV::Check, report, Some(token)) is Undo,
        codebuddy_cli::save_next(SaveStepV::Done, report, Some(token)) is Done,
        codebuddy_cli::save_next(SaveStepV::Undo(token), report, None) == SaveStepV::Undo(token),
{
}

/// The settings that are read back must hold the token that was written.
pub proof fn written_tokens_are_read_back(found: JsonV, env: JsonV, held: Seq<char>, token: Seq<char>)
    requires
        found.get("env"@) == Some(env),
        env.get("CODEBUDDY_AUTH_TOKEN"@) == Some(JsonV::Str(held)),
        text::trim(held) == held && held.len() > 0,
    ensures
        codebuddy_cli::written_token(Some(found), token) is Ok <==> codebuddy_cli::bare(held) == codebuddy_cli::bare(token),
        codebuddy_cli::written_token(Some(found), held) is Ok,
        codebuddy_cli::written_token(None, token) is Err,
{
}

/// What is configured has no character with a meaning to a shell; the path itself is taken
/// where it has none, and its short form only where it has one.
pub proof fn configured_paths_are_plain(path: Seq<char>, short: Option<Seq<char>>, windows: bool, i: int)
    ensures
        codebuddy_cli::eval_safe(path) ==> codebuddy_cli::configured_path(path, short, windows) == Ok::<Seq<char>, Seq<char>>(
            path,
        ),
        !codebuddy_cli::eval_safe(path) ==> (codebuddy_cli::configured_path(path, short, windows) matches Ok(p) ==> short
            == Some(p)),
        codebuddy_cli::configured_path(path, short, windows) matches Ok(p) ==> (0 <= i < p.len() ==> p[i] != ' ' && p[i]
            != '&' && p[i] != '|' && p[i] != ';' && p[i] != '"' && p[i] != '$' && p[i] != '(' && p[i] != ')' && p[i] != '<'
            && p[i] != '>' && p[i] != '`' && p[i] != '!' && p[i] != '*' && p[i] != '?' && p[i] != '[' && p[i] != ']' && p[i]
            != '{' && p[i] != '}'),
        short matches Some(s) ==> (!codebuddy_cli::eval_safe(path) && codebuddy_cli::eval_safe(s)
            ==> codebuddy_cli::configured_path(path, short, windows) == Ok::<Seq<char>, Seq<char>>(s)),
{
    let r = codebuddy_cli::configured_path(path, short, windows);
    if r is Ok && 0 <= i < r->Ok_0.len() {
        assert(!codebuddy_cli::shell_char(r->Ok_0[i]));
    }
}

/// The account that is set up is the one that the state names, and the first where it names
/// none; without accounts there is none.
pub proof fn the_named_account_is_set_up(accounts: Seq<JsonV>, state: JsonV, id: Seq<char>, k: int)
    ensures
        accounts.len() == 0 ==> codebuddy_cli::setup_account(accounts, state) is None,
        accounts.len() > 0 ==> codebuddy_cli::setup_account(accounts, state) is Some,
        codebuddy_cli::state_place(state, accounts) == Some((k, id)) ==> codebuddy_cli::setup_account(accounts, state)
            == Some(accounts[k]),
        codebuddy_cli::state_place(state, accounts) == Some((k, id)) ==> codebuddy_cli::active_variant(
            accounts,
            state,
            None,
            false,
        ) == Some(variant::variant_in(accounts[k])),
        codebuddy_cli::active_variant(accounts, state, None, true) is None,
{
}

proof fn setup_names()
    ensures
        "ok"@ != "configured"@,
        "ok"@ != "authMode"@,
        "ok"@ != "helperPresent"@,
        "ok"@ != "helperSupportsAccountIds"@,
        "ok"@ != "verified"@,
        "ok"@ != "message"@,
        "configured"@ != "authMode"@,
        "configured"@ != "helperPresent"@,
        "configured"@ != "helperSupportsAccountIds"@,
        "configured"@ != "verified"@,
        "configured"@ != "message"@,
        "authMode"@ != "helperPresent"@,
        "authMode"@ != "helperSupportsAccountIds"@,
        "authMode"@ != "verified"@,
        "authMode"@ != "message"@,
        "helperPresent"@ != "helperSupportsAccountIds"@,
        "helperPresent"@ != "verified"@,
        "helperPresent"@ != "message"@,
        "helperSupportsAccountIds"@ != "verified"@,
        "helperSupportsAccountIds"@ != "message"@,
        "verified"@ != "message"@,
{
    reveal_strlit("ok");
    reveal_strlit("configured");
    reveal_strlit("authMode");
    reveal_strlit("helperPresent");
    reveal_strlit("helperSupportsAccountIds");
    reveal_strlit("verified");
    reveal_strlit("message");
    assert("ok"@.len() == 2);
    assert("configured"@.len() == 10);
    assert("authMode"@.len() == 8);
    assert("helperPresent"@.len() == 13);
    assert("helperSupportsAccountIds"@.len() == 24);
    assert("verified"@.len() == 8);
    assert("message"@.len() == 7);
    assert("authMode"@[0] != "verified"@[0]);
}

/// What is told after setting up.
pub proof fn setting_up_is_told(windows: bool, present: bool, ids: bool)
    ensures
        ({
            let r = codebuddy_cli::setup_answer(windows, present, ids);
            &&& r.get("ok"@) == Some(JsonV::Bool(true))
            &&& r.get("configured"@) == Some(JsonV::Bool(true))
            &&& r.get("verified"@) == Some(JsonV::Bool(true))
            &&& r.get("helperPresent"@) == Some(JsonV::Bool(present))
            &&& r.get("helperSupportsAccountIds"@) == Some(JsonV::Bool(ids))
            &&& r.get("authMode"@) == Some(JsonV::Str(codebuddy_cli::auth_mode(windows)))
        }),
{
    setup_names();
}

/// The file of a session is named by digits, or by what follows `manual-`.
pub proof fn sessions_are_named(stem: Seq<char>, rest: Seq<char>)
    ensures
        stem.len() > 0 && text::all_digits(stem) ==> codebuddy_cli::session_name(stem + ".json"@),
        rest.len() > 0 ==> codebuddy_cli::session_name("manual-"@ + rest + ".json"@),
        codebuddy_cli::session_name(stem) ==> stem.len() > 5 && stem.subrange(stem.len() - 5, stem.len() as int)
            == ".json"@,
{
    reveal_strlit(".json");
    assert(".json"@.len() == 5);
    let a = stem + ".json"@;
    assert(a.subrange(a.len() - 5, a.len() as int) =~= ".json"@);
    assert(a.subrange(0, a.len() - 5) =~= stem);
    let c = "manual-"@ + rest;
    let d = c + ".json"@;
    assert(d.subrange(d.len() - 5, d.len() as int) =~= ".json"@);
    assert(d.subrange(0, d.len() - 5) =~= c);
    assert(c.subrange(0, "manual-"@.len() as int) =~= "manual-"@);
    assert(c.subrange("manual-"@.len() as int, c.len() as int) =~= rest);
    if codebuddy_cli::session_name(stem) {
        reveal_strlit("manual-");
        assert("manual-"@.len() == 7);
    }
}

proof fn header_names()
    ensures
        "Authorization"@ != "X-Client-Platform"@,
        "Authorization"@ != "Accept"@,
        "Authorization"@ != "Origin"@,
        "Authorization"@ != "Referer"@,
        "Authorization"@ != "X-Refresh-Token"@,
        "Authorization"@ != "X-Auth-Refresh-Source"@,
        "Authorization"@ != "Content-Type"@,
        "Authorization"@ != "X-User-Id"@,
        "Authorization"@ != "X-Enterprise-Id"@,
        "Authorization"@ != "X-Tenant-Id"@,
        "Authorization"@ != "X-Domain"@,
        "X-Client-Platform"@ != "Accept"@,
        "X-Client-Platform"@ != "Origin"@,
        "X-Client-Platform"@ != "Referer"@,
        "X-Client-Platform"@ != "X-Refresh-Token"@,
        "X-Client-Platform"@ != "X-Auth-Refresh-Source"@,
        "X-Client-Platform"@ != "Content-Type"@,
        "X-Client-Platform"@ != "X-User-Id"@,
        "X-Client-Platform"@ != "X-Enterprise-Id"@,
        "X-Client-Platform"@ != "X-Tenant-Id"@,
        "X-Client-Platform"@ != "X-Domain"@,
        "Accept"@ != "Origin"@,
        "Accept"@ != "Referer"@,
        "Accept"@ != "X-Refresh-Token"@,
        "Accept"@ != "X-Auth-Refresh-Source"@,
        "Accept"@ != "Content-Type"@,
        "Accept"@ != "X-User-Id"@,
        "Accept"@ != "X-Enterprise-Id"@,
        "Accept"@ != "X-Tenant-Id"@,
        "Accept"@ != "X-Domain"@,
        "Origin"@ != "Referer"@,
        "Origin"@ != "X-Refresh-Token"@,
        "Origin"@ != "X-Auth-Refresh-Source"@,
        "Origin"@ != "Content-Type"@,
        "Origin"@ != "X-User-Id"@,
        "Origin"@ != "X-Enterprise-Id"@,
        "Origin"@ != "X-Tenant-Id"@,
        "Origin"@ != "X-Domain"@,
        "Referer"@ != "X-Refresh-Token"@,
        "Referer"@ != "X-Auth-Refresh-Source"@,
        "Referer"@ != "Content-Type"@,
        "Referer"@ != "X-User-Id"@,
        "Referer"@ != "X-Enterprise-Id"@,
        "Referer"@ != "X-Tenant-Id"@,
        "Referer"@ != "X-Domain"@,
        "X-Refresh-Token"@ != "X-Auth-Refresh-Source"@,
        "X-Refresh-Token"@ != "Content-Type"@,
        "X-Refresh-Token"@ != "X-User-Id"@,
        "X-Refresh-Token"@ != "X-Enterprise-Id"@,
        "X-Refresh-Token"@ != "X-Tenant-Id"@,
        "X-Refresh-Token"@ != "X-Domain"@,
        "X-Auth-Refresh-Source"@ != "Content-Type"@,
        "X-Auth-Refresh-Source"@ != "X-User-Id"@,
        "X-Auth-Refresh-Source"@ != "X-Enterprise-Id"@,
        "X-Auth-Refresh-Source"@ != "X-Tenant-Id"@,
        "X-Auth-Refresh-Source"@ != "X-Domain"@,
        "Content-Type"@ != "X-User-Id"@,
        "Content-Type"@ != "X-Enterprise-Id"@,
        "Content-Type"@ != "X-Tenant-Id"@,
        "Content-Type"@ != "X-Domain"@,
        "X-User-Id"@ != "X-Enterprise-Id"@,
        "X-User-Id"@ != "X-Tenant-Id"@,
        "X-User-Id"@ != "X-Domain"@,
        "X-Enterprise-Id"@ != "X-Tenant-Id"@,
        "X-Enterprise-Id"@ != "X-Domain"@,
        "X-Tenant-Id"@ != "X-Domain"@,
{
    reveal_strlit("Authorization");
    reveal_strlit("X-Client-Platform");
    reveal_strlit("Accept");
    reveal_strlit("Origin");
    reveal_strlit("Referer");
    reveal_strlit("X-Refresh-Token");
    reveal_strlit("X-Auth-Refresh-Source");
    reveal_strlit("Content-Type");
    reveal_strlit("X-User-Id");
    reveal_strlit("X-Enterprise-Id");
    reveal_strlit("X-Tenant-Id");
    reveal_strlit("X-Domain");
    assert("Authorization"@.len() == 13);
    assert("X-Client-Platform"@.len() == 17);
    assert("Accept"@.len() == 6);
    assert("Origin"@.len() == 6);
    assert("Referer"@.len() == 7);
    assert("X-Refresh-Token"@.len() == 15);
    assert("X-Auth-Refresh-Source"@.len() == 21);
    assert("Content-Type"@.len() == 12);
    assert("X-User-Id"@.len() == 9);
    assert("X-Enterprise-Id"@.len() == 15);
    assert("X-Tenant-Id"@.len() == 11);
    assert("X-Domain"@.len() == 8);
    assert("Accept"@[0] != "Origin"@[0]);
    assert("X-Refresh-Token"@[2] != "X-Enterprise-Id"@[2]);
}

/// A request for packages bears the account's headers and names the site that it comes from.
pub proof fn package_requests_name_their_site(acc: JsonV, origin: Seq<char>)
    ensures
        ({
            let h = credits::resource_headers(acc, origin);
            let own = account::auth_headers(acc);
            &&& h.contains_key("Origin"@) && h["Origin"@] == origin
            &&& h.contains_key("Referer"@) && h["Referer"@] == origin + "/profile/plans-usage"@
            &&& h.contains_key("X-Client-Platform"@) && h["X-Client-Platform"@] == "web"@
            &&& h.contains_key("Authorization"@) && h["Authorization"@] == own["Authorization"@]
            &&& h["X-User-Id"@] == own["X-User-Id"@] && h.contains_key("X-User-Id"@) == own.contains_key("X-User-Id"@)
        }),
{
    header_names();
}

/// A renewal bears the account's headers and its refresh token.
pub proof fn renewals_bear_the_refresh_token(acc: JsonV, token: Seq<char>)
    ensures
        ({
            let h = refresh::renewal_headers(acc, token);
            let own = account::auth_headers(acc);
            &&& h.contains_key("X-Refresh-Token"@) && h["X-Refresh-Token"@] == token
            &&& h.contains_key("X-Auth-Refresh-Source"@) && h["X-Auth-Refresh-Source"@] == "plugin"@
            &&& h.contains_key("Authorization"@) && h["Authorization"@] == own["Authorization"@]
            &&& h["X-Domain"@] == own["X-Domain"@] && h.contains_key("X-Domain"@) == own.contains_key("X-Domain"@)
        }),
{
    header_names();
}

/// The profile is asked for with the token that was granted, and the domain where one was
/// named.
pub proof fn profiles_are_asked_for_with_the_token(resp: JsonV, data: JsonV, token: Seq<char>, domain: Seq<char>)
    requires
        resp.get("data"@) == Some(data),
        data is Obj,
        data.get("accessToken"@) == Some(JsonV::Str(token)),
    ensures
        oauth::profile_headers(resp)["Authorization"@] == "Bearer "@ + token,
        domain.len() > 0 && data.get("domain"@) == Some(JsonV::Str(domain)) ==> oauth::profile_headers(resp).contains_key(
            "X-Domain"@,
        ) && oauth::profile_headers(resp)["X-Domain"@] == domain,
        data.get("domain"@) is None ==> !oauth::profile_headers(resp).contains_key("X-Domain"@),
{
    header_names();
    reveal_strlit("");
}

/// Token and profile are asked for at the edition's address, each by its own path, with the
/// login's state.
pub proof fn logins_are_asked_for_at_their_edition(v: WbVariant, state: Seq<char>, other: Seq<char>)
    ensures
        text::starts_with(oauth::token_address(v, state), v.endpoint()),
        text::starts_with(oauth::profile_address(v, state), v.endpoint()),
        text::ends_with(oauth::token_address(v, state), "/auth/token?state="@ + state),
        text::ends_with(oauth::profile_address(v, state), "/login/account?state="@ + state),
        oauth::token_address(v, state + other) == oauth::token_address(v, state) + other,
        oauth::platform(WbVariant::Cn) == "workbuddy"@,
        oauth::platform(WbVariant::Ai) == "workbuddy-ai"@,
{
    let t = oauth::token_address(v, state);
    let p = oauth::profile_address(v, state);
    let n = v.endpoint().len() as int;
    assert(t.subrange(0, n) =~= v.endpoint());
    assert(p.subrange(0, n) =~= v.endpoint());
    let a = "/auth/token?state="@ + state;
    let c = "/login/account?state="@ + state;
    assert(t.subrange(t.len() - a.len(), t.len() as int) =~= a);
    assert(p.subrange(p.len() - c.len(), p.len() as int) =~= c);
    assert(oauth::token_address(v, state + other) =~= t + other);
}

/// An address lies at the origin that it begins with, where a slash or nothing follows.
pub proof fn addresses_lie_at_their_origin(path: Seq<char>)
    requires
        path.len() == 0 || path[0] == '/',
    ensures
        credits::origin_of("https://www.workbuddy.ai"@ + path) == "https://www.workbuddy.ai"@,
        credits::origin_of("https://www.codebuddy.cn"@ + path) == "https://www.codebuddy.cn"@,
        credits::origin_of("https://www.workbuddy.cn"@ + path) == "https://www.workbuddy.cn"@,
{
    let ai = "https://www.workbuddy.ai"@;
    let api = "https://www.codebuddy.cn"@;
    let web = "https://www.workbuddy.cn"@;
    reveal_strlit("https://www.workbuddy.ai");
    reveal_strlit("https://www.codebuddy.cn");
    reveal_strlit("https://www.workbuddy.cn");
    assert(ai.len() == 24 && api.len() == 24 && web.len() == 24);
    assert(ai[22] == 'a' && web[22] == 'c' && api[12] == 'c' && ai[12] == 'w' && web[12] == 'w');
    assert((ai + path).subrange(0, 24) =~= ai);
    assert((api + path).subrange(0, 24) =~= api);
    assert((web + path).subrange(0, 24) =~= web);
    assert((web + path).subrange(0, 24)[22] != ai[22]);
    assert((api + path).subrange(0, 24)[12] != ai[12]);
    assert((api + path).subrange(0, 24)[12] != web[12]);
}

/// A report at hand is shown unless a new one is asked for; the one in memory counts first.
pub proof fn reports_at_hand_are_shown(memory: JsonV, content: Option<Seq<char>>)
    ensures
        official_usage::report_at_hand(true, Some(memory), content) is None,
        official_usage::report_at_hand(false, Some(memory), content) == Some(memory),
        official_usage::report_at_hand(false, None, None) is None,
{
}

/// The requests of a page are those of its records that are requests, in their order.
pub proof fn every_record_is_read(records: Seq<JsonV>, moments: Seq<Option<(i64, i32)>>, n: int)
    requires
        0 < n <= records.len(),
    ensures
        official_usage::row_of(records[n - 1], official_usage::moment_at(moments, n - 1)) matches Some(r)
            ==> official_usage::rows_of(records, moments, n) == official_usage::rows_of(records, moments, n - 1).push(r),
        official_usage::row_of(records[n - 1], official_usage::moment_at(moments, n - 1)) is None
            ==> official_usage::rows_of(records, moments, n) == official_usage::rows_of(records, moments, n - 1),
        official_usage::rows_of(records, moments, 0) == Seq::<RowV>::empty(),
{
}

/// Only the sources that are asked for are told of.
pub proof fn only_the_wanted_sources_are_told(scope: ScanScope, logs: SourceLogs, accounts: Seq<JsonV>)
    ensures
        ({
            let cn = scope.has(ScanSource::WorkBuddy(WbVariant::Cn));
            let ai = scope.has(ScanSource::WorkBuddy(WbVariant::Ai));
            let cli = scope.has(ScanSource::Cli);
            let ide = scope.has(ScanSource::Ide(CodeBuddyIdeFlavor::Intl));
            let cn_ide = scope.has(ScanSource::Ide(CodeBuddyIdeFlavor::Cn));
            let rows = limits::source_rows(scope, logs, accounts);
            &&& !cn && !ai && !cli && !ide && !cn_ide ==> rows.len() == 0
            &&& cn && !ai && !cli && !ide && !cn_ide ==> rows == limits::workbuddy_rows(
                logs.workbuddy_cn,
                accounts,
                WbVariant::Cn,
            )
            &&& !cn && ai && !cli && !ide && !cn_ide ==> rows == limits::workbuddy_rows(
                logs.workbuddy_ai,
                accounts,
                WbVariant::Ai,
            )
            &&& !cn && !ai && cli && !ide && !cn_ide ==> rows == limits::client_rows(logs.cli, accounts)
            &&& !cn && !ai && !cli && ide && !cn_ide ==> rows == limits::client_rows(logs.ide, accounts)
            &&& !cn && !ai && !cli && !ide && cn_ide ==> rows == limits::client_rows(logs.cn_ide, accounts)
        }),
{
}

/// The hits of several files are those of each, one after the other.
pub proof fn files_are_read_in_turn(parts: Seq<Seq<HitV>>, last: Seq<HitV>)
    ensures
        limits::chained(parts.push(last)) == limits::chained(parts) + last,
        limits::chained(Seq::empty()) == Seq::<HitV>::empty(),
{
    assert(parts.push(last).subrange(0, parts.push(last).len() - 1) =~= parts);
}

/// The editors' logs are read unless the settings say that they are not.
pub proof fn editor_logs_are_read_by_default(cfg: JsonV)
    ensures
        cfg.get("scanIdeLogs"@) == Some(JsonV::Bool(false)) ==> !limits::scans_ide_logs(cfg),
        cfg.get("scanIdeLogs"@) == Some(JsonV::Bool(true)) ==> limits::scans_ide_logs(cfg),
        cfg.get("scanIdeLogs"@) is None ==> limits::scans_ide_logs(cfg),
{
}

/// A check-in is submitted exactly where its status does not already answer it.
pub proof fn submitted_unless_answered(status: JsonV)
    ensures
        checkin::answer_to_status(status) is None <==> checkin::decision(status) == checkin::DecisionV::Submit,
        checkin::decision(status) == checkin::DecisionV::Already ==> (checkin::answer_to_status(status) matches Some(r)
            && r.get("result"@) == Some(JsonV::Str("already"@))),
        checkin::decision(status) matches checkin::DecisionV::Error(e) ==> (checkin::answer_to_status(status) matches Some(
            r,
        ) && r.get("result"@) == Some(JsonV::Str("error"@)) && r.get("error"@) == Some(JsonV::Str(e))),
{
    reveal_strlit("result");
    reveal_strlit("error");
    assert("result"@.len() == 6 && "error"@.len() == 5);
}

} // verus!
