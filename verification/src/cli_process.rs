//! The processes around CodeBuddy CLI: reading lists of processes, ending the ones
//! that run, and starting the helper.
use vstd::prelude::*;
use vstd::slice::slice_subrange;
use crate::codebuddy_cli;
use crate::codebuddy_cli::{helper_validation_error, node_path_from_shell_output, rows_view, System};
use crate::json;
use crate::log_scan;
use crate::paths;
use crate::text;
use crate::variant;

verus! {

/// A process with its command line, as a line of a list tells it.
pub open spec fn row_of(number: Seq<char>, args: Seq<char>) -> Option<(u32, Seq<char>)> {
    match text::u64_of_text(number) {
        Some(n) => if n <= u32::MAX {
            Some((n as u32, args))
        } else {
            None
        },
        None => None,
    }
}

/// The process that a line tells of: on Windows number and command line have a bar
/// between them, elsewhere white space.
pub open spec fn process_row(system: System, line: Seq<char>) -> Option<(u32, Seq<char>)> {
    if system == System::Windows {
        let k = text::until(line, |c: char| c == '|');
        if k >= line.len() {
            None
        } else {
            row_of(text::trim(line.subrange(0, k)), line.subrange(k + 1, line.len() as int))
        }
    } else {
        let t = text::trim(line);
        let k = text::until(t, |c: char| text::white(c));
        if k >= t.len() {
            None
        } else {
            row_of(t.subrange(0, k), text::trim(t.subrange(k + 1, t.len() as int)))
        }
    }
}

/// The processes that the first `n` lines tell of.
pub open spec fn process_rows(system: System, lines: Seq<Seq<char>>, n: int) -> Seq<(u32, Seq<char>)>
    decreases n,
{
    if n <= 0 {
        Seq::empty()
    } else {
        let earlier = process_rows(system, lines, n - 1);
        match process_row(system, lines[n - 1]) {
            Some(row) => earlier.push(row),
            None => earlier,
        }
    }
}

/// A row that may be missing.
pub open spec fn opt_row(o: Option<(u32, String)>) -> Option<(u32, Seq<char>)> {
    match o {
        Some(p) => Some((p.0, p.1@)),
        None => None,
    }
}

fn make_row(number: &[char], args: &[char]) -> (r: Option<(u32, String)>)
    ensures
        opt_row(r) == row_of(number@, args@),
{
    match text::parse_u64(number) {
        Some(n) => {
            if n <= 0xffff_ffff {
                Some((n as u32, text::text_of(args)))
            } else {
                None
            }
        },
        None => None,
    }
}

fn read_row(system: System, line: &[char]) -> (r: Option<(u32, String)>)
    ensures
        opt_row(r) == process_row(system, line@),
{
    if system == System::Windows {
        let k: usize = text::until_char(line, '|');
        assert(text::until(line@, |x: char| x == '|') == text::until(line@, |c: char| c == '|'));
        if k >= line.len() {
            return None;
        }
        make_row(text::trim_slice(slice_subrange(line, 0, k)), slice_subrange(line, k + 1, line.len()))
    } else {
        let t: &[char] = text::trim_slice(line);
        let k: usize = text::until_white(t);
        assert(text::until(t@, |x: char| text::white(x)) == text::until(t@, |c: char| text::white(c)));
        if k >= t.len() {
            return None;
        }
        make_row(slice_subrange(t, 0, k), text::trim_slice(slice_subrange(t, k + 1, t.len())))
    }
}

/// The processes that a list tells of, a line for each; other lines are passed over.
pub fn parse_process_rows(system: System, stdout: &str) -> (r: Vec<(u32, String)>)
    ensures
        rows_view(r@) == process_rows(system, text::lines(stdout@), text::lines(stdout@).len() as int),
{
    let chars: Vec<char> = text::chars_of(stdout);
    let ranges: Vec<(usize, usize)> = text::line_ranges(chars.as_slice());
    let ghost all = text::lines(stdout@);
    let mut out: Vec<(u32, String)> = Vec::new();
    let mut i: usize = 0;
    assert(rows_view(out@) =~= Seq::empty());
    while i < ranges.len()
        invariant
            i <= ranges@.len(),
            chars@ == stdout@,
            all == text::lines(stdout@),
            ranges@.len() == all.len(),
            text::ranges_of_lines(chars@, ranges@),
            rows_view(out@) == process_rows(system, all, i as int),
        decreases ranges@.len() - i,
    {
        let range: (usize, usize) = ranges[i];
        let ghost held = out@;
        match read_row(system, slice_subrange(chars.as_slice(), range.0, range.1)) {
            Some(row) => {
                let ghost one = (row.0, row.1@);
                out.push(row);
                assert(rows_view(out@) =~= rows_view(held).push(one));
            },
            None => {},
        }
        i += 1;
    }
    out
}

/// How long processes that were asked to end are waited for: two seconds on macOS,
/// three elsewhere.
pub open spec fn patience_ms(system: System) -> int {
    if system == System::Mac {
        2_000
    } else {
        3_000
    }
}

/// A step of ending processes.
pub enum EndStep {
    /// Ask these to end.
    Ask(Vec<u32>),
    /// Wait a while, and see which of these still run.
    Wait(Vec<u32>),
    /// End these.
    Force(Vec<u32>),
    /// There is nothing left to do.
    Done,
}

/// A step of ending processes.
#[verifier::ext_equal]
pub enum EndStepV {
    Ask(Seq<u32>),
    Wait(Seq<u32>),
    Force(Seq<u32>),
    Done,
}

impl EndStep {
    pub open spec fn view(&self) -> EndStepV {
        match self {
            EndStep::Ask(v) => EndStepV::Ask(v@),
            EndStep::Wait(v) => EndStepV::Wait(v@),
            EndStep::Force(v) => EndStepV::Force(v@),
            EndStep::Done => EndStepV::Done,
        }
    }
}

/// What comes after a step of ending processes. `alive` are those of them that still
/// run, `elapsed` is the time since they were asked. On macOS the time is always
/// waited out, and all of them are ended then, whether they still run or not.
pub open spec fn end_next(system: System, step: EndStepV, alive: Seq<u32>, elapsed: int) -> EndStepV {
    match step {
        EndStepV::Ask(pids) => EndStepV::Wait(pids),
        EndStepV::Wait(pids) => if system == System::Mac {
            if elapsed < patience_ms(system) {
                EndStepV::Wait(pids)
            } else {
                EndStepV::Force(pids)
            }
        } else if alive.len() == 0 {
            EndStepV::Done
        } else if elapsed < patience_ms(system) {
            EndStepV::Wait(pids)
        } else {
            EndStepV::Force(alive)
        },
        EndStepV::Force(_) => EndStepV::Done,
        EndStepV::Done => EndStepV::Done,
    }
}

/// Begins to end the processes of CodeBuddy CLI; there may be none.
pub fn close_running_codebuddy_cli(pids: Vec<u32>) -> (r: EndStep)
    ensures
        r@ == (if pids@.len() == 0 {
            EndStepV::Done
        } else {
            EndStepV::Ask(pids@)
        }),
{
    if pids.len() == 0 {
        EndStep::Done
    } else {
        EndStep::Ask(pids)
    }
}

/// What comes after a step of ending processes, by those that still run and the
/// milliseconds since they were asked.
pub fn terminate_codebuddy_cli_pids(system: System, step: EndStep, alive: Vec<u32>, elapsed: u64) -> (r: EndStep)
    ensures
        r@ == end_next(system, step@, alive@, elapsed as int),
{
    let patience: u64 = if system == System::Mac {
        2_000
    } else {
        3_000
    };
    match step {
        EndStep::Ask(pids) => EndStep::Wait(pids),
        EndStep::Wait(pids) => {
            if system == System::Mac {
                if elapsed < patience {
                    EndStep::Wait(pids)
                } else {
                    EndStep::Force(pids)
                }
            } else if alive.len() == 0 {
                EndStep::Done
            } else if elapsed < patience {
                EndStep::Wait(pids)
            } else {
                EndStep::Force(alive)
            }
        },
        EndStep::Force(_) => EndStep::Done,
        EndStep::Done => EndStep::Done,
    }
}

/// No process outlasts its time: once it is over, whatever still runs of those that
/// were asked is ended by force, and then there is nothing left to do.
pub proof fn survivors_are_ended(system: System, pids: Seq<u32>, alive: Seq<u32>, elapsed: int, p: u32)
    requires
        elapsed >= patience_ms(system),
        alive.contains(p),
        pids.contains(p),
    ensures
        ({
            let next = end_next(system, EndStepV::Wait(pids), alive, elapsed);
            &&& next matches EndStepV::Force(ended) && ended.contains(p)
            &&& end_next(system, next, alive, elapsed) is Done
        }),
{
}

/// The programs by which the helper may be run on macOS: where `node` usually is, and
/// where the login shell finds it.
pub open spec fn node_places(found: Option<Seq<char>>) -> Seq<Seq<char>> {
    let usual = seq!["node"@, "/opt/homebrew/bin/node"@, "/usr/local/bin/node"@];
    match found {
        Some(path) => paths::listing(usual, path, false),
        None => usual,
    }
}

/// The programs by which the helper may be run on macOS. `printed` is what the login
/// shell says of where `node` is.
pub fn macos_node_candidates(printed: Option<&[u8]>) -> (r: Vec<String>)
    ensures
        variant::strings(r@) == node_places(
            match printed {
                Some(out) => codebuddy_cli::last_node(
                    text::lines(log_scan::lossy_text_of(out@)),
                    text::lines(log_scan::lossy_text_of(out@)).len() as int,
                ),
                None => None,
            },
        ),
{
    let mut list: Vec<String> = vec![
        "node".to_owned(),
        "/opt/homebrew/bin/node".to_owned(),
        "/usr/local/bin/node".to_owned(),
    ];
    let ghost usual = seq!["node"@, "/opt/homebrew/bin/node"@, "/usr/local/bin/node"@];
    assert(variant::strings(list@) =~= usual);
    let found: Option<String> = match printed {
        Some(out) => node_path_from_shell_output(out),
        None => None,
    };
    match found {
        Some(path) => {
            paths::list_place(&mut list, path, false);
        },
        None => {},
    }
    list
}

/// The shells that belong to Git, where its program is at a path.
pub open spec fn shells_of_git(git: Seq<char>) -> Seq<Seq<char>> {
    match paths::directory(git, true) {
        Some(dir) => match paths::directory(dir, true) {
            Some(root) => seq![
                paths::joined_on(root, "bin/bash.exe"@, true),
                paths::joined_on(root, "usr/bin/bash.exe"@, true),
            ],
            None => Seq::empty(),
        },
        None => Seq::empty(),
    }
}

/// The shells that belong to the programs of the first `n` lines.
pub open spec fn shells_of_lines(lines: Seq<Seq<char>>, n: int) -> Seq<Seq<char>>
    decreases n,
{
    if n <= 0 {
        Seq::empty()
    } else {
        shells_of_lines(lines, n - 1) + shells_of_git(text::trim(lines[n - 1]))
    }
}

/// The shells in a directory of programs.
pub open spec fn shells_in(root: Option<Seq<char>>) -> Seq<Seq<char>> {
    match root {
        Some(dir) => seq![
            paths::joined_on(dir, "Git/bin/bash.exe"@, true),
            paths::joined_on(dir, "Git/usr/bin/bash.exe"@, true),
        ],
        None => Seq::empty(),
    }
}

/// One text or none.
pub open spec fn at_most_one(o: Option<Seq<char>>) -> Seq<Seq<char>> {
    match o {
        Some(s) => seq![s],
        None => Seq::empty(),
    }
}

/// The shells by which the helper may be run on Windows, the best first: the one that
/// is configured, those where Git usually is, those beside the Git that is found, and
/// whatever bears the name.
pub open spec fn shell_places(
    configured: Option<Seq<char>>,
    programs: Option<Seq<char>>,
    programs_x86: Option<Seq<char>>,
    local: Option<Seq<char>>,
    found: Seq<char>,
) -> Seq<Seq<char>> {
    let own = match local {
        Some(dir) => seq![paths::joined_on(dir, "Programs/Git/bin/bash.exe"@, true)],
        None => Seq::empty(),
    };
    at_most_one(configured) + shells_in(programs) + shells_in(programs_x86) + own + shells_of_lines(
        text::lines(found),
        text::lines(found).len() as int,
    ) + seq!["bash.exe"@]
}

fn list_shells(list: &mut Vec<String>, root: Option<&str>)
    ensures
        variant::strings(final(list)@) == variant::strings(old(list)@) + shells_in(json::opt_text(root)),
{
    let ghost held = variant::strings(list@);
    match root {
        Some(dir) => {
            list.push(paths::join_on(dir, "Git/bin/bash.exe", true));
            list.push(paths::join_on(dir, "Git/usr/bin/bash.exe", true));
        },
        None => {},
    }
    assert(variant::strings(list@) =~= held + shells_in(json::opt_text(root)));
}

fn list_git_shells(list: &mut Vec<String>, git: &[char])
    ensures
        variant::strings(final(list)@) == variant::strings(old(list)@) + shells_of_git(git@),
{
    let ghost held = variant::strings(list@);
    match paths::directory_of(git, true) {
        Some(dir) => match paths::directory_of(dir, true) {
            Some(root) => {
                let root: String = text::text_of(root);
                list.push(paths::join_on(root.as_str(), "bin/bash.exe", true));
                list.push(paths::join_on(root.as_str(), "usr/bin/bash.exe", true));
            },
            None => {},
        },
        None => {},
    }
    assert(variant::strings(list@) =~= held + shells_of_git(git@));
}

/// The shells by which the helper may be run on Windows. The first four are variables
/// of the process, `found` lists the paths of Git, a line for each.
pub fn windows_shell_candidates(
    configured: Option<&str>,
    program_files: Option<&str>,
    program_files_x86: Option<&str>,
    local_appdata: Option<&str>,
    found: &str,
) -> (r: Vec<String>)
    ensures
        variant::strings(r@) == shell_places(
            json::opt_text(configured),
            json::opt_text(program_files),
            json::opt_text(program_files_x86),
            json::opt_text(local_appdata),
            found@,
        ),
{
    let mut list: Vec<String> = Vec::new();
    match configured {
        Some(path) => {
            list.push(path.to_owned());
        },
        None => {},
    }
    assert(variant::strings(list@) =~= at_most_one(json::opt_text(configured)));
    list_shells(&mut list, program_files);
    list_shells(&mut list, program_files_x86);
    let ghost before = variant::strings(list@);
    match local_appdata {
        Some(dir) => {
            list.push(paths::join_on(dir, "Programs/Git/bin/bash.exe", true));
        },
        None => {},
    }
    let ghost own = match json::opt_text(local_appdata) {
        Some(dir) => seq![paths::joined_on(dir, "Programs/Git/bin/bash.exe"@, true)],
        None => Seq::empty(),
    };
    assert(variant::strings(list@) =~= before + own);
    let ghost start = variant::strings(list@);
    let chars: Vec<char> = text::chars_of(found);
    let ranges: Vec<(usize, usize)> = text::line_ranges(chars.as_slice());
    let ghost all = text::lines(found@);
    let mut i: usize = 0;
    assert(start + shells_of_lines(all, 0) =~= start);
    while i < ranges.len()
        invariant
            i <= ranges@.len(),
            chars@ == found@,
            all == text::lines(found@),
            ranges@.len() == all.len(),
            text::ranges_of_lines(chars@, ranges@),
            variant::strings(list@) == start + shells_of_lines(all, i as int),
        decreases ranges@.len() - i,
    {
        let range: (usize, usize) = ranges[i];
        let line: &[char] = text::trim_slice(slice_subrange(chars.as_slice(), range.0, range.1));
        list_git_shells(&mut list, line);
        assert(start + shells_of_lines(all, i as int) + shells_of_git(text::trim(all[i as int])) =~= start
            + shells_of_lines(all, i + 1));
        i += 1;
    }
    let ghost last = variant::strings(list@);
    list.push("bash.exe".to_owned());
    assert(variant::strings(list@) =~= last + seq!["bash.exe"@]);
    list
}

/// Why a program could not be started.
#[derive(Debug, Clone, Copy, PartialEq, Eq, Structural)]
pub enum StartFailure {
    /// There is none at that path.
    Missing,
    /// It could not be run.
    Broken,
}

/// What is said where no program can be started.
pub open spec fn start_error(system: System, failure: StartFailure) -> Seq<char> {
    codebuddy_cli::helper_error(
        "启动阶段"@,
        match (system, failure) {
            (System::Windows, StartFailure::Broken) => "无法启动 Git Bash shell"@,
            (System::Windows, StartFailure::Missing) => "未找到 Git Bash bash.exe"@,
            (System::Mac, StartFailure::Broken) => "无法使用 Node.js 执行 helper"@,
            (System::Mac, StartFailure::Missing) =>
                "未找到可用的 Node.js；如通过 nvm 安装，请确认登录 shell 能执行 node"@,
            (System::Linux, _) => "无法启动 /bin/sh"@,
        },
        system == System::Windows,
    )
}

/// The program to try after the one at `index` of `count` could not be started: the
/// next where there is none at that path, otherwise the message. There is but one on
/// Linux.
pub fn run_helper_command(system: System, index: usize, count: usize, failure: StartFailure) -> (r: Result<usize, String>)
    ensures
        match r {
            Ok(next) => next == index + 1 && next < count && failure == StartFailure::Missing && system != System::Linux,
            Err(e) => (failure == StartFailure::Broken || index + 1 >= count || system == System::Linux) && e@
                == start_error(system, failure),
        },
{
    if failure == StartFailure::Missing && system != System::Linux && index < count && count - index > 1 {
        return Ok(index + 1);
    }
    let cause: &str = match (system, failure) {
        (System::Windows, StartFailure::Broken) => "无法启动 Git Bash shell",
        (System::Windows, StartFailure::Missing) => "未找到 Git Bash bash.exe",
        (System::Mac, StartFailure::Broken) => "无法使用 Node.js 执行 helper",
        (System::Mac, StartFailure::Missing) =>
            "未找到可用的 Node.js；如通过 nvm 安装，请确认登录 shell 能执行 node",
        (System::Linux, _) => "无法启动 /bin/sh",
    };
    Err(helper_validation_error("启动阶段", cause, system == System::Windows))
}

} // verus!
