use wb_switch_core::cli_process::{
    close_running_codebuddy_cli, macos_node_candidates, parse_process_rows, run_helper_command,
    terminate_codebuddy_cli_pids, windows_shell_candidates, EndStep, StartFailure,
};
use wb_switch_core::codebuddy_cli::System;

fn ended(step: EndStep) -> (&'static str, Vec<u32>) {
    match step {
        EndStep::Ask(pids) => ("ask", pids),
        EndStep::Wait(pids) => ("wait", pids),
        EndStep::Force(pids) => ("force", pids),
        EndStep::Done => ("done", vec![]),
    }
}

#[test]
fn process_lists_are_read_line_by_line() {
    let rows = parse_process_rows(System::Mac, "  12 /usr/bin/node  helper.cjs \nx y\n99999999999 z\n7\n");
    assert_eq!(rows, vec![(12, "/usr/bin/node  helper.cjs".to_string())]);
    let rows = parse_process_rows(System::Windows, " 4 |C:\\a b.exe -x|y\r\nno bar\r\n");
    assert_eq!(rows, vec![(4, "C:\\a b.exe -x|y".to_string())]);
}

#[test]
fn processes_are_asked_and_the_survivors_are_ended() {
    assert_eq!(ended(close_running_codebuddy_cli(vec![])), ("done", vec![]));
    let step = close_running_codebuddy_cli(vec![3, 4]);
    let step = terminate_codebuddy_cli_pids(System::Linux, step, vec![], 0);
    let step = terminate_codebuddy_cli_pids(System::Linux, step, vec![4], 2_999);
    let step = terminate_codebuddy_cli_pids(System::Linux, step, vec![4], 3_000);
    assert_eq!(ended(step), ("force", vec![4]));
    let gone = terminate_codebuddy_cli_pids(System::Windows, EndStep::Wait(vec![3]), vec![], 10);
    assert_eq!(ended(gone), ("done", vec![]));
    let early = terminate_codebuddy_cli_pids(System::Mac, EndStep::Wait(vec![3, 4]), vec![], 1_999);
    assert_eq!(ended(early), ("wait", vec![3, 4]));
    let late = terminate_codebuddy_cli_pids(System::Mac, EndStep::Wait(vec![3, 4]), vec![], 2_000);
    assert_eq!(ended(late), ("force", vec![3, 4]));
    let over = terminate_codebuddy_cli_pids(System::Mac, EndStep::Force(vec![3]), vec![3], 2_000);
    assert_eq!(ended(over), ("done", vec![]));
}

#[test]
fn node_is_looked_for_where_the_shell_finds_it() {
    let usual = vec!["node", "/opt/homebrew/bin/node", "/usr/local/bin/node"];
    assert_eq!(macos_node_candidates(None), usual);
    assert_eq!(macos_node_candidates(Some(b"hello\n/usr/local/bin/node\n")), usual);
    assert_eq!(macos_node_candidates(Some(b"hello\n/usr/local//bin/./node/\n")), usual);
    let more = macos_node_candidates(Some(b"welcome\n/Users/u/.nvm/bin/node\n"));
    assert_eq!(more.last().map(String::as_str), Some("/Users/u/.nvm/bin/node"));
    assert_eq!(more.len(), 4);
}

#[test]
fn shells_are_tried_from_the_configured_one_to_any() {
    assert_eq!(windows_shell_candidates(None, None, None, None, ""), vec!["bash.exe"]);
    let found = windows_shell_candidates(
        Some("D:/bash.exe"),
        Some("C:/Program Files"),
        None,
        Some("C:/L"),
        "C:\\Git\\cmd\\git.exe\r\nD:\\git.exe\r\n\r\n",
    );
    assert_eq!(
        found,
        vec![
            "D:/bash.exe",
            "C:/Program Files\\Git/bin/bash.exe",
            "C:/Program Files\\Git/usr/bin/bash.exe",
            "C:/L\\Programs/Git/bin/bash.exe",
            "C:\\Git\\bin/bash.exe",
            "C:\\Git\\usr/bin/bash.exe",
            "bash.exe",
        ]
    );
}

#[test]
fn a_missing_program_leads_to_the_next() {
    assert_eq!(run_helper_command(System::Mac, 0, 2, StartFailure::Missing), Ok(1));
    let none = run_helper_command(System::Mac, 1, 2, StartFailure::Missing).unwrap_err();
    assert!(none.contains("未找到可用的 Node.js"), "{none}");
    let broken = run_helper_command(System::Windows, 0, 2, StartFailure::Broken).unwrap_err();
    assert!(broken.contains("无法启动 Git Bash shell") && broken.contains("启动阶段"), "{broken}");
    let shell = run_helper_command(System::Linux, 0, 1, StartFailure::Missing).unwrap_err();
    assert!(shell.contains("无法启动 /bin/sh"), "{shell}");
}
