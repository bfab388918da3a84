use rfx::adapter::git_ahead_behind;
use rfx::adapter::git_first_commit;
use rfx::adapter::git_last_commit;
use rfx::adapter::git_list_branches;
use rfx::adapter::git_list_remote_branches;
use rfx::adapter::git_status_porcelain;
use rfx::adapter::run_result;
use rfx::adapter::RunOutcome;

#[test]
fn porcelain_empty_output_yields_no_entries() {
    let r = git_status_porcelain("");
    assert!(r.is_empty());
}

#[test]
fn porcelain_short_line_degrades_to_unknown_status() {
    let r = git_status_porcelain("ab");
    assert_eq!(r.len(), 1);
    assert_eq!(r[0].0, "?");
    assert_eq!(r[0].1, "ab");
}

#[test]
fn porcelain_short_lines_never_fail() {
    for line in ["", "a", "ab", "abc"] {
        let text = format!("{}\n", line);
        let r = git_status_porcelain(&text);
        if line.is_empty() {
            // a single newline still yields one (empty) line
            assert_eq!(r.len(), 1);
        }
        for (status, path) in &r {
            assert_eq!(status, "?");
            assert_eq!(path, line);
        }
    }
}

#[test]
fn porcelain_splits_fixed_columns_and_trims() {
    let out = " M src/main.rs\n?? notes.txt\nD  gone with spaces.md\n";
    let r = git_status_porcelain(out);
    assert_eq!(r.len(), 3);
    assert_eq!(r[0], ("M".to_string(), "src/main.rs".to_string()));
    assert_eq!(r[1], ("??".to_string(), "notes.txt".to_string()));
    assert_eq!(r[2], ("D".to_string(), "gone with spaces.md".to_string()));
}

#[test]
fn porcelain_handles_crlf_line_endings() {
    let r = git_status_porcelain(" M a.rs\r\n?? b.rs\r\n");
    assert_eq!(r.len(), 2);
    assert_eq!(r[0], ("M".to_string(), "a.rs".to_string()));
    assert_eq!(r[1], ("??".to_string(), "b.rs".to_string()));
}

#[test]
fn ahead_behind_ignores_a_leading_plus_sign() {
    assert_eq!(git_ahead_behind("+3\t+2"), (3, 2));
}

#[test]
fn ahead_behind_overflowing_counts_degrade_to_zero() {
    assert_eq!(git_ahead_behind("99999999999999999999999999 1"), (0, 1));
}

#[test]
fn ahead_behind_reads_two_counts() {
    assert_eq!(git_ahead_behind("3\t2"), (3, 2));
    assert_eq!(git_ahead_behind("0\t0"), (0, 0));
    assert_eq!(git_ahead_behind("  10   7  "), (10, 7));
}

#[test]
fn ahead_behind_few_tokens_degrades_to_zero() {
    assert_eq!(git_ahead_behind(""), (0, 0));
    assert_eq!(git_ahead_behind("5"), (0, 0));
    assert_eq!(git_ahead_behind("   "), (0, 0));
}

#[test]
fn ahead_behind_unreadable_counts_degrade_to_zero() {
    assert_eq!(git_ahead_behind("x y"), (0, 0));
    assert_eq!(git_ahead_behind("4 oops"), (4, 0));
    assert_eq!(git_ahead_behind("oops 4"), (0, 4));
}

#[test]
fn first_commit_takes_first_line_or_sentinel() {
    assert_eq!(git_first_commit("alice|2024-01-01\nbob|2024-01-02"), "alice|2024-01-01");
    assert_eq!(git_first_commit(""), "Unknown|Unknown");
}

#[test]
fn last_commit_takes_first_line_or_sentinel() {
    assert_eq!(git_last_commit("2024-05-01|tidy up"), "2024-05-01|tidy up");
    assert_eq!(git_last_commit(""), "Unknown|No commit");
}

#[test]
fn list_branches_trims_each_line() {
    let r = git_list_branches("main\n  feature/x  \ndev");
    assert_eq!(r, vec!["main", "feature/x", "dev"]);
}

#[test]
fn list_remote_branches_keeps_raw_lines() {
    let r = git_list_remote_branches("origin/main|carol|2 days ago\norigin/dev|dan|5 weeks ago");
    assert_eq!(r.len(), 2);
    assert_eq!(r[0], "origin/main|carol|2 days ago");
}

#[test]
fn run_result_reports_spawn_failure() {
    let r = run_result(RunOutcome::NotLaunched("No such file or directory".to_string()), false);
    assert_eq!(r, Err("Failed to execute git: No such file or directory".to_string()));
}

#[test]
fn run_result_trims_stdout_unless_raw() {
    let outcome = RunOutcome::Completed {
        success: true,
        stdout: "  main  \n".to_string(),
        stderr: String::new(),
    };
    assert_eq!(run_result(outcome, false), Ok("main".to_string()));
    let outcome_raw = RunOutcome::Completed {
        success: true,
        stdout: " M a.rs\n".to_string(),
        stderr: String::new(),
    };
    assert_eq!(run_result(outcome_raw, true), Ok(" M a.rs\n".to_string()));
}

#[test]
fn run_result_surfaces_stderr_on_failure() {
    let outcome = RunOutcome::Completed {
        success: false,
        stdout: String::new(),
        stderr: "fatal: not a git repository".to_string(),
    };
    assert_eq!(run_result(outcome, false), Err("fatal: not a git repository".to_string()));
}
