use rfx::workflow::branch_info;
use rfx::workflow::branches_detailed;
use rfx::workflow::commits_detailed;
use rfx::workflow::create_branch;
use rfx::workflow::create_commit;
use rfx::workflow::get_changed_files;
use rfx::workflow::get_status;
use rfx::workflow::pull_specific_branch;
use rfx::workflow::push_branch;
use rfx::workflow::stage_all_files;
use rfx::workflow::stage_files;
use rfx::workflow::undo_last_commit;
use rfx::workflow::validate_new_branch_name;
use rfx::workflow::BranchQuery;

#[test]
fn commit_message_validation_enforces_minimum_length() {
    assert_eq!(create_commit(""), Err("Commit message cannot be empty.".to_string()));
    assert_eq!(create_commit("   "), Err("Commit message cannot be empty.".to_string()));
    assert_eq!(create_commit("ab"), Err("Commit message is too short.".to_string()));
    assert_eq!(create_commit(" ab "), Err("Commit message is too short.".to_string()));
    assert_eq!(create_commit("abc"), Ok(vec![
        "commit".to_string(),
        "-m".to_string(),
        "abc".to_string(),
    ]));
}

#[test]
fn commit_message_is_trimmed_before_committing() {
    assert_eq!(create_commit("  fix the build  "), Ok(vec![
        "commit".to_string(),
        "-m".to_string(),
        "fix the build".to_string(),
    ]));
}

#[test]
fn commit_message_length_counts_characters() {
    assert_eq!(create_commit("éé"), Err("Commit message is too short.".to_string()));
    assert_eq!(create_commit("ééé"), Ok(vec![
        "commit".to_string(),
        "-m".to_string(),
        "ééé".to_string(),
    ]));
}

#[test]
fn branch_name_with_whitespace_fails() {
    let existing = vec!["main".to_string()];
    assert_eq!(
        validate_new_branch_name("new branch", &existing),
        Err("Branch names cannot contain spaces.".to_string())
    );
}

#[test]
fn empty_branch_name_fails() {
    let existing: Vec<String> = Vec::new();
    assert_eq!(
        validate_new_branch_name("   ", &existing),
        Err("Branch name cannot be empty.".to_string())
    );
}

#[test]
fn duplicate_branch_name_fails() {
    let existing = vec!["main".to_string(), "dev".to_string()];
    assert_eq!(
        validate_new_branch_name("dev", &existing),
        Err("A branch named 'dev' already exists.".to_string())
    );
    assert_eq!(
        validate_new_branch_name("  dev  ", &existing),
        Err("A branch named 'dev' already exists.".to_string())
    );
}

#[test]
fn unused_valid_branch_name_passes() {
    let existing = vec!["main".to_string(), "dev".to_string()];
    assert_eq!(validate_new_branch_name("feature-x", &existing), Ok(()));
}

#[test]
fn staging_no_files_is_a_no_op() {
    let files: Vec<String> = Vec::new();
    assert_eq!(stage_files(&files), None);
}

#[test]
fn staging_files_builds_the_add_invocation() {
    let files = vec!["a.rs".to_string(), "b c.txt".to_string()];
    assert_eq!(
        stage_files(&files),
        Some(vec!["add".to_string(), "a.rs".to_string(), "b c.txt".to_string()])
    );
    assert_eq!(stage_all_files(), vec!["add".to_string(), "-A".to_string()]);
}

#[test]
fn status_with_clean_tree_and_synced_upstream_is_up_to_date() {
    let s = get_status("main".to_string(), "", Ok("0\t0".to_string()));
    assert_eq!(s.branch, "main");
    assert_eq!(s.ahead, Some(0));
    assert_eq!(s.behind, Some(0));
    assert!(s.changes.is_empty());
}

#[test]
fn status_without_upstream_has_no_counts() {
    let s = get_status(
        "topic".to_string(),
        " M a.rs\n",
        Err("fatal: no upstream configured".to_string()),
    );
    assert_eq!(s.ahead, None);
    assert_eq!(s.behind, None);
    assert_eq!(s.changes.len(), 1);
    assert_eq!(s.changes[0].status, "M");
    assert_eq!(s.changes[0].path, "a.rs");
}

#[test]
fn status_counts_come_from_the_rev_list_output() {
    let s = get_status("main".to_string(), "", Ok("3\t2".to_string()));
    assert_eq!(s.ahead, Some(3));
    assert_eq!(s.behind, Some(2));
}

#[test]
fn changed_files_carry_status_and_path() {
    let r = get_changed_files("?? new file.txt\n M src/lib.rs\n");
    assert_eq!(r.len(), 2);
    assert_eq!(r[0].status, "??");
    assert_eq!(r[0].path, "new file.txt");
    assert_eq!(r[1].status, "M");
    assert_eq!(r[1].path, "src/lib.rs");
}

#[test]
fn commit_lines_with_missing_fields_default_to_empty() {
    let r = commits_detailed("abc123|alice|2024-01-02|fix parser\ndef|bob");
    assert_eq!(r.len(), 2);
    assert_eq!(r[0].hash, "abc123");
    assert_eq!(r[0].author, "alice");
    assert_eq!(r[0].date, "2024-01-02");
    assert_eq!(r[0].message, "fix parser");
    assert_eq!(r[1].hash, "def");
    assert_eq!(r[1].author, "bob");
    assert_eq!(r[1].date, "");
    assert_eq!(r[1].message, "");
}

#[test]
fn commit_message_with_pipes_keeps_only_fourth_field() {
    let r = commits_detailed("h|a|d|one|two");
    assert_eq!(r.len(), 1);
    assert_eq!(r[0].message, "one");
}

#[test]
fn branch_record_assembles_from_both_queries() {
    let b = branch_info(BranchQuery {
        name: "main".to_string(),
        first: Ok("alice|2024-01-01".to_string()),
        last: Ok("2024-05-01|tidy up".to_string()),
    });
    assert_eq!(b.name, "main");
    assert_eq!(b.author, "alice");
    assert_eq!(b.time_created, "2024-01-01");
    assert_eq!(b.last_change, "2024-05-01");
    assert_eq!(b.last_commit, "tidy up");
}

#[test]
fn failed_branch_queries_degrade_to_sentinels() {
    let b = branch_info(BranchQuery {
        name: "wip".to_string(),
        first: Err("boom".to_string()),
        last: Ok("".to_string()),
    });
    assert_eq!(b.author, "Unknown");
    assert_eq!(b.time_created, "Unknown");
    assert_eq!(b.last_change, "Unknown");
    assert_eq!(b.last_commit, "No commit");
}

#[test]
fn branch_listing_keeps_order_and_degrades_per_branch() {
    let rows = vec![
        BranchQuery {
            name: "main".to_string(),
            first: Ok("alice|2024-01-01".to_string()),
            last: Ok("2024-05-01|tidy up".to_string()),
        },
        BranchQuery {
            name: "dev".to_string(),
            first: Err("x".to_string()),
            last: Err("y".to_string()),
        },
    ];
    let r = branches_detailed(rows);
    assert_eq!(r.len(), 2);
    assert_eq!(r[0].name, "main");
    assert_eq!(r[0].author, "alice");
    assert_eq!(r[1].name, "dev");
    assert_eq!(r[1].author, "Unknown");
    assert_eq!(r[1].last_commit, "No commit");
}

#[test]
fn branch_creation_builds_the_checkout_invocation() {
    assert_eq!(create_branch("feat"), vec![
        "checkout".to_string(),
        "-b".to_string(),
        "feat".to_string(),
    ]);
}

#[test]
fn pull_strips_the_remote_segment() {
    assert_eq!(pull_specific_branch("origin/main"), vec![
        "pull".to_string(),
        "origin".to_string(),
        "main".to_string(),
    ]);
    assert_eq!(pull_specific_branch("main"), vec![
        "pull".to_string(),
        "origin".to_string(),
        "main".to_string(),
    ]);
    assert_eq!(
        pull_specific_branch("origin/origin/x"),
        vec!["pull".to_string(), "origin".to_string(), "x".to_string()]
    );
}

#[test]
fn push_builds_the_upstream_invocation() {
    assert_eq!(push_branch("main"), vec![
        "push".to_string(),
        "-u".to_string(),
        "origin".to_string(),
        "main".to_string(),
    ]);
}

#[test]
fn commit_subject_is_the_second_field_or_unknown() {
    assert_eq!(rfx::workflow::commit_subject("2024-05-01|tidy up"), "tidy up");
    assert_eq!(rfx::workflow::commit_subject("2024-05-01|a|b"), "a");
    assert_eq!(rfx::workflow::commit_subject("Unknown|No commit"), "No commit");
    assert_eq!(rfx::workflow::commit_subject("nodate"), "Unknown");
}

#[test]
fn undo_resets_exactly_one_commit_softly() {
    assert_eq!(undo_last_commit(), vec![
        "reset".to_string(),
        "--soft".to_string(),
        "HEAD~1".to_string(),
    ]);
}
