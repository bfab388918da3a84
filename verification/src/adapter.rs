//! The process adapter layer.
//!
//! The external version-control tool is driven through fixed argument
//! vectors and answers with line-oriented text.  This module holds the
//! verified half of every adapter operation: the classification of a
//! finished run into a `Result`, the construction of each operation's
//! argument vector, and the parser for each operation's output.  The thin
//! unverified shell spawns the process and hands the captured streams back
//! as plain strings.

use vstd::prelude::*;
use vstd::string::*;

use crate::text::lemma_deep_index;
use crate::text::lemma_deep_len;
use crate::text::lines;
use crate::text::lines_spec;
use crate::text::parse_usize;
use crate::text::parse_usize_spec;
use crate::text::split_whitespace;
use crate::text::split_ws_spec;
use crate::text::trim;
use crate::text::trim_spec;
use crate::text::trim_start_matches;
use crate::text::trim_start_matches_spec;
use crate::text::concat2;
use crate::text::dec_spec;
use crate::text::dec_str;

verus! {

/// How one invocation of the external tool ended, as plain values: either
/// the process could not be started at all, or it ran to completion with an
/// exit status and its captured output streams.
pub enum RunOutcome {
    NotLaunched(String),
    Completed { success: bool, stdout: String, stderr: String },
}

/// Classifies a finished run.  A launch failure becomes a descriptive error
/// message; a zero exit status yields the captured standard output, trimmed
/// of surrounding whitespace unless `raw` asks for the verbatim text; a
/// non-zero exit status yields the captured standard error as the error.
pub fn run_result(outcome: RunOutcome, raw: bool) -> (r: Result<String, String>)
    ensures
        match outcome {
            RunOutcome::NotLaunched(e) => (r matches Err(m) && m@ == "Failed to execute git: "@
                + e@),
            RunOutcome::Completed { success: true, stdout, .. } => (r matches Ok(o) && o@ == (
            if raw {
                stdout@
            } else {
                trim_spec(stdout@)
            })),
            RunOutcome::Completed { success: false, stderr, .. } => (r matches Err(m) && m@
                == stderr@),
        },
{
    match outcome {
        RunOutcome::NotLaunched(e) => Err(concat2("Failed to execute git: ", e.as_str())),
        RunOutcome::Completed { success, stdout, stderr } => {
            if success {
                if raw {
                    Ok(stdout)
                } else {
                    Ok(String::from_str(trim(stdout.as_str())))
                }
            } else {
                Err(stderr)
            }
        },
    }
}

fn push_string(v: &mut Vec<String>, s: String)
    ensures
        final(v).deep_view() == old(v).deep_view().push(s@),
{
    let ghost pre = *v;
    let ghost sv = s@;
    v.push(s);
    proof {
        lemma_deep_len(*v);
        lemma_deep_len(pre);
        assert forall|i: int| 0 <= i < v@.len() implies v.deep_view()[i] == pre.deep_view().push(
            sv,
        )[i] by {
            lemma_deep_index(*v, i);
            if i < pre@.len() {
                lemma_deep_index(pre, i);
            }
        }
        assert(v.deep_view() =~= pre.deep_view().push(sv));
    }
}

fn push_str(v: &mut Vec<String>, s: &str)
    ensures
        final(v).deep_view() == old(v).deep_view().push(s@),
{
    push_string(v, String::from_str(s));
}

// ---------- porcelain status ----------

/// The status code and path encoded in one porcelain status line: a line
/// shorter than four characters degrades to the status `"?"` with the whole
/// line as the path; a longer line splits after its third character, both
/// halves trimmed.
pub open spec fn status_entry_spec(line: Seq<char>) -> (Seq<char>, Seq<char>) {
    if line.len() < 4 {
        (seq!['?'], line)
    } else {
        (trim_spec(line.take(3)), trim_spec(line.skip(3)))
    }
}

/// The entries of a whole porcelain status listing, one per line.
pub open spec fn status_entries_spec(out: Seq<char>) -> Seq<(Seq<char>, Seq<char>)> {
    lines_spec(out).map_values(|l: Seq<char>| status_entry_spec(l))
}

/// A porcelain status line shorter than four characters never fails to
/// parse: it degrades to the status `"?"` with the whole line as the path.
pub proof fn lemma_short_status_line(line: Seq<char>)
    requires
        line.len() < 4,
    ensures
        status_entry_spec(line) == (seq!['?'], line),
{
}

proof fn lemma_status_entries_index(out: Seq<char>, i: int)
    requires
        0 <= i < lines_spec(out).len(),
    ensures
        status_entries_spec(out).len() == lines_spec(out).len(),
        status_entries_spec(out)[i] == status_entry_spec(lines_spec(out)[i]),
{
}

/// Parses the raw porcelain status output into (status, path) pairs, one
/// per line, degrading short lines rather than failing.
pub fn git_status_porcelain(output: &str) -> (r: Vec<(String, String)>)
    ensures
        r@.len() == status_entries_spec(output@).len(),
        forall|i: int|
            0 <= i < r@.len() ==> (#[trigger] r@[i]).0@ == status_entries_spec(output@)[i].0
                && r@[i].1@ == status_entries_spec(output@)[i].1,
{
    let ls = lines(output);
    let mut r: Vec<(String, String)> = Vec::new();
    let mut k: usize = 0;
    proof {
        lemma_deep_len(ls);
    }
    while k < ls.len()
        invariant
            ls.deep_view() == lines_spec(output@),
            ls.deep_view().len() == ls@.len(),
            0 <= k <= ls@.len(),
            r@.len() == k,
            forall|i: int|
                0 <= i < k ==> (#[trigger] r@[i]).0@ == status_entry_spec(ls.deep_view()[i]).0
                    && r@[i].1@ == status_entry_spec(ls.deep_view()[i]).1,
        decreases ls@.len() - k,
    {
        proof {
            lemma_deep_index(ls, k as int);
        }
        let line = ls[k].as_str();
        let n = line.unicode_len();
        if n < 4 {
            let q = String::from_str("?");
            proof {
                reveal_strlit("?");
                assert(q@ =~= seq!['?']);
            }
            r.push((q, String::from_str(line)));
        } else {
            proof {
                assert(line@.subrange(0, 3) =~= line@.take(3));
                assert(line@.subrange(3, n as int) =~= line@.skip(3));
            }
            let code = trim(line.substring_char(0, 3));
            let path = trim(line.substring_char(3, n));
            r.push((String::from_str(code), String::from_str(path)));
        }
        k = k + 1;
    }
    proof {
        assert forall|i: int| 0 <= i < r@.len() implies (#[trigger] r@[i]).0@
            == status_entries_spec(output@)[i].0 && r@[i].1@ == status_entries_spec(output@)[i].1
            by {
            lemma_status_entries_index(output@, i);
        }
        if r@.len() > 0 {
            lemma_status_entries_index(output@, 0);
        } else {
            assert(status_entries_spec(output@) =~= Seq::<(Seq<char>, Seq<char>)>::empty());
        }
    }
    r
}

/// The argument vector of the porcelain status query; its output must be
/// read raw, because the status code occupies fixed columns.
pub fn status_porcelain_args() -> (r: Vec<String>)
    ensures
        r.deep_view() == seq!["status"@, "--porcelain=v1"@],
{
    let mut v: Vec<String> = Vec::new();
    proof {
        lemma_deep_len(v);
        assert(v.deep_view() =~= Seq::<Seq<char>>::empty());
    }
    push_str(&mut v, "status");
    push_str(&mut v, "--porcelain=v1");
    proof {
        assert(v.deep_view() =~= seq!["status"@, "--porcelain=v1"@]);
    }
    v
}

// ---------- ahead / behind ----------

/// The numeral `tok` read as a count; an unreadable numeral degrades to
/// zero.
pub open spec fn count_val(tok: Seq<char>) -> int {
    match parse_usize_spec(tok) {
        Some(v) => v,
        None => 0,
    }
}

/// The (ahead, behind) pair encoded in the output of the left-right
/// rev-list count: the first two whitespace-separated fields read as
/// counts, or (0, 0) when fewer than two fields are present.
pub open spec fn ahead_behind_spec(out: Seq<char>) -> (int, int) {
    let toks = split_ws_spec(out);
    if toks.len() >= 2 {
        (count_val(toks[0]), count_val(toks[1]))
    } else {
        (0, 0)
    }
}

/// Ahead/behind output with fewer than two whitespace-separated fields
/// degrades to the pair (0, 0), never an error.
pub proof fn lemma_ahead_behind_few_tokens(out: Seq<char>)
    requires
        split_ws_spec(out).len() < 2,
    ensures
        ahead_behind_spec(out) == (0int, 0int),
{
}

/// Parses the ahead/behind counts out of the rev-list output; malformed
/// output degrades to (0, 0) and never fails.
pub fn git_ahead_behind(output: &str) -> (r: (usize, usize))
    ensures
        r.0 as int == ahead_behind_spec(output@).0,
        r.1 as int == ahead_behind_spec(output@).1,
{
    let toks = split_whitespace(output);
    proof {
        lemma_deep_len(toks);
    }
    if toks.len() >= 2 {
        proof {
            lemma_deep_index(toks, 0);
            lemma_deep_index(toks, 1);
        }
        let a = match parse_usize(toks[0].as_str()) {
            Some(v) => v,
            None => 0,
        };
        let b = match parse_usize(toks[1].as_str()) {
            Some(v) => v,
            None => 0,
        };
        (a, b)
    } else {
        (0, 0)
    }
}

/// The argument vector of the ahead/behind count query for `branch`: a
/// rev-list over the three-dot range against the configured upstream.
pub fn ahead_behind_args(branch: &str) -> (r: Vec<String>)
    ensures
        r.deep_view() == seq!["rev-list"@, "--left-right"@, "--count"@, branch@ + "...@{u}"@],
{
    let mut v: Vec<String> = Vec::new();
    proof {
        lemma_deep_len(v);
        assert(v.deep_view() =~= Seq::<Seq<char>>::empty());
    }
    push_str(&mut v, "rev-list");
    push_str(&mut v, "--left-right");
    push_str(&mut v, "--count");
    push_string(&mut v, concat2(branch, "...@{u}"));
    proof {
        assert(v.deep_view() =~= seq![
            "rev-list"@,
            "--left-right"@,
            "--count"@,
            branch@ + "...@{u}"@,
        ]);
    }
    v
}

// ---------- plain command builders ----------

/// The argument vector that pushes `branch` to origin, establishing a
/// tracking link.
pub fn git_push_upstream(branch: &str) -> (r: Vec<String>)
    ensures
        r.deep_view() == seq!["push"@, "-u"@, "origin"@, branch@],
{
    let mut v: Vec<String> = Vec::new();
    proof {
        lemma_deep_len(v);
        assert(v.deep_view() =~= Seq::<Seq<char>>::empty());
    }
    push_str(&mut v, "push");
    push_str(&mut v, "-u");
    push_str(&mut v, "origin");
    push_str(&mut v, branch);
    proof {
        assert(v.deep_view() =~= seq!["push"@, "-u"@, "origin"@, branch@]);
    }
    v
}

/// The argument vector that creates and switches to the branch `name`.
pub fn git_create_branch(name: &str) -> (r: Vec<String>)
    ensures
        r.deep_view() == seq!["checkout"@, "-b"@, name@],
{
    let mut v: Vec<String> = Vec::new();
    proof {
        lemma_deep_len(v);
        assert(v.deep_view() =~= Seq::<Seq<char>>::empty());
    }
    push_str(&mut v, "checkout");
    push_str(&mut v, "-b");
    push_str(&mut v, name);
    proof {
        assert(v.deep_view() =~= seq!["checkout"@, "-b"@, name@]);
    }
    v
}

/// The argument vector that fetches the latest changes and branches from
/// the remote without merging.
pub fn git_fetch() -> (r: Vec<String>)
    ensures
        r.deep_view() == seq!["fetch"@],
{
    let mut v: Vec<String> = Vec::new();
    proof {
        lemma_deep_len(v);
        assert(v.deep_view() =~= Seq::<Seq<char>>::empty());
    }
    push_str(&mut v, "fetch");
    proof {
        assert(v.deep_view() =~= seq!["fetch"@]);
    }
    v
}

/// The argument vector that pulls one branch from origin.  A single leading
/// remote-name segment is stripped from the given full name, repeatedly, as
/// `str::trim_start_matches` strips it.
pub fn git_pull_branch(branch_name: &str) -> (r: Vec<String>)
    ensures
        r.deep_view() == seq![
            "pull"@,
            "origin"@,
            trim_start_matches_spec(branch_name@, "origin/"@),
        ],
{
    let clean = trim_start_matches(branch_name, "origin/");
    let mut v: Vec<String> = Vec::new();
    proof {
        lemma_deep_len(v);
        assert(v.deep_view() =~= Seq::<Seq<char>>::empty());
    }
    push_str(&mut v, "pull");
    push_str(&mut v, "origin");
    push_str(&mut v, clean);
    proof {
        assert(v.deep_view() =~= seq![
            "pull"@,
            "origin"@,
            trim_start_matches_spec(branch_name@, "origin/"@),
        ]);
    }
    v
}

/// The argument vector of a soft reset over `count` commits: the branch
/// pointer rewinds while the working tree keeps the changes.
pub fn git_reset_soft(count: usize) -> (r: Vec<String>)
    ensures
        r.deep_view() == seq!["reset"@, "--soft"@, "HEAD~"@ + dec_spec(count as int)],
{
    let numeral = dec_str(count);
    let target = concat2("HEAD~", numeral.as_str());
    let mut v: Vec<String> = Vec::new();
    proof {
        lemma_deep_len(v);
        assert(v.deep_view() =~= Seq::<Seq<char>>::empty());
    }
    push_str(&mut v, "reset");
    push_str(&mut v, "--soft");
    push_string(&mut v, target);
    proof {
        assert(v.deep_view() =~= seq!["reset"@, "--soft"@, "HEAD~"@ + dec_spec(count as int)]);
    }
    v
}

/// The argument vector that names the current branch.
pub fn git_branch() -> (r: Vec<String>)
    ensures
        r.deep_view() == seq!["rev-parse"@, "--abbrev-ref"@, "HEAD"@],
{
    let mut v: Vec<String> = Vec::new();
    proof {
        lemma_deep_len(v);
        assert(v.deep_view() =~= Seq::<Seq<char>>::empty());
    }
    push_str(&mut v, "rev-parse");
    push_str(&mut v, "--abbrev-ref");
    push_str(&mut v, "HEAD");
    proof {
        assert(v.deep_view() =~= seq!["rev-parse"@, "--abbrev-ref"@, "HEAD"@]);
    }
    v
}

/// The argument vector that stages the given files.
pub fn git_add(files: &Vec<String>) -> (r: Vec<String>)
    ensures
        r.deep_view() == seq!["add"@] + files.deep_view(),
{
    let mut v: Vec<String> = Vec::new();
    proof {
        lemma_deep_len(v);
        lemma_deep_len(*files);
        assert(v.deep_view() =~= Seq::<Seq<char>>::empty());
    }
    push_str(&mut v, "add");
    let mut k: usize = 0;
    while k < files.len()
        invariant
            0 <= k <= files@.len(),
            files.deep_view().len() == files@.len(),
            v.deep_view() == seq!["add"@] + files.deep_view().take(k as int),
        decreases files@.len() - k,
    {
        proof {
            lemma_deep_index(*files, k as int);
        }
        push_string(&mut v, files[k].clone());
        proof {
            assert(seq!["add"@] + files.deep_view().take(k as int + 1) =~= (seq!["add"@]
                + files.deep_view().take(k as int)).push(files.deep_view()[k as int]));
        }
        k = k + 1;
    }
    proof {
        assert(files.deep_view().take(files@.len() as int) =~= files.deep_view());
    }
    v
}

/// The argument vector that stages every change.
pub fn git_add_all() -> (r: Vec<String>)
    ensures
        r.deep_view() == seq!["add"@, "-A"@],
{
    let mut v: Vec<String> = Vec::new();
    proof {
        lemma_deep_len(v);
        assert(v.deep_view() =~= Seq::<Seq<char>>::empty());
    }
    push_str(&mut v, "add");
    push_str(&mut v, "-A");
    proof {
        assert(v.deep_view() =~= seq!["add"@, "-A"@]);
    }
    v
}

/// The argument vector that records a commit carrying `message`.
pub fn git_commit(message: &str) -> (r: Vec<String>)
    ensures
        r.deep_view() == seq!["commit"@, "-m"@, message@],
{
    let mut v: Vec<String> = Vec::new();
    proof {
        lemma_deep_len(v);
        assert(v.deep_view() =~= Seq::<Seq<char>>::empty());
    }
    push_str(&mut v, "commit");
    push_str(&mut v, "-m");
    push_str(&mut v, message);
    proof {
        assert(v.deep_view() =~= seq!["commit"@, "-m"@, message@]);
    }
    v
}

// ---------- listing parsers ----------

/// The lines of the output, each trimmed of surrounding whitespace.
pub open spec fn trimmed_lines_spec(out: Seq<char>) -> Seq<Seq<char>> {
    lines_spec(out).map_values(|l: Seq<char>| trim_spec(l))
}

proof fn lemma_trimmed_lines_index(out: Seq<char>, i: int)
    requires
        0 <= i < lines_spec(out).len(),
    ensures
        trimmed_lines_spec(out).len() == lines_spec(out).len(),
        trimmed_lines_spec(out)[i] == trim_spec(lines_spec(out)[i]),
{
}

fn trimmed_lines(output: &str) -> (r: Vec<String>)
    ensures
        r.deep_view() == trimmed_lines_spec(output@),
{
    let ls = lines(output);
    let mut r: Vec<String> = Vec::new();
    let mut k: usize = 0;
    proof {
        lemma_deep_len(ls);
    }
    while k < ls.len()
        invariant
            ls.deep_view() == lines_spec(output@),
            ls.deep_view().len() == ls@.len(),
            0 <= k <= ls@.len(),
            r.deep_view() == trimmed_lines_spec(output@).take(k as int),
        decreases ls@.len() - k,
    {
        proof {
            lemma_deep_index(ls, k as int);
            lemma_trimmed_lines_index(output@, k as int);
        }
        let t = trim(ls[k].as_str());
        push_str(&mut r, t);
        proof {
            assert(trimmed_lines_spec(output@).take(k as int + 1) =~= trimmed_lines_spec(
                output@,
            ).take(k as int).push(trimmed_lines_spec(output@)[k as int]));
        }
        k = k + 1;
    }
    proof {
        if ls@.len() > 0 {
            lemma_trimmed_lines_index(output@, 0);
        } else {
            assert(trimmed_lines_spec(output@) =~= Seq::<Seq<char>>::empty());
        }
        assert(trimmed_lines_spec(output@).take(ls@.len() as int) =~= trimmed_lines_spec(
            output@,
        ));
    }
    r
}

/// Parses the local branch listing: one branch name per line, trimmed.
pub fn git_list_branches(output: &str) -> (r: Vec<String>)
    ensures
        r.deep_view() == trimmed_lines_spec(output@),
{
    trimmed_lines(output)
}

/// The argument vector of the local branch listing.
pub fn list_branches_args() -> (r: Vec<String>)
    ensures
        r.deep_view() == seq!["for-each-ref"@, "--format=%(refname:short)"@, "refs/heads/"@],
{
    let mut v: Vec<String> = Vec::new();
    proof {
        lemma_deep_len(v);
        assert(v.deep_view() =~= Seq::<Seq<char>>::empty());
    }
    push_str(&mut v, "for-each-ref");
    push_str(&mut v, "--format=%(refname:short)");
    push_str(&mut v, "refs/heads/");
    proof {
        assert(v.deep_view() =~= seq![
            "for-each-ref"@,
            "--format=%(refname:short)"@,
            "refs/heads/"@,
        ]);
    }
    v
}

/// Splits the remote branch listing into its raw lines, untrimmed.
pub fn git_list_remote_branches(output: &str) -> (r: Vec<String>)
    ensures
        r.deep_view() == lines_spec(output@),
{
    lines(output)
}

/// The argument vector of the remote branch listing, with author and
/// relative date attached to each entry.
pub fn list_remote_branches_args() -> (r: Vec<String>)
    ensures
        r.deep_view() == seq![
            "for-each-ref"@,
            "--format=%(refname:short)|%(authorname)|%(authordate:relative)"@,
            "refs/remotes/"@,
        ],
{
    let mut v: Vec<String> = Vec::new();
    proof {
        lemma_deep_len(v);
        assert(v.deep_view() =~= Seq::<Seq<char>>::empty());
    }
    push_str(&mut v, "for-each-ref");
    push_str(&mut v, "--format=%(refname:short)|%(authorname)|%(authordate:relative)");
    push_str(&mut v, "refs/remotes/");
    proof {
        assert(v.deep_view() =~= seq![
            "for-each-ref"@,
            "--format=%(refname:short)|%(authorname)|%(authordate:relative)"@,
            "refs/remotes/"@,
        ]);
    }
    v
}

/// The first line of the output, or the fallback when there is none.
pub open spec fn first_line_or(out: Seq<char>, dflt: Seq<char>) -> Seq<char> {
    if lines_spec(out).len() == 0 {
        dflt
    } else {
        lines_spec(out)[0]
    }
}

fn first_line_or_default(output: &str, dflt: &str) -> (r: String)
    ensures
        r@ == first_line_or(output@, dflt@),
{
    let ls = lines(output);
    proof {
        lemma_deep_len(ls);
    }
    if ls.len() == 0 {
        String::from_str(dflt)
    } else {
        proof {
            lemma_deep_index(ls, 0);
        }
        ls[0].clone()
    }
}

/// Extracts the author-and-date line of a branch's oldest commit from the
/// reversed log output; an empty output degrades to the sentinel
/// `"Unknown|Unknown"`.
pub fn git_first_commit(output: &str) -> (r: String)
    ensures
        r@ == first_line_or(output@, "Unknown|Unknown"@),
{
    first_line_or_default(output, "Unknown|Unknown")
}

/// The argument vector of the oldest-first log query for `branch`, with the
/// author-name-and-date template and short dates.
pub fn first_commit_args(branch: &str) -> (r: Vec<String>)
    ensures
        r.deep_view() == seq![
            "log"@,
            "--reverse"@,
            "--format=%an|%ad"@,
            "--date=short"@,
            branch@,
        ],
{
    let mut v: Vec<String> = Vec::new();
    proof {
        lemma_deep_len(v);
        assert(v.deep_view() =~= Seq::<Seq<char>>::empty());
    }
    push_str(&mut v, "log");
    push_str(&mut v, "--reverse");
    push_str(&mut v, "--format=%an|%ad");
    push_str(&mut v, "--date=short");
    push_str(&mut v, branch);
    proof {
        assert(v.deep_view() =~= seq![
            "log"@,
            "--reverse"@,
            "--format=%an|%ad"@,
            "--date=short"@,
            branch@,
        ]);
    }
    v
}

/// Extracts the date-and-subject line of a branch's newest commit from the
/// log output; an empty output degrades to the sentinel
/// `"Unknown|No commit"`.
pub fn git_last_commit(output: &str) -> (r: String)
    ensures
        r@ == first_line_or(output@, "Unknown|No commit"@),
{
    first_line_or_default(output, "Unknown|No commit")
}

/// The argument vector of the newest-commit log query for `branch`, with
/// the date-and-subject template and short dates.
pub fn last_commit_args(branch: &str) -> (r: Vec<String>)
    ensures
        r.deep_view() == seq!["log"@, "-1"@, "--format=%ad|%s"@, "--date=short"@, branch@],
{
    let mut v: Vec<String> = Vec::new();
    proof {
        lemma_deep_len(v);
        assert(v.deep_view() =~= Seq::<Seq<char>>::empty());
    }
    push_str(&mut v, "log");
    push_str(&mut v, "-1");
    push_str(&mut v, "--format=%ad|%s");
    push_str(&mut v, "--date=short");
    push_str(&mut v, branch);
    proof {
        assert(v.deep_view() =~= seq![
            "log"@,
            "-1"@,
            "--format=%ad|%s"@,
            "--date=short"@,
            branch@,
        ]);
    }
    v
}

/// Splits the remote listing into its lines, trimmed.
pub fn git_list_remotes(output: &str) -> (r: Vec<String>)
    ensures
        r.deep_view() == trimmed_lines_spec(output@),
{
    trimmed_lines(output)
}

/// The argument vector of the verbose remote listing.
pub fn list_remotes_args() -> (r: Vec<String>)
    ensures
        r.deep_view() == seq!["remote"@, "-v"@],
{
    let mut v: Vec<String> = Vec::new();
    proof {
        lemma_deep_len(v);
        assert(v.deep_view() =~= Seq::<Seq<char>>::empty());
    }
    push_str(&mut v, "remote");
    push_str(&mut v, "-v");
    proof {
        assert(v.deep_view() =~= seq!["remote"@, "-v"@]);
    }
    v
}

/// Splits the commit-log listing into its lines, trimmed.
pub fn git_list_commits(output: &str) -> (r: Vec<String>)
    ensures
        r.deep_view() == trimmed_lines_spec(output@),
{
    trimmed_lines(output)
}

/// The argument vector of the log query for the last `count` commits of
/// `branch`, with the pipe-delimited hash, author, date and subject
/// template and short dates.
pub fn list_commits_args(branch: &str, count: usize) -> (r: Vec<String>)
    ensures
        r.deep_view() == seq![
            "log"@,
            "-"@ + dec_spec(count as int),
            "--pretty=format:%h|%an|%ad|%s"@,
            "--date=short"@,
            branch@,
        ],
{
    let numeral = dec_str(count);
    let count_arg = concat2("-", numeral.as_str());
    let mut v: Vec<String> = Vec::new();
    proof {
        lemma_deep_len(v);
        assert(v.deep_view() =~= Seq::<Seq<char>>::empty());
    }
    push_str(&mut v, "log");
    push_string(&mut v, count_arg);
    push_str(&mut v, "--pretty=format:%h|%an|%ad|%s");
    push_str(&mut v, "--date=short");
    push_str(&mut v, branch);
    proof {
        assert(v.deep_view() =~= seq![
            "log"@,
            "-"@ + dec_spec(count as int),
            "--pretty=format:%h|%an|%ad|%s"@,
            "--date=short"@,
            branch@,
        ]);
    }
    v
}

} // verus!
