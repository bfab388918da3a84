//! The workflow layer.
//!
//! Each operation here is the pure composition the domain layer performs on
//! top of the adapter: assembling typed records from parsed listings,
//! deriving best-effort remote coordinates from URLs, and enforcing the
//! business rules that guard commits and branch creation.  The unverified
//! shell feeds every function the adapter outputs it needs as plain values.

use vstd::prelude::*;
use vstd::string::*;

use crate::adapter::ahead_behind_spec;
use crate::adapter::git_add;
use crate::adapter::git_add_all;
use crate::adapter::git_list_remote_branches;
use crate::adapter::first_line_or;
use crate::adapter::git_ahead_behind;
use crate::adapter::git_commit;
use crate::adapter::git_create_branch;
use crate::adapter::git_first_commit;
use crate::adapter::git_last_commit;
use crate::adapter::git_list_remotes;
use crate::adapter::git_pull_branch;
use crate::adapter::git_push_upstream;
use crate::adapter::git_reset_soft;
use crate::adapter::git_status_porcelain;
use crate::adapter::status_entries_spec;
use crate::adapter::trimmed_lines_spec;
use crate::records::opt_str;
use crate::records::opt_view;
use crate::records::lemma_views_of_index;
use crate::records::lemma_views_of_len;
use crate::records::lemma_views_of_push;
use crate::records::views_of;
use crate::records::BranchInfo;
use crate::records::BranchInfoV;
use crate::records::CommitInfo;
use crate::records::CommitInfoV;
use crate::records::FileChange;
use crate::records::FileChangeV;
use crate::records::RemoteBranchInfo;
use crate::records::RemoteBranchInfoV;
use crate::records::RemoteInfo;
use crate::records::RemoteInfoV;
use crate::records::StatusSummary;
use crate::text::concat3;
use crate::text::dec_spec;
use crate::text::ends_with;
use crate::text::ends_with_spec;
use crate::text::find_char;
use crate::text::find_space;
use crate::text::first_at;
use crate::text::is_space_spec;
use crate::text::lemma_first_at;
use crate::text::lines_spec;
use crate::text::lemma_deep_index;
use crate::text::lemma_deep_len;
use crate::text::lemma_first_space;
use crate::text::split_char;
use crate::text::split_spec;
use crate::text::split_whitespace;
use crate::text::split_ws_spec;
use crate::text::starts_with_spec;
use crate::text::str_eq;
use crate::text::strip_prefix;
use crate::text::trim;
use crate::text::trim_end_matches;
use crate::text::trim_end_matches_spec;
use crate::text::trim_spec;
use crate::text::trim_start_matches;
use crate::text::trim_start_matches_spec;

verus! {

// ---------- pipe-delimited fields ----------

/// One field of a split record, or the fallback when the field is missing.
pub open spec fn field_or(ps: Seq<Seq<char>>, i: int, dflt: Seq<char>) -> Seq<char> {
    if 0 <= i < ps.len() {
        ps[i]
    } else {
        dflt
    }
}

fn field_or_string(ps: &Vec<String>, i: usize, dflt: &str) -> (r: String)
    ensures
        r@ == field_or(ps.deep_view(), i as int, dflt@),
{
    proof {
        lemma_deep_len(*ps);
    }
    if i < ps.len() {
        proof {
            lemma_deep_index(*ps, i as int);
        }
        ps[i].clone()
    } else {
        String::from_str(dflt)
    }
}

// ---------- remote URL decomposition ----------

/// The host, owner and repository encoded in a remote URL.  An HTTPS URL
/// needs at least three slash-separated segments after the scheme; the SSH
/// shorthand needs exactly one colon part pair and exactly one slash in the
/// path; a trailing `.git` is stripped from the repository.  Any other
/// shape yields three absent fields, never an error.
pub open spec fn remote_url_parts(url: Seq<char>) -> (
    Option<Seq<char>>,
    Option<Seq<char>>,
    Option<Seq<char>>,
) {
    let https = "https://"@;
    let ssh = "git@"@;
    if starts_with_spec(url, https) && split_spec(url.skip(https.len() as int), '/').len() >= 3 {
        let ps = split_spec(url.skip(https.len() as int), '/');
        (Some(ps[0]), Some(ps[1]), Some(trim_end_matches_spec(ps[2], ".git"@)))
    } else if starts_with_spec(url, ssh) {
        let cs = split_spec(url.skip(ssh.len() as int), ':');
        if cs.len() == 2 {
            let path = split_spec(cs[1], '/');
            if path.len() == 2 {
                (Some(cs[0]), Some(path[0]), Some(trim_end_matches_spec(path[1], ".git"@)))
            } else {
                (None, None, None)
            }
        } else {
            (None, None, None)
        }
    } else {
        (None, None, None)
    }
}

/// Derives (host, owner, repo) from a remote URL, best effort.
pub fn parse_remote_url(url: &str) -> (r: (Option<String>, Option<String>, Option<String>))
    ensures
        opt_str(r.0) == remote_url_parts(url@).0,
        opt_str(r.1) == remote_url_parts(url@).1,
        opt_str(r.2) == remote_url_parts(url@).2,
{
    proof {
        reveal_strlit("https://");
        reveal_strlit("git@");
    }
    match strip_prefix(url, "https://") {
        Some(rest) => {
            let ps = split_char(rest, '/');
            proof {
                lemma_deep_len(ps);
            }
            if ps.len() >= 3 {
                proof {
                    lemma_deep_index(ps, 0);
                    lemma_deep_index(ps, 1);
                    lemma_deep_index(ps, 2);
                }
                let host = ps[0].clone();
                let owner = ps[1].clone();
                let repo = String::from_str(trim_end_matches(ps[2].as_str(), ".git"));
                return (Some(host), Some(owner), Some(repo));
            }
            proof {
                if starts_with_spec(url@, "git@"@) {
                    assert(url@.take(4)[0] == "git@"@[0]);
                    assert(url@.take(8)[0] == "https://"@[0]);
                    assert(false);
                }
            }
        },
        None => {},
    }
    match strip_prefix(url, "git@") {
        Some(rest) => {
            let cs = split_char(rest, ':');
            proof {
                lemma_deep_len(cs);
            }
            if cs.len() == 2 {
                proof {
                    lemma_deep_index(cs, 0);
                    lemma_deep_index(cs, 1);
                }
                let path = split_char(cs[1].as_str(), '/');
                proof {
                    lemma_deep_len(path);
                }
                if path.len() == 2 {
                    proof {
                        lemma_deep_index(path, 0);
                        lemma_deep_index(path, 1);
                    }
                    let host = cs[0].clone();
                    let owner = path[0].clone();
                    let repo = String::from_str(trim_end_matches(path[1].as_str(), ".git"));
                    return (Some(host), Some(owner), Some(repo));
                }
            }
        },
        None => {},
    }
    (None, None, None)
}

// ---------- commit listings ----------

/// The commit record encoded in one pipe-delimited log line; missing
/// fields degrade to empty strings, never an error.
pub open spec fn commit_of_line(line: Seq<char>) -> CommitInfoV {
    let ps = split_spec(line, '|');
    CommitInfoV {
        hash: field_or(ps, 0, Seq::empty()),
        author: field_or(ps, 1, Seq::empty()),
        date: field_or(ps, 2, Seq::empty()),
        message: field_or(ps, 3, Seq::empty()),
    }
}

/// The commit records of a whole log listing, one per line.
pub open spec fn commits_of_lines(ls: Seq<Seq<char>>) -> Seq<CommitInfoV> {
    ls.map_values(|l: Seq<char>| commit_of_line(l))
}

proof fn lemma_commits_of_lines_index(ls: Seq<Seq<char>>, i: int)
    requires
        0 <= i < ls.len(),
    ensures
        commits_of_lines(ls).len() == ls.len(),
        commits_of_lines(ls)[i] == commit_of_line(ls[i]),
{
}

/// A well-formed pipe-delimited commit line with fewer than four fields
/// still parses: each missing field degrades to the empty string.
pub proof fn lemma_commit_missing_fields(line: Seq<char>)
    ensures
        split_spec(line, '|').len() < 4 ==> commit_of_line(line).message == Seq::<char>::empty(),
        split_spec(line, '|').len() < 3 ==> commit_of_line(line).date == Seq::<char>::empty(),
        split_spec(line, '|').len() < 2 ==> commit_of_line(line).author == Seq::<char>::empty(),
{
}

fn commit_of_line_exec(line: &str) -> (c: CommitInfo)
    ensures
        c@ == commit_of_line(line@),
{
    let ps = split_char(line, '|');
    proof {
        reveal_strlit("");
        assert(""@ =~= Seq::<char>::empty());
    }
    CommitInfo {
        hash: field_or_string(&ps, 0, ""),
        author: field_or_string(&ps, 1, ""),
        date: field_or_string(&ps, 2, ""),
        message: field_or_string(&ps, 3, ""),
    }
}

/// Parses the pipe-delimited commit listing into commit records, one per
/// trimmed line; out-of-range fields default to empty strings.
pub fn commits_detailed(output: &str) -> (r: Vec<CommitInfo>)
    ensures
        views_of(r@) == commits_of_lines(trimmed_lines_spec(output@)),
{
    let ls = crate::adapter::git_list_commits(output);
    let mut r: Vec<CommitInfo> = Vec::new();
    let mut k: usize = 0;
    proof {
        lemma_deep_len(ls);
        lemma_views_of_len(r@);
        assert(ls.deep_view().take(0) =~= Seq::<Seq<char>>::empty());
        assert(views_of(r@) =~= commits_of_lines(ls.deep_view().take(0)));
    }
    while k < ls.len()
        invariant
            ls.deep_view() == trimmed_lines_spec(output@),
            ls.deep_view().len() == ls@.len(),
            0 <= k <= ls@.len(),
            r@.len() == k,
            views_of(r@) == commits_of_lines(ls.deep_view().take(k as int)),
        decreases ls@.len() - k,
    {
        proof {
            lemma_deep_index(ls, k as int);
        }
        let ghost pre = r@;
        let c = commit_of_line_exec(ls[k].as_str());
        r.push(c);
        proof {
            lemma_views_of_push(pre, r@[k as int]);
            assert(ls.deep_view().take(k as int + 1) =~= ls.deep_view().take(k as int).push(
                ls.deep_view()[k as int],
            ));
            assert forall|i: int| 0 <= i < k + 1 implies views_of(r@)[i] == commits_of_lines(
                ls.deep_view().take(k as int + 1),
            )[i] by {
                lemma_commits_of_lines_index(ls.deep_view().take(k as int + 1), i);
                if i < k {
                    lemma_commits_of_lines_index(ls.deep_view().take(k as int), i);
                }
            }
            lemma_views_of_len(r@);
            lemma_commits_of_lines_index(ls.deep_view().take(k as int + 1), 0);
            assert(views_of(r@) =~= commits_of_lines(ls.deep_view().take(k as int + 1)));
        }
        k = k + 1;
    }
    proof {
        assert(ls.deep_view().take(ls@.len() as int) =~= ls.deep_view());
    }
    r
}

// ---------- changed files ----------

/// A status entry seen as a file-change record.
pub open spec fn change_of_entry(e: (Seq<char>, Seq<char>)) -> FileChangeV {
    FileChangeV { status: e.0, path: e.1 }
}

/// The file-change records of a whole porcelain status listing.
pub open spec fn changes_of_output(out: Seq<char>) -> Seq<FileChangeV> {
    status_entries_spec(out).map_values(|e: (Seq<char>, Seq<char>)| change_of_entry(e))
}

proof fn lemma_changes_of_output_index(out: Seq<char>, i: int)
    requires
        0 <= i < status_entries_spec(out).len(),
    ensures
        changes_of_output(out).len() == status_entries_spec(out).len(),
        changes_of_output(out)[i] == change_of_entry(status_entries_spec(out)[i]),
{
}

/// Turns the raw porcelain status output into file-change records, one per
/// line, degrading malformed lines rather than failing.
pub fn get_changed_files(output: &str) -> (r: Vec<FileChange>)
    ensures
        views_of(r@) == changes_of_output(output@),
{
    let pairs = git_status_porcelain(output);
    let mut r: Vec<FileChange> = Vec::new();
    let mut k: usize = 0;
    proof {
        lemma_views_of_len(r@);
        if status_entries_spec(output@).len() > 0 {
            lemma_changes_of_output_index(output@, 0);
        } else {
            assert(changes_of_output(output@) =~= Seq::<FileChangeV>::empty());
        }
        assert(views_of(r@) =~= changes_of_output(output@).take(0));
    }
    while k < pairs.len()
        invariant
            pairs@.len() == status_entries_spec(output@).len(),
            forall|i: int|
                0 <= i < pairs@.len() ==> (#[trigger] pairs@[i]).0@ == status_entries_spec(
                    output@,
                )[i].0 && pairs@[i].1@ == status_entries_spec(output@)[i].1,
            0 <= k <= pairs@.len(),
            r@.len() == k,
            views_of(r@) == changes_of_output(output@).take(k as int),
        decreases pairs@.len() - k,
    {
        let ghost pre = r@;
        let status = pairs[k].0.clone();
        let path = pairs[k].1.clone();
        let c = FileChange { status, path };
        r.push(c);
        proof {
            lemma_views_of_push(pre, r@[k as int]);
            lemma_changes_of_output_index(output@, k as int);
            assert(changes_of_output(output@).take(k as int + 1) =~= changes_of_output(
                output@,
            ).take(k as int).push(changes_of_output(output@)[k as int]));
        }
        k = k + 1;
    }
    proof {
        lemma_views_of_len(r@);
        if status_entries_spec(output@).len() > 0 {
            lemma_changes_of_output_index(output@, 0);
        }
        assert(changes_of_output(output@).take(pairs@.len() as int) =~= changes_of_output(
            output@,
        ));
    }
    r
}

// ---------- status summary ----------

/// Assembles the status summary from the current branch name, the raw
/// porcelain status output, and the outcome of the ahead/behind query.
/// The counts are both present exactly when that query succeeded — an
/// absent upstream yields both absent, not an error — and the changed
/// files are passed through in order.
pub fn get_status(branch: String, status_output: &str, ahead_behind: Result<String, String>) -> (r:
    StatusSummary)
    ensures
        r@.branch == branch@,
        r@.changes == changes_of_output(status_output@),
        match ahead_behind {
            Ok(o) => (r@.ahead matches Some(a) && a as int == ahead_behind_spec(o@).0) && (
            r@.behind matches Some(b) && b as int == ahead_behind_spec(o@).1),
            Err(_) => r@.ahead is None && r@.behind is None,
        },
{
    let changes = get_changed_files(status_output);
    match ahead_behind {
        Ok(o) => {
            let counts = git_ahead_behind(o.as_str());
            StatusSummary { branch, ahead: Some(counts.0), behind: Some(counts.1), changes }
        },
        Err(_) => StatusSummary { branch, ahead: None, behind: None, changes },
    }
}

// ---------- remote listings ----------

/// One parsed line of the verbose remote listing: at least three
/// whitespace-separated fields give the name, the URL and a parenthesized
/// direction, with best-effort coordinates derived from the URL; shorter
/// lines are skipped, not reported as errors.
pub open spec fn remote_of_line(line: Seq<char>) -> Option<RemoteInfoV> {
    let toks = split_ws_spec(line);
    if toks.len() >= 3 {
        let parts = remote_url_parts(toks[1]);
        Some(
            RemoteInfoV {
                name: toks[0],
                url: toks[1],
                direction: trim_end_matches_spec(
                    trim_start_matches_spec(toks[2], seq!['(']),
                    seq![')'],
                ),
                host: parts.0,
                owner: parts.1,
                repo: parts.2,
            },
        )
    } else {
        None
    }
}

/// The remote records of a listing's lines, in order, skipped lines
/// dropped.
pub open spec fn remotes_of_lines(ls: Seq<Seq<char>>) -> Seq<RemoteInfoV>
    decreases ls.len(),
{
    if ls.len() == 0 {
        Seq::empty()
    } else {
        let rest = remotes_of_lines(ls.drop_first());
        match remote_of_line(ls[0]) {
            Some(r) => seq![r] + rest,
            None => rest,
        }
    }
}

proof fn lemma_remotes_of_lines_snoc(ls: Seq<Seq<char>>, l: Seq<char>)
    ensures
        remotes_of_lines(ls.push(l)) == remotes_of_lines(ls) + (match remote_of_line(l) {
            Some(r) => seq![r],
            None => Seq::<RemoteInfoV>::empty(),
        }),
    decreases ls.len(),
{
    let tail = (match remote_of_line(l) {
        Some(r) => seq![r],
        None => Seq::<RemoteInfoV>::empty(),
    });
    if ls.len() == 0 {
        assert(ls.push(l).drop_first() =~= ls);
        assert(ls.push(l)[0] == l);
        assert(remotes_of_lines(ls) + tail =~= tail);
        match remote_of_line(l) {
            Some(r) => {
                assert(seq![r] + Seq::<RemoteInfoV>::empty() =~= seq![r]);
            },
            None => {},
        }
    } else {
        lemma_remotes_of_lines_snoc(ls.drop_first(), l);
        assert(ls.push(l).drop_first() =~= ls.drop_first().push(l));
        assert(ls.push(l)[0] == ls[0]);
        match remote_of_line(ls[0]) {
            Some(r) => {
                assert(seq![r] + (remotes_of_lines(ls.drop_first()) + tail) =~= (seq![r]
                    + remotes_of_lines(ls.drop_first())) + tail);
            },
            None => {},
        }
    }
}

fn remote_of_line_exec(line: &str) -> (r: Option<RemoteInfo>)
    ensures
        opt_view(r) == remote_of_line(line@),
{
    let toks = split_whitespace(line);
    proof {
        lemma_deep_len(toks);
    }
    if toks.len() >= 3 {
        proof {
            lemma_deep_index(toks, 0);
            lemma_deep_index(toks, 1);
            lemma_deep_index(toks, 2);
            reveal_strlit("(");
            reveal_strlit(")");
            assert("("@ =~= seq!['(']);
            assert(")"@ =~= seq![')']);
        }
        let name = toks[0].clone();
        let url = toks[1].clone();
        let direction = String::from_str(
            trim_end_matches(trim_start_matches(toks[2].as_str(), "("), ")"),
        );
        let coords = parse_remote_url(url.as_str());
        let info = RemoteInfo {
            name,
            url,
            direction,
            host: coords.0,
            owner: coords.1,
            repo: coords.2,
        };
        Some(info)
    } else {
        None
    }
}

/// Parses the verbose remote listing into remote records with best-effort
/// host/owner/repo coordinates, skipping malformed lines.
pub fn remotes_detailed(output: &str) -> (r: Vec<RemoteInfo>)
    ensures
        views_of(r@) == remotes_of_lines(trimmed_lines_spec(output@)),
{
    let ls = git_list_remotes(output);
    let mut r: Vec<RemoteInfo> = Vec::new();
    let mut k: usize = 0;
    proof {
        lemma_deep_len(ls);
        lemma_views_of_len(r@);
        assert(ls.deep_view().take(0) =~= Seq::<Seq<char>>::empty());
        assert(views_of(r@) =~= remotes_of_lines(ls.deep_view().take(0)));
    }
    while k < ls.len()
        invariant
            ls.deep_view() == trimmed_lines_spec(output@),
            ls.deep_view().len() == ls@.len(),
            0 <= k <= ls@.len(),
            views_of(r@) == remotes_of_lines(ls.deep_view().take(k as int)),
        decreases ls@.len() - k,
    {
        proof {
            lemma_deep_index(ls, k as int);
        }
        let ghost line = ls.deep_view()[k as int];
        let ghost pre = r@;
        match remote_of_line_exec(ls[k].as_str()) {
            Some(info) => {
                r.push(info);
                proof {
                    assert(r@ == pre.push(r@[pre.len() as int]));
                    lemma_views_of_push(pre, r@[pre.len() as int]);
                }
            },
            None => {},
        }
        proof {
            lemma_remotes_of_lines_snoc(ls.deep_view().take(k as int), line);
            assert(ls.deep_view().take(k as int + 1) =~= ls.deep_view().take(k as int).push(
                line,
            ));
            assert(views_of(r@) =~= remotes_of_lines(ls.deep_view().take(k as int + 1)));
        }
        k = k + 1;
    }
    proof {
        assert(ls.deep_view().take(ls@.len() as int) =~= ls.deep_view());
    }
    r
}

// ---------- branch listings ----------

/// What the two metadata queries for one branch handed back: the branch's
/// name and the outcomes of the oldest-commit and newest-commit log
/// queries.
#[derive(Debug)]
pub struct BranchQuery {
    pub name: String,
    pub first: Result<String, String>,
    pub last: Result<String, String>,
}

pub ghost struct BranchQueryV {
    pub name: Seq<char>,
    pub first: Result<Seq<char>, Seq<char>>,
    pub last: Result<Seq<char>, Seq<char>>,
}

/// A string result seen over character sequences.
pub open spec fn res_view(r: Result<String, String>) -> Result<Seq<char>, Seq<char>> {
    match r {
        Ok(s) => Ok(s@),
        Err(e) => Err(e@),
    }
}

impl View for BranchQuery {
    type V = BranchQueryV;

    open spec fn view(&self) -> BranchQueryV {
        BranchQueryV {
            name: self.name@,
            first: res_view(self.first),
            last: res_view(self.last),
        }
    }
}

/// The branch record assembled from one branch's two metadata queries: a
/// failed or empty query degrades to the documented sentinel fields,
/// never an error.
pub open spec fn branch_of_query(q: BranchQueryV) -> BranchInfoV {
    let first_line = (match q.first {
        Ok(o) => first_line_or(o, "Unknown|Unknown"@),
        Err(_) => "Unknown|Unknown"@,
    });
    let last_line = (match q.last {
        Ok(o) => first_line_or(o, "Unknown|No commit"@),
        Err(_) => "Unknown|No commit"@,
    });
    let fp = split_spec(first_line, '|');
    let lp = split_spec(last_line, '|');
    BranchInfoV {
        name: q.name,
        author: field_or(fp, 0, "Unknown"@),
        time_created: field_or(fp, 1, "Unknown"@),
        last_change: field_or(lp, 0, "Unknown"@),
        last_commit: field_or(lp, 1, "No commit"@),
    }
}

/// Assembles one branch's record from its two metadata query results.
pub fn branch_info(q: BranchQuery) -> (b: BranchInfo)
    ensures
        b@ == branch_of_query(q@),
{
    let BranchQuery { name, first, last } = q;
    let first_line = match first {
        Ok(o) => git_first_commit(o.as_str()),
        Err(_) => String::from_str("Unknown|Unknown"),
    };
    let last_line = match last {
        Ok(o) => git_last_commit(o.as_str()),
        Err(_) => String::from_str("Unknown|No commit"),
    };
    let fp = split_char(first_line.as_str(), '|');
    let lp = split_char(last_line.as_str(), '|');
    BranchInfo {
        name,
        author: field_or_string(&fp, 0, "Unknown"),
        time_created: field_or_string(&fp, 1, "Unknown"),
        last_change: field_or_string(&lp, 0, "Unknown"),
        last_commit: field_or_string(&lp, 1, "No commit"),
    }
}

/// The branch records of a sequence of metadata queries, in order.
pub open spec fn branches_of_queries(qs: Seq<BranchQueryV>) -> Seq<BranchInfoV> {
    qs.map_values(|q: BranchQueryV| branch_of_query(q))
}

proof fn lemma_branches_of_queries_index(qs: Seq<BranchQueryV>, i: int)
    requires
        0 <= i < qs.len(),
    ensures
        branches_of_queries(qs).len() == qs.len(),
        branches_of_queries(qs)[i] == branch_of_query(qs[i]),
{
}

/// Assembles the detailed branch listing from the per-branch metadata
/// queries; failures in those queries degrade to sentinel values rather
/// than aborting the whole listing.
pub fn branches_detailed(rows: Vec<BranchQuery>) -> (r: Vec<BranchInfo>)
    ensures
        views_of(r@) == branches_of_queries(views_of(rows@)),
{
    let ghost qs = views_of(rows@);
    let mut rest = rows;
    let mut r: Vec<BranchInfo> = Vec::new();
    proof {
        lemma_views_of_len(rest@);
        lemma_views_of_len(r@);
        assert(rest@ =~= rows@.skip(0));
        assert(views_of(r@) =~= branches_of_queries(qs).take(0));
        if qs.len() > 0 {
            lemma_branches_of_queries_index(qs, 0);
        } else {
            assert(branches_of_queries(qs) =~= Seq::<BranchInfoV>::empty());
        }
    }
    while rest.len() > 0
        invariant
            r@.len() + rest@.len() == rows@.len(),
            qs == views_of(rows@),
            qs.len() == rows@.len(),
            rest@ == rows@.skip(r@.len() as int),
            views_of(r@) == branches_of_queries(qs).take(r@.len() as int),
            branches_of_queries(qs).len() == qs.len(),
        decreases rest@.len(),
    {
        let ghost k = r@.len() as int;
        let ghost pre = r@;
        let q = rest.remove(0);
        proof {
            assert(q == rows@[k]);
            lemma_views_of_index(rows@, k);
        }
        let b = branch_info(q);
        r.push(b);
        proof {
            lemma_views_of_push(pre, r@[k]);
            lemma_branches_of_queries_index(qs, k);
            assert(branches_of_queries(qs).take(k + 1) =~= branches_of_queries(qs).take(
                k,
            ).push(branches_of_queries(qs)[k]));
            assert(rest@ =~= rows@.skip(k + 1));
        }
    }
    proof {
        assert(branches_of_queries(qs).take(rows@.len() as int) =~= branches_of_queries(qs));
    }
    r
}

// ---------- guarded mutations ----------

/// Decides what staging the given files means: nothing to do when the list
/// is empty, otherwise the argument vector that stages exactly those
/// files.
pub fn stage_files(files: &Vec<String>) -> (r: Option<Vec<String>>)
    ensures
        files@.len() == 0 ==> r is None,
        files@.len() > 0 ==> (r matches Some(a) && a.deep_view() == seq!["add"@]
            + files.deep_view()),
{
    if files.len() == 0 {
        None
    } else {
        Some(git_add(files))
    }
}

/// The argument vector that stages every change in the working tree.
pub fn stage_all_files() -> (r: Vec<String>)
    ensures
        r.deep_view() == seq!["add"@, "-A"@],
{
    git_add_all()
}

/// Validates a commit message and, when it passes, yields the argument
/// vector that records the commit carrying the trimmed message.  The
/// message fails with a distinct error when it trims to nothing, and when
/// the trimmed text is shorter than three characters; nothing is invoked
/// on a failed validation.
pub fn create_commit(message: &str) -> (r: Result<Vec<String>, String>)
    ensures
        trim_spec(message@).len() == 0 ==> (r matches Err(e) && e@
            == "Commit message cannot be empty."@),
        0 < trim_spec(message@).len() < 3 ==> (r matches Err(e) && e@
            == "Commit message is too short."@),
        trim_spec(message@).len() >= 3 ==> (r matches Ok(a) && a.deep_view() == seq![
            "commit"@,
            "-m"@,
            trim_spec(message@),
        ]),
{
    let msg = trim(message);
    let n = msg.unicode_len();
    if n == 0 {
        Err(String::from_str("Commit message cannot be empty."))
    } else if n < 3 {
        Err(String::from_str("Commit message is too short."))
    } else {
        Ok(git_commit(msg))
    }
}

/// Whether some character of `t` is whitespace.
pub open spec fn has_space(t: Seq<char>) -> bool {
    exists|k: int| 0 <= k < t.len() && is_space_spec(t[k])
}

/// Whether `t` occurs among the names `ns`.
pub open spec fn contains_name(ns: Seq<Seq<char>>, t: Seq<char>) -> bool {
    exists|i: int| 0 <= i < ns.len() && ns[i] == t
}

/// Validates a new branch name against the syntax rules and the existing
/// local branch names: the trimmed name must be non-empty, free of
/// whitespace, and not already taken.  Each failure carries its own
/// message, and nothing is invoked on a failed validation.
pub fn validate_new_branch_name(name: &str, existing: &Vec<String>) -> (r: Result<(), String>)
    ensures
        ({
            let t = trim_spec(name@);
            &&& t.len() == 0 ==> (r matches Err(e) && e@ == "Branch name cannot be empty."@)
            &&& t.len() > 0 && has_space(t) ==> (r matches Err(e) && e@
                == "Branch names cannot contain spaces."@)
            &&& t.len() > 0 && !has_space(t) && contains_name(existing.deep_view(), t) ==> (
            r matches Err(e) && e@ == "A branch named '"@ + t + "' already exists."@)
            &&& t.len() > 0 && !has_space(t) && !contains_name(existing.deep_view(), t)
                ==> r is Ok
        }),
{
    let t = trim(name);
    let n = t.unicode_len();
    if n == 0 {
        return Err(String::from_str("Branch name cannot be empty."));
    }
    let ws = find_space(t);
    proof {
        lemma_first_space(t@);
    }
    if ws < n {
        proof {
            assert(is_space_spec(t@[ws as int]));
        }
        return Err(String::from_str("Branch names cannot contain spaces."));
    }
    let m = existing.len();
    let mut i: usize = 0;
    proof {
        lemma_deep_len(*existing);
    }
    while i < m
        invariant
            0 <= i <= m,
            m == existing@.len(),
            existing.deep_view().len() == m,
            t@ == trim_spec(name@),
            t@.len() > 0,
            !has_space(t@),
            forall|j: int| 0 <= j < i ==> existing.deep_view()[j] != t@,
        decreases m - i,
    {
        proof {
            lemma_deep_index(*existing, i as int);
        }
        if str_eq(existing[i].as_str(), t) {
            proof {
                assert(existing.deep_view()[i as int] == t@);
                assert(contains_name(existing.deep_view(), t@));
            }
            return Err(concat3("A branch named '", t, "' already exists."));
        }
        i = i + 1;
    }
    Ok(())
}

/// The argument vector that creates and switches to the branch `name`;
/// callers are expected to have validated the name first.
pub fn create_branch(name: &str) -> (r: Vec<String>)
    ensures
        r.deep_view() == seq!["checkout"@, "-b"@, name@],
{
    git_create_branch(name)
}

// ---------- remote branches ----------

/// One parsed line of the remote-branch listing: pipe-delimited full
/// name, author and date.  Lines with fewer than three fields, entries
/// named `HEAD` or ending in `/HEAD`, and entries without a slash are
/// filtered out; the short name is everything after the first slash.
pub open spec fn remote_branch_of_line(line: Seq<char>) -> Option<RemoteBranchInfoV> {
    let ps = split_spec(line, '|');
    if ps.len() >= 3 {
        let full = ps[0];
        if ends_with_spec(full, "/HEAD"@) || full == "HEAD"@ {
            None
        } else if first_at(full, '/') >= full.len() {
            None
        } else {
            Some(
                RemoteBranchInfoV {
                    full_name: full,
                    short_name: full.skip(first_at(full, '/') + 1),
                    author: ps[1],
                    date: ps[2],
                },
            )
        }
    } else {
        None
    }
}

/// The remote-branch records of a listing's lines, in order, filtered
/// entries dropped.
pub open spec fn remote_branches_of_lines(ls: Seq<Seq<char>>) -> Seq<RemoteBranchInfoV>
    decreases ls.len(),
{
    if ls.len() == 0 {
        Seq::empty()
    } else {
        let rest = remote_branches_of_lines(ls.drop_first());
        match remote_branch_of_line(ls[0]) {
            Some(r) => seq![r] + rest,
            None => rest,
        }
    }
}

proof fn lemma_remote_branches_of_lines_snoc(ls: Seq<Seq<char>>, l: Seq<char>)
    ensures
        remote_branches_of_lines(ls.push(l)) == remote_branches_of_lines(ls) + (
        match remote_branch_of_line(l) {
            Some(r) => seq![r],
            None => Seq::<RemoteBranchInfoV>::empty(),
        }),
    decreases ls.len(),
{
    let tail = (match remote_branch_of_line(l) {
        Some(r) => seq![r],
        None => Seq::<RemoteBranchInfoV>::empty(),
    });
    if ls.len() == 0 {
        assert(ls.push(l).drop_first() =~= ls);
        assert(ls.push(l)[0] == l);
        assert(remote_branches_of_lines(ls) + tail =~= tail);
        match remote_branch_of_line(l) {
            Some(r) => {
                assert(seq![r] + Seq::<RemoteBranchInfoV>::empty() =~= seq![r]);
            },
            None => {},
        }
    } else {
        lemma_remote_branches_of_lines_snoc(ls.drop_first(), l);
        assert(ls.push(l).drop_first() =~= ls.drop_first().push(l));
        assert(ls.push(l)[0] == ls[0]);
        match remote_branch_of_line(ls[0]) {
            Some(r) => {
                assert(seq![r] + (remote_branches_of_lines(ls.drop_first()) + tail) =~= (seq![r]
                    + remote_branches_of_lines(ls.drop_first())) + tail);
            },
            None => {},
        }
    }
}

fn remote_branch_of_line_exec(line: &str) -> (r: Option<RemoteBranchInfo>)
    ensures
        opt_view(r) == remote_branch_of_line(line@),
{
    let ps = split_char(line, '|');
    proof {
        lemma_deep_len(ps);
    }
    if ps.len() >= 3 {
        proof {
            lemma_deep_index(ps, 0);
            lemma_deep_index(ps, 1);
            lemma_deep_index(ps, 2);
        }
        let full = ps[0].as_str();
        if ends_with(full, "/HEAD") || str_eq(full, "HEAD") {
            return None;
        }
        let n = full.unicode_len();
        let slash = find_char(full, '/');
        proof {
            lemma_first_at(full@, '/');
        }
        if slash >= n {
            return None;
        }
        let short = String::from_str(full.substring_char(slash + 1, n));
        proof {
            assert(full@.subrange(slash as int + 1, n as int) =~= full@.skip(
                first_at(full@, '/') + 1,
            ));
        }
        Some(
            RemoteBranchInfo {
                full_name: ps[0].clone(),
                short_name: short,
                author: ps[1].clone(),
                date: ps[2].clone(),
            },
        )
    } else {
        None
    }
}

/// Parses the remote-branch listing, filtering symbolic and malformed
/// entries and stripping the remote-name segment from each short name.
pub fn get_remote_branches(output: &str) -> (r: Vec<RemoteBranchInfo>)
    ensures
        views_of(r@) == remote_branches_of_lines(lines_spec(output@)),
{
    let ls = git_list_remote_branches(output);
    let mut r: Vec<RemoteBranchInfo> = Vec::new();
    let mut k: usize = 0;
    proof {
        lemma_deep_len(ls);
        lemma_views_of_len(r@);
        assert(ls.deep_view().take(0) =~= Seq::<Seq<char>>::empty());
        assert(views_of(r@) =~= remote_branches_of_lines(ls.deep_view().take(0)));
    }
    while k < ls.len()
        invariant
            ls.deep_view() == lines_spec(output@),
            ls.deep_view().len() == ls@.len(),
            0 <= k <= ls@.len(),
            views_of(r@) == remote_branches_of_lines(ls.deep_view().take(k as int)),
        decreases ls@.len() - k,
    {
        proof {
            lemma_deep_index(ls, k as int);
        }
        let ghost line = ls.deep_view()[k as int];
        let ghost pre = r@;
        match remote_branch_of_line_exec(ls[k].as_str()) {
            Some(info) => {
                r.push(info);
                proof {
                    assert(r@ == pre.push(r@[pre.len() as int]));
                    lemma_views_of_push(pre, r@[pre.len() as int]);
                }
            },
            None => {},
        }
        proof {
            lemma_remote_branches_of_lines_snoc(ls.deep_view().take(k as int), line);
            assert(ls.deep_view().take(k as int + 1) =~= ls.deep_view().take(k as int).push(
                line,
            ));
            assert(views_of(r@) =~= remote_branches_of_lines(ls.deep_view().take(k as int + 1)));
        }
        k = k + 1;
    }
    proof {
        assert(ls.deep_view().take(ls@.len() as int) =~= ls.deep_view());
    }
    r
}

// ---------- pull, push, undo ----------

/// The argument vector that pulls the chosen remote branch from origin.
pub fn pull_specific_branch(branch_full_name: &str) -> (r: Vec<String>)
    ensures
        r.deep_view() == seq![
            "pull"@,
            "origin"@,
            trim_start_matches_spec(branch_full_name@, "origin/"@),
        ],
{
    git_pull_branch(branch_full_name)
}

/// The argument vector that pushes `branch_name` to origin with a tracking
/// link.
pub fn push_branch(branch_name: &str) -> (r: Vec<String>)
    ensures
        r.deep_view() == seq!["push"@, "-u"@, "origin"@, branch_name@],
{
    git_push_upstream(branch_name)
}

/// The subject stored in a date-and-subject log line: its second
/// pipe-delimited field, or the fallback when the line has no second
/// field.
pub fn commit_subject(line: &str) -> (r: String)
    ensures
        r@ == field_or(split_spec(line@, '|'), 1, "Unknown"@),
{
    let ps = split_char(line, '|');
    field_or_string(&ps, 1, "Unknown")
}

/// The argument vector that undoes exactly one commit by a soft reset,
/// converting the newest commit back into staged changes.
pub fn undo_last_commit() -> (r: Vec<String>)
    ensures
        r.deep_view() == seq!["reset"@, "--soft"@, "HEAD~1"@],
{
    let v = git_reset_soft(1);
    proof {
        reveal_strlit("HEAD~");
        reveal_strlit("HEAD~1");
        assert(dec_spec(1) =~= seq!['1']);
        assert("HEAD~"@ + dec_spec(1) =~= "HEAD~1"@);
        assert(v.deep_view() =~= seq!["reset"@, "--soft"@, "HEAD~1"@]);
    }
    v
}

} // verus!
