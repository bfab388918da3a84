//! The typed records produced by the workflow layer.
//!
//! Every record is an immutable value assembled from one parsed listing and
//! discarded after the current command.  Each exec record has a ghost view
//! over character sequences, and the workflow contracts speak of those
//! views.

use vstd::prelude::*;

verus! {

/// A local branch with the metadata of its oldest and newest commits; the
/// date fields degrade to `"Unknown"` when the underlying query fails,
/// never absent.
#[derive(Clone, Debug, PartialEq, Eq)]
pub struct BranchInfo {
    pub name: String,
    pub author: String,
    pub time_created: String,
    pub last_change: String,
    pub last_commit: String,
}

pub ghost struct BranchInfoV {
    pub name: Seq<char>,
    pub author: Seq<char>,
    pub time_created: Seq<char>,
    pub last_change: Seq<char>,
    pub last_commit: Seq<char>,
}

impl View for BranchInfo {
    type V = BranchInfoV;

    open spec fn view(&self) -> BranchInfoV {
        BranchInfoV {
            name: self.name@,
            author: self.author@,
            time_created: self.time_created@,
            last_change: self.last_change@,
            last_commit: self.last_commit@,
        }
    }
}

/// One commit of a log listing; the hash is the tool's object identifier,
/// treated as an opaque string.
#[derive(Clone, Debug, PartialEq, Eq)]
pub struct CommitInfo {
    pub hash: String,
    pub author: String,
    pub date: String,
    pub message: String,
}

pub ghost struct CommitInfoV {
    pub hash: Seq<char>,
    pub author: Seq<char>,
    pub date: Seq<char>,
    pub message: Seq<char>,
}

impl View for CommitInfo {
    type V = CommitInfoV;

    open spec fn view(&self) -> CommitInfoV {
        CommitInfoV {
            hash: self.hash@,
            author: self.author@,
            date: self.date@,
            message: self.message@,
        }
    }
}

/// One remote of the verbose remote listing; host, owner and repository are
/// best-effort derived fields, absent when the URL matches no recognized
/// shape.
#[derive(Clone, Debug, PartialEq, Eq)]
pub struct RemoteInfo {
    pub name: String,
    pub url: String,
    pub direction: String,
    pub host: Option<String>,
    pub owner: Option<String>,
    pub repo: Option<String>,
}

pub ghost struct RemoteInfoV {
    pub name: Seq<char>,
    pub url: Seq<char>,
    pub direction: Seq<char>,
    pub host: Option<Seq<char>>,
    pub owner: Option<Seq<char>>,
    pub repo: Option<Seq<char>>,
}

/// An optional owned string seen as an optional character sequence.
pub open spec fn opt_str(o: Option<String>) -> Option<Seq<char>> {
    match o {
        Some(s) => Some(s@),
        None => None,
    }
}

impl View for RemoteInfo {
    type V = RemoteInfoV;

    open spec fn view(&self) -> RemoteInfoV {
        RemoteInfoV {
            name: self.name@,
            url: self.url@,
            direction: self.direction@,
            host: opt_str(self.host),
            owner: opt_str(self.owner),
            repo: opt_str(self.repo),
        }
    }
}

/// One remote branch of the remote-branch listing: the full name keeps the
/// remote-name segment, the short name has one leading segment stripped.
#[derive(Clone, Debug, PartialEq, Eq)]
pub struct RemoteBranchInfo {
    pub full_name: String,
    pub short_name: String,
    pub author: String,
    pub date: String,
}

pub ghost struct RemoteBranchInfoV {
    pub full_name: Seq<char>,
    pub short_name: Seq<char>,
    pub author: Seq<char>,
    pub date: Seq<char>,
}

impl View for RemoteBranchInfo {
    type V = RemoteBranchInfoV;

    open spec fn view(&self) -> RemoteBranchInfoV {
        RemoteBranchInfoV {
            full_name: self.full_name@,
            short_name: self.short_name@,
            author: self.author@,
            date: self.date@,
        }
    }
}

/// One changed file of the working tree: the tool's short status code,
/// passed through verbatim, and the path.
#[derive(Clone, Debug, PartialEq, Eq)]
pub struct FileChange {
    pub status: String,
    pub path: String,
}

pub ghost struct FileChangeV {
    pub status: Seq<char>,
    pub path: Seq<char>,
}

impl View for FileChange {
    type V = FileChangeV;

    open spec fn view(&self) -> FileChangeV {
        FileChangeV { status: self.status@, path: self.path@ }
    }
}

/// The summary of one status query: the current branch, the ahead/behind
/// counts against the upstream (both absent exactly when no upstream
/// tracking relationship exists), and the changed files in order.
#[derive(Clone, Debug, PartialEq, Eq)]
pub struct StatusSummary {
    pub branch: String,
    pub ahead: Option<usize>,
    pub behind: Option<usize>,
    pub changes: Vec<FileChange>,
}

pub ghost struct StatusSummaryV {
    pub branch: Seq<char>,
    pub ahead: Option<usize>,
    pub behind: Option<usize>,
    pub changes: Seq<FileChangeV>,
}

impl View for StatusSummary {
    type V = StatusSummaryV;

    open spec fn view(&self) -> StatusSummaryV {
        StatusSummaryV {
            branch: self.branch@,
            ahead: self.ahead,
            behind: self.behind,
            changes: views_of(self.changes@),
        }
    }
}

/// An optional record seen through its view.
pub open spec fn opt_view<T: View>(o: Option<T>) -> Option<T::V> {
    match o {
        Some(x) => Some(x@),
        None => None,
    }
}

/// The views of a sequence of records.
pub open spec fn views_of<T: View>(s: Seq<T>) -> Seq<T::V> {
    s.map_values(|x: T| x@)
}

pub proof fn lemma_views_of_index<T: View>(s: Seq<T>, i: int)
    requires
        0 <= i < s.len(),
    ensures
        views_of(s).len() == s.len(),
        views_of(s)[i] == s[i]@,
{
}

pub proof fn lemma_views_of_len<T: View>(s: Seq<T>)
    ensures
        views_of(s).len() == s.len(),
{
}

pub proof fn lemma_views_of_push<T: View>(s: Seq<T>, x: T)
    ensures
        views_of(s.push(x)) == views_of(s).push(x@),
{
    assert forall|i: int| 0 <= i < s.len() + 1 implies views_of(s.push(x))[i] == views_of(
        s,
    ).push(x@)[i] by {
        lemma_views_of_index(s.push(x), i);
        if i < s.len() {
            lemma_views_of_index(s, i);
        }
    }
    lemma_views_of_len(s.push(x));
    lemma_views_of_len(s);
    assert(views_of(s.push(x)) =~= views_of(s).push(x@));
}

} // verus!
