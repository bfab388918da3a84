use rfx::workflow::get_remote_branches;
use rfx::workflow::parse_remote_url;
use rfx::workflow::remotes_detailed;

#[test]
fn https_url_decomposes() {
    let (host, owner, repo) = parse_remote_url("https://github.com/acme/widgets.git");
    assert_eq!(host, Some("github.com".to_string()));
    assert_eq!(owner, Some("acme".to_string()));
    assert_eq!(repo, Some("widgets".to_string()));
}

#[test]
fn ssh_url_decomposes() {
    let (host, owner, repo) = parse_remote_url("git@github.com:acme/widgets.git");
    assert_eq!(host, Some("github.com".to_string()));
    assert_eq!(owner, Some("acme".to_string()));
    assert_eq!(repo, Some("widgets".to_string()));
}

#[test]
fn unrecognized_url_yields_no_parts() {
    assert_eq!(parse_remote_url("ftp://bad"), (None, None, None));
}

#[test]
fn https_url_without_git_suffix_keeps_repo() {
    let (host, owner, repo) = parse_remote_url("https://example.org/team/tool");
    assert_eq!(host, Some("example.org".to_string()));
    assert_eq!(owner, Some("team".to_string()));
    assert_eq!(repo, Some("tool".to_string()));
}

#[test]
fn https_url_with_too_few_segments_yields_no_parts() {
    assert_eq!(parse_remote_url("https://example.org/solo"), (None, None, None));
    assert_eq!(parse_remote_url("https://"), (None, None, None));
}

#[test]
fn ssh_url_with_wrong_shape_yields_no_parts() {
    assert_eq!(parse_remote_url("git@example.org"), (None, None, None));
    assert_eq!(parse_remote_url("git@example.org:solo"), (None, None, None));
    assert_eq!(parse_remote_url("git@example.org:a/b/c"), (None, None, None));
}

#[test]
fn git_suffix_is_stripped_repeatedly() {
    let (_, _, repo) = parse_remote_url("https://example.org/team/tool.git.git");
    assert_eq!(repo, Some("tool".to_string()));
}

#[test]
fn remotes_are_parsed_with_direction_and_coordinates() {
    let out = "origin\thttps://github.com/acme/widgets.git (fetch)\norigin\thttps://github.com/acme/widgets.git (push)";
    let r = remotes_detailed(out);
    assert_eq!(r.len(), 2);
    assert_eq!(r[0].name, "origin");
    assert_eq!(r[0].url, "https://github.com/acme/widgets.git");
    assert_eq!(r[0].direction, "fetch");
    assert_eq!(r[0].host, Some("github.com".to_string()));
    assert_eq!(r[0].owner, Some("acme".to_string()));
    assert_eq!(r[0].repo, Some("widgets".to_string()));
    assert_eq!(r[1].direction, "push");
}

#[test]
fn remote_lines_with_too_few_fields_are_skipped() {
    let out = "origin https://example.org/a/b.git (fetch)\nnonsense\nupstream git@example.org:c/d.git (push)";
    let r = remotes_detailed(out);
    assert_eq!(r.len(), 2);
    assert_eq!(r[0].name, "origin");
    assert_eq!(r[1].name, "upstream");
    assert_eq!(r[1].host, Some("example.org".to_string()));
    assert_eq!(r[1].owner, Some("c".to_string()));
    assert_eq!(r[1].repo, Some("d".to_string()));
}

#[test]
fn remote_with_unrecognized_url_keeps_name_and_direction() {
    let out = "weird ssh://example.org/a/b (fetch)";
    let r = remotes_detailed(out);
    assert_eq!(r.len(), 1);
    assert_eq!(r[0].name, "weird");
    assert_eq!(r[0].host, None);
    assert_eq!(r[0].owner, None);
    assert_eq!(r[0].repo, None);
}

#[test]
fn head_entries_are_filtered_from_remote_branches() {
    let out = "origin/HEAD|a|b\norigin/main|carol|2024-01-01";
    let r = get_remote_branches(out);
    assert_eq!(r.len(), 1);
    assert_eq!(r[0].full_name, "origin/main");
    assert_eq!(r[0].short_name, "main");
    assert_eq!(r[0].author, "carol");
    assert_eq!(r[0].date, "2024-01-01");
}

#[test]
fn slashless_and_short_remote_branch_entries_are_filtered() {
    let out = "HEAD|a|b\nnoslash|x|y\norigin/dev\norigin/dev|dan|5 weeks ago";
    let r = get_remote_branches(out);
    assert_eq!(r.len(), 1);
    assert_eq!(r[0].full_name, "origin/dev");
    assert_eq!(r[0].short_name, "dev");
}

#[test]
fn remote_branch_short_name_strips_one_segment() {
    let out = "origin/feature/login|eve|3 days ago";
    let r = get_remote_branches(out);
    assert_eq!(r.len(), 1);
    assert_eq!(r[0].short_name, "feature/login");
}
