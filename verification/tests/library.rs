use issue_fetcher::{
    accept_media_type, contruct_new_url, filter_page, first_page_url, reactions_url, start_url,
    user_agent, Headers, Issue, IssueFetcher, IssueReaction, PageOutcome, Session, User,
};

fn headers_with(name: &str, value: &[u8]) -> Headers {
    let mut h = Headers::new();
    h.push(name.as_bytes().to_vec(), value.to_vec());
    h
}

fn issue(number: usize, title: &str, pull_request: bool) -> Issue {
    Issue { number, title: title.to_string(), pull_request }
}

#[test]
fn resolver_returns_nothing_without_link_header() {
    let empty = Headers::new();
    assert_eq!(contruct_new_url(&empty), None);
    let other = headers_with("content-type", b"application/json");
    assert_eq!(contruct_new_url(&other), None);
}

#[test]
fn resolver_extracts_next_page_url() {
    let h = headers_with("link", b"<https://api.example/issues?page=2>; rel=\"next\"");
    assert_eq!(
        contruct_new_url(&h),
        Some("https://api.example/issues?page=2".to_string())
    );
}

#[test]
fn resolver_returns_nothing_for_prev_only_link() {
    let h = headers_with("link", b"<https://api.example/issues?page=1>; rel=\"prev\"");
    assert_eq!(contruct_new_url(&h), None);
}

#[test]
fn resolver_matches_link_name_case_insensitively() {
    let h = headers_with("Link", b"<https://api.example/issues?page=3>; rel=\"next\"");
    assert_eq!(
        contruct_new_url(&h),
        Some("https://api.example/issues?page=3".to_string())
    );
    let h = headers_with("LINK", b"<https://api.example/issues?page=3>; rel=\"next\"");
    assert_eq!(
        contruct_new_url(&h),
        Some("https://api.example/issues?page=3".to_string())
    );
}

#[test]
fn resolver_returns_nothing_for_undecodable_value() {
    let mut value = b"<https://api.example/issues?page=2>; rel=\"next\"".to_vec();
    value.push(200);
    let h = headers_with("link", &value);
    assert_eq!(contruct_new_url(&h), None);
}

#[test]
fn resolver_takes_the_first_segment_whatever_its_relation() {
    let h = headers_with(
        "link",
        b"<https://api.example/issues?page=4>; rel=\"last\", <https://api.example/issues?page=2>; rel=\"next\"",
    );
    assert_eq!(
        contruct_new_url(&h),
        Some("https://api.example/issues?page=4".to_string())
    );
}

#[test]
fn resolver_strips_every_leading_and_trailing_angle_bracket() {
    let h = headers_with("link", b"<<https://api.example/issues?page=2>>; rel=\"next\"");
    assert_eq!(
        contruct_new_url(&h),
        Some("https://api.example/issues?page=2".to_string())
    );
}

#[test]
fn resolver_without_semicolon_keeps_the_whole_value() {
    let h = headers_with("link", b"rel=\"next\"");
    assert_eq!(contruct_new_url(&h), Some("rel=\"next\"".to_string()));
}

#[test]
fn resolver_uses_the_first_link_header_when_two_exist() {
    let mut h = Headers::new();
    h.push(
        b"link".to_vec(),
        b"<https://api.example/issues?page=2>; rel=\"next\"".to_vec(),
    );
    h.push(
        b"link".to_vec(),
        b"<https://api.example/issues?page=9>; rel=\"next\"".to_vec(),
    );
    assert_eq!(
        contruct_new_url(&h),
        Some("https://api.example/issues?page=2".to_string())
    );
}

#[test]
fn resolver_accepts_a_tab_in_the_value() {
    let h = headers_with("link", b"<https://api.example/issues?page=2>;\trel=\"next\"");
    assert_eq!(
        contruct_new_url(&h),
        Some("https://api.example/issues?page=2".to_string())
    );
}

#[test]
fn filter_keeps_only_true_issues() {
    let page = vec![
        issue(5, "speed up generation", true),
        issue(8, "add a symbols option", false),
    ];
    let kept = filter_page(page);
    assert_eq!(kept.len(), 1);
    assert_eq!(kept[0].number, 8);
    assert_eq!(kept[0].title, "add a symbols option");
    assert!(!kept[0].pull_request);
}

#[test]
fn filter_of_empty_page_is_empty() {
    assert_eq!(filter_page(Vec::new()).len(), 0);
}

#[test]
fn filter_drops_a_page_of_pull_requests_entirely() {
    let page = vec![issue(1, "a", true), issue(2, "b", true)];
    assert_eq!(filter_page(page).len(), 0);
}

#[test]
fn fetcher_keeps_only_the_issue_without_pull_request_marker() {
    let mut fetcher = IssueFetcher::new();
    let page = vec![
        issue(5, "speed up generation", true),
        issue(8, "add a symbols option", false),
    ];
    let next = fetcher.apply_page(PageOutcome::Received {
        records: page,
        headers: Headers::new(),
    });
    assert_eq!(next, None);
    let issues = fetcher.into_issues();
    assert_eq!(issues.len(), 1);
    assert_eq!(issues[0].number, 8);
    assert_eq!(issues[0].title, "add a symbols option");
}

#[test]
fn fetcher_concatenates_pages_in_order() {
    let mut fetcher = IssueFetcher::new();
    let first = vec![issue(1, "A", false), issue(2, "B", false)];
    let h1 = headers_with("link", b"<https://api.example/issues?page=2>; rel=\"next\"");
    let next = fetcher.apply_page(PageOutcome::Received {
        records: first,
        headers: h1,
    });
    assert_eq!(next, Some("https://api.example/issues?page=2".to_string()));
    let second = vec![issue(3, "C", false)];
    let next = fetcher.apply_page(PageOutcome::Received {
        records: second,
        headers: Headers::new(),
    });
    assert_eq!(next, None);
    let issues = fetcher.into_issues();
    let numbers: Vec<usize> = issues.iter().map(|i| i.number).collect();
    assert_eq!(numbers, vec![1, 2, 3]);
    assert_eq!(issues[0].title, "A");
    assert_eq!(issues[1].title, "B");
    assert_eq!(issues[2].title, "C");
}

#[test]
fn failed_first_page_yields_an_empty_sequence() {
    let mut fetcher = IssueFetcher::new();
    let next = fetcher.apply_page(PageOutcome::Unavailable);
    assert_eq!(next, None);
    assert_eq!(fetcher.issue_count(), 0);
    assert_eq!(fetcher.into_issues().len(), 0);
}

#[test]
fn failed_later_page_truncates_without_losing_earlier_pages() {
    let mut fetcher = IssueFetcher::new();
    let first = vec![issue(1, "A", false)];
    let h1 = headers_with("link", b"<https://api.example/issues?page=2>; rel=\"next\"");
    fetcher.apply_page(PageOutcome::Received {
        records: first,
        headers: h1,
    });
    let next = fetcher.apply_page(PageOutcome::Unavailable);
    assert_eq!(next, None);
    let issues = fetcher.into_issues();
    assert_eq!(issues.len(), 1);
    assert_eq!(issues[0].number, 1);
}

#[test]
fn one_page_run_with_a_pull_request_keeps_one_issue() {
    let session = Session::new("token123".to_string());
    assert_eq!(session.authorization(), "Bearer token123");
    assert_eq!(
        first_page_url(),
        "https://api.github.com/repos/araeies/password-gen/issues?state=open&page=1"
    );
    let mut fetcher = IssueFetcher::new();
    let page = vec![
        issue(12, "tighten the charset", true),
        issue(3, "length flag is ignored", false),
    ];
    let next = fetcher.apply_page(PageOutcome::Received {
        records: page,
        headers: Headers::new(),
    });
    assert_eq!(next, None);
    assert_eq!(fetcher.issue_count(), 1);
    let issues = fetcher.into_issues();
    assert_eq!(issues[0].title, "length flag is ignored");
    assert_eq!(
        reactions_url(issues[0].number),
        "https://api.github.com/repos/araeies/password-gen/issues/3/reactions"
    );
    let reactions = vec![IssueReaction {
        content: "+1".to_string(),
        user: User {
            login: "alice".to_string(),
        },
    }];
    assert_eq!(reactions[0].content, "+1");
    assert_eq!(reactions[0].user.login, "alice");
}

#[test]
fn reactions_url_interpolates_the_issue_number() {
    assert_eq!(
        reactions_url(0),
        "https://api.github.com/repos/araeies/password-gen/issues/0/reactions"
    );
    assert_eq!(
        reactions_url(42),
        "https://api.github.com/repos/araeies/password-gen/issues/42/reactions"
    );
    assert_eq!(
        reactions_url(usize::MAX),
        "https://api.github.com/repos/araeies/password-gen/issues/18446744073709551615/reactions"
    );
}

#[test]
fn run_starts_from_the_given_url_or_the_first_page() {
    assert_eq!(
        start_url(None),
        "https://api.github.com/repos/araeies/password-gen/issues?state=open&page=1"
    );
    assert_eq!(start_url(None), first_page_url());
    assert_eq!(
        start_url(Some("https://api.example/issues?page=7".to_string())),
        "https://api.example/issues?page=7"
    );
}

#[test]
fn request_headers_are_the_documented_constants() {
    assert_eq!(user_agent(), "rust web-api");
    assert_eq!(accept_media_type(), "application/vnd.github+json");
}

#[test]
fn header_collection_reports_its_length() {
    let mut h = Headers::new();
    assert_eq!(h.len(), 0);
    h.push(b"link".to_vec(), b"x".to_vec());
    h.push(b"etag".to_vec(), b"y".to_vec());
    assert_eq!(h.len(), 2);
}
