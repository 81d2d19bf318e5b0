//! Issue records and the paged issue fetcher.
//!
//! The tracker returns pull requests among the issues of a repository; an
//! issue record therefore carries a marker saying whether it is really a
//! pull request, and the fetcher keeps only the records without the marker.
//! Pages arrive one at a time; the fetcher accumulates their filtered
//! records in arrival order and resolves each page's headers to the URL of
//! the page to fetch next. A page whose fetch failed contributes nothing
//! and ends the run silently, as the tracker's client is documented to do.

use vstd::prelude::*;
use vstd::string::StringExecFns;

use crate::ascii_seq;
use crate::cursor::contruct_new_url;
use crate::cursor::next_url_bytes;
use crate::headers::Headers;

verus! {

/// One issue-shaped record of the tracker: its number, its title, and
/// whether the record is really a pull request.
#[derive(Debug)]
pub struct Issue {
    pub number: usize,
    pub title: String,
    pub pull_request: bool,
}

/// The records of a page that are true issues, in page order.
pub open spec fn filter_issues(s: Seq<Issue>) -> Seq<Issue>
    decreases s.len(),
{
    if s.len() == 0 {
        Seq::empty()
    } else if s[0].pull_request {
        filter_issues(s.drop_first())
    } else {
        seq![s[0]] + filter_issues(s.drop_first())
    }
}

/// Whether a sequence holds no pull-request records.
pub open spec fn no_pull_requests(s: Seq<Issue>) -> bool {
    forall|i: int| 0 <= i < s.len() ==> !s[i].pull_request
}

/// What one page fetch came to: nothing, when the call failed or the
/// response status was no success; otherwise the parsed records of the
/// page together with the response headers.
pub enum PageOutcome {
    Unavailable,
    Received { records: Vec<Issue>, headers: Headers },
}

/// The issue sequence after recording one page outcome over `prev`:
/// a failed page adds nothing, a received page appends its true issues.
pub open spec fn outcome_issues(prev: Seq<Issue>, outcome: PageOutcome) -> Seq<Issue> {
    match outcome {
        PageOutcome::Unavailable => prev,
        PageOutcome::Received { records, headers } => prev + filter_issues(records@),
    }
}

/// The next-page URL a page outcome announces: none for a failed page,
/// else whatever the page's headers resolve to.
pub open spec fn outcome_next(outcome: PageOutcome) -> Option<Seq<u8>> {
    match outcome {
        PageOutcome::Unavailable => None,
        PageOutcome::Received { records, headers } => next_url_bytes(headers@),
    }
}

/// The paged issue fetcher: the true issues gathered so far, in order.
pub struct IssueFetcher {
    issues: Vec<Issue>,
}

impl View for IssueFetcher {
    type V = Seq<Issue>;

    closed spec fn view(&self) -> Seq<Issue> {
        self.issues@
    }
}

impl IssueFetcher {
    /// A fetcher that has gathered nothing yet.
    pub fn new() -> (f: IssueFetcher)
        ensures
            f@ == Seq::<Issue>::empty(),
    {
        IssueFetcher { issues: Vec::new() }
    }

    /// Records one page outcome: appends the page's true issues in page
    /// order, and returns the URL of the page to fetch next, or nothing
    /// when the run is over — after a failed page, or when the page's
    /// headers announce no further page.
    pub fn apply_page(&mut self, outcome: PageOutcome) -> (next: Option<String>)
        ensures
            final(self)@ == outcome_issues(old(self)@, outcome),
            (next is Some) == (outcome_next(outcome) is Some),
            next matches Some(url) ==> outcome_next(outcome) matches Some(b) && url@ == ascii_seq(
                b,
            ),
    {
        match outcome {
            PageOutcome::Unavailable => None,
            PageOutcome::Received { records, headers } => {
                let mut kept = filter_page(records);
                self.issues.append(&mut kept);
                contruct_new_url(&headers)
            },
        }
    }

    /// How many issues the fetcher has gathered.
    pub fn issue_count(&self) -> (n: usize)
        ensures
            n == self@.len(),
    {
        self.issues.len()
    }

    /// The gathered issues, in the order the tracker returned them.
    pub fn into_issues(self) -> (v: Vec<Issue>)
        ensures
            v@ == self@,
    {
        self.issues
    }
}

/// The records of a page that are true issues, in page order.
pub fn filter_page(page: Vec<Issue>) -> (r: Vec<Issue>)
    ensures
        r@ == filter_issues(page@),
{
    let mut rest = page;
    let mut kept: Vec<Issue> = Vec::new();
    let ghost whole = rest@;
    proof {
        assert(kept@ + filter_issues(rest@) =~= filter_issues(whole));
    }
    while rest.len() > 0
        invariant
            filter_issues(whole) == kept@ + filter_issues(rest@),
        decreases rest.len(),
    {
        let ghost pre = rest@;
        let ghost done = kept@;
        let record = rest.remove(0);
        proof {
            assert(pre.remove(0) =~= pre.drop_first());
            assert(rest@ == pre.drop_first());
        }
        if !record.pull_request {
            kept.push(record);
            proof {
                assert(done + (seq![record] + filter_issues(rest@)) =~= kept@ + filter_issues(
                    rest@,
                ));
            }
        }
    }
    proof {
        assert(filter_issues(rest@) =~= Seq::<Issue>::empty());
        assert(kept@ + filter_issues(rest@) =~= kept@);
    }
    kept
}

/// Law: filtering keeps no pull-request record.
pub proof fn lemma_filter_no_pull_requests(s: Seq<Issue>)
    ensures
        no_pull_requests(filter_issues(s)),
    decreases s.len(),
{
    if s.len() > 0 {
        lemma_filter_no_pull_requests(s.drop_first());
        if !s[0].pull_request {
            let f = seq![s[0]] + filter_issues(s.drop_first());
            assert(forall|i: int| 0 < i < f.len() ==> f[i] == filter_issues(s.drop_first())[i - 1]);
        }
    }
}

/// Law: recording a page outcome never brings a pull-request record in.
pub proof fn lemma_no_pull_requests_preserved(prev: Seq<Issue>, outcome: PageOutcome)
    requires
        no_pull_requests(prev),
    ensures
        no_pull_requests(outcome_issues(prev, outcome)),
{
    match outcome {
        PageOutcome::Unavailable => {
        },
        PageOutcome::Received { records, headers } => {
            lemma_filter_no_pull_requests(records@);
            let all = prev + filter_issues(records@);
            assert(forall|i: int|
                0 <= i < all.len() ==> all[i] == if i < prev.len() {
                    prev[i]
                } else {
                    filter_issues(records@)[i - prev.len()]
                });
        },
    }
}

/// Filtering distributes over concatenation.
proof fn lemma_filter_app(a: Seq<Issue>, b: Seq<Issue>)
    ensures
        filter_issues(a + b) == filter_issues(a) + filter_issues(b),
    decreases a.len(),
{
    if a.len() == 0 {
        assert(a + b =~= b);
        assert(filter_issues(a) + filter_issues(b) =~= filter_issues(b));
    } else {
        assert((a + b).drop_first() =~= a.drop_first() + b);
        lemma_filter_app(a.drop_first(), b);
        if !a[0].pull_request {
            assert(seq![a[0]] + (filter_issues(a.drop_first()) + filter_issues(b)) =~= (seq![a[0]]
                + filter_issues(a.drop_first())) + filter_issues(b));
        }
    }
}

/// Law: pages concatenate in order. Starting from nothing, recording a
/// first page and then a second appends the first page's true issues and
/// then the second's — the same sequence as filtering the two pages laid
/// end to end.
pub proof fn lemma_pages_concatenate(first_page: Seq<Issue>, second_page: Seq<Issue>)
    ensures
        (Seq::<Issue>::empty() + filter_issues(first_page)) + filter_issues(second_page)
            == filter_issues(first_page + second_page),
{
    lemma_filter_app(first_page, second_page);
    assert((Seq::<Issue>::empty() + filter_issues(first_page)) + filter_issues(second_page)
        =~= filter_issues(first_page) + filter_issues(second_page));
}

/// The URL of the first page of open issues of the fixed repository.
pub fn first_page_url() -> (r: String)
    ensures
        r@ == "https://api.github.com/repos/araeies/password-gen/issues?state=open&page=1"@,
{
    String::from_str("https://api.github.com/repos/araeies/password-gen/issues?state=open&page=1")
}

/// The URL a run starts from: the given starting URL, or the first page of
/// open issues of the fixed repository when none is given.
pub fn start_url(url: Option<String>) -> (r: String)
    ensures
        url matches Some(u) ==> r@ == u@,
        url is None ==> r@
            == "https://api.github.com/repos/araeies/password-gen/issues?state=open&page=1"@,
{
    match url {
        Some(u) => u,
        None => first_page_url(),
    }
}

} // verus!
