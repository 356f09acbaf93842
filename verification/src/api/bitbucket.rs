//! The source-control service: commits, pull requests and the issues that pull
//! requests refer to.

use vstd::prelude::*;
use vstd::std_specs::cmp::PartialEqSpecImpl;
use crate::api::rest::{Fetched, Paginated};
use crate::error::ChangelogError;
use crate::merge::Identified;
use crate::text::{decimal, number, replace, replaced};
use crate::time::Timestamp;

verus! {

/// The requests that the source-control service answers.
#[derive(Debug, Clone, Copy, PartialEq, Eq, Structural)]
pub enum BitbucketEndpoints {
    CompareCommits,
    PullRequestsForCommit,
    IssuesForPullRequest,
}

impl BitbucketEndpoints {
    /// The path of the request, with a name in braces wherever a value goes.
    pub open spec fn template(self) -> Seq<char> {
        match self {
            BitbucketEndpoints::CompareCommits =>
                "rest/api/latest/projects/{projectKey}/repos/{repositorySlug}/compare/commits?from={from}&to={to}"@,
            BitbucketEndpoints::PullRequestsForCommit =>
                "rest/api/latest/projects/{projectKey}/repos/{repositorySlug}/commits/{commitId}/pull-requests"@,
            BitbucketEndpoints::IssuesForPullRequest =>
                "/rest/jira/latest/projects/{projectKey}/repos/{repositorySlug}/pull-requests/{pullRequestId}/issues"@,
        }
    }

    /// The path of the request, with a name in braces wherever a value goes.
    pub fn url(&self) -> (path: &'static str)
        ensures
            path@ == self.template(),
    {
        match self {
            BitbucketEndpoints::CompareCommits =>
                "rest/api/latest/projects/{projectKey}/repos/{repositorySlug}/compare/commits?from={from}&to={to}",
            BitbucketEndpoints::PullRequestsForCommit =>
                "rest/api/latest/projects/{projectKey}/repos/{repositorySlug}/commits/{commitId}/pull-requests",
            BitbucketEndpoints::IssuesForPullRequest =>
                "/rest/jira/latest/projects/{projectKey}/repos/{repositorySlug}/pull-requests/{pullRequestId}/issues",
        }
    }
}

/// The path under which the service lists the commits between two commits of
/// a repository.
pub open spec fn path_of_compare_commits(
    project: Seq<char>,
    repo: Seq<char>,
    start_commit: Seq<char>,
    end_commit: Seq<char>,
) -> Seq<char> {
    replaced(
        replaced(
            replaced(
                replaced(BitbucketEndpoints::CompareCommits.template(), "{projectKey}"@, project),
                "{repositorySlug}"@,
                repo,
            ),
            "{from}"@,
            start_commit,
        ),
        "{to}"@,
        end_commit,
    )
}

/// The path under which the service lists the pull requests that hold a commit.
pub open spec fn path_of_pull_requests(project: Seq<char>, repo: Seq<char>, commit: Seq<char>) -> Seq<
    char,
> {
    replaced(
        replaced(
            replaced(BitbucketEndpoints::PullRequestsForCommit.template(), "{projectKey}"@, project),
            "{repositorySlug}"@,
            repo,
        ),
        "{commitId}"@,
        commit,
    )
}

/// The path under which the service lists the issues that a pull request
/// refers to.
pub open spec fn path_of_pull_request_issues(
    project: Seq<char>,
    repo: Seq<char>,
    pull_request_id: u64,
) -> Seq<char> {
    replaced(
        replaced(
            replaced(BitbucketEndpoints::IssuesForPullRequest.template(), "{projectKey}"@, project),
            "{repositorySlug}"@,
            repo,
        ),
        "{pullRequestId}"@,
        decimal(pull_request_id as nat),
    )
}

/// The path under which the service lists the commits between two commits of
/// a repository: the template with each name replaced by its value, the
/// project first, then the repository, then the two commits.
pub fn compare_commits_path(project: &str, repo: &str, start_commit: &str, end_commit: &str) -> (path:
    String)
    ensures
        path@ == path_of_compare_commits(project@, repo@, start_commit@, end_commit@),
{
    proof {
        reveal_strlit("{projectKey}");
        reveal_strlit("{repositorySlug}");
        reveal_strlit("{from}");
        reveal_strlit("{to}");
    }
    let with_project = replace(BitbucketEndpoints::CompareCommits.url(), "{projectKey}", project);
    let with_repo = replace(with_project.as_str(), "{repositorySlug}", repo);
    let with_start = replace(with_repo.as_str(), "{from}", start_commit);
    replace(with_start.as_str(), "{to}", end_commit)
}

/// The path under which the service lists the pull requests that hold a
/// commit: the template with the project, the repository and the commit put in,
/// in that order.
pub fn pull_requests_path(project: &str, repo: &str, commit: &str) -> (path: String)
    ensures
        path@ == path_of_pull_requests(project@, repo@, commit@),
{
    proof {
        reveal_strlit("{projectKey}");
        reveal_strlit("{repositorySlug}");
        reveal_strlit("{commitId}");
    }
    let with_project = replace(
        BitbucketEndpoints::PullRequestsForCommit.url(),
        "{projectKey}",
        project,
    );
    let with_repo = replace(with_project.as_str(), "{repositorySlug}", repo);
    replace(with_repo.as_str(), "{commitId}", commit)
}

/// The path under which the service lists the issues that a pull request
/// refers to: the template with the project, the repository and the number of
/// the pull request put in, in that order.
pub fn pull_request_issues_path(project: &str, repo: &str, pull_request_id: u64) -> (path: String)
    ensures
        path@ == path_of_pull_request_issues(project@, repo@, pull_request_id),
{
    proof {
        reveal_strlit("{projectKey}");
        reveal_strlit("{repositorySlug}");
        reveal_strlit("{pullRequestId}");
    }
    let with_project = replace(
        BitbucketEndpoints::IssuesForPullRequest.url(),
        "{projectKey}",
        project,
    );
    let with_repo = replace(with_project.as_str(), "{repositorySlug}", repo);
    let id = number(pull_request_id);
    replace(with_repo.as_str(), "{pullRequestId}", id.as_str())
}

/// The options that a request for a page can carry.
#[derive(Debug, Clone, Copy, PartialEq, Eq, Structural)]
pub enum BitbucketOptions {
    PageStart,
}

impl BitbucketOptions {
    /// The name under which the option is sent.
    pub fn option(&self) -> (name: &'static str)
        ensures
            name@ == "start"@,
    {
        match self {
            BitbucketOptions::PageStart => "start",
        }
    }
}

/// One page of a collection as the service sends it.
#[derive(Debug, Clone, PartialEq, Eq)]
pub struct BitbucketPage<T> {
    pub values: Vec<T>,
    pub size: u32,
    pub is_last_page: bool,
    pub start: u32,
    pub limit: u32,
    pub next_page_start: Option<u32>,
}

/// Who wrote or committed a commit.
#[derive(Debug, Clone, Eq, Hash)]
pub struct BitbucketAuthor {
    pub name: String,
    pub email_address: String,
    pub display_name: String,
}

/// What a `BitbucketAuthor` holds.
pub ghost struct BitbucketAuthorView {
    pub name: Seq<char>,
    pub email_address: Seq<char>,
    pub display_name: Seq<char>,
}

impl View for BitbucketAuthor {
    type V = BitbucketAuthorView;

    open spec fn view(&self) -> BitbucketAuthorView {
        BitbucketAuthorView {
            name: self.name@,
            email_address: self.email_address@,
            display_name: self.display_name@,
        }
    }
}

impl PartialEq for BitbucketAuthor {
    fn eq(&self, other: &Self) -> (equal: bool) {
        self.name == other.name && self.email_address == other.email_address
            && self.display_name == other.display_name
    }
}

impl PartialEqSpecImpl for BitbucketAuthor {
    open spec fn obeys_eq_spec() -> bool {
        true
    }

    open spec fn eq_spec(&self, other: &Self) -> bool {
        self@ == other@
    }
}

/// A commit. `id` is the full hash, `display_id` the short form of it.
#[derive(Debug, Clone, PartialEq, Eq, Hash)]
pub struct BitbucketCommit {
    pub id: String,
    pub display_id: String,
    pub author: BitbucketAuthor,
    pub committer: BitbucketAuthor,
    pub message: String,
}

/// The author of a pull request, and whether they approved it.
#[derive(Debug, Clone, Eq, Hash)]
pub struct BitbucketPullRequestAuthor {
    pub user: BitbucketAuthor,
    pub approved: bool,
}

/// What a `BitbucketPullRequestAuthor` holds.
pub ghost struct BitbucketPullRequestAuthorView {
    pub user: BitbucketAuthorView,
    pub approved: bool,
}

impl View for BitbucketPullRequestAuthor {
    type V = BitbucketPullRequestAuthorView;

    open spec fn view(&self) -> BitbucketPullRequestAuthorView {
        BitbucketPullRequestAuthorView { user: self.user@, approved: self.approved }
    }
}

impl PartialEq for BitbucketPullRequestAuthor {
    fn eq(&self, other: &Self) -> (equal: bool) {
        self.user == other.user && self.approved == other.approved
    }
}

impl PartialEqSpecImpl for BitbucketPullRequestAuthor {
    open spec fn obeys_eq_spec() -> bool {
        true
    }

    open spec fn eq_spec(&self, other: &Self) -> bool {
        self@ == other@
    }
}

/// A pull request. Its `id` counts within one repository of one project.
#[derive(Debug, Clone, Eq, Hash)]
pub struct BitbucketPullRequest {
    pub id: u64,
    pub title: String,
    pub description: String,
    pub open: bool,
    pub author: BitbucketPullRequestAuthor,
    pub created_date: Timestamp,
    pub updated_date: Timestamp,
}

/// What a `BitbucketPullRequest` holds.
pub ghost struct BitbucketPullRequestView {
    pub id: u64,
    pub title: Seq<char>,
    pub description: Seq<char>,
    pub open: bool,
    pub author: BitbucketPullRequestAuthorView,
    pub created_date: Timestamp,
    pub updated_date: Timestamp,
}

impl View for BitbucketPullRequest {
    type V = BitbucketPullRequestView;

    open spec fn view(&self) -> BitbucketPullRequestView {
        BitbucketPullRequestView {
            id: self.id,
            title: self.title@,
            description: self.description@,
            open: self.open,
            author: self.author@,
            created_date: self.created_date,
            updated_date: self.updated_date,
        }
    }
}

impl PartialEq for BitbucketPullRequest {
    fn eq(&self, other: &Self) -> (equal: bool) {
        self.id == other.id && self.title == other.title && self.description == other.description
            && self.open == other.open && self.author == other.author
            && self.created_date == other.created_date && self.updated_date == other.updated_date
    }
}

impl PartialEqSpecImpl for BitbucketPullRequest {
    open spec fn obeys_eq_spec() -> bool {
        true
    }

    open spec fn eq_spec(&self, other: &Self) -> bool {
        self@ == other@
    }
}

/// The pointer from a pull request to an issue: the issue's key and its address.
#[derive(Debug, Clone, PartialEq, Eq, Hash)]
pub struct BitbucketPullRequestIssue {
    pub key: String,
    pub url: String,
}


impl<T> BitbucketPage<T> {
    /// What the page says of the walk: that it ends here, that it goes on from
    /// the start that the page names, or nothing that can be followed.
    pub open spec fn continuation(self) -> Result<Option<u32>, ChangelogError> {
        match (self.is_last_page, self.next_page_start) {
            (true, None) => Ok(None),
            (true, Some(next)) => Err(ChangelogError::LastPageNamesNext { next_page_start: next }),
            (false, None) => Err(ChangelogError::MissingNextPage),
            (false, Some(next)) => Ok(Some(next)),
        }
    }

    /// Where the walk goes after this page: `None` where the page is flagged as
    /// the last one, else the start that it names for the next page, whatever
    /// that start is. The flag decides. A last page that names a next start,
    /// and a page that is not the last and names none, cannot be followed.
    pub fn following(&self) -> (next: Result<Option<u32>, ChangelogError>)
        ensures
            next == self.continuation(),
    {
        if self.is_last_page {
            match self.next_page_start {
                None => Ok(None),
                Some(next) => Err(ChangelogError::LastPageNamesNext { next_page_start: next }),
            }
        } else {
            match self.next_page_start {
                None => Err(ChangelogError::MissingNextPage),
                Some(next) => Ok(Some(next)),
            }
        }
    }
}

/// What a request for a page comes to, given the answer to it and the number
/// of pages that the cursor may still take: the items of a page that can be
/// followed, else the reason why not.
pub open spec fn outcome_of<T>(
    pages_left: nat,
    answer: Result<BitbucketPage<T>, ChangelogError>,
) -> Fetched<T> {
    match answer {
        Err(error) => Fetched::Failure { error },
        Ok(page) => match page.continuation() {
            Err(error) => Fetched::Failure { error },
            Ok(next) => if pages_left == 0 {
                Fetched::Failure { error: ChangelogError::PageLimitReached }
            } else {
                Fetched::Page { items: page.values@, last: next is None }
            },
        },
    }
}

/// The options that ask for the page from item `start` on.
pub open spec fn page_options(start: u32) -> Seq<(Seq<char>, Seq<char>)> {
    seq![("start"@, decimal(start as nat))]
}

/// The names and values of the options.
pub open spec fn options_view(query: Seq<(String, String)>) -> Seq<(Seq<char>, Seq<char>)> {
    Seq::new(query.len(), |i: int| (query[i].0@, query[i].1@))
}

/// A cursor over one collection of the service, from its first item on.
///
/// `fetch` stands for the request: it is handed the path and the options to
/// send, and returns the page that came back or the reason why none did. The
/// cursor takes no more pages than it was made for, which is what makes a walk
/// end whatever the service answers.
#[verifier::reject_recursive_types(T)]
pub struct BitbucketPaginated<T, F: Fn(&str, &Vec<(String, String)>) -> Result<BitbucketPage<T>, ChangelogError>> {
    fetch: F,
    url: String,
    next_page_start: Option<u32>,
    is_last_page: bool,
    pages_left: u64,
    fetched: Ghost<Seq<Fetched<T>>>,
}

impl<T, F: Fn(&str, &Vec<(String, String)>) -> Result<BitbucketPage<T>, ChangelogError>> BitbucketPaginated<T, F> {
    #[verifier::type_invariant]
    spec fn well_formed(self) -> bool {
        &&& !self.is_last_page ==> self.next_page_start is Some
        &&& forall|url: &str, query: &Vec<(String, String)>| call_requires(self.fetch, (url, query))
    }

    /// The function that the cursor asks for pages through.
    pub closed spec fn source(self) -> F {
        self.fetch
    }

    /// The path that the pages are asked for under.
    pub closed spec fn path(self) -> Seq<char> {
        self.url@
    }

    /// The item that the next page is asked for from, while there is one.
    pub closed spec fn start(self) -> Option<u32> {
        if self.is_last_page {
            None
        } else {
            self.next_page_start
        }
    }

    /// The number of pages that the cursor may still take.
    pub closed spec fn pages_left(self) -> nat {
        self.pages_left as nat
    }

    /// Whether `answer` is one that the cursor's function can give when it is
    /// handed that path and those options.
    pub open spec fn can_answer(
        self,
        path: Seq<char>,
        options: Seq<(Seq<char>, Seq<char>)>,
        answer: Result<BitbucketPage<T>, ChangelogError>,
    ) -> bool {
        exists|url: &str, query: &Vec<(String, String)>|
            url@ == path && options_view(query@) == options && #[trigger] call_ensures(
                self.source(),
                (url, query),
                answer,
            )
    }

    /// Whether `after` and `page` are what the cursor becomes and what it hands
    /// out when it takes `answer` as the answer to its next request.
    ///
    /// A cursor that has served its last page takes no answer. Any other
    /// records what the request came to. Where that is a page, it hands out
    /// the items, goes on from the start that the page names, or is exhausted
    /// where the page is the last, and has one page less left to take. Where it
    /// is a failure, it hands out the error and stays where it was.
    pub open spec fn turns_to(
        self,
        answer: Result<BitbucketPage<T>, ChangelogError>,
        after: Self,
        page: Result<Vec<T>, ChangelogError>,
    ) -> bool {
        &&& after.source() == self.source()
        &&& after.path() == self.path()
        &&& match self.start() {
            None => {
                &&& page == Err::<Vec<T>, ChangelogError>(ChangelogError::ExhaustedCursor)
                &&& after.fetched() == self.fetched()
                &&& after.start() is None
                &&& after.pages_left() == self.pages_left()
            },
            Some(_) => {
                &&& after.fetched() == self.fetched().push(outcome_of(self.pages_left(), answer))
                &&& match outcome_of(self.pages_left(), answer) {
                    Fetched::Page { items, .. } => {
                        &&& page matches Ok(values) && values@ == items
                        &&& after.start() == answer->Ok_0.next_page_start
                        &&& after.pages_left() == self.pages_left() - 1
                    },
                    Fetched::Failure { error } => {
                        &&& page == Err::<Vec<T>, ChangelogError>(error)
                        &&& after.start() == self.start()
                        &&& after.pages_left() == self.pages_left()
                    },
                }
            },
        }
    }

    /// A cursor that has asked for nothing yet, and takes as many pages as a
    /// count of 64 bits holds.
    pub fn new(fetch: F, url: String) -> (cursor: Self)
        requires
            forall|url: &str, query: &Vec<(String, String)>| call_requires(fetch, (url, query)),
        ensures
            cursor.source() == fetch,
            cursor.path() == url@,
            cursor.start() == Some(0u32),
            cursor.pages_left() == u64::MAX,
            cursor.fetched() == Seq::<Fetched<T>>::empty(),
    {
        Self::with_page_limit(fetch, url, u64::MAX)
    }

    /// A cursor that has asked for nothing yet, and takes `pages` pages at
    /// most. The request for a page beyond them fails with `PageLimitReached`.
    pub fn with_page_limit(fetch: F, url: String, pages: u64) -> (cursor: Self)
        requires
            forall|url: &str, query: &Vec<(String, String)>| call_requires(fetch, (url, query)),
        ensures
            cursor.source() == fetch,
            cursor.path() == url@,
            cursor.start() == Some(0u32),
            cursor.pages_left() == pages,
            cursor.fetched() == Seq::<Fetched<T>>::empty(),
    {
        BitbucketPaginated {
            fetch,
            url,
            next_page_start: Some(0),
            is_last_page: false,
            pages_left: pages,
            fetched: Ghost(Seq::empty()),
        }
    }

    /// The options of the next request: the start of the page, under the name
    /// of that option, while there is a page to ask for.
    pub fn query(&self) -> (query: Vec<(String, String)>)
        ensures
            options_view(query@) == match self.start() {
                Some(start) => page_options(start),
                None => Seq::empty(),
            },
            match self.start() {
                Some(start) => {
                    &&& query@.len() == 1
                    &&& query@[0].0@ == "start"@
                    &&& query@[0].1@ == decimal(start as nat)
                },
                None => query@.len() == 0,
            },
    {
        let mut query: Vec<(String, String)> = Vec::new();
        if !self.is_last_page {
            if let Some(start) = self.next_page_start {
                query.push((BitbucketOptions::PageStart.option().to_owned(), number(start as u64)));
            }
        }
        query
    }

    /// Takes the answer to the request for the next page: the cursor moves on
    /// where the page can be followed, and stays where it was where not. A
    /// cursor that has served its last page takes no answer.
    pub fn turn(&mut self, answer: Result<BitbucketPage<T>, ChangelogError>) -> (page: Result<
        Vec<T>,
        ChangelogError,
    >)
        ensures
            old(self).turns_to(answer, *final(self), page),
    {
        proof {
            use_type_invariant(&*self);
        }
        if self.is_last_page {
            return Err(ChangelogError::ExhaustedCursor);
        }
        match answer {
            Err(error) => {
                proof {
                    self.fetched@ = self.fetched@.push(Fetched::Failure { error });
                }
                Err(error)
            },
            Ok(page) => match page.following() {
                Err(error) => {
                    proof {
                        self.fetched@ = self.fetched@.push(Fetched::Failure { error });
                    }
                    Err(error)
                },
                Ok(next) => {
                    if self.pages_left == 0 {
                        proof {
                            self.fetched@ = self.fetched@.push(
                                Fetched::Failure { error: ChangelogError::PageLimitReached },
                            );
                        }
                        return Err(ChangelogError::PageLimitReached);
                    }
                    self.pages_left = self.pages_left - 1;
                    if next.is_none() {
                        self.is_last_page = true;
                    }
                    self.next_page_start = next;
                    proof {
                        self.fetched@ = self.fetched@.push(
                            Fetched::Page { items: page.values@, last: next is None },
                        );
                    }
                    Ok(page.values)
                },
            },
        }
    }
}

impl<T, F: Fn(&str, &Vec<(String, String)>) -> Result<BitbucketPage<T>, ChangelogError>> Paginated<T> for BitbucketPaginated<T, F> {
    closed spec fn fetched(&self) -> Seq<Fetched<T>> {
        self.fetched@
    }

    /// The cursor is exhausted once there is no start to ask on from.
    open spec fn exhausted(&self) -> bool {
        self.start() is None
    }

    closed spec fn budget(&self) -> nat {
        match self.start() {
            Some(_) => self.pages_left(),
            None => 0,
        }
    }

    /// Hands the cursor's function the cursor's path and the options that ask
    /// for the page from the current start on, once, and takes the answer as
    /// `turn` does. An exhausted cursor asks for nothing.
    fn next(&mut self) -> (page: Result<Vec<T>, ChangelogError>)
        ensures
            exists|answer: Result<BitbucketPage<T>, ChangelogError>|
                {
                    &&& old(self).start() matches Some(start) ==> old(self).can_answer(
                        old(self).path(),
                        page_options(start),
                        answer,
                    )
                    &&& #[trigger] old(self).turns_to(answer, *final(self), page)
                },
    {
        proof {
            use_type_invariant(&*self);
        }
        if self.is_last_page {
            assert(old(self).turns_to(
                Err(ChangelogError::ExhaustedCursor),
                *self,
                Err(ChangelogError::ExhaustedCursor),
            ));
            return Err(ChangelogError::ExhaustedCursor);
        }
        let query = self.query();
        let url = self.url.as_str();
        let answer = (self.fetch)(url, &query);
        assert(call_ensures(old(self).source(), (url, &query), answer));
        let page = self.turn(answer);
        assert(page is Ok ==> self.budget() < old(self).budget());
        page
    }

    fn is_last(&self) -> (last: bool) {
        proof {
            use_type_invariant(self);
        }
        self.is_last_page
    }
}

impl Identified for BitbucketPullRequest {
    type Identity = BitbucketPullRequestView;

    /// A pull request is known by all that it holds.
    open spec fn identity(&self) -> BitbucketPullRequestView {
        self@
    }

    fn same_as(&self, other: &Self) -> (same: bool) {
        *self == *other
    }
}

impl Identified for BitbucketPullRequestIssue {
    type Identity = Seq<char>;

    /// A pointer to an issue is known by the key of the issue.
    open spec fn identity(&self) -> Seq<char> {
        self.key@
    }

    fn same_as(&self, other: &Self) -> (same: bool) {
        self.key == other.key
    }
}

} // verus!
