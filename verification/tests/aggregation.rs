use deployment_changelog::api::bitbucket::{
    BitbucketAuthor, BitbucketCommit, BitbucketPullRequest, BitbucketPullRequestAuthor,
    BitbucketPullRequestIssue,
};
use deployment_changelog::api::jira::{Comment, Comments, JiraAuthor, JiraIssue, JiraIssueFields};
use deployment_changelog::api::spinnaker::{
    Application, Artifact, ArtifactVersion, Environment, EnvironmentState, GitMetadata,
    MdArtifactStatusInEnvironment, ResponseData, Variables,
};
use deployment_changelog::changelog::{
    Aggregation, Answer, Changelog, CommitSpecifier, GitCommitRange, Request, SpinnakerEnvironment,
};
use deployment_changelog::error::ChangelogError;
use deployment_changelog::time::Timestamp;

fn failure(detail: &str) -> ChangelogError {
    ChangelogError::Upstream { operation: String::from("GET"), detail: String::from(detail) }
}

fn author(name: &str) -> BitbucketAuthor {
    BitbucketAuthor {
        name: String::from(name),
        email_address: format!("{name}@example.org"),
        display_name: String::from(name),
    }
}

fn commit(id: &str) -> BitbucketCommit {
    BitbucketCommit {
        id: String::from(id),
        display_id: id.chars().take(2).collect(),
        author: author("ann"),
        committer: author("bob"),
        message: format!("commit {id}"),
    }
}

fn pull_request(id: u64) -> BitbucketPullRequest {
    BitbucketPullRequest {
        id,
        title: format!("pull request {id}"),
        description: String::new(),
        open: false,
        author: BitbucketPullRequestAuthor { user: author("ann"), approved: false },
        created_date: Timestamp { seconds: 1_700_000_000, nanoseconds: 0 },
        updated_date: Timestamp { seconds: 1_700_000_000, nanoseconds: 0 },
    }
}

fn reference(key: &str) -> BitbucketPullRequestIssue {
    BitbucketPullRequestIssue { key: String::from(key), url: format!("https://issues/browse/{key}") }
}

fn issue(key: &str) -> JiraIssue {
    JiraIssue {
        key: String::from(key),
        fields: JiraIssueFields {
            summary: format!("summary of {key}"),
            description: None,
            comment: Comments {
                comments: vec![Comment {
                    author: JiraAuthor {
                        name: String::from("cy"),
                        key: String::from("cy"),
                        display_name: String::from("Cy"),
                    },
                    body: String::from("seen"),
                    created: Timestamp { seconds: 1_700_000_100, nanoseconds: 0 },
                    updated: Timestamp { seconds: 1_700_000_100, nanoseconds: 0 },
                }],
            },
            created: Timestamp { seconds: 1_700_000_000, nanoseconds: 0 },
            updated: Timestamp { seconds: 1_700_000_200, nanoseconds: 0 },
        },
    }
}

fn range() -> GitCommitRange {
    GitCommitRange {
        project: String::from("P"),
        repo: String::from("R"),
        start_commit: String::from("c9"),
        end_commit: String::from("c0"),
    }
}

fn paths(of: &[&str]) -> Vec<String> {
    of.iter().map(|path| String::from(*path)).collect()
}

fn listing_pull_requests() -> Aggregation {
    Changelog::get_changelog_from_range(range()).step(Answer::Commits(Ok(vec![commit("c1"), commit("c2")])))
}

fn listing_issues() -> Aggregation {
    listing_pull_requests().step(Answer::PullRequests(vec![
        Ok(vec![pull_request(1)]),
        Ok(vec![pull_request(1), pull_request(2)]),
    ]))
}

fn fetching_issues() -> Aggregation {
    listing_issues().step(Answer::PullRequestIssues(vec![
        Ok(vec![reference("ISSUE-1")]),
        Ok(vec![reference("ISSUE-2")]),
    ]))
}

#[test]
fn a_changelog_comes_about_step_by_step() {
    let state = Changelog::new(CommitSpecifier::CommitRange(range()));
    assert_eq!(state, Aggregation::ListingCommits { commit_range: range() });
    assert_eq!(
        state.request(),
        Some(Request::Commits(String::from(
            "rest/api/latest/projects/P/repos/R/compare/commits?from=c9&to=c0"
        )))
    );
    assert_eq!(state.clone().outcome(), None);

    let state = state.step(Answer::Commits(Ok(vec![commit("c1"), commit("c2")])));
    assert_eq!(
        state.request(),
        Some(Request::PullRequests(paths(&[
            "rest/api/latest/projects/P/repos/R/commits/c1/pull-requests",
            "rest/api/latest/projects/P/repos/R/commits/c2/pull-requests",
        ])))
    );

    let state = state.step(Answer::PullRequests(vec![
        Ok(vec![pull_request(1)]),
        Ok(vec![pull_request(1), pull_request(2)]),
    ]));
    assert_eq!(
        state.request(),
        Some(Request::PullRequestIssues(paths(&[
            "/rest/jira/latest/projects/P/repos/R/pull-requests/1/issues",
            "/rest/jira/latest/projects/P/repos/R/pull-requests/2/issues",
        ])))
    );

    let state = state.step(Answer::PullRequestIssues(vec![
        Ok(vec![reference("ISSUE-1")]),
        Ok(vec![reference("ISSUE-2")]),
    ]));
    assert_eq!(
        state.request(),
        Some(Request::Issues(paths(&[
            "rest/api/latest/issue/ISSUE-1",
            "rest/api/latest/issue/ISSUE-2",
        ])))
    );

    let state = state.step(Answer::Issues(vec![Ok(issue("ISSUE-1")), Ok(issue("ISSUE-2"))]));
    assert_eq!(state.request(), None);
    assert_eq!(
        state.outcome(),
        Some(Ok(Changelog {
            commits: vec![commit("c1"), commit("c2")],
            pull_requests: vec![pull_request(1), pull_request(2)],
            issues: vec![issue("ISSUE-1"), issue("ISSUE-2")],
        }))
    );
}

#[test]
fn an_issue_of_two_pull_requests_is_asked_for_once() {
    let state = listing_issues().step(Answer::PullRequestIssues(vec![
        Ok(vec![reference("ISSUE-1"), reference("ISSUE-2")]),
        Ok(vec![
            BitbucketPullRequestIssue {
                key: String::from("ISSUE-1"),
                url: String::from("https://elsewhere/ISSUE-1"),
            },
            reference("ISSUE-3"),
        ]),
    ]));
    assert_eq!(
        state.request(),
        Some(Request::Issues(paths(&[
            "rest/api/latest/issue/ISSUE-1",
            "rest/api/latest/issue/ISSUE-2",
            "rest/api/latest/issue/ISSUE-3",
        ])))
    );
}

#[test]
fn a_range_without_commits_gives_an_empty_changelog() {
    let state = Changelog::get_changelog_from_range(range()).step(Answer::Commits(Ok(vec![])));
    assert_eq!(state.request(), Some(Request::PullRequests(vec![])));
    let state = state.step(Answer::PullRequests(vec![]));
    assert_eq!(state.request(), Some(Request::PullRequestIssues(vec![])));
    let state = state.step(Answer::PullRequestIssues(vec![]));
    assert_eq!(state.request(), Some(Request::Issues(vec![])));
    let state = state.step(Answer::Issues(vec![]));
    assert_eq!(
        state.outcome(),
        Some(Ok(Changelog { commits: vec![], pull_requests: vec![], issues: vec![] }))
    );
}

#[test]
fn a_failed_commit_listing_ends_the_aggregation() {
    let state = Changelog::get_changelog_from_range(range()).step(Answer::Commits(Err(failure("commits"))));
    assert_eq!(state, Aggregation::Failed { error: failure("commits") });
    assert_eq!(state.request(), None);
    assert_eq!(state.outcome(), Some(Err(failure("commits"))));
}

#[test]
fn one_failed_branch_ends_the_aggregation_at_each_stage() {
    let state = listing_pull_requests().step(Answer::PullRequests(vec![
        Ok(vec![pull_request(1)]),
        Err(failure("pull requests of c2")),
    ]));
    assert_eq!(state, Aggregation::Failed { error: failure("pull requests of c2") });

    let state = listing_issues().step(Answer::PullRequestIssues(vec![
        Err(failure("issues of 1")),
        Err(failure("issues of 2")),
    ]));
    assert_eq!(state, Aggregation::Failed { error: failure("issues of 1") });

    let state = fetching_issues().step(Answer::Issues(vec![
        Ok(issue("ISSUE-1")),
        Err(failure("ISSUE-2")),
    ]));
    assert_eq!(state.outcome(), Some(Err(failure("ISSUE-2"))));
}

#[test]
fn an_answer_to_another_request_ends_the_aggregation() {
    let unexpected = Aggregation::Failed { error: ChangelogError::UnexpectedAnswer };
    assert_eq!(Changelog::get_changelog_from_range(range()).step(Answer::Issues(vec![])), unexpected);
    assert_eq!(listing_pull_requests().step(Answer::Commits(Ok(vec![]))), unexpected);
    assert_eq!(
        listing_issues().step(Answer::PullRequests(vec![Ok(vec![]), Ok(vec![])])),
        unexpected
    );
    assert_eq!(
        fetching_issues().step(Answer::PullRequestIssues(vec![Ok(vec![]), Ok(vec![])])),
        unexpected
    );
    let resolving = Changelog::new(CommitSpecifier::Spinnaker(SpinnakerEnvironment {
        app_name: String::from("shop"),
        env: String::from("production"),
    }));
    assert_eq!(resolving.step(Answer::Commits(Ok(vec![]))), unexpected);
}

#[test]
fn an_aggregation_that_has_ended_stays_as_it_is() {
    let failed = Aggregation::Failed { error: failure("before") };
    assert_eq!(failed.clone().step(Answer::Commits(Ok(vec![commit("c1")]))), failed);
    let done = fetching_issues().step(Answer::Issues(vec![Ok(issue("ISSUE-1")), Ok(issue("ISSUE-2"))]));
    assert_eq!(done.clone().step(Answer::Issues(vec![Err(failure("late"))])), done);
}

fn production() -> SpinnakerEnvironment {
    SpinnakerEnvironment { app_name: String::from("shop"), env: String::from("production") }
}

fn version(build: u64, status: MdArtifactStatusInEnvironment, commit: &str) -> ArtifactVersion {
    ArtifactVersion {
        build_number: Some(build),
        status: Some(status),
        git_metadata: Some(GitMetadata {
            commit: Some(String::from(commit)),
            project: Some(String::from("P")),
            repo_name: Some(String::from("R")),
        }),
    }
}

fn states(versions: Vec<ArtifactVersion>) -> ResponseData {
    ResponseData {
        application: Some(Application {
            environments: vec![Environment {
                name: String::from("production"),
                state: EnvironmentState { artifacts: Some(vec![Artifact { versions: Some(versions) }]) },
            }],
        }),
    }
}

#[test]
fn an_environment_is_resolved_before_the_commits_are_listed() {
    let state = Changelog::new(CommitSpecifier::Spinnaker(production()));
    assert_eq!(state, Aggregation::Resolving { environment: production() });
    assert_eq!(
        state.request(),
        Some(Request::EnvironmentStates(Variables {
            app_name: String::from("shop"),
            environments: vec![String::from("production")],
        }))
    );
    let state = state.step(Answer::EnvironmentStates(Ok(states(vec![
        version(1, MdArtifactStatusInEnvironment::Current, "c0"),
        version(2, MdArtifactStatusInEnvironment::Pending, "c9"),
    ]))));
    assert_eq!(state, Aggregation::ListingCommits { commit_range: range() });
}

#[test]
fn an_environment_that_cannot_be_resolved_ends_the_aggregation() {
    let state = Changelog::new(CommitSpecifier::Spinnaker(production()))
        .step(Answer::EnvironmentStates(Ok(states(vec![version(1, MdArtifactStatusInEnvironment::Current, "c0")]))));
    assert_eq!(
        state,
        Aggregation::Failed {
            error: ChangelogError::NoPendingVersion {
                app_name: String::from("shop"),
                env: String::from("production"),
            }
        }
    );
    let state = Changelog::new(CommitSpecifier::Spinnaker(production()))
        .step(Answer::EnvironmentStates(Err(failure("graphql"))));
    assert_eq!(state, Aggregation::Failed { error: failure("graphql") });
    assert_eq!(
        Changelog::get_changelog_from_spinnaker(&production(), &ResponseData { application: None }),
        Aggregation::Failed { error: ChangelogError::ApplicationNotFound { app_name: String::from("shop") } }
    );
}

#[test]
fn an_answer_with_more_or_fewer_results_than_paths_ends_the_aggregation() {
    let unexpected = Aggregation::Failed { error: ChangelogError::UnexpectedAnswer };
    assert_eq!(
        listing_pull_requests().step(Answer::PullRequests(vec![Ok(vec![pull_request(1)])])),
        unexpected
    );
    assert_eq!(
        listing_pull_requests().step(Answer::PullRequests(vec![Ok(vec![]), Ok(vec![]), Ok(vec![])])),
        unexpected
    );
    assert_eq!(listing_issues().step(Answer::PullRequestIssues(vec![])), unexpected);
    assert_eq!(
        listing_issues().step(Answer::PullRequestIssues(vec![
            Ok(vec![reference("ISSUE-1")]),
            Ok(vec![]),
            Err(failure("one too many")),
        ])),
        unexpected
    );
    assert_eq!(fetching_issues().step(Answer::Issues(vec![Ok(issue("ISSUE-1"))])), unexpected);
    assert_eq!(
        fetching_issues().step(Answer::Issues(vec![
            Ok(issue("ISSUE-1")),
            Ok(issue("ISSUE-2")),
            Ok(issue("ISSUE-3")),
        ])),
        unexpected
    );
}
