use deployment_changelog::api::bitbucket::{
    compare_commits_path, pull_request_issues_path, pull_requests_path, BitbucketEndpoints,
    BitbucketOptions,
};
use deployment_changelog::api::jira::{issue_path, JiraEndpoints};
use deployment_changelog::api::rest::{address_or_error, build_url};
use deployment_changelog::error::ChangelogError;

#[test]
fn bitbucket_endpoints_have_their_templates() {
    assert_eq!(
        BitbucketEndpoints::CompareCommits.url(),
        "rest/api/latest/projects/{projectKey}/repos/{repositorySlug}/compare/commits?from={from}&to={to}"
    );
    assert_eq!(
        BitbucketEndpoints::PullRequestsForCommit.url(),
        "rest/api/latest/projects/{projectKey}/repos/{repositorySlug}/commits/{commitId}/pull-requests"
    );
    assert_eq!(
        BitbucketEndpoints::IssuesForPullRequest.url(),
        "/rest/jira/latest/projects/{projectKey}/repos/{repositorySlug}/pull-requests/{pullRequestId}/issues"
    );
}

#[test]
fn the_page_start_option_is_called_start() {
    assert_eq!(BitbucketOptions::PageStart.option(), "start");
}

#[test]
fn jira_endpoint_has_its_template() {
    assert_eq!(JiraEndpoints::GetIssue.url(), "rest/api/latest/issue/{issueKey}");
}

#[test]
fn compare_commits_path_puts_the_values_in() {
    assert_eq!(
        compare_commits_path("PRJ", "web", "abcdef1", "0123456"),
        "rest/api/latest/projects/PRJ/repos/web/compare/commits?from=abcdef1&to=0123456"
    );
}

#[test]
fn pull_requests_path_puts_the_values_in() {
    assert_eq!(
        pull_requests_path("PRJ", "web", "abcdef1"),
        "rest/api/latest/projects/PRJ/repos/web/commits/abcdef1/pull-requests"
    );
}

#[test]
fn pull_request_issues_path_puts_the_number_in_decimal() {
    assert_eq!(
        pull_request_issues_path("PRJ", "web", 0),
        "/rest/jira/latest/projects/PRJ/repos/web/pull-requests/0/issues"
    );
    assert_eq!(
        pull_request_issues_path("PRJ", "web", 1207),
        "/rest/jira/latest/projects/PRJ/repos/web/pull-requests/1207/issues"
    );
    assert_eq!(
        pull_request_issues_path("PRJ", "web", u64::MAX),
        "/rest/jira/latest/projects/PRJ/repos/web/pull-requests/18446744073709551615/issues"
    );
}

#[test]
fn issue_path_puts_the_key_in() {
    assert_eq!(issue_path("ISSUE-1"), "rest/api/latest/issue/ISSUE-1");
    assert_eq!(issue_path(""), "rest/api/latest/issue/");
}

#[test]
fn a_value_that_holds_a_later_name_is_filled_in_too() {
    assert_eq!(
        compare_commits_path("{repositorySlug}", "web", "{to}", "b"),
        "rest/api/latest/projects/web/repos/web/compare/commits?from=b&to=b"
    );
    assert_eq!(
        pull_requests_path("PRJ", "{projectKey}", "c"),
        "rest/api/latest/projects/PRJ/repos/{projectKey}/commits/c/pull-requests"
    );
}

#[test]
fn a_path_is_joined_onto_the_place_that_the_base_names() {
    assert_eq!(
        build_url("https://bitbucket.example.org/", "rest/api/latest/issue/ISSUE-1", "GET"),
        Ok(String::from("https://bitbucket.example.org/rest/api/latest/issue/ISSUE-1"))
    );
    assert_eq!(
        build_url("https://example.org/bitbucket/", "rest/api/latest/projects/P/repos/R", "GET"),
        Ok(String::from("https://example.org/bitbucket/rest/api/latest/projects/P/repos/R"))
    );
    assert_eq!(
        build_url("https://example.org/bitbucket/index", "graphql", "POST"),
        Ok(String::from("https://example.org/bitbucket/graphql"))
    );
}

#[test]
fn a_path_that_begins_with_a_slash_counts_from_the_root() {
    assert_eq!(
        build_url("https://example.org/bitbucket/", "/rest/jira/latest/projects/P", "GET"),
        Ok(String::from("https://example.org/rest/jira/latest/projects/P"))
    );
}

#[test]
fn the_query_of_a_path_is_kept() {
    assert_eq!(
        build_url(
            "https://example.org",
            &compare_commits_path("P", "R", "c9", "c0"),
            "GET"
        ),
        Ok(String::from(
            "https://example.org/rest/api/latest/projects/P/repos/R/compare/commits?from=c9&to=c0"
        ))
    );
}

#[test]
fn a_base_that_is_no_address_gives_no_address() {
    assert_eq!(
        build_url("bitbucket", "rest/api", "GET"),
        Err(ChangelogError::InvalidUrl {
            method: String::from("GET"),
            base_url: String::from("bitbucket"),
            url: String::from("rest/api"),
        })
    );
    assert_eq!(
        build_url("mailto:ops@example.org", "rest/api", "POST"),
        Err(ChangelogError::InvalidUrl {
            method: String::from("POST"),
            base_url: String::from("mailto:ops@example.org"),
            url: String::from("rest/api"),
        })
    );
}

#[test]
fn the_address_is_taken_as_it_was_joined() {
    assert_eq!(
        address_or_error(Some(String::from("https://example.org/x")), "https://example.org", "x", "GET"),
        Ok(String::from("https://example.org/x"))
    );
    assert_eq!(
        address_or_error(None, "https://example.org", "x", "GET"),
        Err(ChangelogError::InvalidUrl {
            method: String::from("GET"),
            base_url: String::from("https://example.org"),
            url: String::from("x"),
        })
    );
}
