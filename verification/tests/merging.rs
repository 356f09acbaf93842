use deployment_changelog::api::bitbucket::{
    BitbucketAuthor, BitbucketPullRequest, BitbucketPullRequestAuthor, BitbucketPullRequestIssue,
};
use deployment_changelog::error::ChangelogError;
use deployment_changelog::merge::{distinct, flatten, gather, merge, Identified};
use deployment_changelog::time::Timestamp;

fn failure(detail: &str) -> ChangelogError {
    ChangelogError::Upstream { operation: String::from("GET"), detail: String::from(detail) }
}

fn author(name: &str) -> BitbucketAuthor {
    BitbucketAuthor {
        name: String::from(name),
        email_address: format!("{name}@example.org"),
        display_name: String::from(name),
    }
}

fn pull_request(id: u64, title: &str) -> BitbucketPullRequest {
    BitbucketPullRequest {
        id,
        title: String::from(title),
        description: String::from("what it does"),
        open: false,
        author: BitbucketPullRequestAuthor { user: author("ann"), approved: true },
        created_date: Timestamp { seconds: 1_700_000_000, nanoseconds: 0 },
        updated_date: Timestamp { seconds: 1_700_000_600, nanoseconds: 500_000_000 },
    }
}

fn issue(key: &str, url: &str) -> BitbucketPullRequestIssue {
    BitbucketPullRequestIssue { key: String::from(key), url: String::from(url) }
}

#[test]
fn gather_returns_the_values_in_the_order_of_the_branches() {
    assert_eq!(gather(vec![Ok(3), Ok(1), Ok(2)]), Ok(vec![3, 1, 2]));
    assert_eq!(gather(Vec::<Result<u8, ChangelogError>>::new()), Ok(vec![]));
}

#[test]
fn gather_fails_with_the_first_failure() {
    assert_eq!(
        gather(vec![Ok(1), Err(failure("second")), Ok(3), Err(failure("fourth"))]),
        Err(failure("second"))
    );
    assert_eq!(gather(vec![Err::<u8, _>(failure("only"))]), Err(failure("only")));
    assert_eq!(
        gather(vec![Ok(1), Ok(2), Ok(3), Ok(4), Err(ChangelogError::MissingNextPage)]),
        Err(ChangelogError::MissingNextPage)
    );
}

#[test]
fn flatten_joins_the_lists_in_order() {
    assert_eq!(flatten(vec![vec![1, 2], vec![], vec![3], vec![1]]), vec![1, 2, 3, 1]);
    assert_eq!(flatten(Vec::<Vec<u8>>::new()), Vec::<u8>::new());
}

#[test]
fn pull_requests_are_the_same_only_where_all_they_hold_is() {
    let first = pull_request(7, "Fix the build");
    assert!(first.same_as(&pull_request(7, "Fix the build")));
    assert!(first == pull_request(7, "Fix the build"));
    assert!(!first.same_as(&pull_request(8, "Fix the build")));
    assert!(!first.same_as(&pull_request(7, "Fix the build again")));
    let mut other = pull_request(7, "Fix the build");
    other.open = true;
    assert!(!first.same_as(&other));
    let mut other = pull_request(7, "Fix the build");
    other.description = String::from("what it did");
    assert!(!first.same_as(&other));
    let mut other = pull_request(7, "Fix the build");
    other.author.approved = false;
    assert!(!first.same_as(&other));
    let mut other = pull_request(7, "Fix the build");
    other.author.user.email_address = String::from("ann@example.com");
    assert!(first != other);
    let mut other = pull_request(7, "Fix the build");
    other.author.user.name = String::from("bob");
    assert!(first != other);
    let mut other = pull_request(7, "Fix the build");
    other.author.user.display_name = String::from("Ann");
    assert!(first != other);
    let mut other = pull_request(7, "Fix the build");
    other.created_date.seconds += 1;
    assert!(!first.same_as(&other));
    let mut other = pull_request(7, "Fix the build");
    other.updated_date.nanoseconds += 1;
    assert!(!first.same_as(&other));
}

#[test]
fn issue_references_are_the_same_where_their_keys_are() {
    assert!(issue("ISSUE-1", "https://a/ISSUE-1").same_as(&issue("ISSUE-1", "https://b/ISSUE-1")));
    assert!(!issue("ISSUE-1", "https://a/1").same_as(&issue("ISSUE-2", "https://a/1")));
}

#[test]
fn distinct_keeps_the_first_of_each_in_order() {
    let kept = distinct(vec![
        pull_request(2, "b"),
        pull_request(1, "a"),
        pull_request(2, "b"),
        pull_request(3, "c"),
        pull_request(1, "a"),
        pull_request(1, "a, changed"),
    ]);
    assert_eq!(
        kept,
        vec![
            pull_request(2, "b"),
            pull_request(1, "a"),
            pull_request(3, "c"),
            pull_request(1, "a, changed"),
        ]
    );
    assert_eq!(distinct(Vec::<BitbucketPullRequest>::new()), vec![]);
}

#[test]
fn distinct_issue_references_go_by_key() {
    let kept = distinct(vec![
        issue("ISSUE-1", "https://a/ISSUE-1"),
        issue("ISSUE-2", "https://a/ISSUE-2"),
        issue("ISSUE-1", "https://b/ISSUE-1"),
    ]);
    assert_eq!(kept, vec![issue("ISSUE-1", "https://a/ISSUE-1"), issue("ISSUE-2", "https://a/ISSUE-2")]);
}

#[test]
fn a_pull_request_of_two_commits_comes_out_once() {
    let merged = merge(vec![
        Ok(vec![pull_request(1, "a")]),
        Ok(vec![pull_request(1, "a"), pull_request(2, "b")]),
    ]);
    assert_eq!(merged, Ok(vec![pull_request(1, "a"), pull_request(2, "b")]));
}

#[test]
fn one_failed_branch_fails_the_merge() {
    let merged = merge(vec![
        Ok(vec![pull_request(1, "a")]),
        Ok(vec![pull_request(2, "b")]),
        Err(failure("third")),
        Ok(vec![pull_request(3, "c")]),
    ]);
    assert_eq!(merged, Err(failure("third")));
    let merged = merge(vec![
        Err::<Vec<BitbucketPullRequestIssue>, _>(failure("first")),
        Err(failure("second")),
    ]);
    assert_eq!(merged, Err(failure("first")));
}
