//! The changelog of a deployment, and the steps that lead to it.

use vstd::prelude::*;
use crate::api::bitbucket::{
    compare_commits_path,
    path_of_compare_commits,
    path_of_pull_request_issues,
    path_of_pull_requests,
    pull_request_issues_path,
    pull_requests_path,
    BitbucketCommit,
    BitbucketPullRequest,
    BitbucketPullRequestIssue,
};
use crate::api::jira::{issue_path, path_of_issue, JiraIssue};
use crate::api::spinnaker::{
    environment_named,
    has_versions,
    is_latest,
    latest,
    latest_version,
    lemma_latest_index,
    versions_of,
    ArtifactVersion,
    GitMetadata,
    MdArtifactStatusInEnvironment,
    MdEnvironmentStatesQuery,
    ResponseData,
    Variables,
};
use crate::error::{ChangelogError, VersionBucket};
use crate::merge::{
    all_succeeded,
    first_failure,
    gather,
    holds_once,
    lemma_first_failure_is_first,
    lemma_merged_holds_each_item_once,
    merge,
    merged,
    values_of,
};

verus! {

/// The two ways to say which commits a changelog is about.
#[derive(Debug, Clone, PartialEq, Eq)]
pub enum CommitSpecifier {
    /// The commits between the pending and the current version of an
    /// environment.
    Spinnaker(SpinnakerEnvironment),
    /// The commits of a range.
    CommitRange(GitCommitRange),
}

/// An environment of an application, by the names that the deployment service
/// knows them under.
#[derive(Debug, Clone, PartialEq, Eq)]
pub struct SpinnakerEnvironment {
    pub app_name: String,
    pub env: String,
}

/// A range of commits in one repository of one project.
#[derive(Debug, Clone, PartialEq, Eq)]
pub struct GitCommitRange {
    pub project: String,
    pub repo: String,
    pub start_commit: String,
    pub end_commit: String,
}

/// The commits of a range, the pull requests that hold them and the issues
/// that those refer to.
#[derive(Debug, Clone, PartialEq, Eq)]
pub struct Changelog {
    pub commits: Vec<BitbucketCommit>,
    pub pull_requests: Vec<BitbucketPullRequest>,
    pub issues: Vec<JiraIssue>,
}

impl GitCommitRange {
    /// The project, the repository and the commit that the metadata of a latest
    /// version carries, or the first of the three that is missing, in that
    /// order.
    pub open spec fn carried(
        environment: SpinnakerEnvironment,
        metadata: GitMetadata,
        bucket: VersionBucket,
    ) -> Result<(String, String, String), ChangelogError> {
        let app_name = environment.app_name;
        let env = environment.env;
        match (metadata.project, metadata.repo_name, metadata.commit) {
            (None, _, _) => Err(ChangelogError::MissingGitProject { app_name, env, bucket }),
            (Some(_), None, _) => Err(ChangelogError::MissingGitRepository { app_name, env, bucket }),
            (Some(_), Some(_), None) => Err(ChangelogError::MissingGitCommit { app_name, env, bucket }),
            (Some(project), Some(repo), Some(commit)) => Ok((project, repo, commit)),
        }
    }

    /// The range from the commit of the pending version to the commit of the
    /// current one, in the project and repository of the pending version; or
    /// the first thing that is missing. Each of the two versions must carry
    /// metadata, and in it a project, a repository and a commit. What is looked
    /// for first is the metadata of the pending version, then that of the
    /// current one, then the three fields of the pending version, then those of
    /// the current one.
    pub open spec fn spanning(
        environment: SpinnakerEnvironment,
        pending: ArtifactVersion,
        current: ArtifactVersion,
    ) -> Result<GitCommitRange, ChangelogError> {
        let app_name = environment.app_name;
        let env = environment.env;
        match (pending.git_metadata, current.git_metadata) {
            (None, _) => Err(
                ChangelogError::MissingGitMetadata { app_name, env, bucket: VersionBucket::Pending },
            ),
            (Some(_), None) => Err(
                ChangelogError::MissingGitMetadata { app_name, env, bucket: VersionBucket::Current },
            ),
            (Some(from), Some(to)) => match (
                Self::carried(environment, from, VersionBucket::Pending),
                Self::carried(environment, to, VersionBucket::Current),
            ) {
                (Err(error), _) => Err(error),
                (Ok(_), Err(error)) => Err(error),
                (Ok(source), Ok(target)) => Ok(
                    GitCommitRange {
                        project: source.0,
                        repo: source.1,
                        start_commit: source.2,
                        end_commit: target.2,
                    },
                ),
            },
        }
    }

    /// The project, the repository and the commit that the metadata of a latest
    /// version carries, or the first of the three that is missing.
    pub fn carries(environment: &SpinnakerEnvironment, metadata: &GitMetadata, bucket: VersionBucket) -> (outcome:
        Result<(String, String, String), ChangelogError>)
        ensures
            outcome == Self::carried(*environment, *metadata, bucket),
    {
        let project = match &metadata.project {
            Some(project) => project.clone(),
            None => {
                return Err(
                    ChangelogError::MissingGitProject {
                        app_name: environment.app_name.clone(),
                        env: environment.env.clone(),
                        bucket,
                    },
                );
            },
        };
        let repo = match &metadata.repo_name {
            Some(repo) => repo.clone(),
            None => {
                return Err(
                    ChangelogError::MissingGitRepository {
                        app_name: environment.app_name.clone(),
                        env: environment.env.clone(),
                        bucket,
                    },
                );
            },
        };
        let commit = match &metadata.commit {
            Some(commit) => commit.clone(),
            None => {
                return Err(
                    ChangelogError::MissingGitCommit {
                        app_name: environment.app_name.clone(),
                        env: environment.env.clone(),
                        bucket,
                    },
                );
            },
        };
        Ok((project, repo, commit))
    }

    /// The range of commits that lies between the latest pending and the
    /// latest current version of an environment.
    pub fn between(
        environment: &SpinnakerEnvironment,
        pending: &ArtifactVersion,
        current: &ArtifactVersion,
    ) -> (outcome: Result<GitCommitRange, ChangelogError>)
        ensures
            outcome == Self::spanning(*environment, *pending, *current),
    {
        let from = match &pending.git_metadata {
            Some(from) => from,
            None => {
                return Err(
                    ChangelogError::MissingGitMetadata {
                        app_name: environment.app_name.clone(),
                        env: environment.env.clone(),
                        bucket: VersionBucket::Pending,
                    },
                );
            },
        };
        let to = match &current.git_metadata {
            Some(to) => to,
            None => {
                return Err(
                    ChangelogError::MissingGitMetadata {
                        app_name: environment.app_name.clone(),
                        env: environment.env.clone(),
                        bucket: VersionBucket::Current,
                    },
                );
            },
        };
        let (project, repo, start_commit) = match Self::carries(
            environment,
            from,
            VersionBucket::Pending,
        ) {
            Ok(source) => source,
            Err(error) => {
                return Err(error);
            },
        };
        let end_commit = match Self::carries(environment, to, VersionBucket::Current) {
            Ok(target) => target.2,
            Err(error) => {
                return Err(error);
            },
        };
        Ok(GitCommitRange { project, repo, start_commit, end_commit })
    }
}

impl SpinnakerEnvironment {
    /// The range of commits that the state of the environment stands for, or
    /// the first reason why it stands for none: the application is unknown,
    /// it has no environment of this name, the environment reports no
    /// artifact versions (no artifacts, or artifacts without a version), none
    /// of the versions is pending, none is current, or the latest of either
    /// lacks what `GitCommitRange::spanning` asks for.
    pub open spec fn resolution(self, env_states: ResponseData) -> Result<
        GitCommitRange,
        ChangelogError,
    > {
        let app_name = self.app_name;
        let env = self.env;
        match env_states.application {
            None => Err(ChangelogError::ApplicationNotFound { app_name }),
            Some(application) => match environment_named(application.environments@, env@) {
                None => Err(ChangelogError::EnvironmentNotFound { app_name, env }),
                Some(environment) => match environment.state.artifacts {
                    None => Err(ChangelogError::NoArtifactsInEnvironment { app_name, env }),
                    Some(artifacts) => {
                        let versions = versions_of(artifacts@);
                        if versions.len() == 0 {
                            Err(ChangelogError::NoArtifactsInEnvironment { app_name, env })
                        } else {
                            match (
                                latest(versions, MdArtifactStatusInEnvironment::Pending),
                                latest(versions, MdArtifactStatusInEnvironment::Current),
                            ) {
                                (None, _) => Err(ChangelogError::NoPendingVersion { app_name, env }),
                                (Some(_), None) => Err(
                                    ChangelogError::NoCurrentVersion { app_name, env },
                                ),
                                (Some(pending), Some(current)) => GitCommitRange::spanning(
                                    self,
                                    pending,
                                    current,
                                ),
                            }
                        }
                    },
                },
            },
        }
    }

    /// Resolves the environment to a range of commits, from the answer of the
    /// deployment service to the question for its state: from the commit of
    /// the latest pending version to the commit of the latest current one.
    pub fn commit_range(&self, env_states: &ResponseData) -> (outcome: Result<
        GitCommitRange,
        ChangelogError,
    >)
        ensures
            outcome == self.resolution(*env_states),
    {
        let application = match &env_states.application {
            Some(application) => application,
            None => {
                return Err(ChangelogError::ApplicationNotFound { app_name: self.app_name.clone() });
            },
        };
        let environment = match application.environment(&self.env) {
            Some(environment) => environment,
            None => {
                return Err(
                    ChangelogError::EnvironmentNotFound {
                        app_name: self.app_name.clone(),
                        env: self.env.clone(),
                    },
                );
            },
        };
        let artifacts = match &environment.state.artifacts {
            Some(artifacts) => artifacts,
            None => {
                return Err(
                    ChangelogError::NoArtifactsInEnvironment {
                        app_name: self.app_name.clone(),
                        env: self.env.clone(),
                    },
                );
            },
        };
        if !has_versions(artifacts) {
            return Err(
                ChangelogError::NoArtifactsInEnvironment {
                    app_name: self.app_name.clone(),
                    env: self.env.clone(),
                },
            );
        }
        let pending = match latest_version(artifacts, MdArtifactStatusInEnvironment::Pending) {
            Some(pending) => pending,
            None => {
                return Err(
                    ChangelogError::NoPendingVersion {
                        app_name: self.app_name.clone(),
                        env: self.env.clone(),
                    },
                );
            },
        };
        let current = match latest_version(artifacts, MdArtifactStatusInEnvironment::Current) {
            Some(current) => current,
            None => {
                return Err(
                    ChangelogError::NoCurrentVersion {
                        app_name: self.app_name.clone(),
                        env: self.env.clone(),
                    },
                );
            },
        };
        GitCommitRange::between(self, pending, current)
    }
}

/// How far an aggregation has come. All but the last two wait for the answer
/// to a request.
#[derive(Debug, Clone, PartialEq, Eq)]
pub enum Aggregation {
    /// The state of the environment is asked for.
    Resolving { environment: SpinnakerEnvironment },
    /// The commits of the range are asked for.
    ListingCommits { commit_range: GitCommitRange },
    /// The pull requests that hold each of the commits are asked for.
    ListingPullRequests { commit_range: GitCommitRange, commits: Vec<BitbucketCommit> },
    /// The issues that each of the pull requests refers to are asked for.
    ListingIssues {
        commit_range: GitCommitRange,
        commits: Vec<BitbucketCommit>,
        pull_requests: Vec<BitbucketPullRequest>,
    },
    /// Each of the issues referred to is asked for.
    FetchingIssues {
        commits: Vec<BitbucketCommit>,
        pull_requests: Vec<BitbucketPullRequest>,
        pull_request_issues: Vec<BitbucketPullRequestIssue>,
    },
    /// The changelog is complete.
    Done { changelog: Changelog },
    /// A step failed, and nothing of what came before it is kept.
    Failed { error: ChangelogError },
}

/// What an aggregation asks for next. Where it holds several paths, each is a
/// request of its own, and they can be made in any order or at once.
#[derive(Debug, Clone, PartialEq, Eq)]
pub enum Request {
    /// The state of one environment, from the deployment service.
    EnvironmentStates(Variables),
    /// All pages of the collection of commits under the path.
    Commits(String),
    /// All pages of the collection of pull requests under each path: one path
    /// for each commit.
    PullRequests(Vec<String>),
    /// The issues listed under each path: one path for each pull request.
    PullRequestIssues(Vec<String>),
    /// The issue under each path: one path for each issue.
    Issues(Vec<String>),
}

/// What came back for a request: for one of several paths, one result for
/// each path, in the order of the paths.
#[derive(Debug, PartialEq, Eq)]
pub enum Answer {
    EnvironmentStates(Result<ResponseData, ChangelogError>),
    Commits(Result<Vec<BitbucketCommit>, ChangelogError>),
    PullRequests(Vec<Result<Vec<BitbucketPullRequest>, ChangelogError>>),
    PullRequestIssues(Vec<Result<Vec<BitbucketPullRequestIssue>, ChangelogError>>),
    Issues(Vec<Result<JiraIssue, ChangelogError>>),
}

impl Aggregation {
    /// Whether the aggregation has come to its end, one way or the other.
    pub open spec fn settled(self) -> bool {
        self is Done || self is Failed
    }

    /// The number of answers that the aggregation takes at most before it comes
    /// to its end.
    pub open spec fn steps_left(self) -> nat {
        match self {
            Aggregation::Resolving { .. } => 5,
            Aggregation::ListingCommits { .. } => 4,
            Aggregation::ListingPullRequests { .. } => 3,
            Aggregation::ListingIssues { .. } => 2,
            Aggregation::FetchingIssues { .. } => 1,
            Aggregation::Done { .. } | Aggregation::Failed { .. } => 0,
        }
    }

    /// Whether `request` is what the aggregation asks for in this state.
    pub open spec fn asks(self, request: Request) -> bool {
        match self {
            Aggregation::Resolving { environment } => {
                &&& request matches Request::EnvironmentStates(variables)
                &&& variables.app_name == environment.app_name
                &&& variables.environments@ == seq![environment.env]
            },
            Aggregation::ListingCommits { commit_range } => {
                &&& request matches Request::Commits(path)
                &&& path@ == path_of_compare_commits(
                    commit_range.project@,
                    commit_range.repo@,
                    commit_range.start_commit@,
                    commit_range.end_commit@,
                )
            },
            Aggregation::ListingPullRequests { commit_range, commits } => {
                &&& request matches Request::PullRequests(paths)
                &&& paths@.len() == commits@.len()
                &&& forall|i: int|
                    0 <= i < paths@.len() ==> (#[trigger] paths@[i])@ == path_of_pull_requests(
                        commit_range.project@,
                        commit_range.repo@,
                        commits@[i].id@,
                    )
            },
            Aggregation::ListingIssues { commit_range, pull_requests, .. } => {
                &&& request matches Request::PullRequestIssues(paths)
                &&& paths@.len() == pull_requests@.len()
                &&& forall|i: int|
                    0 <= i < paths@.len() ==> (#[trigger] paths@[i])@ == path_of_pull_request_issues(
                        commit_range.project@,
                        commit_range.repo@,
                        pull_requests@[i].id,
                    )
            },
            Aggregation::FetchingIssues { pull_request_issues, .. } => {
                &&& request matches Request::Issues(paths)
                &&& paths@.len() == pull_request_issues@.len()
                &&& forall|i: int|
                    0 <= i < paths@.len() ==> (#[trigger] paths@[i])@ == path_of_issue(
                        pull_request_issues@[i].key@,
                    )
            },
            Aggregation::Done { .. } | Aggregation::Failed { .. } => false,
        }
    }

    /// What the aggregation asks for next, if it has not come to its end.
    pub fn request(&self) -> (request: Option<Request>)
        ensures
            request is None <==> self.settled(),
            request matches Some(asked) ==> self.asks(asked),
    {
        match self {
            Aggregation::Resolving { environment } => Some(
                Request::EnvironmentStates(
                    MdEnvironmentStatesQuery::variables(&environment.app_name, &environment.env),
                ),
            ),
            Aggregation::ListingCommits { commit_range } => Some(
                Request::Commits(
                    compare_commits_path(
                        commit_range.project.as_str(),
                        commit_range.repo.as_str(),
                        commit_range.start_commit.as_str(),
                        commit_range.end_commit.as_str(),
                    ),
                ),
            ),
            Aggregation::ListingPullRequests { commit_range, commits } => {
                let mut paths: Vec<String> = Vec::new();
                let mut i: usize = 0;
                while i < commits.len()
                    invariant
                        i <= commits.len(),
                        paths@.len() == i,
                        forall|k: int|
                            0 <= k < i ==> (#[trigger] paths@[k])@ == path_of_pull_requests(
                                commit_range.project@,
                                commit_range.repo@,
                                commits@[k].id@,
                            ),
                    decreases commits.len() - i,
                {
                    paths.push(
                        pull_requests_path(
                            commit_range.project.as_str(),
                            commit_range.repo.as_str(),
                            commits[i].id.as_str(),
                        ),
                    );
                    i += 1;
                }
                Some(Request::PullRequests(paths))
            },
            Aggregation::ListingIssues { commit_range, pull_requests, .. } => {
                let mut paths: Vec<String> = Vec::new();
                let mut i: usize = 0;
                while i < pull_requests.len()
                    invariant
                        i <= pull_requests.len(),
                        paths@.len() == i,
                        forall|k: int|
                            0 <= k < i ==> (#[trigger] paths@[k])@ == path_of_pull_request_issues(
                                commit_range.project@,
                                commit_range.repo@,
                                pull_requests@[k].id,
                            ),
                    decreases pull_requests.len() - i,
                {
                    paths.push(
                        pull_request_issues_path(
                            commit_range.project.as_str(),
                            commit_range.repo.as_str(),
                            pull_requests[i].id,
                        ),
                    );
                    i += 1;
                }
                Some(Request::PullRequestIssues(paths))
            },
            Aggregation::FetchingIssues { pull_request_issues, .. } => {
                let mut paths: Vec<String> = Vec::new();
                let mut i: usize = 0;
                while i < pull_request_issues.len()
                    invariant
                        i <= pull_request_issues.len(),
                        paths@.len() == i,
                        forall|k: int|
                            0 <= k < i ==> (#[trigger] paths@[k])@ == path_of_issue(
                                pull_request_issues@[k].key@,
                            ),
                    decreases pull_request_issues.len() - i,
                {
                    paths.push(issue_path(pull_request_issues[i].key.as_str()));
                    i += 1;
                }
                Some(Request::Issues(paths))
            },
            Aggregation::Done { .. } => None,
            Aggregation::Failed { .. } => None,
        }
    }

    /// Whether `after` is the state that follows this one on that answer.
    ///
    /// An answer to another request than the one the state asks for, or one
    /// that holds more or fewer results than the request has paths, ends the
    /// aggregation with `UnexpectedAnswer`. An answer that fails, or one branch
    /// of it that does, ends it with that error. An aggregation that has come
    /// to its end stays as it is.
    pub open spec fn leads_to(self, answer: Answer, after: Aggregation) -> bool {
        match (self, answer) {
            (Aggregation::Done { .. }, _) | (Aggregation::Failed { .. }, _) => after == self,
            (Aggregation::Resolving { environment }, Answer::EnvironmentStates(Ok(env_states))) => {
                match environment.resolution(env_states) {
                    Ok(commit_range) => after == (Aggregation::ListingCommits { commit_range }),
                    Err(error) => after == (Aggregation::Failed { error }),
                }
            },
            (Aggregation::Resolving { .. }, Answer::EnvironmentStates(Err(error))) => after == (
            Aggregation::Failed { error }),
            (Aggregation::ListingCommits { commit_range }, Answer::Commits(Ok(listed))) => {
                &&& after matches Aggregation::ListingPullRequests { commit_range: range, commits }
                &&& range == commit_range
                &&& commits@ == listed@
            },
            (Aggregation::ListingCommits { .. }, Answer::Commits(Err(error))) => after == (
            Aggregation::Failed { error }),
            (
                Aggregation::ListingPullRequests { commit_range, commits },
                Answer::PullRequests(results),
            ) => if results@.len() != commits@.len() {
                after == (Aggregation::Failed { error: ChangelogError::UnexpectedAnswer })
            } else {
                match merged(results@) {
                    Ok(unique) => {
                        &&& after matches Aggregation::ListingIssues {
                            commit_range: range,
                            commits: kept,
                            pull_requests,
                        }
                        &&& range == commit_range
                        &&& kept@ == commits@
                        &&& pull_requests@ == unique
                    },
                    Err(error) => after == (Aggregation::Failed { error }),
                }
            },
            (
                Aggregation::ListingIssues { commits, pull_requests, .. },
                Answer::PullRequestIssues(results),
            ) => if results@.len() != pull_requests@.len() {
                after == (Aggregation::Failed { error: ChangelogError::UnexpectedAnswer })
            } else {
                match merged(results@) {
                    Ok(unique) => {
                        &&& after matches Aggregation::FetchingIssues {
                            commits: kept,
                            pull_requests: requests,
                            pull_request_issues,
                        }
                        &&& kept@ == commits@
                        &&& requests@ == pull_requests@
                        &&& pull_request_issues@ == unique
                    },
                    Err(error) => after == (Aggregation::Failed { error }),
                }
            },
            (
                Aggregation::FetchingIssues { commits, pull_requests, pull_request_issues },
                Answer::Issues(results),
            ) => if results@.len() != pull_request_issues@.len() {
                after == (Aggregation::Failed { error: ChangelogError::UnexpectedAnswer })
            } else {
                match first_failure(results@) {
                    Some(error) => after == (Aggregation::Failed { error }),
                    None => {
                        &&& after matches Aggregation::Done { changelog }
                        &&& changelog.commits@ == commits@
                        &&& changelog.pull_requests@ == pull_requests@
                        &&& changelog.issues@ == values_of(results@)
                    },
                }
            },
            _ => after == (Aggregation::Failed { error: ChangelogError::UnexpectedAnswer }),
        }
    }

    /// Takes the answer to the request that the aggregation made, and moves on
    /// to the state that follows.
    pub fn step(self, answer: Answer) -> (after: Aggregation)
        ensures
            self.leads_to(answer, after),
            !self.settled() ==> after.steps_left() < self.steps_left(),
    {
        match self {
            Aggregation::Done { changelog } => Aggregation::Done { changelog },
            Aggregation::Failed { error } => Aggregation::Failed { error },
            Aggregation::Resolving { environment } => match answer {
                Answer::EnvironmentStates(Ok(env_states)) => Changelog::get_changelog_from_spinnaker(
                    &environment,
                    &env_states,
                ),
                Answer::EnvironmentStates(Err(error)) => Aggregation::Failed { error },
                _ => Aggregation::Failed { error: ChangelogError::UnexpectedAnswer },
            },
            Aggregation::ListingCommits { commit_range } => match answer {
                Answer::Commits(Ok(commits)) => Aggregation::ListingPullRequests {
                    commit_range,
                    commits,
                },
                Answer::Commits(Err(error)) => Aggregation::Failed { error },
                _ => Aggregation::Failed { error: ChangelogError::UnexpectedAnswer },
            },
            Aggregation::ListingPullRequests { commit_range, commits } => match answer {
                Answer::PullRequests(results) => if results.len() != commits.len() {
                    Aggregation::Failed { error: ChangelogError::UnexpectedAnswer }
                } else {
                    match merge(results) {
                        Ok(pull_requests) => Aggregation::ListingIssues {
                            commit_range,
                            commits,
                            pull_requests,
                        },
                        Err(error) => Aggregation::Failed { error },
                    }
                },
                _ => Aggregation::Failed { error: ChangelogError::UnexpectedAnswer },
            },
            Aggregation::ListingIssues { commit_range, commits, pull_requests } => match answer {
                Answer::PullRequestIssues(results) => if results.len() != pull_requests.len() {
                    Aggregation::Failed { error: ChangelogError::UnexpectedAnswer }
                } else {
                    match merge(results) {
                        Ok(pull_request_issues) => Aggregation::FetchingIssues {
                            commits,
                            pull_requests,
                            pull_request_issues,
                        },
                        Err(error) => Aggregation::Failed { error },
                    }
                },
                _ => Aggregation::Failed { error: ChangelogError::UnexpectedAnswer },
            },
            Aggregation::FetchingIssues { commits, pull_requests, pull_request_issues } => match answer {
                Answer::Issues(results) => if results.len() != pull_request_issues.len() {
                    Aggregation::Failed { error: ChangelogError::UnexpectedAnswer }
                } else {
                    match gather(results) {
                        Ok(issues) => Aggregation::Done {
                            changelog: Changelog { commits, pull_requests, issues },
                        },
                        Err(error) => Aggregation::Failed { error },
                    }
                },
                _ => Aggregation::Failed { error: ChangelogError::UnexpectedAnswer },
            },
        }
    }

    /// What the aggregation came to, if it has come to its end.
    pub fn outcome(self) -> (outcome: Option<Result<Changelog, ChangelogError>>)
        ensures
            outcome == match self {
                Aggregation::Done { changelog } => Some(Ok::<Changelog, ChangelogError>(changelog)),
                Aggregation::Failed { error } => Some(Err::<Changelog, ChangelogError>(error)),
                _ => None,
            },
    {
        match self {
            Aggregation::Done { changelog } => Some(Ok(changelog)),
            Aggregation::Failed { error } => Some(Err(error)),
            _ => None,
        }
    }
}

impl Changelog {
    /// Starts the aggregation for the commits that the specifier stands for:
    /// with the question for the state of the environment where it names one,
    /// and with the commits of the range where it gives one.
    pub fn new(commit_specifier: CommitSpecifier) -> (start: Aggregation)
        ensures
            start == match commit_specifier {
                CommitSpecifier::Spinnaker(environment) => Aggregation::Resolving { environment },
                CommitSpecifier::CommitRange(commit_range) => Aggregation::ListingCommits {
                    commit_range,
                },
            },
    {
        match commit_specifier {
            CommitSpecifier::Spinnaker(environment) => Aggregation::Resolving { environment },
            CommitSpecifier::CommitRange(commit_range) => Self::get_changelog_from_range(commit_range),
        }
    }

    /// Goes on from the state of the environment: to the commits of the range
    /// it stands for, or to the end where it stands for none.
    pub fn get_changelog_from_spinnaker(
        spinnaker_env: &SpinnakerEnvironment,
        env_states: &ResponseData,
    ) -> (next: Aggregation)
        ensures
            next == match spinnaker_env.resolution(*env_states) {
                Ok(commit_range) => Aggregation::ListingCommits { commit_range },
                Err(error) => Aggregation::Failed { error },
            },
    {
        match spinnaker_env.commit_range(env_states) {
            Ok(commit_range) => Self::get_changelog_from_range(commit_range),
            Err(error) => Aggregation::Failed { error },
        }
    }

    /// Starts the aggregation for the commits of a range.
    pub fn get_changelog_from_range(commit_range: GitCommitRange) -> (start: Aggregation)
        ensures
            start == (Aggregation::ListingCommits { commit_range }),
    {
        Aggregation::ListingCommits { commit_range }
    }
}

/// Whether the answer holds a failure: it is one, or one of its branches is.
pub open spec fn holds_failure(answer: Answer) -> bool {
    match answer {
        Answer::EnvironmentStates(result) => result is Err,
        Answer::Commits(result) => result is Err,
        Answer::PullRequests(results) => !all_succeeded(results@),
        Answer::PullRequestIssues(results) => !all_succeeded(results@),
        Answer::Issues(results) => !all_succeeded(results@),
    }
}

/// An answer that holds a failure ends the aggregation in failure, however
/// many of its branches succeeded.
pub proof fn lemma_a_failure_ends_the_aggregation(before: Aggregation, answer: Answer, after: Aggregation)
    requires
        !(before is Done),
        holds_failure(answer),
        before.leads_to(answer, after),
    ensures
        after is Failed,
{
    match answer {
        Answer::PullRequests(results) => {
            lemma_first_failure_is_first(results@);
        },
        Answer::PullRequestIssues(results) => {
            lemma_first_failure_is_first(results@);
        },
        Answer::Issues(results) => {
            lemma_first_failure_is_first(results@);
        },
        _ => {},
    }
}

/// A pull request that holds several of the commits is kept once: after an
/// answer that brings the pull requests of each commit, the aggregation holds
/// exactly one pull request that is the same as any that a commit brought.
pub proof fn lemma_each_pull_request_is_kept_once(
    before: Aggregation,
    results: Vec<Result<Vec<BitbucketPullRequest>, ChangelogError>>,
    after: Aggregation,
    branch: int,
    position: int,
)
    requires
        before is ListingPullRequests,
        results@.len() == before->ListingPullRequests_commits@.len(),
        all_succeeded(results@),
        before.leads_to(Answer::PullRequests(results), after),
        0 <= branch < results@.len(),
        0 <= position < results@[branch]->Ok_0@.len(),
    ensures
        after is ListingIssues,
        holds_once(after->ListingIssues_pull_requests@, results@[branch]->Ok_0@[position]@),
{
    lemma_merged_holds_each_item_once(results@, branch, position);
}

/// Each issue that a pull request refers to is asked for once, however many
/// pull requests refer to it: after the answer on the issues of the pull
/// requests, the aggregation asks for one path for each issue it holds, each
/// made of that issue's key, and holds exactly one issue of each key that a
/// pull request referred to.
pub proof fn lemma_each_issue_is_asked_for_once(
    before: Aggregation,
    results: Vec<Result<Vec<BitbucketPullRequestIssue>, ChangelogError>>,
    after: Aggregation,
    request: Request,
    branch: int,
    position: int,
)
    requires
        before is ListingIssues,
        results@.len() == before->ListingIssues_pull_requests@.len(),
        all_succeeded(results@),
        before.leads_to(Answer::PullRequestIssues(results), after),
        after.asks(request),
        0 <= branch < results@.len(),
        0 <= position < results@[branch]->Ok_0@.len(),
    ensures
        after is FetchingIssues,
        request is Issues,
        holds_once(
            after->FetchingIssues_pull_request_issues@,
            results@[branch]->Ok_0@[position].key@,
        ),
        request->Issues_0@.len() == after->FetchingIssues_pull_request_issues@.len(),
        forall|k: int|
            0 <= k < request->Issues_0@.len() ==> (#[trigger] request->Issues_0@[k])@ == path_of_issue(
                after->FetchingIssues_pull_request_issues@[k].key@,
            ),
{
    lemma_merged_holds_each_item_once(results@, branch, position);
}

/// A range that an environment resolves to runs from the commit of its latest
/// pending version to the commit of its latest current version, in the
/// project and repository of the pending one.
pub proof fn lemma_resolved_range_spans_the_latest_versions(
    environment: SpinnakerEnvironment,
    env_states: ResponseData,
)
    requires
        environment.resolution(env_states) is Ok,
    ensures
        ({
            let commit_range = environment.resolution(env_states)->Ok_0;
            let found = environment_named(env_states.application->0.environments@, environment.env@)->0;
            let versions = versions_of(found.state.artifacts->0@);
            exists|pending: int, current: int|
                {
                    &&& is_latest(versions, MdArtifactStatusInEnvironment::Pending, pending)
                    &&& is_latest(versions, MdArtifactStatusInEnvironment::Current, current)
                    &&& (#[trigger] versions[pending]).git_metadata->0.project == Some(commit_range.project)
                    &&& versions[pending].git_metadata->0.repo_name == Some(commit_range.repo)
                    &&& versions[pending].git_metadata->0.commit == Some(commit_range.start_commit)
                    &&& (#[trigger] versions[current]).git_metadata->0.commit == Some(
                        commit_range.end_commit,
                    )
                }
        }),
{
    let found = environment_named(env_states.application->0.environments@, environment.env@)->0;
    let versions = versions_of(found.state.artifacts->0@);
    lemma_latest_index(versions, MdArtifactStatusInEnvironment::Pending);
    lemma_latest_index(versions, MdArtifactStatusInEnvironment::Current);
}

/// An environment that reports versions, none of which is pending, resolves
/// to no range: the resolution fails, and with `NoPendingVersion`.
pub proof fn lemma_no_pending_version_is_reported(
    environment: SpinnakerEnvironment,
    env_states: ResponseData,
)
    requires
        env_states.application is Some,
        environment_named(env_states.application->0.environments@, environment.env@) is Some,
        environment_named(
            env_states.application->0.environments@,
            environment.env@,
        )->0.state.artifacts is Some,
        ({
            let found = environment_named(env_states.application->0.environments@, environment.env@)->0;
            let versions = versions_of(found.state.artifacts->0@);
            &&& versions.len() > 0
            &&& forall|i: int|
                0 <= i < versions.len() ==> (#[trigger] versions[i]).status != Some(
                    MdArtifactStatusInEnvironment::Pending,
                )
        }),
    ensures
        environment.resolution(env_states) == Err::<GitCommitRange, ChangelogError>(
            ChangelogError::NoPendingVersion { app_name: environment.app_name, env: environment.env },
        ),
{
    let found = environment_named(env_states.application->0.environments@, environment.env@)->0;
    let versions = versions_of(found.state.artifacts->0@);
    lemma_latest_index(versions, MdArtifactStatusInEnvironment::Pending);
}

} // verus!
