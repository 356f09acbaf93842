//! The reasons for which no changelog comes about.

use vstd::prelude::*;

verus! {

/// One of the two artifact versions that bound the commits of a deployment.
#[derive(Debug, Clone, Copy, PartialEq, Eq, Structural)]
pub enum VersionBucket {
    /// The version that is about to roll out.
    Pending,
    /// The version that is live.
    Current,
}

/// Why an aggregation, or one step of it, gave no result.
#[derive(Debug, Clone, PartialEq, Eq)]
pub enum ChangelogError {
    /// A request to an upstream service failed or its answer could not be read.
    /// `operation` names the request, `detail` says what went wrong.
    Upstream { operation: String, detail: String },
    /// The path of a request and the address of the service give no address
    /// to send the request to.
    InvalidUrl { method: String, base_url: String, url: String },
    /// A page was asked of a cursor that had served its last page.
    ExhaustedCursor,
    /// A page flagged as the last one names the start of a page after it.
    LastPageNamesNext { next_page_start: u32 },
    /// A page that is not the last one names no start for the page after it.
    MissingNextPage,
    /// A cursor was handed a page beyond the number of pages that it takes.
    PageLimitReached,
    /// An aggregation was handed an answer to a request that it had not made.
    UnexpectedAnswer,
    /// The deployment service answered the question with errors.
    QueryFailed { messages: Vec<String> },
    /// The deployment service answered the question with neither data nor
    /// errors.
    NoData,
    /// The deployment service knows no application of that name.
    ApplicationNotFound { app_name: String },
    /// The application has no environment of that name.
    EnvironmentNotFound { app_name: String, env: String },
    /// The environment reports no artifact versions: it has no artifacts, or
    /// none of them has a version.
    NoArtifactsInEnvironment { app_name: String, env: String },
    /// No artifact version of the environment is pending.
    NoPendingVersion { app_name: String, env: String },
    /// No artifact version of the environment is current.
    NoCurrentVersion { app_name: String, env: String },
    /// The latest version of the bucket carries no source-control metadata.
    MissingGitMetadata { app_name: String, env: String, bucket: VersionBucket },
    /// The latest version of the bucket names no project.
    MissingGitProject { app_name: String, env: String, bucket: VersionBucket },
    /// The latest version of the bucket names no repository.
    MissingGitRepository { app_name: String, env: String, bucket: VersionBucket },
    /// The latest version of the bucket names no commit.
    MissingGitCommit { app_name: String, env: String, bucket: VersionBucket },
}

} // verus!
