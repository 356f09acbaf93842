//! The issue tracker: issues and what is said on them.

use vstd::prelude::*;
use crate::text::{replace, replaced};
use crate::time::Timestamp;

verus! {

/// The requests that the issue tracker answers.
#[derive(Debug, Clone, Copy, PartialEq, Eq, Structural)]
pub enum JiraEndpoints {
    GetIssue,
}

impl JiraEndpoints {
    /// The path of the request, with a name in braces wherever a value goes.
    pub open spec fn template(self) -> Seq<char> {
        "rest/api/latest/issue/{issueKey}"@
    }

    /// The path of the request, with a name in braces wherever a value goes.
    pub fn url(&self) -> (path: &'static str)
        ensures
            path@ == self.template(),
    {
        match self {
            JiraEndpoints::GetIssue => "rest/api/latest/issue/{issueKey}",
        }
    }
}

/// The path under which the tracker serves the issue of that key.
pub open spec fn path_of_issue(issue_key: Seq<char>) -> Seq<char> {
    replaced(JiraEndpoints::GetIssue.template(), "{issueKey}"@, issue_key)
}

/// The path under which the tracker serves the issue of that key.
pub fn issue_path(issue_key: &str) -> (path: String)
    ensures
        path@ == path_of_issue(issue_key@),
{
    proof {
        reveal_strlit("{issueKey}");
    }
    replace(JiraEndpoints::GetIssue.url(), "{issueKey}", issue_key)
}

/// An issue. Its `key` is what it is known by and what it is asked for by.
#[derive(Debug, Clone, PartialEq, Eq, Hash)]
pub struct JiraIssue {
    pub key: String,
    pub fields: JiraIssueFields,
}

/// What an issue says of itself.
#[derive(Debug, Clone, PartialEq, Eq, Hash)]
pub struct JiraIssueFields {
    pub summary: String,
    pub description: Option<String>,
    pub comment: Comments,
    pub created: Timestamp,
    pub updated: Timestamp,
}

/// The comments on an issue, oldest first.
#[derive(Debug, Clone, PartialEq, Eq, Hash)]
pub struct Comments {
    pub comments: Vec<Comment>,
}

/// One comment on an issue.
#[derive(Debug, Clone, PartialEq, Eq, Hash)]
pub struct Comment {
    pub author: JiraAuthor,
    pub body: String,
    pub created: Timestamp,
    pub updated: Timestamp,
}

/// Who wrote a comment.
#[derive(Debug, Clone, PartialEq, Eq, Hash)]
pub struct JiraAuthor {
    pub name: String,
    pub key: String,
    pub display_name: String,
}

} // verus!
