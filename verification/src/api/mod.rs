//! What the upstream services are asked and what they answer.

pub mod bitbucket;
pub mod jira;
pub mod rest;
pub mod spinnaker;
