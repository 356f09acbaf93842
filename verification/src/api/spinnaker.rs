//! The deployment service: which versions of which artifacts an environment of
//! an application holds, and in what state.

use vstd::prelude::*;
use crate::error::ChangelogError;
use crate::text::{number_of, parse_number};

verus! {

/// The question for the state of environments of an application.
#[derive(Debug, Clone, Copy, PartialEq, Eq, Structural)]
pub struct MdEnvironmentStatesQuery;

impl MdEnvironmentStatesQuery {
    /// What to ask with for the state of one environment of an application:
    /// the application's name and that environment's name, alone.
    pub fn variables(app_name: &String, env: &String) -> (variables: Variables)
        ensures
            variables.app_name == *app_name,
            variables.environments@ == seq![*env],
    {
        let mut environments: Vec<String> = Vec::new();
        environments.push(env.clone());
        Variables { app_name: app_name.clone(), environments }
    }
}

/// What the question for the state of environments is asked with.
#[derive(Debug, Clone, PartialEq, Eq)]
pub struct Variables {
    pub app_name: String,
    pub environments: Vec<String>,
}

/// The stage of its life in an environment that an artifact version is in.
#[derive(Debug, Clone, Copy, PartialEq, Eq, Hash, Structural)]
pub enum MdArtifactStatusInEnvironment {
    /// About to roll out.
    Pending,
    Approved,
    Deploying,
    /// Live now.
    Current,
    Previous,
    Vetoed,
    Skipped,
    /// A stage that this library has no name for.
    Other,
}

/// Where in source control an artifact version was built from.
#[derive(Debug, Clone, PartialEq, Eq, Hash)]
pub struct GitMetadata {
    pub commit: Option<String>,
    pub project: Option<String>,
    pub repo_name: Option<String>,
}

/// One version of an artifact in an environment.
#[derive(Debug, Clone, PartialEq, Eq, Hash)]
pub struct ArtifactVersion {
    pub build_number: Option<u64>,
    pub status: Option<MdArtifactStatusInEnvironment>,
    pub git_metadata: Option<GitMetadata>,
}

/// An artifact and the versions of it that the environment knows.
#[derive(Debug, Clone, PartialEq, Eq, Hash)]
pub struct Artifact {
    pub versions: Option<Vec<ArtifactVersion>>,
}

/// What an environment holds.
#[derive(Debug, Clone, PartialEq, Eq, Hash)]
pub struct EnvironmentState {
    pub artifacts: Option<Vec<Artifact>>,
}

/// An environment of an application.
#[derive(Debug, Clone, PartialEq, Eq, Hash)]
pub struct Environment {
    pub name: String,
    pub state: EnvironmentState,
}

/// An application and those of its environments that were asked for.
#[derive(Debug, Clone, PartialEq, Eq, Hash)]
pub struct Application {
    pub environments: Vec<Environment>,
}

/// The answer to the question for the state of environments. It holds no
/// application where the service knows none of that name.
#[derive(Debug, Clone, PartialEq, Eq, Hash)]
pub struct ResponseData {
    pub application: Option<Application>,
}

/// The place of a build number among build numbers: a version without one
/// comes before every version that has one.
pub open spec fn build_rank(build_number: Option<u64>) -> int {
    match build_number {
        None => -1,
        Some(number) => number as int,
    }
}

/// The versions of all the artifacts, artifact after artifact.
pub open spec fn versions_of(artifacts: Seq<Artifact>) -> Seq<ArtifactVersion>
    decreases artifacts.len(),
{
    if artifacts.len() == 0 {
        Seq::empty()
    } else {
        match artifacts.last().versions {
            Some(versions) => versions_of(artifacts.drop_last()) + versions@,
            None => versions_of(artifacts.drop_last()),
        }
    }
}

/// Whether the version at `index` is the latest of those in that stage: it is
/// in the stage, no version in the stage has a greater build number, and of
/// those that have the same it comes last.
pub open spec fn is_latest(
    versions: Seq<ArtifactVersion>,
    status: MdArtifactStatusInEnvironment,
    index: int,
) -> bool {
    &&& 0 <= index < versions.len()
    &&& versions[index].status == Some(status)
    &&& forall|other: int|
        0 <= other < versions.len() && (#[trigger] versions[other]).status == Some(status)
            ==> build_rank(versions[other].build_number) <= build_rank(
            versions[index].build_number,
        )
    &&& forall|other: int|
        index < other < versions.len() && (#[trigger] versions[other]).status == Some(status)
            ==> build_rank(versions[other].build_number) < build_rank(
            versions[index].build_number,
        )
}

/// Where the latest version in that stage stands, if any version is in it.
pub open spec fn latest_index(
    versions: Seq<ArtifactVersion>,
    status: MdArtifactStatusInEnvironment,
) -> Option<int>
    decreases versions.len(),
{
    if versions.len() == 0 {
        None
    } else {
        let earlier = latest_index(versions.drop_last(), status);
        let last = versions.len() - 1;
        if versions[last].status != Some(status) {
            earlier
        } else {
            match earlier {
                Some(index) if build_rank(versions[index].build_number) > build_rank(
                    versions[last].build_number,
                ) => earlier,
                _ => Some(last),
            }
        }
    }
}

/// The latest version in that stage, if any version is in it.
pub open spec fn latest(
    versions: Seq<ArtifactVersion>,
    status: MdArtifactStatusInEnvironment,
) -> Option<ArtifactVersion> {
    match latest_index(versions, status) {
        Some(index) => Some(versions[index]),
        None => None,
    }
}

/// `latest_index` names the latest version in the stage where there is one in
/// it, and names none only where no version is in the stage.
pub proof fn lemma_latest_index(
    versions: Seq<ArtifactVersion>,
    status: MdArtifactStatusInEnvironment,
)
    ensures
        match latest_index(versions, status) {
            Some(index) => is_latest(versions, status, index),
            None => forall|other: int|
                0 <= other < versions.len() ==> (#[trigger] versions[other]).status != Some(
                    status,
                ),
        },
    decreases versions.len(),
{
    if versions.len() > 0 {
        lemma_latest_index(versions.drop_last(), status);
        match latest_index(versions, status) {
            Some(index) => {
                assert forall|other: int|
                    0 <= other < versions.len() && (#[trigger] versions[other]).status == Some(
                        status,
                    ) implies build_rank(versions[other].build_number) <= build_rank(
                    versions[index].build_number,
                ) by {
                    if other < versions.len() - 1 {
                        assert(versions.drop_last()[other] == versions[other]);
                    }
                }
                assert forall|other: int|
                    index < other < versions.len() && (#[trigger] versions[other]).status == Some(
                        status,
                    ) implies build_rank(versions[other].build_number) < build_rank(
                    versions[index].build_number,
                ) by {
                    if other < versions.len() - 1 {
                        assert(versions.drop_last()[other] == versions[other]);
                    }
                }
            },
            None => {
                assert forall|other: int| 0 <= other < versions.len() implies (
                #[trigger] versions[other]).status != Some(status) by {
                    if other < versions.len() - 1 {
                        assert(versions.drop_last()[other] == versions[other]);
                    }
                }
            },
        }
    }
}

/// No two versions are the latest of one stage.
pub proof fn lemma_latest_is_unique(
    versions: Seq<ArtifactVersion>,
    status: MdArtifactStatusInEnvironment,
    first: int,
    second: int,
)
    requires
        is_latest(versions, status, first),
        is_latest(versions, status, second),
    ensures
        first == second,
{
}


/// The versions of the first artifacts are among the versions of all of them.
pub proof fn lemma_versions_of_beginning(artifacts: Seq<Artifact>, count: int)
    requires
        0 <= count <= artifacts.len(),
    ensures
        versions_of(artifacts.take(count)).len() <= versions_of(artifacts).len(),
    decreases artifacts.len() - count,
{
    if count == artifacts.len() {
        assert(artifacts.take(count) =~= artifacts);
    } else {
        assert(artifacts.take(count + 1).drop_last() =~= artifacts.take(count));
        lemma_versions_of_beginning(artifacts, count + 1);
    }
}

/// Whether any of the artifacts has a version.
pub fn has_versions(artifacts: &Vec<Artifact>) -> (any: bool)
    ensures
        any == (versions_of(artifacts@).len() > 0),
{
    let mut i: usize = 0;
    while i < artifacts.len()
        invariant
            i <= artifacts.len(),
            versions_of(artifacts@.take(i as int)).len() == 0,
        decreases artifacts.len() - i,
    {
        proof {
            assert(artifacts@.take(i + 1).drop_last() =~= artifacts@.take(i as int));
        }
        if let Some(versions) = &artifacts[i].versions {
            if versions.len() > 0 {
                proof {
                    lemma_versions_of_beginning(artifacts@, i + 1);
                }
                return true;
            }
        }
        i += 1;
    }
    proof {
        assert(artifacts@.take(artifacts.len() as int) =~= artifacts@);
    }
    false
}

/// Whether the first build number ranks above the second.
pub fn ranks_above(first: Option<u64>, second: Option<u64>) -> (above: bool)
    ensures
        above == (build_rank(first) > build_rank(second)),
{
    match (first, second) {
        (None, _) => false,
        (Some(_), None) => true,
        (Some(first), Some(second)) => first > second,
    }
}

/// The latest version in that stage among the versions of all the artifacts:
/// the one with the greatest build number, and of several with the greatest
/// the one that comes last. `None` where no version is in the stage.
pub fn latest_version<'a>(artifacts: &'a Vec<Artifact>, status: MdArtifactStatusInEnvironment) -> (found:
    Option<&'a ArtifactVersion>)
    ensures
        latest(versions_of(artifacts@), status) == match found {
            Some(version) => Some(*version),
            None => None::<ArtifactVersion>,
        },
{
    let mut found: Option<&ArtifactVersion> = None;
    let ghost mut seen: Seq<ArtifactVersion> = Seq::empty();
    let mut i: usize = 0;
    while i < artifacts.len()
        invariant
            i <= artifacts.len(),
            seen == versions_of(artifacts@.take(i as int)),
            latest(seen, status) == match found {
                Some(version) => Some(*version),
                None => None::<ArtifactVersion>,
            },
        decreases artifacts.len() - i,
    {
        proof {
            assert(artifacts@.take(i + 1).drop_last() =~= artifacts@.take(i as int));
        }
        match &artifacts[i].versions {
            Some(versions) => {
                let ghost before = seen;
                let mut j: usize = 0;
                while j < versions.len()
                    invariant
                        j <= versions.len(),
                        seen == before + versions@.take(j as int),
                        latest(seen, status) == match found {
                            Some(version) => Some(*version),
                            None => None::<ArtifactVersion>,
                        },
                    decreases versions.len() - j,
                {
                    let version = &versions[j];
                    proof {
                        lemma_latest_index(seen, status);
                        assert(seen.push(*version).drop_last() =~= seen);
                    }
                    let in_stage = match version.status {
                        Some(stage) => stage == status,
                        None => false,
                    };
                    if in_stage {
                        let stays = match found {
                            Some(best) => ranks_above(best.build_number, version.build_number),
                            None => false,
                        };
                        if !stays {
                            found = Some(version);
                        }
                    }
                    proof {
                        seen = seen.push(*version);
                    }
                    j += 1;
                }
            },
            None => {},
        }
        i += 1;
    }
    proof {
        assert(artifacts@.take(artifacts.len() as int) =~= artifacts@);
    }
    found
}

/// The first of the environments that has that name.
pub open spec fn environment_named(environments: Seq<Environment>, name: Seq<char>) -> Option<
    Environment,
>
    decreases environments.len(),
{
    if environments.len() == 0 {
        None
    } else if environments.first().name@ == name {
        Some(environments.first())
    } else {
        environment_named(environments.drop_first(), name)
    }
}

/// Where none of the first `count` environments has the name, the first of
/// that name is the first of that name among the rest.
pub proof fn lemma_environment_named_skips(environments: Seq<Environment>, name: Seq<char>, count: int)
    requires
        0 <= count <= environments.len(),
        forall|i: int| 0 <= i < count ==> (#[trigger] environments[i]).name@ != name,
    ensures
        environment_named(environments, name) == environment_named(environments.skip(count), name),
    decreases count,
{
    if count == 0 {
        assert(environments.skip(0) =~= environments);
    } else {
        let rest = environments.drop_first();
        lemma_environment_named_skips(rest, name, count - 1);
        assert(rest.skip(count - 1) =~= environments.skip(count));
    }
}

impl Application {
    /// The first of the application's environments that has that name.
    pub fn environment(&self, name: &String) -> (found: Option<&Environment>)
        ensures
            environment_named(self.environments@, name@) == match found {
                Some(environment) => Some(*environment),
                None => None::<Environment>,
            },
    {
        let mut i: usize = 0;
        while i < self.environments.len()
            invariant
                i <= self.environments.len(),
                forall|k: int| 0 <= k < i ==> (#[trigger] self.environments@[k]).name@ != name@,
            decreases self.environments.len() - i,
        {
            if self.environments[i].name == *name {
                proof {
                    lemma_environment_named_skips(self.environments@, name@, i as int);
                }
                return Some(&self.environments[i]);
            }
            i += 1;
        }
        proof {
            lemma_environment_named_skips(self.environments@, name@, i as int);
        }
        None
    }
}

impl ResponseData {
    /// What a response of the deployment service comes to: a response that
    /// reports errors is a failure whatever else it holds, and so is one that
    /// holds no data.
    pub fn from_response(data: Option<ResponseData>, errors: Option<Vec<String>>) -> (outcome: Result<
        ResponseData,
        ChangelogError,
    >)
        ensures
            outcome == match (errors, data) {
                (Some(messages), _) => Err::<ResponseData, ChangelogError>(
                    ChangelogError::QueryFailed { messages },
                ),
                (None, None) => Err(ChangelogError::NoData),
                (None, Some(states)) => Ok(states),
            },
    {
        match errors {
            Some(messages) => Err(ChangelogError::QueryFailed { messages }),
            None => match data {
                Some(states) => Ok(states),
                None => Err(ChangelogError::NoData),
            },
        }
    }
}

impl ArtifactVersion {
    /// The build number that the text of one stands for: none where the
    /// service gave no text, or one that is no number.
    pub fn build_number_of(text: Option<&str>) -> (build_number: Option<u64>)
        ensures
            build_number == match text {
                Some(digits) => match number_of(digits@) {
                    Some(number) if number <= u64::MAX => Some(number as u64),
                    _ => None::<u64>,
                },
                None => None::<u64>,
            },
    {
        match text {
            Some(digits) => parse_number(digits),
            None => None,
        }
    }
}

} // verus!
