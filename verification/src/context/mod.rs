//! What surrounds the process: a remote session, a container, projects in
//! the working directory, and the Git checkout.
pub mod compose;
pub mod container;
pub mod detectors;
pub mod git;
pub mod project;
pub mod ssh;
pub mod version;

use crate::config::ContextConfig;
use crate::model::{ContainerContext, ContextInfo, GitContext, ProjectContext, SshContext};
use vstd::prelude::*;

verus! {

/// What the detectors found; a part that was not looked for is empty.
#[derive(Debug, Clone)]
pub struct DetectedContext {
    pub ssh: Option<SshContext>,
    pub container: Option<ContainerContext>,
    pub projects: Vec<ProjectContext>,
    pub git: Option<GitContext>,
}

/// Which detectors the configuration turns on: SSH, container, projects,
/// Git.
pub fn wanted_parts(config: &ContextConfig) -> (r: (bool, bool, bool, bool))
    ensures
        r == (config.enabled && config.ssh, config.enabled && config.container, config.enabled
            && config.project, config.enabled && config.git),
{
    (
        config.enabled && config.ssh,
        config.enabled && config.container,
        config.enabled && config.project,
        config.enabled && config.git,
    )
}

/// The context to report: nothing when context is off, and of the rest
/// only what the configuration turns on.
pub fn detect(config: &ContextConfig, found: DetectedContext) -> (r: ContextInfo)
    ensures
        !config.enabled ==> r.ssh is None && r.container is None && r.projects@.len() == 0
            && r.git is None,
        config.enabled ==> {
            &&& r.ssh == (if config.ssh {
                found.ssh
            } else {
                None
            })
            &&& r.container == (if config.container {
                found.container
            } else {
                None
            })
            &&& r.projects@ == (if config.project {
                found.projects@
            } else {
                Seq::empty()
            })
            &&& r.git == (if config.git {
                found.git
            } else {
                None
            })
        },
{
    if !config.enabled {
        return ContextInfo::default();
    }
    ContextInfo {
        ssh: if config.ssh {
            found.ssh
        } else {
            None
        },
        container: if config.container {
            found.container
        } else {
            None
        },
        projects: if config.project {
            found.projects
        } else {
            Vec::new()
        },
        git: if config.git {
            found.git
        } else {
            None
        },
    }
}

} // verus!
