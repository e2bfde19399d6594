//! MCP tool arguments and the project view the tools send back.

use vstd::prelude::*;

use crate::domain::models::{Project, ProjectV};

verus! {

/// Arguments of a tool that takes none.
#[derive(Debug)]
pub struct EmptyArgs {}

#[derive(Debug)]
pub struct RequirementIdArgs {
    /// Requirement id.
    pub id: String,
}

#[derive(Debug)]
pub struct ListRequirementsArgs {
    /// Ignored when the process is pinned with a pair code (the bound project is used).
    pub project_id: Option<String>,
    /// Optional status filter: todo|in_progress|review|done|cancelled.
    pub status: Option<String>,
}

#[derive(Debug)]
pub struct ListReadyTasksArgs {
    /// Optional project filter; omit for all projects.
    pub project_id: Option<String>,
}

#[derive(Debug)]
pub struct ReportProgressArgs {
    pub id: String,
    /// Progress summary text.
    pub summary: String,
    pub blocked_reason: Option<String>,
}

#[derive(Debug)]
pub struct ReleaseTaskArgs {
    pub id: String,
    /// Optional reason (echoed in the tool answer; the verb itself takes none).
    pub reason: Option<String>,
}

/// A project as the tools show it.
#[derive(Debug)]
pub struct ProjectView {
    pub id: String,
    pub name: String,
    pub color: String,
    pub blurb: String,
    pub local_path: String,
}

impl ProjectView {
    pub fn from_project(p: Project) -> (r: ProjectView)
        ensures
            r.id@ == p.id@,
            r.name@ == p.name@,
            r.color@ == p.color@,
            r.blurb@ == p.blurb@,
            r.local_path@ == p.local_path@,
    {
        ProjectView { id: p.id, name: p.name, color: p.color, blurb: p.blurb, local_path: p.local_path }
    }
}

} // verus!
