//! Domain records: the rows of the store, each with a view over plain values.

use vstd::prelude::*;

use crate::domain::state::{Role, Status};
use crate::text::{lower_seq, trim};

verus! {

/// Microseconds since the Unix epoch (UTC).
pub type Micros = i64;

/// Product seat names (two agents per project).
/// Wire protocol still uses planner / foreman MCP roles.
#[derive(Debug, Clone, Copy, PartialEq, Eq, Hash, Structural)]
pub enum AgentSeat {
    /// 讨论 Agent — create/refine requirements (MCP role: planner).
    Discuss,
    /// 实现 Agent — claim/implement/submit (MCP role: foreman).
    Build,
}

/// Wire name of a seat.
pub open spec fn seat_name(s: AgentSeat) -> Seq<char> {
    match s {
        AgentSeat::Discuss => "discuss"@,
        AgentSeat::Build => "build"@,
    }
}

/// Words (already trimmed and lower-cased) that name a seat.
pub open spec fn seat_of_word(w: Seq<char>) -> Option<AgentSeat> {
    if w == "discuss"@ || w == "discussion"@ || w == "planner"@ || w == "curator"@ {
        Some(AgentSeat::Discuss)
    } else if w == "build"@ || w == "builder"@ || w == "foreman"@ || w == "implement"@ || w
        == "implementation"@ {
        Some(AgentSeat::Build)
    } else {
        None
    }
}

/// Seat named by free text: trimmed, ASCII case-insensitive.
pub open spec fn seat_parse_spec(s: Seq<char>) -> Option<AgentSeat> {
    seat_of_word(lower_seq(trim(s)))
}

/// MCP role name that serves a seat.
pub open spec fn seat_mcp_role(s: AgentSeat) -> Seq<char> {
    match s {
        AgentSeat::Discuss => "planner"@,
        AgentSeat::Build => "foreman"@,
    }
}

/// Role that a seat acts with.
pub open spec fn seat_role(s: AgentSeat) -> Role {
    match s {
        AgentSeat::Discuss => Role::Planner,
        AgentSeat::Build => Role::Foreman,
    }
}

impl AgentSeat {
    pub fn as_str(self) -> (r: &'static str)
        ensures
            r@ == seat_name(self),
    {
        proof {
            reveal_strlit("discuss");
            reveal_strlit("build");
        }
        match self {
            AgentSeat::Discuss => "discuss",
            AgentSeat::Build => "build",
        }
    }

    pub fn parse(s: &str) -> (r: Option<AgentSeat>)
        ensures
            r == seat_parse_spec(s@),
    {
        let t = crate::text::str_trim(s);
        let w = crate::text::str_to_ascii_lowercase(t);
        let w = w.as_str();
        proof {
            reveal_strlit("discuss");
            reveal_strlit("discussion");
            reveal_strlit("planner");
            reveal_strlit("curator");
            reveal_strlit("build");
            reveal_strlit("builder");
            reveal_strlit("foreman");
            reveal_strlit("implement");
            reveal_strlit("implementation");
        }
        if crate::text::str_eq(w, "discuss") || crate::text::str_eq(w, "discussion")
            || crate::text::str_eq(w, "planner") || crate::text::str_eq(w, "curator") {
            Some(AgentSeat::Discuss)
        } else if crate::text::str_eq(w, "build") || crate::text::str_eq(w, "builder")
            || crate::text::str_eq(w, "foreman") || crate::text::str_eq(w, "implement")
            || crate::text::str_eq(w, "implementation") {
            Some(AgentSeat::Build)
        } else {
            None
        }
    }

    pub fn display_zh(self) -> (r: &'static str)
        ensures
            r@ == (match self {
                AgentSeat::Discuss => "讨论 Agent"@,
                AgentSeat::Build => "实现 Agent"@,
            }),
    {
        proof {
            reveal_strlit("讨论 Agent");
            reveal_strlit("实现 Agent");
        }
        match self {
            AgentSeat::Discuss => "讨论 Agent",
            AgentSeat::Build => "实现 Agent",
        }
    }

    pub fn mcp_role(self) -> (r: &'static str)
        ensures
            r@ == seat_mcp_role(self),
    {
        proof {
            reveal_strlit("planner");
            reveal_strlit("foreman");
        }
        match self {
            AgentSeat::Discuss => "planner",
            AgentSeat::Build => "foreman",
        }
    }
}

} // verus!

verus! {

/// A project: the board that requirements belong to.
#[derive(Debug)]
pub struct Project {
    pub id: String,
    pub name: String,
    pub color: String,
    pub blurb: String,
    /// Optional absolute local folder path (empty = unbound). Metadata only.
    pub local_path: String,
    /// Soft-archive time. `None` = active in default lists.
    pub archived_at: Option<Micros>,
    /// When the discuss agent (MCP planner) last acknowledged setup.
    pub discuss_agent_at: Option<Micros>,
    /// When the build agent (MCP foreman) last acknowledged setup.
    pub build_agent_at: Option<Micros>,
    pub created_at: Micros,
    pub updated_at: Micros,
    /// SHA-256 (hex) of the current discuss pair code, if issued.
    pub discuss_pair_hash: Option<String>,
    /// SHA-256 (hex) of the current build pair code, if issued.
    pub build_pair_hash: Option<String>,
}

pub struct ProjectV {
    pub id: Seq<char>,
    pub name: Seq<char>,
    pub color: Seq<char>,
    pub blurb: Seq<char>,
    pub local_path: Seq<char>,
    pub archived_at: Option<Micros>,
    pub discuss_agent_at: Option<Micros>,
    pub build_agent_at: Option<Micros>,
    pub created_at: Micros,
    pub updated_at: Micros,
    pub discuss_pair_hash: Option<Seq<char>>,
    pub build_pair_hash: Option<Seq<char>>,
}

impl DeepView for Project {
    type V = ProjectV;

    open spec fn deep_view(&self) -> ProjectV {
        ProjectV {
            id: self.id@,
            name: self.name@,
            color: self.color@,
            blurb: self.blurb@,
            local_path: self.local_path@,
            archived_at: self.archived_at,
            discuss_agent_at: self.discuss_agent_at,
            build_agent_at: self.build_agent_at,
            created_at: self.created_at,
            updated_at: self.updated_at,
            discuss_pair_hash: self.discuss_pair_hash.deep_view(),
            build_pair_hash: self.build_pair_hash.deep_view(),
        }
    }
}

impl Project {
    /// Field-by-field copy.
    pub fn copy(&self) -> (r: Project)
        ensures
            r == *self,
    {
        Project {
            id: self.id.clone(),
            name: self.name.clone(),
            color: self.color.clone(),
            blurb: self.blurb.clone(),
            local_path: self.local_path.clone(),
            archived_at: self.archived_at,
            discuss_agent_at: self.discuss_agent_at,
            build_agent_at: self.build_agent_at,
            created_at: self.created_at,
            updated_at: self.updated_at,
            discuss_pair_hash: crate::domain::state::clone_opt_string(&self.discuss_pair_hash),
            build_pair_hash: crate::domain::state::clone_opt_string(&self.build_pair_hash),
        }
    }
}

/// A requirement card. Its status changes only through verbs.
#[derive(Debug)]
pub struct Requirement {
    pub id: String,
    pub project_id: String,
    pub title: String,
    pub description: String,
    pub priority: String,
    pub status: Status,
    pub scope_json: String,
    pub non_scope_json: String,
    pub acceptance_json: String,
    pub dependencies_json: String,
    pub claimed_by: Option<String>,
    pub progress_summary: Option<String>,
    pub blocked_reason: Option<String>,
    pub external_run_id: Option<String>,
    pub created_by: String,
    pub created_at: Micros,
    pub updated_at: Micros,
}

pub struct RequirementV {
    pub id: Seq<char>,
    pub project_id: Seq<char>,
    pub title: Seq<char>,
    pub description: Seq<char>,
    pub priority: Seq<char>,
    pub status: Status,
    pub scope_json: Seq<char>,
    pub non_scope_json: Seq<char>,
    pub acceptance_json: Seq<char>,
    pub dependencies_json: Seq<char>,
    pub claimed_by: Option<Seq<char>>,
    pub progress_summary: Option<Seq<char>>,
    pub blocked_reason: Option<Seq<char>>,
    pub external_run_id: Option<Seq<char>>,
    pub created_by: Seq<char>,
    pub created_at: Micros,
    pub updated_at: Micros,
}

impl DeepView for Requirement {
    type V = RequirementV;

    open spec fn deep_view(&self) -> RequirementV {
        RequirementV {
            id: self.id@,
            project_id: self.project_id@,
            title: self.title@,
            description: self.description@,
            priority: self.priority@,
            status: self.status,
            scope_json: self.scope_json@,
            non_scope_json: self.non_scope_json@,
            acceptance_json: self.acceptance_json@,
            dependencies_json: self.dependencies_json@,
            claimed_by: self.claimed_by.deep_view(),
            progress_summary: self.progress_summary.deep_view(),
            blocked_reason: self.blocked_reason.deep_view(),
            external_run_id: self.external_run_id.deep_view(),
            created_by: self.created_by@,
            created_at: self.created_at,
            updated_at: self.updated_at,
        }
    }
}

impl Requirement {
    /// Field-by-field copy.
    pub fn copy(&self) -> (r: Requirement)
        ensures
            r == *self,
    {
        Requirement {
            id: self.id.clone(),
            project_id: self.project_id.clone(),
            title: self.title.clone(),
            description: self.description.clone(),
            priority: self.priority.clone(),
            status: self.status,
            scope_json: self.scope_json.clone(),
            non_scope_json: self.non_scope_json.clone(),
            acceptance_json: self.acceptance_json.clone(),
            dependencies_json: self.dependencies_json.clone(),
            claimed_by: crate::domain::state::clone_opt_string(&self.claimed_by),
            progress_summary: crate::domain::state::clone_opt_string(&self.progress_summary),
            blocked_reason: crate::domain::state::clone_opt_string(&self.blocked_reason),
            external_run_id: crate::domain::state::clone_opt_string(&self.external_run_id),
            created_by: self.created_by.clone(),
            created_at: self.created_at,
            updated_at: self.updated_at,
        }
    }
}

/// One entry of the verb log.
#[derive(Debug)]
pub struct Event {
    pub id: String,
    pub project_id: String,
    pub requirement_id: Option<String>,
    pub actor: String,
    pub kind: String,
    pub message: String,
    pub payload_json: String,
    pub created_at: Micros,
}

pub struct EventV {
    pub id: Seq<char>,
    pub project_id: Seq<char>,
    pub requirement_id: Option<Seq<char>>,
    pub actor: Seq<char>,
    pub kind: Seq<char>,
    pub message: Seq<char>,
    pub payload_json: Seq<char>,
    pub created_at: Micros,
}

impl DeepView for Event {
    type V = EventV;

    open spec fn deep_view(&self) -> EventV {
        EventV {
            id: self.id@,
            project_id: self.project_id@,
            requirement_id: self.requirement_id.deep_view(),
            actor: self.actor@,
            kind: self.kind@,
            message: self.message@,
            payload_json: self.payload_json@,
            created_at: self.created_at,
        }
    }
}

impl Event {
    /// Field-by-field copy.
    pub fn copy(&self) -> (r: Event)
        ensures
            r == *self,
    {
        Event {
            id: self.id.clone(),
            project_id: self.project_id.clone(),
            requirement_id: crate::domain::state::clone_opt_string(&self.requirement_id),
            actor: self.actor.clone(),
            kind: self.kind.clone(),
            message: self.message.clone(),
            payload_json: self.payload_json.clone(),
            created_at: self.created_at,
        }
    }
}

/// A role token, stored by hash only.
#[derive(Debug)]
pub struct ApiToken {
    pub token_hash: String,
    pub role: Role,
    pub name: String,
    pub created_at: Micros,
}

pub struct ApiTokenV {
    pub token_hash: Seq<char>,
    pub role: Role,
    pub name: Seq<char>,
    pub created_at: Micros,
}

impl DeepView for ApiToken {
    type V = ApiTokenV;

    open spec fn deep_view(&self) -> ApiTokenV {
        ApiTokenV {
            token_hash: self.token_hash@,
            role: self.role,
            name: self.name@,
            created_at: self.created_at,
        }
    }
}

impl ApiToken {
    /// Field-by-field copy.
    pub fn copy(&self) -> (r: ApiToken)
        ensures
            r == *self,
    {
        ApiToken {
            token_hash: self.token_hash.clone(),
            role: self.role,
            name: self.name.clone(),
            created_at: self.created_at,
        }
    }
}

/// Input for creating a requirement (always starts as `todo`).
#[derive(Debug)]
pub struct CreateRequirementInput {
    pub project_id: String,
    pub title: String,
    pub description: String,
    pub priority: String,
    pub scope_json: String,
    pub non_scope_json: String,
    pub acceptance_json: String,
    pub dependencies_json: String,
    pub created_by: String,
}

} // verus!
