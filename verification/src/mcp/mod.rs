//! MCP surfaces: which token or pair code opens which tool surface, the project a paired
//! process is pinned to, and what each tool does with the store.

use vstd::prelude::*;
use vstd::string::*;

use crate::domain::models::{seat_name, AgentSeat};
use crate::domain::state::{role_name, Role};
use crate::services::board::{Board, BoardV};
use crate::services::pair_codes::{
    binding_result_v, lookup_pair_code, pair_error_text, pair_lookup_spec, PairBinding,
    PairBindingV,
};
use crate::services::presence::{OccupantHint, OccupantHintV};
use crate::text::{str_trim, trim};

pub mod auth;
pub mod dto;
pub mod tools;
pub mod util;

pub use auth::{resolve_auth, AuthContext, AuthContextV};

verus! {

#[derive(Debug)]
pub enum McpError {
    Msg(String),
}

impl View for McpError {
    type V = Seq<char>;

    open spec fn view(&self) -> Seq<char> {
        match self {
            McpError::Msg(m) => m@,
        }
    }
}

impl McpError {
    pub fn msg(s: String) -> (r: McpError)
        ensures
            r@ == s@,
    {
        McpError::Msg(s)
    }

    /// Human-readable message.
    pub fn message(&self) -> (r: String)
        ensures
            r@ == self@,
    {
        match self {
            McpError::Msg(m) => m.clone(),
        }
    }
}

/// CLI role for MCP tool surface selection.
#[derive(Debug, Clone, Copy, PartialEq, Eq, Structural)]
pub enum McpRole {
    Planner,
    Foreman,
}

/// Wire name of a surface.
pub open spec fn surface_name(s: McpRole) -> Seq<char> {
    match s {
        McpRole::Planner => "planner"@,
        McpRole::Foreman => "foreman"@,
    }
}

impl McpRole {
    pub fn parse(s: &str) -> (r: Option<McpRole>)
        ensures
            r matches Some(x) ==> surface_name(x) == s@,
            r is None ==> forall|x: McpRole| surface_name(x) != s@,
    {
        proof {
            reveal_strlit("planner");
            reveal_strlit("foreman");
        }
        if crate::text::str_eq(s, "planner") {
            Some(McpRole::Planner)
        } else if crate::text::str_eq(s, "foreman") {
            Some(McpRole::Foreman)
        } else {
            None
        }
    }

    pub fn as_str(self) -> (r: &'static str)
        ensures
            r@ == surface_name(self),
    {
        match self {
            McpRole::Planner => "planner",
            McpRole::Foreman => "foreman",
        }
    }
}

/// Which token roles may use a surface: admin either, planner and foreman their own.
pub open spec fn surface_admits(token_role: Role, surface: McpRole) -> bool {
    match token_role {
        Role::Admin => true,
        Role::Planner => surface == McpRole::Planner,
        Role::Foreman => surface == McpRole::Foreman,
    }
}

/// Whether a token role may use a surface.
pub fn role_allowed_for_surface(token_role: Role, surface: McpRole) -> (r: bool)
    ensures
        r == surface_admits(token_role, surface),
{
    match token_role {
        Role::Admin => true,
        Role::Planner => surface == McpRole::Planner,
        Role::Foreman => surface == McpRole::Foreman,
    }
}

/// The surface a seat's pair code opens.
pub open spec fn seat_surface(seat: AgentSeat) -> McpRole {
    match seat {
        AgentSeat::Discuss => McpRole::Planner,
        AgentSeat::Build => McpRole::Foreman,
    }
}

/// The domain role a seat acts with.
pub open spec fn seat_actor_role(seat: AgentSeat) -> Role {
    match seat {
        AgentSeat::Discuss => Role::Planner,
        AgentSeat::Build => Role::Foreman,
    }
}

/// An authenticated MCP process: who acts, on which surface, pinned to which project.
#[derive(Debug)]
pub struct McpSession {
    pub auth: AuthContext,
    pub surface: McpRole,
    /// Set when started with a pair code. All tools are pinned to this project.
    pub binding: Option<PairBinding>,
}

pub struct McpSessionV {
    pub auth: AuthContextV,
    pub surface: McpRole,
    pub binding: Option<PairBindingV>,
}

impl View for McpSession {
    type V = McpSessionV;

    open spec fn view(&self) -> McpSessionV {
        McpSessionV {
            auth: self.auth@,
            surface: self.surface,
            binding: match self.binding {
                Some(b) => Some(b.deep_view()),
                None => None,
            },
        }
    }
}

/// The session a pair code opens: the seat's surface and role, an actor named
/// `seat:project`, pinned to the code's project; a code that does not resolve is refused.
pub open spec fn pair_session_spec(b: BoardV, code: Seq<char>) -> Result<McpSessionV, Seq<char>> {
    match pair_lookup_spec(b, trim(code)) {
        Err(e) => Err("invalid --pair: "@ + pair_error_text(e)),
        Ok(bound) => Ok(
            McpSessionV {
                auth: AuthContextV {
                    name: seat_name(bound.seat) + ":"@ + bound.project_id,
                    role: seat_actor_role(bound.seat),
                },
                surface: seat_surface(bound.seat),
                binding: Some(bound),
            },
        ),
    }
}

/// Open a session from a pair code.
pub fn pair_session(board: &Board, code: &str) -> (r: Result<McpSession, McpError>)
    ensures
        match r {
            Ok(s) => pair_session_spec(board@, code@) == Ok::<McpSessionV, Seq<char>>(s@),
            Err(e) => pair_session_spec(board@, code@) == Err::<McpSessionV, Seq<char>>(e@),
        },
{
    let res = lookup_pair_code(board, str_trim(code));
    match res {
        Err(e) => {
            let mut m = String::from_str("invalid --pair: ");
            m.append(e.message().as_str());
            Err(McpError::msg(m))
        },
        Ok(bound) => {
            let mut name = String::from_str(bound.seat.as_str());
            name.append(":");
            name.append(bound.project_id.as_str());
            let role = match bound.seat {
                AgentSeat::Discuss => Role::Planner,
                AgentSeat::Build => Role::Foreman,
            };
            let surface = match bound.seat {
                AgentSeat::Discuss => McpRole::Planner,
                AgentSeat::Build => McpRole::Foreman,
            };
            Ok(McpSession { auth: AuthContext { name: name, role: role }, surface: surface, binding: Some(bound) })
        },
    }
}

/// Open a session from a token on the surface asked for (no project pin).
pub fn token_session(board: &Board, token: &str, surface: McpRole) -> (r: Result<McpSession, McpError>)
    ensures
        match r {
            Ok(s) => auth::resolve_auth_spec(board@, token@, surface) == Ok::<AuthContextV, Seq<char>>(s@.auth)
                && s@.surface == surface && s@.binding is None,
            Err(e) => auth::resolve_auth_spec(board@, token@, surface) == Err::<AuthContextV, Seq<char>>(e@),
        },
{
    let auth = resolve_auth(board, token, surface)?;
    Ok(McpSession { auth: auth, surface: surface, binding: None })
}

/// The session a process starts with: a non-blank pair code opens its seat's session; without
/// one, a debug session needs a role and a non-empty token.
pub open spec fn open_session_spec(
    b: BoardV,
    pair: Option<Seq<char>>,
    role: Option<McpRole>,
    token: Option<Seq<char>>,
) -> Result<McpSessionV, Seq<char>> {
    if pair matches Some(p) && trim(p).len() > 0 {
        pair_session_spec(b, pair->0)
    } else {
        match role {
            None => Err("pass --pair <CODE> (product) or --role + --token (debug)"@),
            Some(r) => if token matches Some(t) && t.len() > 0 {
                match auth::resolve_auth_spec(b, token->0, r) {
                    Ok(a) => Ok(McpSessionV { auth: a, surface: r, binding: None }),
                    Err(e) => Err(e),
                }
            } else {
                Err("token required without --pair: pass --token or set REQ_ENGINE_TOKEN"@)
            },
        }
    }
}

/// An optional text by its chars.
pub open spec fn opt_text(o: Option<&str>) -> Option<Seq<char>> {
    match o {
        Some(t) => Some(t@),
        None => None,
    }
}

/// Open the session of an MCP process from its pair code, or from a role and token.
pub fn open_session(
    board: &Board,
    pair: Option<&str>,
    role: Option<McpRole>,
    token: Option<&str>,
) -> (r: Result<McpSession, McpError>)
    ensures
        match r {
            Ok(s) => open_session_spec(
                board@,
                opt_text(pair),
                role,
                opt_text(token),
            ) == Ok::<McpSessionV, Seq<char>>(s@),
            Err(e) => open_session_spec(
                board@,
                opt_text(pair),
                role,
                opt_text(token),
            ) == Err::<McpSessionV, Seq<char>>(e@),
        },
{
    if let Some(code) = pair {
        if !str_trim(code).is_empty() {
            return pair_session(board, code);
        }
    }
    let surface = match role {
        None => {
            return Err(
                McpError::msg(
                    String::from_str("pass --pair <CODE> (product) or --role + --token (debug)"),
                ),
            );
        },
        Some(r) => r,
    };
    match token {
        Some(t) => {
            if t.is_empty() {
                return Err(
                    McpError::msg(
                        String::from_str(
                            "token required without --pair: pass --token or set REQ_ENGINE_TOKEN",
                        ),
                    ),
                );
            }
            token_session(board, t, surface)
        },
        None => Err(
            McpError::msg(
                String::from_str(
                    "token required without --pair: pass --token or set REQ_ENGINE_TOKEN",
                ),
            ),
        ),
    }
}

/// A text trimmed, or nothing when blank.
pub open spec fn trimmed_nonblank(s: Option<Seq<char>>) -> Option<Seq<char>> {
    match s {
        Some(x) => if trim(x).len() > 0 {
            Some(trim(x))
        } else {
            None
        },
        None => None,
    }
}

/// What a peer's self-reported client info records on its seat: the trimmed name (nothing
/// when blank) with the title and version trimmed, blank ones dropped.
pub open spec fn peer_hint_spec(name: Seq<char>, title: Option<Seq<char>>, version: Option<Seq<char>>) -> Option<
    OccupantHintV,
> {
    if trim(name).len() == 0 {
        None
    } else {
        Some(
            OccupantHintV {
                name: trim(name),
                title: trimmed_nonblank(title),
                version: trimmed_nonblank(version),
            },
        )
    }
}

/// A text trimmed, or nothing when blank.
fn trimmed_opt(s: Option<&str>) -> (r: Option<String>)
    ensures
        r.deep_view() == trimmed_nonblank(s.deep_view()),
{
    match s {
        Some(x) => {
            let t = str_trim(x);
            if t.is_empty() {
                None
            } else {
                Some(String::from_str(t))
            }
        },
        None => None,
    }
}

/// The hint a peer's client info records on its seat.
pub fn peer_hint(name: &str, title: Option<&str>, version: Option<&str>) -> (r: Option<OccupantHint>)
    ensures
        match r {
            Some(h) => peer_hint_spec(name@, title.deep_view(), version.deep_view()) == Some(
                h.deep_view(),
            ),
            None => peer_hint_spec(name@, title.deep_view(), version.deep_view()) is None,
        },
{
    let n = str_trim(name);
    if n.is_empty() {
        return None;
    }
    Some(OccupantHint { name: String::from_str(n), title: trimmed_opt(title), version: trimmed_opt(version) })
}

/// Names of the discuss (planner) surface's tools.
pub open spec fn planner_tools_spec() -> Seq<Seq<char>> {
    seq![
        "create_requirement"@,
        "list_requirements"@,
        "get_requirement"@,
        "update_requirement"@,
        "cancel_requirement"@,
    ]
}

/// Names of the build (foreman) surface's tools.
pub open spec fn foreman_tools_spec() -> Seq<Seq<char>> {
    seq![
        "list_ready_tasks"@,
        "get_requirement"@,
        "claim_task"@,
        "report_progress"@,
        "submit_for_review"@,
        "release_task"@,
    ]
}

/// Tools of the discuss (planner) surface.
pub fn planner_tools() -> (r: Vec<&'static str>)
    ensures
        r@.len() == planner_tools_spec().len(),
        forall|i: int| 0 <= i < r@.len() ==> #[trigger] r@[i]@ == planner_tools_spec()[i],
{
    let mut v: Vec<&'static str> = Vec::new();
    v.push("create_requirement");
    v.push("list_requirements");
    v.push("get_requirement");
    v.push("update_requirement");
    v.push("cancel_requirement");
    v
}

/// Tools of the build (foreman) surface.
pub fn foreman_tools() -> (r: Vec<&'static str>)
    ensures
        r@.len() == foreman_tools_spec().len(),
        forall|i: int| 0 <= i < r@.len() ==> #[trigger] r@[i]@ == foreman_tools_spec()[i],
{
    let mut v: Vec<&'static str> = Vec::new();
    v.push("list_ready_tasks");
    v.push("get_requirement");
    v.push("claim_task");
    v.push("report_progress");
    v.push("submit_for_review");
    v.push("release_task");
    v
}

/// What MCP does not offer: no surface reviews (that stays with an admin over HTTP), the discuss
/// surface cannot claim, the build surface cannot create requirements, and neither can set a
/// status freely or delete.
pub proof fn law_mcp_surfaces_withhold_verbs()
    ensures
        !planner_tools_spec().contains("complete_review"@),
        !foreman_tools_spec().contains("complete_review"@),
        !planner_tools_spec().contains("claim_task"@),
        !foreman_tools_spec().contains("create_requirement"@),
        !planner_tools_spec().contains("set_status"@),
        !foreman_tools_spec().contains("set_status"@),
        !planner_tools_spec().contains("delete_requirement"@),
        !foreman_tools_spec().contains("delete_requirement"@),
{
    reveal_strlit("cancel_requirement");
    reveal_strlit("claim_task");
    reveal_strlit("complete_review");
    reveal_strlit("create_requirement");
    reveal_strlit("delete_requirement");
    reveal_strlit("get_requirement");
    reveal_strlit("list_ready_tasks");
    reveal_strlit("list_requirements");
    reveal_strlit("release_task");
    reveal_strlit("report_progress");
    reveal_strlit("set_status");
    reveal_strlit("submit_for_review");
    reveal_strlit("update_requirement");
    assert forall|i: int| 0 <= i < planner_tools_spec().len() implies planner_tools_spec()[i]
        != "complete_review"@ by {
        if i == 0 {
            assert(planner_tools_spec()[i].len() != "complete_review"@.len());
        } else if i == 1 {
            assert(planner_tools_spec()[i].len() != "complete_review"@.len());
        } else if i == 2 {
            assert(planner_tools_spec()[i][0] != "complete_review"@[0]);
        } else if i == 3 {
            assert(planner_tools_spec()[i].len() != "complete_review"@.len());
        } else if i == 4 {
            assert(planner_tools_spec()[i].len() != "complete_review"@.len());
        }
    }
    assert forall|i: int| 0 <= i < foreman_tools_spec().len() implies foreman_tools_spec()[i]
        != "complete_review"@ by {
        if i == 0 {
            assert(foreman_tools_spec()[i].len() != "complete_review"@.len());
        } else if i == 1 {
            assert(foreman_tools_spec()[i][0] != "complete_review"@[0]);
        } else if i == 2 {
            assert(foreman_tools_spec()[i].len() != "complete_review"@.len());
        } else if i == 3 {
            assert(foreman_tools_spec()[i][0] != "complete_review"@[0]);
        } else if i == 4 {
            assert(foreman_tools_spec()[i].len() != "complete_review"@.len());
        } else if i == 5 {
            assert(foreman_tools_spec()[i].len() != "complete_review"@.len());
        }
    }
    assert forall|i: int| 0 <= i < planner_tools_spec().len() implies planner_tools_spec()[i]
        != "claim_task"@ by {
        if i == 0 {
            assert(planner_tools_spec()[i].len() != "claim_task"@.len());
        } else if i == 1 {
            assert(planner_tools_spec()[i].len() != "claim_task"@.len());
        } else if i == 2 {
            assert(planner_tools_spec()[i].len() != "claim_task"@.len());
        } else if i == 3 {
            assert(planner_tools_spec()[i].len() != "claim_task"@.len());
        } else if i == 4 {
            assert(planner_tools_spec()[i].len() != "claim_task"@.len());
        }
    }
    assert forall|i: int| 0 <= i < foreman_tools_spec().len() implies foreman_tools_spec()[i]
        != "create_requirement"@ by {
        if i == 0 {
            assert(foreman_tools_spec()[i].len() != "create_requirement"@.len());
        } else if i == 1 {
            assert(foreman_tools_spec()[i].len() != "create_requirement"@.len());
        } else if i == 2 {
            assert(foreman_tools_spec()[i].len() != "create_requirement"@.len());
        } else if i == 3 {
            assert(foreman_tools_spec()[i].len() != "create_requirement"@.len());
        } else if i == 4 {
            assert(foreman_tools_spec()[i].len() != "create_requirement"@.len());
        } else if i == 5 {
            assert(foreman_tools_spec()[i].len() != "create_requirement"@.len());
        }
    }
    assert forall|i: int| 0 <= i < planner_tools_spec().len() implies planner_tools_spec()[i]
        != "set_status"@ by {
        if i == 0 {
            assert(planner_tools_spec()[i].len() != "set_status"@.len());
        } else if i == 1 {
            assert(planner_tools_spec()[i].len() != "set_status"@.len());
        } else if i == 2 {
            assert(planner_tools_spec()[i].len() != "set_status"@.len());
        } else if i == 3 {
            assert(planner_tools_spec()[i].len() != "set_status"@.len());
        } else if i == 4 {
            assert(planner_tools_spec()[i].len() != "set_status"@.len());
        }
    }
    assert forall|i: int| 0 <= i < foreman_tools_spec().len() implies foreman_tools_spec()[i]
        != "set_status"@ by {
        if i == 0 {
            assert(foreman_tools_spec()[i].len() != "set_status"@.len());
        } else if i == 1 {
            assert(foreman_tools_spec()[i].len() != "set_status"@.len());
        } else if i == 2 {
            assert(foreman_tools_spec()[i][0] != "set_status"@[0]);
        } else if i == 3 {
            assert(foreman_tools_spec()[i].len() != "set_status"@.len());
        } else if i == 4 {
            assert(foreman_tools_spec()[i].len() != "set_status"@.len());
        } else if i == 5 {
            assert(foreman_tools_spec()[i].len() != "set_status"@.len());
        }
    }
    assert forall|i: int| 0 <= i < planner_tools_spec().len() implies planner_tools_spec()[i]
        != "delete_requirement"@ by {
        if i == 0 {
            assert(planner_tools_spec()[i][0] != "delete_requirement"@[0]);
        } else if i == 1 {
            assert(planner_tools_spec()[i].len() != "delete_requirement"@.len());
        } else if i == 2 {
            assert(planner_tools_spec()[i].len() != "delete_requirement"@.len());
        } else if i == 3 {
            assert(planner_tools_spec()[i][0] != "delete_requirement"@[0]);
        } else if i == 4 {
            assert(planner_tools_spec()[i][0] != "delete_requirement"@[0]);
        }
    }
    assert forall|i: int| 0 <= i < foreman_tools_spec().len() implies foreman_tools_spec()[i]
        != "delete_requirement"@ by {
        if i == 0 {
            assert(foreman_tools_spec()[i].len() != "delete_requirement"@.len());
        } else if i == 1 {
            assert(foreman_tools_spec()[i].len() != "delete_requirement"@.len());
        } else if i == 2 {
            assert(foreman_tools_spec()[i].len() != "delete_requirement"@.len());
        } else if i == 3 {
            assert(foreman_tools_spec()[i].len() != "delete_requirement"@.len());
        } else if i == 4 {
            assert(foreman_tools_spec()[i].len() != "delete_requirement"@.len());
        } else if i == 5 {
            assert(foreman_tools_spec()[i].len() != "delete_requirement"@.len());
        }
    }
}

} // verus!
