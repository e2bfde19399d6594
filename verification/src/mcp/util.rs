//! Project pinning of MCP tool calls.

use vstd::prelude::*;
use vstd::string::*;

use crate::domain::models::{Requirement, RequirementV};
use crate::mcp::{McpSession, McpSessionV};
use crate::text::{owned, str_eq, str_trim, trim};

verus! {

/// The project a session is pinned to, if any.
pub open spec fn bound_spec(s: McpSessionV) -> Option<Seq<char>> {
    match s.binding {
        Some(b) => Some(b.project_id),
        None => None,
    }
}

/// The project a session is pinned to, if any.
pub fn bound_project_id(session: &McpSession) -> (r: Option<&str>)
    ensures
        r.deep_view() == bound_spec(session@),
{
    match &session.binding {
        Some(b) => Some(b.project_id.as_str()),
        None => None,
    }
}

/// The project a tool acts on: the pinned one whatever was asked; else the one asked for,
/// trimmed, which must not be blank.
pub open spec fn effective_spec(s: McpSessionV, requested: Option<Seq<char>>) -> Result<
    Seq<char>,
    Seq<char>,
> {
    match bound_spec(s) {
        Some(id) => Ok(id),
        None => match requested {
            Some(r) => if trim(r).len() > 0 {
                Ok(trim(r))
            } else {
                Err("project_id required"@)
            },
            None => Err("project_id required"@),
        },
    }
}

/// The project a tool acts on.
pub fn effective_project_id(session: &McpSession, requested: Option<&str>) -> (r: Result<
    String,
    String,
>)
    ensures
        match r {
            Ok(id) => effective_spec(session@, requested.deep_view()) == Ok::<Seq<char>, Seq<char>>(
                id@,
            ),
            Err(m) => effective_spec(session@, requested.deep_view()) == Err::<
                Seq<char>,
                Seq<char>,
            >(m@),
        },
{
    if let Some(id) = bound_project_id(session) {
        return Ok(owned(id));
    }
    match requested {
        Some(r) => {
            let t = str_trim(r);
            if t.is_empty() {
                Err(String::from_str("project_id required"))
            } else {
                Ok(owned(t))
            }
        },
        None => Err(String::from_str("project_id required")),
    }
}

/// A pinned session only touches requirements of its project.
pub open spec fn scope_spec(s: McpSessionV, r: RequirementV) -> Result<(), Seq<char>> {
    match bound_spec(s) {
        Some(id) => if r.project_id != id {
            Err("requirement "@ + r.id + " is not in bound project "@ + id)
        } else {
            Ok(())
        },
        None => Ok(()),
    }
}

/// Check that a requirement lies in the session's pinned project.
pub fn assert_req_in_scope(session: &McpSession, r: &Requirement) -> (res: Result<(), String>)
    ensures
        match res {
            Ok(()) => scope_spec(session@, r.deep_view()) == Ok::<(), Seq<char>>(()),
            Err(m) => scope_spec(session@, r.deep_view()) == Err::<(), Seq<char>>(m@),
        },
{
    if let Some(id) = bound_project_id(session) {
        if !str_eq(r.project_id.as_str(), id) {
            let mut m = String::from_str("requirement ");
            m.append(r.id.as_str());
            m.append(" is not in bound project ");
            m.append(id);
            return Err(m);
        }
    }
    Ok(())
}

} // verus!
