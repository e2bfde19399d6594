//! Token → role resolution for MCP.

use vstd::prelude::*;
use vstd::string::*;

use crate::domain::state::{role_name, Role};
use crate::mcp::{role_allowed_for_surface, surface_admits, surface_name, McpError, McpRole};
use crate::services::board::{Board, BoardV};
use crate::services::tokens::{lookup_spec, lookup_token};

verus! {

/// Authenticated actor for MCP tool calls.
#[derive(Debug)]
pub struct AuthContext {
    /// Token name (used as actor / claimed_by).
    pub name: String,
    /// Role of the token (admin keeps full domain privileges).
    pub role: Role,
}

pub struct AuthContextV {
    pub name: Seq<char>,
    pub role: Role,
}

impl View for AuthContext {
    type V = AuthContextV;

    open spec fn view(&self) -> AuthContextV {
        AuthContextV { name: self.name@, role: self.role }
    }
}

/// Resolving a token for a surface: it must be stored, and its role must fit the surface
/// (admin tokens may use either).
pub open spec fn resolve_auth_spec(b: BoardV, token: Seq<char>, surface: McpRole) -> Result<
    AuthContextV,
    Seq<char>,
> {
    match lookup_spec(b, token) {
        None => Err("invalid token"@),
        Some(t) => if !surface_admits(t.role, surface) {
            Err(
                "CLI --role "@ + surface_name(surface) + " does not match token role "@ + role_name(
                    t.role,
                ) + " (admin tokens may use either)"@,
            )
        } else {
            Ok(AuthContextV { name: t.name, role: t.role })
        },
    }
}

/// Resolve a bearer token and check that the surface fits its role.
pub fn resolve_auth(board: &Board, plaintext_token: &str, surface: McpRole) -> (r: Result<
    AuthContext,
    McpError,
>)
    ensures
        match r {
            Ok(a) => resolve_auth_spec(board@, plaintext_token@, surface) == Ok::<
                AuthContextV,
                Seq<char>,
            >(a@),
            Err(e) => resolve_auth_spec(board@, plaintext_token@, surface) == Err::<
                AuthContextV,
                Seq<char>,
            >(e@),
        },
{
    let row = match lookup_token(board, plaintext_token) {
        None => return Err(McpError::msg(String::from_str("invalid token"))),
        Some(row) => row,
    };
    if !role_allowed_for_surface(row.role, surface) {
        let mut m = String::from_str("CLI --role ");
        m.append(surface.as_str());
        m.append(" does not match token role ");
        m.append(row.role.as_str());
        m.append(" (admin tokens may use either)");
        return Err(McpError::msg(m));
    }
    Ok(AuthContext { name: row.name, role: row.role })
}

} // verus!
