//! Bearer token auth → role, and which roles each endpoint admits.

use vstd::prelude::*;
use vstd::string::*;

use crate::domain::models::AgentSeat;
use crate::domain::state::{role_name, Role};
use crate::http::error::{api_error, ApiError, ApiErrorV};
use crate::services::board::Board;
use crate::services::tokens::{lookup_spec, lookup_token};
use crate::text::{has_prefix, str_starts_with, str_trim, trim};

verus! {

/// Authenticated actor from `Authorization: Bearer <token>`.
#[derive(Debug)]
pub struct AuthUser {
    pub role: Role,
    /// Token name (used as actor id for claims / events).
    pub name: String,
}

pub struct AuthUserV {
    pub role: Role,
    pub name: Seq<char>,
}

impl View for AuthUser {
    type V = AuthUserV;

    open spec fn view(&self) -> AuthUserV {
        AuthUserV { role: self.role, name: self.name@ }
    }
}

/// Refusal of a role at an endpoint.
pub open spec fn role_refused(role: Role) -> ApiErrorV {
    api_error(
        403,
        "forbidden"@,
        "role `"@ + role_name(role) + "` is not allowed for this endpoint"@,
    )
}

impl AuthUser {
    /// Admit the caller only when its role is one of `allowed`.
    pub fn require_roles(&self, allowed: &[Role]) -> (r: Result<(), ApiError>)
        ensures
            r is Ok <==> allowed@.contains(self.role),
            r matches Err(e) ==> e@ == role_refused(self.role),
    {
        let mut i: usize = 0;
        while i < allowed.len()
            invariant
                i <= allowed@.len(),
                forall|j: int| 0 <= j < i ==> allowed@[j] != self.role,
            decreases allowed.len() - i,
        {
            if allowed[i] == self.role {
                assert(allowed@[i as int] == self.role);
                return Ok(());
            }
            i += 1;
        }
        let mut m = String::from_str("role `");
        m.append(self.role.as_str());
        m.append("` is not allowed for this endpoint");
        Err(ApiError::forbidden(m))
    }
}

/// The token a header carries: after `Bearer ` (or `bearer `), trimmed, and not empty.
pub open spec fn bearer_spec(header: Option<Seq<char>>) -> Result<Seq<char>, ApiErrorV> {
    match header {
        None => Err(api_error(401, "unauthorized"@, "missing Authorization header"@)),
        Some(h) => if has_prefix(h, "Bearer "@) || has_prefix(h, "bearer "@) {
            let t = trim(h.skip(7));
            if t.len() > 0 {
                Ok(t)
            } else {
                Err(api_error(401, "unauthorized"@, "expected Bearer token"@))
            }
        } else {
            Err(api_error(401, "unauthorized"@, "expected Bearer token"@))
        },
    }
}

/// The token of an `Authorization` header value (`None` when the header is missing or not text).
pub fn bearer_token<'a>(header: Option<&'a str>) -> (r: Result<&'a str, ApiError>)
    ensures
        match r {
            Ok(t) => bearer_spec(header.deep_view()) == Ok::<Seq<char>, ApiErrorV>(t@),
            Err(e) => bearer_spec(header.deep_view()) == Err::<Seq<char>, ApiErrorV>(e@),
        },
{
    proof {
        reveal_strlit("Bearer ");
        reveal_strlit("bearer ");
    }
    let h = match header {
        None => return Err(ApiError::unauthorized(String::from_str("missing Authorization header"))),
        Some(h) => h,
    };
    if !(str_starts_with(h, "Bearer ") || str_starts_with(h, "bearer ")) {
        return Err(ApiError::unauthorized(String::from_str("expected Bearer token")));
    }
    let n = h.unicode_len();
    let rest = h.substring_char(7, n);
    assert(rest@ =~= h@.skip(7));
    let t = str_trim(rest);
    if t.is_empty() {
        return Err(ApiError::unauthorized(String::from_str("expected Bearer token")));
    }
    Ok(t)
}

/// Who a request is from: the token's role and name, or why it is refused.
pub open spec fn authenticate_spec(
    board: crate::services::board::BoardV,
    header: Option<Seq<char>>,
) -> Result<AuthUserV, ApiErrorV> {
    match bearer_spec(header) {
        Err(e) => Err(e),
        Ok(t) => match lookup_spec(board, t) {
            None => Err(api_error(401, "unauthorized"@, "invalid token"@)),
            Some(tok) => Ok(AuthUserV { role: tok.role, name: tok.name }),
        },
    }
}

/// Resolve the caller from its `Authorization` header value.
pub fn authenticate(board: &Board, header: Option<&str>) -> (r: Result<AuthUser, ApiError>)
    ensures
        match r {
            Ok(u) => authenticate_spec(board@, header.deep_view()) == Ok::<AuthUserV, ApiErrorV>(u@),
            Err(e) => authenticate_spec(board@, header.deep_view()) == Err::<AuthUserV, ApiErrorV>(
                e@,
            ),
        },
{
    let token = bearer_token(header)?;
    match lookup_token(board, token) {
        None => Err(ApiError::unauthorized(String::from_str("invalid token"))),
        Some(row) => Ok(AuthUser { role: row.role, name: row.name }),
    }
}

/// The endpoints of the HTTP API that act for a caller.
#[derive(Debug, Clone, Copy, PartialEq, Eq)]
pub enum Endpoint {
    ListProjects,
    CreateProject,
    PatchProject,
    ArchiveProject,
    UnarchiveProject,
    AckAgentSeat(AgentSeat),
    GetPairCodes,
    RotatePairCode,
    ListRequirements,
    CreateRequirement,
    GetRequirement,
    Claim,
    Progress,
    SubmitReview,
    CompleteReview,
    Cancel,
    Release,
}

/// Whether an endpoint admits a role. Reads are open to every token; project administration
/// and review completion are admin only; work verbs are for the foreman, planning verbs for
/// the planner, and admin may do both.
pub open spec fn endpoint_admits(ep: Endpoint, role: Role) -> bool {
    match ep {
        Endpoint::ListProjects | Endpoint::ListRequirements | Endpoint::GetRequirement => true,
        Endpoint::CreateProject | Endpoint::PatchProject | Endpoint::ArchiveProject
        | Endpoint::UnarchiveProject | Endpoint::GetPairCodes | Endpoint::RotatePairCode
        | Endpoint::CompleteReview => role == Role::Admin,
        Endpoint::AckAgentSeat(AgentSeat::Discuss) | Endpoint::CreateRequirement
        | Endpoint::Cancel => role == Role::Planner || role == Role::Admin,
        Endpoint::AckAgentSeat(AgentSeat::Build) | Endpoint::Claim | Endpoint::Progress
        | Endpoint::SubmitReview | Endpoint::Release => role == Role::Foreman || role == Role::Admin,
    }
}

/// The admin token opens every endpoint; a planner never claims, submits, releases or reviews,
/// and a foreman never creates, cancels or reviews.
pub proof fn law_endpoint_gates(ep: Endpoint)
    ensures
        endpoint_admits(ep, Role::Admin),
        endpoint_admits(ep, Role::Planner) ==> !(ep is Claim || ep is Progress || ep is SubmitReview
            || ep is Release || ep is CompleteReview),
        endpoint_admits(ep, Role::Foreman) ==> !(ep is CreateRequirement || ep is Cancel
            || ep is CompleteReview || ep is CreateProject),
{
}

/// The roles an endpoint admits.
pub fn endpoint_roles(ep: Endpoint) -> (r: Vec<Role>)
    ensures
        forall|role: Role| r@.contains(role) <==> endpoint_admits(ep, role),
{
    let r = match ep {
        Endpoint::ListProjects | Endpoint::ListRequirements | Endpoint::GetRequirement => vec![
            Role::Admin,
            Role::Planner,
            Role::Foreman,
        ],
        Endpoint::CreateProject | Endpoint::PatchProject | Endpoint::ArchiveProject
        | Endpoint::UnarchiveProject | Endpoint::GetPairCodes | Endpoint::RotatePairCode
        | Endpoint::CompleteReview => vec![Role::Admin],
        Endpoint::AckAgentSeat(AgentSeat::Discuss) | Endpoint::Cancel => vec![
            Role::Planner,
            Role::Admin,
        ],
        Endpoint::CreateRequirement => vec![Role::Admin, Role::Planner],
        Endpoint::AckAgentSeat(AgentSeat::Build) | Endpoint::Claim | Endpoint::Progress
        | Endpoint::SubmitReview | Endpoint::Release => vec![Role::Foreman, Role::Admin],
    };
    proof {
        assert forall|role: Role| endpoint_admits(ep, role) implies r@.contains(role) by {
            if r@[0] == role {
                assert(r@.contains(r@[0]));
            } else if r@.len() > 1 && r@[1] == role {
                assert(r@.contains(r@[1]));
            } else if r@.len() > 2 && r@[2] == role {
                assert(r@.contains(r@[2]));
            }
        }
        assert forall|role: Role| r@.contains(role) implies endpoint_admits(ep, role) by {
            let k = choose|k: int| 0 <= k < r@.len() && r@[k] == role;
        }
    }
    r
}

impl AuthUser {
    /// Admit the caller only when the endpoint admits its role.
    pub fn require_endpoint(&self, ep: Endpoint) -> (r: Result<(), ApiError>)
        ensures
            r is Ok <==> endpoint_admits(ep, self.role),
            r matches Err(e) ==> e@ == role_refused(self.role),
    {
        let roles = endpoint_roles(ep);
        self.require_roles(roles.as_slice())
    }
}

} // verus!
