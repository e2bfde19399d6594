//! HTTP error mapping: each service error becomes a status code, a stable code and a message.

use vstd::prelude::*;
use vstd::string::*;

use crate::domain::state::{role_name, status_name, TransitionError, TransitionErrorV};
use crate::outside::{debug_opt, debug_opt_string};
use crate::services::pair_codes::{PairError, PairErrorV};
use crate::services::projects::{ProjectError, ProjectErrorV};
use crate::services::requirements::{
    CreateRequirementError, CreateRequirementErrorV, VerbError, VerbErrorV,
};

verus! {

#[derive(Debug)]
pub struct ApiError {
    pub status: u16,
    pub code: &'static str,
    pub message: String,
}

pub struct ApiErrorV {
    pub status: u16,
    pub code: Seq<char>,
    pub message: Seq<char>,
}

impl View for ApiError {
    type V = ApiErrorV;

    open spec fn view(&self) -> ApiErrorV {
        ApiErrorV { status: self.status, code: self.code@, message: self.message@ }
    }
}

/// An error answer over plain values.
pub open spec fn api_error(status: u16, code: Seq<char>, message: Seq<char>) -> ApiErrorV {
    ApiErrorV { status: status, code: code, message: message }
}

impl ApiError {
    pub fn new(status: u16, code: &'static str, message: String) -> (r: ApiError)
        ensures
            r@ == api_error(status, code@, message@),
    {
        ApiError { status: status, code: code, message: message }
    }

    pub fn unauthorized(msg: String) -> (r: ApiError)
        ensures
            r@ == api_error(401, "unauthorized"@, msg@),
    {
        ApiError::new(401, "unauthorized", msg)
    }

    pub fn forbidden(msg: String) -> (r: ApiError)
        ensures
            r@ == api_error(403, "forbidden"@, msg@),
    {
        ApiError::new(403, "forbidden", msg)
    }

    pub fn not_found(msg: String) -> (r: ApiError)
        ensures
            r@ == api_error(404, "not_found"@, msg@),
    {
        ApiError::new(404, "not_found", msg)
    }

    pub fn conflict(msg: String) -> (r: ApiError)
        ensures
            r@ == api_error(409, "conflict"@, msg@),
    {
        ApiError::new(409, "conflict", msg)
    }

    pub fn bad_request(msg: String) -> (r: ApiError)
        ensures
            r@ == api_error(400, "bad_request"@, msg@),
    {
        ApiError::new(400, "bad_request", msg)
    }

    pub fn internal(msg: String) -> (r: ApiError)
        ensures
            r@ == api_error(500, "internal"@, msg@),
    {
        ApiError::new(500, "internal", msg)
    }
}

/// The answer to a refused transition.
pub open spec fn transition_api_error(e: TransitionErrorV) -> ApiErrorV {
    match e {
        TransitionErrorV::ForbiddenRole { role, verb } => api_error(
            403,
            "forbidden"@,
            "role `"@ + role_name(role) + "` cannot perform `"@ + verb + "`"@,
        ),
        TransitionErrorV::NotClaimant { actor, claimed_by } => api_error(
            403,
            "forbidden"@,
            "actor `"@ + actor + "` is not the claimant (claimed_by="@ + debug_opt_string(claimed_by)
                + ")"@,
        ),
        TransitionErrorV::AlreadyClaimed { claimed_by } => api_error(
            409,
            "conflict"@,
            "already claimed by `"@ + claimed_by + "`"@,
        ),
        TransitionErrorV::NotClaimable { status } => api_error(
            409,
            "conflict"@,
            "not claimable in status `"@ + status_name(status) + "`"@,
        ),
        TransitionErrorV::IllegalFromStatus { verb, from } => api_error(
            409,
            "conflict"@,
            "`"@ + verb + "` not allowed from status `"@ + status_name(from) + "`"@,
        ),
        TransitionErrorV::Terminal { status } => api_error(
            409,
            "conflict"@,
            "terminal status `"@ + status_name(status) + "` rejects further transitions"@,
        ),
    }
}

/// The answer to a failed lifecycle verb.
pub open spec fn verb_api_error(e: VerbErrorV) -> ApiErrorV {
    match e {
        VerbErrorV::NotFound(id) => api_error(404, "not_found"@, "requirement not found: "@ + id),
        VerbErrorV::ConcurrentClaimLost => api_error(
            409,
            "conflict"@,
            "concurrent claim lost (already claimed or status changed)"@,
        ),
        VerbErrorV::ProjectArchived(id) => api_error(
            409,
            "project_archived"@,
            "project is archived: "@ + id,
        ),
        VerbErrorV::DependenciesNotMet => api_error(
            409,
            "dependencies_not_met"@,
            "cannot claim: one or more dependencies are not done"@,
        ),
        VerbErrorV::RejectReasonRequired => api_error(
            400,
            "reject_reason_required"@,
            "rejecting a review requires a non-empty reason"@,
        ),
        VerbErrorV::Transition(t) => transition_api_error(t),
    }
}

/// The answer to a failed requirement creation.
pub open spec fn create_api_error(e: CreateRequirementErrorV) -> ApiErrorV {
    match e {
        CreateRequirementErrorV::ProjectNotFound(id) => api_error(
            404,
            "not_found"@,
            "project not found: "@ + id,
        ),
        CreateRequirementErrorV::EmptyTitle => api_error(
            400,
            "bad_request"@,
            "title must not be empty"@,
        ),
        CreateRequirementErrorV::ProjectArchived(id) => api_error(
            409,
            "project_archived"@,
            "project is archived: "@ + id,
        ),
        CreateRequirementErrorV::DuplicateId(id) => api_error(
            409,
            "conflict"@,
            "requirement already exists: "@ + id,
        ),
    }
}

/// The answer to a failed project operation.
pub open spec fn project_api_error(e: ProjectErrorV) -> ApiErrorV {
    match e {
        ProjectErrorV::NotFound(id) => api_error(404, "not_found"@, "project not found: "@ + id),
        ProjectErrorV::EmptyName => api_error(400, "bad_request"@, "name must not be empty"@),
        ProjectErrorV::AlreadyExists(id) => api_error(
            409,
            "conflict"@,
            "project already exists: "@ + id,
        ),
        ProjectErrorV::InvalidLocalPath(m) => api_error(
            400,
            "bad_request"@,
            "invalid local_path: "@ + m,
        ),
        ProjectErrorV::Archived(id) => api_error(
            409,
            "project_archived"@,
            "project is archived: "@ + id,
        ),
        ProjectErrorV::InvalidId(m) => api_error(400, "bad_request"@, "invalid project id: "@ + m),
    }
}

/// The answer to a failed pair-code operation.
pub open spec fn pair_api_error(e: PairErrorV) -> ApiErrorV {
    match e {
        PairErrorV::NotFound(id) => api_error(404, "not_found"@, "project not found: "@ + id),
        PairErrorV::InvalidCode => api_error(401, "unauthorized"@, "invalid pair code"@),
        PairErrorV::PlaintextLost(id) => api_error(
            409,
            "conflict"@,
            "plaintext pair codes missing for project "@ + id + "; rotate to issue new ones"@,
        ),
        PairErrorV::File(m) => api_error(500, "internal"@, m),
    }
}

/// `a` followed by `b`.
fn cat2(a: &str, b: &str) -> (r: String)
    ensures
        r@ == a@ + b@,
{
    let mut m = String::from_str(a);
    m.append(b);
    m
}

/// `a`, `b`, `c` in a row.
fn cat3(a: &str, b: &str, c: &str) -> (r: String)
    ensures
        r@ == a@ + b@ + c@,
{
    let mut m = cat2(a, b);
    m.append(c);
    m
}

/// `a`, `b`, `c`, `d`, `e` in a row.
fn cat5(a: &str, b: &str, c: &str, d: &str, e: &str) -> (r: String)
    ensures
        r@ == a@ + b@ + c@ + d@ + e@,
{
    let mut m = cat3(a, b, c);
    m.append(d);
    m.append(e);
    m
}

/// The answer to a refused transition.
pub fn transition_to_api(e: &TransitionError) -> (r: ApiError)
    ensures
        r@ == transition_api_error(e@),
{
    match e {
        TransitionError::ForbiddenRole { role, verb } => ApiError::forbidden(
            cat5("role `", role.as_str(), "` cannot perform `", verb, "`"),
        ),
        TransitionError::NotClaimant { actor, claimed_by } => ApiError::forbidden(
            cat5(
                "actor `",
                actor.as_str(),
                "` is not the claimant (claimed_by=",
                debug_opt(claimed_by).as_str(),
                ")",
            ),
        ),
        TransitionError::AlreadyClaimed { claimed_by } => ApiError::conflict(
            cat3("already claimed by `", claimed_by.as_str(), "`"),
        ),
        TransitionError::NotClaimable { status } => ApiError::conflict(
            cat3("not claimable in status `", status.as_str(), "`"),
        ),
        TransitionError::IllegalFromStatus { verb, from } => ApiError::conflict(
            cat5("`", verb, "` not allowed from status `", from.as_str(), "`"),
        ),
        TransitionError::Terminal { status } => ApiError::conflict(
            cat3("terminal status `", status.as_str(), "` rejects further transitions"),
        ),
    }
}

impl ApiError {
    /// The answer to a failed lifecycle verb.
    pub fn from_verb(e: &VerbError) -> (r: ApiError)
        ensures
            r@ == verb_api_error(e@),
    {
        match e {
            VerbError::NotFound(id) => ApiError::not_found(cat2("requirement not found: ", id.as_str())),
            VerbError::ConcurrentClaimLost => ApiError::conflict(
                String::from_str("concurrent claim lost (already claimed or status changed)"),
            ),
            VerbError::ProjectArchived(id) => ApiError::new(
                409,
                "project_archived",
                cat2("project is archived: ", id.as_str()),
            ),
            VerbError::DependenciesNotMet => ApiError::new(
                409,
                "dependencies_not_met",
                String::from_str("cannot claim: one or more dependencies are not done"),
            ),
            VerbError::RejectReasonRequired => ApiError::new(
                400,
                "reject_reason_required",
                String::from_str("rejecting a review requires a non-empty reason"),
            ),
            VerbError::Transition(t) => transition_to_api(t),
        }
    }

    /// The answer to a failed requirement creation.
    pub fn from_create(e: &CreateRequirementError) -> (r: ApiError)
        ensures
            r@ == create_api_error(e@),
    {
        match e {
            CreateRequirementError::ProjectNotFound(id) => ApiError::not_found(
                cat2("project not found: ", id.as_str()),
            ),
            CreateRequirementError::EmptyTitle => ApiError::bad_request(
                String::from_str("title must not be empty"),
            ),
            CreateRequirementError::ProjectArchived(id) => ApiError::new(
                409,
                "project_archived",
                cat2("project is archived: ", id.as_str()),
            ),
            CreateRequirementError::DuplicateId(id) => ApiError::conflict(
                cat2("requirement already exists: ", id.as_str()),
            ),
        }
    }

    /// The answer to a failed project operation.
    pub fn from_project(e: &ProjectError) -> (r: ApiError)
        ensures
            r@ == project_api_error(e@),
    {
        match e {
            ProjectError::NotFound(id) => ApiError::not_found(cat2("project not found: ", id.as_str())),
            ProjectError::EmptyName => ApiError::bad_request(String::from_str("name must not be empty")),
            ProjectError::AlreadyExists(id) => ApiError::conflict(
                cat2("project already exists: ", id.as_str()),
            ),
            ProjectError::InvalidLocalPath(m) => ApiError::bad_request(
                cat2("invalid local_path: ", m.as_str()),
            ),
            ProjectError::Archived(id) => ApiError::new(
                409,
                "project_archived",
                cat2("project is archived: ", id.as_str()),
            ),
            ProjectError::InvalidId(m) => ApiError::bad_request(
                cat2("invalid project id: ", m.as_str()),
            ),
        }
    }

    /// The answer to a failed pair-code operation.
    pub fn from_pair(e: &PairError) -> (r: ApiError)
        ensures
            r@ == pair_api_error(e@),
    {
        match e {
            PairError::NotFound(id) => ApiError::not_found(cat2("project not found: ", id.as_str())),
            PairError::InvalidCode => ApiError::unauthorized(String::from_str("invalid pair code")),
            PairError::PlaintextLost(id) => ApiError::conflict(
                cat3(
                    "plaintext pair codes missing for project ",
                    id.as_str(),
                    "; rotate to issue new ones",
                ),
            ),
            PairError::File(m) => ApiError::internal(m.clone()),
        }
    }
}

} // verus!
