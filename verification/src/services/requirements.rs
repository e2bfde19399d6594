//! Requirement services: create → todo and the lifecycle verbs, over the store.

use vstd::prelude::*;
use vstd::string::*;

use crate::domain::models::{
    CreateRequirementInput, Event, EventV, Micros, Requirement, RequirementV,
};
use crate::domain::state::{
    apply_transition, check_v, claim_update_v, clone_opt_string, lemma_apply_view, next_status,
    Role, Status, Transition, TransitionContext, TransitionError, TransitionErrorV,
};
use crate::outside::{json_array_items, json_string_literal};
use crate::services::board::{
    find_first, find_requirement, lemma_dv_push, lemma_dv_update, lemma_filter_take_all,
    lemma_filter_take_step, lemma_filter_take_zero, req_with_id, Board, BoardV,
};
use crate::services::projects::{project_pos, writable_spec, ProjectError, ProjectErrorV};
use crate::text::{is_blank, str_trim};

verus! {

#[derive(Debug)]
pub enum CreateRequirementError {
    ProjectNotFound(String),
    EmptyTitle,
    ProjectArchived(String),
    /// A requirement with this id is already stored.
    DuplicateId(String),
}

pub enum CreateRequirementErrorV {
    ProjectNotFound(Seq<char>),
    EmptyTitle,
    ProjectArchived(Seq<char>),
    DuplicateId(Seq<char>),
}

impl View for CreateRequirementError {
    type V = CreateRequirementErrorV;

    open spec fn view(&self) -> CreateRequirementErrorV {
        match self {
            CreateRequirementError::ProjectNotFound(s) => CreateRequirementErrorV::ProjectNotFound(s@),
            CreateRequirementError::EmptyTitle => CreateRequirementErrorV::EmptyTitle,
            CreateRequirementError::ProjectArchived(s) => CreateRequirementErrorV::ProjectArchived(s@),
            CreateRequirementError::DuplicateId(s) => CreateRequirementErrorV::DuplicateId(s@),
        }
    }
}

#[derive(Debug)]
pub enum UpdateRequirementError {
    NotFound(String),
    NotTodo(Status),
    EmptyTitle,
    ProjectArchived(String),
}

pub enum UpdateRequirementErrorV {
    NotFound(Seq<char>),
    NotTodo(Status),
    EmptyTitle,
    ProjectArchived(Seq<char>),
}

impl View for UpdateRequirementError {
    type V = UpdateRequirementErrorV;

    open spec fn view(&self) -> UpdateRequirementErrorV {
        match self {
            UpdateRequirementError::NotFound(s) => UpdateRequirementErrorV::NotFound(s@),
            UpdateRequirementError::NotTodo(st) => UpdateRequirementErrorV::NotTodo(*st),
            UpdateRequirementError::EmptyTitle => UpdateRequirementErrorV::EmptyTitle,
            UpdateRequirementError::ProjectArchived(s) => UpdateRequirementErrorV::ProjectArchived(s@),
        }
    }
}

/// Partial field updates for a requirement still in `todo`.
#[derive(Debug, Default)]
pub struct UpdateRequirementInput {
    pub title: Option<String>,
    pub description: Option<String>,
    pub priority: Option<String>,
    pub scope_json: Option<String>,
    pub non_scope_json: Option<String>,
    pub acceptance_json: Option<String>,
    pub dependencies_json: Option<String>,
}

/// Shared error for lifecycle verbs (claim, progress, review, release, cancel).
#[derive(Debug)]
pub enum VerbError {
    NotFound(String),
    Transition(TransitionError),
    ConcurrentClaimLost,
    ProjectArchived(String),
    DependenciesNotMet,
    RejectReasonRequired,
}

/// Alias kept for claim call sites.
pub type ClaimError = VerbError;

pub enum VerbErrorV {
    NotFound(Seq<char>),
    Transition(TransitionErrorV),
    ConcurrentClaimLost,
    ProjectArchived(Seq<char>),
    DependenciesNotMet,
    RejectReasonRequired,
}

impl View for VerbError {
    type V = VerbErrorV;

    open spec fn view(&self) -> VerbErrorV {
        match self {
            VerbError::NotFound(s) => VerbErrorV::NotFound(s@),
            VerbError::Transition(e) => VerbErrorV::Transition(e@),
            VerbError::ConcurrentClaimLost => VerbErrorV::ConcurrentClaimLost,
            VerbError::ProjectArchived(s) => VerbErrorV::ProjectArchived(s@),
            VerbError::DependenciesNotMet => VerbErrorV::DependenciesNotMet,
            VerbError::RejectReasonRequired => VerbErrorV::RejectReasonRequired,
        }
    }
}

pub open spec fn create_result_v(r: Result<Requirement, CreateRequirementError>) -> Result<
    RequirementV,
    CreateRequirementErrorV,
> {
    match r {
        Ok(x) => Ok(x.deep_view()),
        Err(e) => Err(e@),
    }
}

pub open spec fn update_result_v(r: Result<Requirement, UpdateRequirementError>) -> Result<
    RequirementV,
    UpdateRequirementErrorV,
> {
    match r {
        Ok(x) => Ok(x.deep_view()),
        Err(e) => Err(e@),
    }
}

pub open spec fn verb_result_v(r: Result<Requirement, VerbError>) -> Result<RequirementV, VerbErrorV> {
    match r {
        Ok(x) => Ok(x.deep_view()),
        Err(e) => Err(e@),
    }
}

/// Creation input over plain values.
pub struct CreateInputV {
    pub project_id: Seq<char>,
    pub title: Seq<char>,
    pub description: Seq<char>,
    pub priority: Seq<char>,
    pub scope_json: Seq<char>,
    pub non_scope_json: Seq<char>,
    pub acceptance_json: Seq<char>,
    pub dependencies_json: Seq<char>,
    pub created_by: Seq<char>,
}

pub open spec fn create_input_v(i: CreateRequirementInput) -> CreateInputV {
    CreateInputV {
        project_id: i.project_id@,
        title: i.title@,
        description: i.description@,
        priority: i.priority@,
        scope_json: i.scope_json@,
        non_scope_json: i.non_scope_json@,
        acceptance_json: i.acceptance_json@,
        dependencies_json: i.dependencies_json@,
        created_by: i.created_by@,
    }
}

/// Update input over plain values.
pub struct UpdateInputV {
    pub title: Option<Seq<char>>,
    pub description: Option<Seq<char>>,
    pub priority: Option<Seq<char>>,
    pub scope_json: Option<Seq<char>>,
    pub non_scope_json: Option<Seq<char>>,
    pub acceptance_json: Option<Seq<char>>,
    pub dependencies_json: Option<Seq<char>>,
}

pub open spec fn update_input_v(i: UpdateRequirementInput) -> UpdateInputV {
    UpdateInputV {
        title: i.title.deep_view(),
        description: i.description.deep_view(),
        priority: i.priority.deep_view(),
        scope_json: i.scope_json.deep_view(),
        non_scope_json: i.non_scope_json.deep_view(),
        acceptance_json: i.acceptance_json.deep_view(),
        dependencies_json: i.dependencies_json.deep_view(),
    }
}

/// Position of requirement `id` in the store.
pub open spec fn req_pos(b: BoardV, id: Seq<char>) -> Option<int> {
    find_first(b.requirements, req_with_id(id))
}

/// A log entry over plain values.
pub open spec fn event_v(
    id: Seq<char>,
    project_id: Seq<char>,
    requirement_id: Option<Seq<char>>,
    actor: Seq<char>,
    kind: Seq<char>,
    message: Seq<char>,
    payload: Seq<char>,
    now: Micros,
) -> EventV {
    EventV {
        id: id,
        project_id: project_id,
        requirement_id: requirement_id,
        actor: actor,
        kind: kind,
        message: message,
        payload_json: payload,
        created_at: now,
    }
}

/// `b` with requirement `i` replaced and one entry appended to the log.
pub open spec fn with_req_event(b: BoardV, i: int, r: RequirementV, e: EventV) -> BoardV {
    BoardV { requirements: b.requirements.update(i, r), events: b.events.push(e), ..b }
}

/// JSON `null` or a JSON string.
pub open spec fn json_opt(o: Option<Seq<char>>) -> Seq<char> {
    match o {
        Some(s) => json_string_literal(s),
        None => "null"@,
    }
}

/// Event payload of `update`: the fields asked for (keys in sorted order).
pub open spec fn update_payload(i: UpdateInputV) -> Seq<char> {
    "{\"description\":"@ + json_opt(i.description) + ",\"priority\":"@ + json_opt(i.priority)
        + ",\"title\":"@ + json_opt(i.title) + "}"@
}

/// Event payload of `report_progress` (keys in sorted order).
pub open spec fn progress_payload(summary: Option<Seq<char>>, blocked: Option<Seq<char>>) -> Seq<
    char,
> {
    "{\"blocked_reason\":"@ + json_opt(blocked) + ",\"summary\":"@ + json_opt(summary) + "}"@
}

/// Event payload of `complete_review` (keys in sorted order).
pub open spec fn review_payload(pass: bool, reason: Option<Seq<char>>) -> Seq<char> {
    "{\"pass\":"@ + (if pass {
        "true"@
    } else {
        "false"@
    }) + ",\"reason\":"@ + json_opt(reason) + "}"@
}

/// Requirement ids listed by a dependencies text: the string items of a JSON array, else none.
pub open spec fn dependency_ids(deps_json: Seq<char>) -> Seq<Seq<char>> {
    ids_of_items(json_array_items(deps_json))
}

/// Keeps string items, drops the rest.
pub open spec fn keep_string() -> spec_fn(Option<Seq<char>>) -> Option<Seq<char>> {
    |o: Option<Seq<char>>| o
}

/// The string items of a parsed array, in order.
pub open spec fn ids_of_items(items: Option<Seq<Option<Seq<char>>>>) -> Seq<Seq<char>> {
    match items {
        Some(s) => s.filter_map(keep_string()),
        None => Seq::empty(),
    }
}

/// Requirement `id` is stored and done.
pub open spec fn dep_done(reqs: Seq<RequirementV>, id: Seq<char>) -> bool {
    match find_first(reqs, req_with_id(id)) {
        Some(i) => reqs[i].status == Status::Done,
        None => false,
    }
}

/// Every dependency listed by `deps_json` is stored and done.
pub open spec fn deps_satisfied(reqs: Seq<RequirementV>, deps_json: Seq<char>) -> bool {
    forall|k: int|
        0 <= k < dependency_ids(deps_json).len() ==> dep_done(
            reqs,
            #[trigger] dependency_ids(deps_json)[k],
        )
}

/// The requirement a verb acts on: it must exist and its project must be writable.
pub open spec fn verb_target(b: BoardV, id: Seq<char>) -> Result<int, VerbErrorV> {
    match req_pos(b, id) {
        None => Err(VerbErrorV::NotFound(id)),
        Some(i) => match writable_spec(b, b.requirements[i].project_id) {
            Ok(_) => Ok(i),
            Err(ProjectErrorV::Archived(x)) => Err(VerbErrorV::ProjectArchived(x)),
            Err(ProjectErrorV::NotFound(x)) => Err(VerbErrorV::NotFound("project not found: "@ + x)),
            Err(_) => Err(VerbErrorV::NotFound(Seq::empty())),
        },
    }
}

/// A status verb at time `now`, logged with `kind`, `message` and `payload`.
pub open spec fn status_verb_spec(
    b: BoardV,
    id: Seq<char>,
    actor: Seq<char>,
    role: Role,
    t: Transition,
    kind: Seq<char>,
    message: Seq<char>,
    payload: Seq<char>,
    event_id: Seq<char>,
    now: Micros,
) -> (BoardV, Result<RequirementV, VerbErrorV>) {
    match verb_target(b, id) {
        Err(e) => (b, Err(e)),
        Ok(i) => {
            let r = b.requirements[i];
            match check_v(r.status, role, actor, r.claimed_by, t) {
                Err(te) => (b, Err(VerbErrorV::Transition(te))),
                Ok(()) => {
                    let nr = RequirementV {
                        status: next_status(r.status, t),
                        claimed_by: match claim_update_v(actor, t) {
                            Some(c) => c,
                            None => r.claimed_by,
                        },
                        updated_at: now,
                        ..r
                    };
                    let e = event_v(event_id, r.project_id, Some(id), actor, kind, message, payload, now);
                    (with_req_event(b, i, nr, e), Ok(nr))
                },
            }
        },
    }
}

/// `claim_task` at time `now`: todo → in_progress with the actor as claimant, once every
/// dependency is done.
pub open spec fn claim_spec(
    b: BoardV,
    id: Seq<char>,
    actor: Seq<char>,
    role: Role,
    event_id: Seq<char>,
    now: Micros,
) -> (BoardV, Result<RequirementV, VerbErrorV>) {
    match verb_target(b, id) {
        Err(e) => (b, Err(e)),
        Ok(i) => if !deps_satisfied(b.requirements, b.requirements[i].dependencies_json) {
            (b, Err(VerbErrorV::DependenciesNotMet))
        } else {
            status_verb_spec(
                b,
                id,
                actor,
                role,
                Transition::ClaimTask,
                "claim_task"@,
                actor + " claimed requirement"@,
                "{}"@,
                event_id,
                now,
            )
        },
    }
}

/// `report_progress` at time `now`: status unchanged; summary and blocked reason recorded.
pub open spec fn progress_spec(
    b: BoardV,
    id: Seq<char>,
    actor: Seq<char>,
    role: Role,
    summary: Option<Seq<char>>,
    blocked: Option<Seq<char>>,
    event_id: Seq<char>,
    now: Micros,
) -> (BoardV, Result<RequirementV, VerbErrorV>) {
    match verb_target(b, id) {
        Err(e) => (b, Err(e)),
        Ok(i) => {
            let r = b.requirements[i];
            match check_v(r.status, role, actor, r.claimed_by, Transition::ReportProgress) {
                Err(te) => (b, Err(VerbErrorV::Transition(te))),
                Ok(()) => {
                    let nr = RequirementV {
                        progress_summary: match summary {
                            Some(s) => Some(s),
                            None => r.progress_summary,
                        },
                        blocked_reason: match blocked {
                            Some(s) => if s.len() == 0 {
                                None
                            } else {
                                Some(s)
                            },
                            None => r.blocked_reason,
                        },
                        updated_at: now,
                        ..r
                    };
                    let message = match summary {
                        Some(s) => s,
                        None => "progress reported"@,
                    };
                    let e = event_v(
                        event_id,
                        r.project_id,
                        Some(id),
                        actor,
                        "report_progress"@,
                        message,
                        progress_payload(summary, blocked),
                        now,
                    );
                    (with_req_event(b, i, nr, e), Ok(nr))
                },
            }
        },
    }
}

/// `submit_for_review` at time `now`.
pub open spec fn submit_spec(
    b: BoardV,
    id: Seq<char>,
    actor: Seq<char>,
    role: Role,
    event_id: Seq<char>,
    now: Micros,
) -> (BoardV, Result<RequirementV, VerbErrorV>) {
    status_verb_spec(
        b,
        id,
        actor,
        role,
        Transition::SubmitForReview,
        "submit_for_review"@,
        actor + " submitted for review"@,
        "{}"@,
        event_id,
        now,
    )
}

/// `complete_review` at time `now`: a rejection needs a non-blank reason.
pub open spec fn review_spec(
    b: BoardV,
    id: Seq<char>,
    actor: Seq<char>,
    role: Role,
    pass: bool,
    reason: Option<Seq<char>>,
    event_id: Seq<char>,
    now: Micros,
) -> (BoardV, Result<RequirementV, VerbErrorV>) {
    if !pass && is_blank(
        match reason {
            Some(r) => r,
            None => Seq::empty(),
        },
    ) {
        (b, Err(VerbErrorV::RejectReasonRequired))
    } else {
        status_verb_spec(
            b,
            id,
            actor,
            role,
            Transition::CompleteReview { pass },
            if pass {
                "complete_review_pass"@
            } else {
                "complete_review_fail"@
            },
            actor + if pass {
                " approved review"@
            } else {
                " rejected review"@
            },
            review_payload(pass, reason),
            event_id,
            now,
        )
    }
}

/// `release_task` at time `now`.
pub open spec fn release_spec(
    b: BoardV,
    id: Seq<char>,
    actor: Seq<char>,
    role: Role,
    event_id: Seq<char>,
    now: Micros,
) -> (BoardV, Result<RequirementV, VerbErrorV>) {
    status_verb_spec(
        b,
        id,
        actor,
        role,
        Transition::ReleaseTask,
        "release_task"@,
        actor + " released requirement"@,
        "{}"@,
        event_id,
        now,
    )
}

/// `cancel` at time `now`.
pub open spec fn cancel_spec(
    b: BoardV,
    id: Seq<char>,
    actor: Seq<char>,
    role: Role,
    event_id: Seq<char>,
    now: Micros,
) -> (BoardV, Result<RequirementV, VerbErrorV>) {
    status_verb_spec(
        b,
        id,
        actor,
        role,
        Transition::Cancel,
        "cancel"@,
        actor + " cancelled requirement"@,
        "{}"@,
        event_id,
        now,
    )
}

/// Creating a requirement with id `id` at time `now`: always `todo`, unclaimed.
pub open spec fn create_requirement_spec(
    b: BoardV,
    input: CreateInputV,
    id: Seq<char>,
    event_id: Seq<char>,
    now: Micros,
) -> (BoardV, Result<RequirementV, CreateRequirementErrorV>) {
    if is_blank(input.title) {
        (b, Err(CreateRequirementErrorV::EmptyTitle))
    } else if project_pos(b, input.project_id) is None {
        (b, Err(CreateRequirementErrorV::ProjectNotFound(input.project_id)))
    } else if writable_spec(b, input.project_id) is Err {
        (b, Err(CreateRequirementErrorV::ProjectArchived(input.project_id)))
    } else if req_pos(b, id) is Some {
        (b, Err(CreateRequirementErrorV::DuplicateId(id)))
    } else {
        let r = RequirementV {
            id: id,
            project_id: input.project_id,
            title: input.title,
            description: input.description,
            priority: input.priority,
            status: Status::Todo,
            scope_json: input.scope_json,
            non_scope_json: input.non_scope_json,
            acceptance_json: input.acceptance_json,
            dependencies_json: input.dependencies_json,
            claimed_by: None,
            progress_summary: None,
            blocked_reason: None,
            external_run_id: None,
            created_by: input.created_by,
            created_at: now,
            updated_at: now,
        };
        let e = event_v(
            event_id,
            input.project_id,
            Some(id),
            input.created_by,
            "create"@,
            "created requirement: "@ + input.title,
            "{}"@,
            now,
        );
        (
            BoardV { requirements: b.requirements.push(r), events: b.events.push(e), ..b },
            Ok(r),
        )
    }
}

/// Updating the editable fields of a `todo` requirement at time `now`.
pub open spec fn update_requirement_spec(
    b: BoardV,
    id: Seq<char>,
    actor: Seq<char>,
    input: UpdateInputV,
    event_id: Seq<char>,
    now: Micros,
) -> (BoardV, Result<RequirementV, UpdateRequirementErrorV>) {
    match req_pos(b, id) {
        None => (b, Err(UpdateRequirementErrorV::NotFound(id))),
        Some(i) => {
            let r = b.requirements[i];
            match writable_spec(b, r.project_id) {
                Err(ProjectErrorV::Archived(x)) => (
                    b,
                    Err(UpdateRequirementErrorV::ProjectArchived(x)),
                ),
                Err(ProjectErrorV::NotFound(x)) => (
                    b,
                    Err(UpdateRequirementErrorV::NotFound("project not found: "@ + x)),
                ),
                Err(_) => (b, Err(UpdateRequirementErrorV::NotFound(Seq::empty()))),
                Ok(_) => if r.status != Status::Todo {
                    (b, Err(UpdateRequirementErrorV::NotTodo(r.status)))
                } else if input.title matches Some(t) && is_blank(t) {
                    (b, Err(UpdateRequirementErrorV::EmptyTitle))
                } else {
                    let nr = RequirementV {
                        title: or_keep(input.title, r.title),
                        description: or_keep(input.description, r.description),
                        priority: or_keep(input.priority, r.priority),
                        scope_json: or_keep(input.scope_json, r.scope_json),
                        non_scope_json: or_keep(input.non_scope_json, r.non_scope_json),
                        acceptance_json: or_keep(input.acceptance_json, r.acceptance_json),
                        dependencies_json: or_keep(input.dependencies_json, r.dependencies_json),
                        updated_at: now,
                        ..r
                    };
                    let e = event_v(
                        event_id,
                        r.project_id,
                        Some(id),
                        actor,
                        "update"@,
                        actor + " updated requirement"@,
                        update_payload(input),
                        now,
                    );
                    (with_req_event(b, i, nr, e), Ok(nr))
                },
            }
        },
    }
}

/// The new value if one is given, else the old one.
pub open spec fn or_keep(new: Option<Seq<char>>, old: Seq<char>) -> Seq<char> {
    match new {
        Some(v) => v,
        None => old,
    }
}

} // verus!

verus! {

/// Append one entry to the log.
fn append_event(
    board: &mut Board,
    event_id: &str,
    project_id: &str,
    requirement_id: Option<&str>,
    actor: &str,
    kind: &str,
    message: &str,
    payload_json: &str,
    now: Micros,
)
    ensures
        final(board)@ == (BoardV {
            events: old(board)@.events.push(
                event_v(
                    event_id@,
                    project_id@,
                    requirement_id.deep_view(),
                    actor@,
                    kind@,
                    message@,
                    payload_json@,
                    now,
                ),
            ),
            ..old(board)@
        }),
{
    let e = Event {
        id: String::from_str(event_id),
        project_id: String::from_str(project_id),
        requirement_id: match requirement_id {
            Some(r) => Some(String::from_str(r)),
            None => None,
        },
        actor: String::from_str(actor),
        kind: String::from_str(kind),
        message: String::from_str(message),
        payload_json: String::from_str(payload_json),
        created_at: now,
    };
    let ghost old_events = board.events;
    board.events.push(e);
    proof {
        lemma_dv_push(old_events, board.events, e);
    }
}

/// JSON `null` or a quoted string.
fn json_opt_text(o: Option<&str>) -> (r: String)
    ensures
        r@ == json_opt(o.deep_view()),
{
    match o {
        Some(s) => crate::outside::json_quote(s),
        None => String::from_str("null"),
    }
}

fn opt_str(o: &Option<String>) -> (r: Option<&str>)
    ensures
        r.deep_view() == o.deep_view(),
{
    match o {
        Some(s) => Some(s.as_str()),
        None => None,
    }
}

/// Payload text of an `update` event.
pub fn update_payload_text(input: &UpdateRequirementInput) -> (r: String)
    ensures
        r@ == update_payload(update_input_v(*input)),
{
    let mut p = String::from_str("{\"description\":");
    p.append(json_opt_text(opt_str(&input.description)).as_str());
    p.append(",\"priority\":");
    p.append(json_opt_text(opt_str(&input.priority)).as_str());
    p.append(",\"title\":");
    p.append(json_opt_text(opt_str(&input.title)).as_str());
    p.append("}");
    p
}

/// Payload text of a `report_progress` event.
pub fn progress_payload_text(summary: Option<&str>, blocked_reason: Option<&str>) -> (r: String)
    ensures
        r@ == progress_payload(summary.deep_view(), blocked_reason.deep_view()),
{
    let mut p = String::from_str("{\"blocked_reason\":");
    p.append(json_opt_text(blocked_reason).as_str());
    p.append(",\"summary\":");
    p.append(json_opt_text(summary).as_str());
    p.append("}");
    p
}

/// Payload text of a `complete_review` event.
pub fn review_payload_text(pass: bool, reason: Option<&str>) -> (r: String)
    ensures
        r@ == review_payload(pass, reason.deep_view()),
{
    let mut p = String::from_str("{\"pass\":");
    if pass {
        p.append("true");
    } else {
        p.append("false");
    }
    p.append(",\"reason\":");
    p.append(json_opt_text(reason).as_str());
    p.append("}");
    p
}

/// The string items of a parsed dependencies array, in order (other items are skipped).
pub fn dependency_ids_from(items: Option<Vec<Option<String>>>) -> (r: Vec<String>)
    ensures
        r.deep_view() == ids_of_items(items.deep_view()),
{
    let mut out: Vec<String> = Vec::new();
    match items {
        None => {
            proof {
                assert(out.deep_view() =~= Seq::<Seq<char>>::empty());
            }
            out
        },
        Some(items) => {
            let ghost s = items.deep_view();
            let n = items.len();
            let mut i: usize = 0;
            while i < n
                invariant
                    n == items.len(),
                    s == items.deep_view(),
                    0 <= i <= n,
                    out.deep_view() == s.take(i as int).filter_map(keep_string()),
                decreases n - i,
            {
                proof {
                    assert(s.take(i + 1).drop_last() =~= s.take(i as int));
                    assert(s.take(i + 1).last() == s[i as int]);
                }
                match &items[i] {
                    Some(id) => {
                        let ghost old_out = out;
                        let c = id.clone();
                        out.push(c);
                        proof {
                            lemma_dv_push(old_out, out, c);
                            assert(out.deep_view() =~= s.take(i + 1).filter_map(keep_string()));
                        }
                    },
                    None => {},
                }
                i += 1;
            }
            proof {
                assert(s.take(n as int) =~= s);
            }
            out
        },
    }
}

/// Parse `dependencies_json` as a JSON array of requirement id strings.
fn parse_dependency_ids(dependencies_json: &str) -> (r: Vec<String>)
    ensures
        r.deep_view() == dependency_ids(dependencies_json@),
{
    dependency_ids_from(crate::outside::json_parse_array(dependencies_json))
}

/// Whether every dependency id exists and has status `done`.
fn dependencies_satisfied(board: &Board, dependencies_json: &str) -> (r: bool)
    ensures
        r == deps_satisfied(board@.requirements, dependencies_json@),
{
    let deps = parse_dependency_ids(dependencies_json);
    let ghost ids = dependency_ids(dependencies_json@);
    let mut k: usize = 0;
    while k < deps.len()
        invariant
            deps.deep_view() == ids,
            ids == dependency_ids(dependencies_json@),
            0 <= k <= deps.len(),
            forall|j: int| 0 <= j < k ==> dep_done(board@.requirements, #[trigger] ids[j]),
        decreases deps.len() - k,
    {
        let ok = match find_requirement(&board.requirements, deps[k].as_str()) {
            Some(i) => board.requirements[i].status == Status::Done,
            None => false,
        };
        proof {
            assert(ids[k as int] == deps[k as int]@);
        }
        if !ok {
            return false;
        }
        k += 1;
    }
    true
}

/// The requirement a verb acts on: it must exist and its project must be writable.
fn verb_target_index(board: &Board, id: &str) -> (r: Result<usize, VerbError>)
    ensures
        match r {
            Ok(i) => verb_target(board@, id@) == Ok::<int, VerbErrorV>(i as int),
            Err(e) => verb_target(board@, id@) == Err::<int, VerbErrorV>(e@),
        },
{
    let i = match find_requirement(&board.requirements, id) {
        Some(i) => i,
        None => return Err(VerbError::NotFound(String::from_str(id))),
    };
    match crate::services::projects::ensure_project_writable(
        board,
        board.requirements[i].project_id.as_str(),
    ) {
        Ok(_) => Ok(i),
        Err(ProjectError::Archived(x)) => Err(VerbError::ProjectArchived(x)),
        Err(ProjectError::NotFound(x)) => {
            let mut m = String::from_str("project not found: ");
            m.append(x.as_str());
            Err(VerbError::NotFound(m))
        },
        Err(_) => Err(VerbError::NotFound(String::new())),
    }
}

/// Generic verb that updates status / claimed_by from `apply_transition` at time `now`.
fn apply_status_verb_at(
    board: &mut Board,
    requirement_id: &str,
    actor: &str,
    role: Role,
    transition: Transition,
    event_kind: &str,
    event_message: &str,
    event_payload: &str,
    event_id: &str,
    now: Micros,
) -> (r: Result<Requirement, VerbError>)
    ensures
        (final(board)@, verb_result_v(r)) == status_verb_spec(
            old(board)@,
            requirement_id@,
            actor@,
            role,
            transition,
            event_kind@,
            event_message@,
            event_payload@,
            event_id@,
            now,
        ),
{
    let i = verb_target_index(board, requirement_id)?;
    let req = board.requirements[i].copy();
    let ctx = TransitionContext {
        current: req.status,
        role,
        actor: String::from_str(actor),
        claimed_by: clone_opt_string(&req.claimed_by),
    };
    proof {
        lemma_apply_view(ctx, transition);
    }
    let result = match apply_transition(&ctx, &transition) {
        Ok(res) => res,
        Err(e) => return Err(VerbError::Transition(e)),
    };
    let new_claimed = match result.claimed_by_update {
        Some(c) => c,
        None => clone_opt_string(&req.claimed_by),
    };
    let mut out = req;
    out.status = result.new_status;
    out.claimed_by = new_claimed;
    out.updated_at = now;
    let ghost old_reqs = board.requirements;
    board.requirements.set(i, out.copy());
    proof {
        lemma_dv_update(old_reqs, board.requirements, i as int, out);
    }
    append_event(
        board,
        event_id,
        out.project_id.as_str(),
        Some(requirement_id),
        actor,
        event_kind,
        event_message,
        event_payload,
        now,
    );
    Ok(out)
}

} // verus!

verus! {

/// Create a requirement with id `id` at time `now`. Status is always `todo`.
pub fn create_requirement_at(
    board: &mut Board,
    input: CreateRequirementInput,
    id: &str,
    event_id: &str,
    now: Micros,
) -> (r: Result<Requirement, CreateRequirementError>)
    ensures
        (final(board)@, create_result_v(r)) == create_requirement_spec(
            old(board)@,
            create_input_v(input),
            id@,
            event_id@,
            now,
        ),
{
    if str_trim(input.title.as_str()).is_empty() {
        return Err(CreateRequirementError::EmptyTitle);
    }
    if crate::services::board::find_project(&board.projects, input.project_id.as_str()).is_none() {
        return Err(CreateRequirementError::ProjectNotFound(input.project_id));
    }
    match crate::services::projects::ensure_project_writable(board, input.project_id.as_str()) {
        Ok(_) => {},
        Err(_) => return Err(CreateRequirementError::ProjectArchived(input.project_id)),
    }
    if find_requirement(&board.requirements, id).is_some() {
        return Err(CreateRequirementError::DuplicateId(String::from_str(id)));
    }
    let status = crate::domain::state::status_on_create();
    let mut message = String::from_str("created requirement: ");
    message.append(input.title.as_str());
    let req = Requirement {
        id: String::from_str(id),
        project_id: input.project_id,
        title: input.title,
        description: input.description,
        priority: input.priority,
        status,
        scope_json: input.scope_json,
        non_scope_json: input.non_scope_json,
        acceptance_json: input.acceptance_json,
        dependencies_json: input.dependencies_json,
        claimed_by: None,
        progress_summary: None,
        blocked_reason: None,
        external_run_id: None,
        created_by: input.created_by,
        created_at: now,
        updated_at: now,
    };
    let ghost old_reqs = board.requirements;
    board.requirements.push(req.copy());
    proof {
        lemma_dv_push(old_reqs, board.requirements, req);
    }
    append_event(
        board,
        event_id,
        req.project_id.as_str(),
        Some(id),
        req.created_by.as_str(),
        "create",
        message.as_str(),
        "{}",
        now,
    );
    Ok(req)
}

/// Create a requirement under a fresh random id, stamped with the current time.
pub fn create_requirement(board: &mut Board, input: CreateRequirementInput) -> (r: Result<
    Requirement,
    CreateRequirementError,
>)
    ensures
        exists|id: Seq<char>, event_id: Seq<char>, now: Micros|
            crate::outside::uuid_shape(id) && crate::outside::uuid_shape(event_id) && (
            final(board)@, create_result_v(r)) == #[trigger] create_requirement_spec(
                old(board)@,
                create_input_v(input),
                id,
                event_id,
                now,
            ),
{
    let id = crate::outside::new_uuid();
    let event_id = crate::outside::new_uuid();
    let now = crate::outside::now_micros();
    create_requirement_at(board, input, id.as_str(), event_id.as_str(), now)
}

/// Update editable fields of a requirement at time `now`. Only allowed while status is `todo`.
pub fn update_requirement_at(
    board: &mut Board,
    id: &str,
    actor: &str,
    input: UpdateRequirementInput,
    event_id: &str,
    now: Micros,
) -> (r: Result<Requirement, UpdateRequirementError>)
    ensures
        (final(board)@, update_result_v(r)) == update_requirement_spec(
            old(board)@,
            id@,
            actor@,
            update_input_v(input),
            event_id@,
            now,
        ),
{
    let i = match find_requirement(&board.requirements, id) {
        Some(i) => i,
        None => return Err(UpdateRequirementError::NotFound(String::from_str(id))),
    };
    let mut req = board.requirements[i].copy();
    match crate::services::projects::ensure_project_writable(board, req.project_id.as_str()) {
        Ok(_) => {},
        Err(ProjectError::Archived(x)) => return Err(UpdateRequirementError::ProjectArchived(x)),
        Err(ProjectError::NotFound(x)) => {
            let mut m = String::from_str("project not found: ");
            m.append(x.as_str());
            return Err(UpdateRequirementError::NotFound(m));
        },
        Err(_) => return Err(UpdateRequirementError::NotFound(String::new())),
    }
    if req.status != Status::Todo {
        return Err(UpdateRequirementError::NotTodo(req.status));
    }
    let payload = update_payload_text(&input);
    match &input.title {
        Some(t) => {
            if str_trim(t.as_str()).is_empty() {
                return Err(UpdateRequirementError::EmptyTitle);
            }
            req.title = t.clone();
        },
        None => {},
    }
    match &input.description {
        Some(d) => req.description = d.clone(),
        None => {},
    }
    match &input.priority {
        Some(p) => req.priority = p.clone(),
        None => {},
    }
    match &input.scope_json {
        Some(s) => req.scope_json = s.clone(),
        None => {},
    }
    match &input.non_scope_json {
        Some(s) => req.non_scope_json = s.clone(),
        None => {},
    }
    match &input.acceptance_json {
        Some(s) => req.acceptance_json = s.clone(),
        None => {},
    }
    match &input.dependencies_json {
        Some(s) => req.dependencies_json = s.clone(),
        None => {},
    }
    req.updated_at = now;
    let ghost old_reqs = board.requirements;
    board.requirements.set(i, req.copy());
    proof {
        lemma_dv_update(old_reqs, board.requirements, i as int, req);
    }
    let mut message = String::from_str(actor);
    message.append(" updated requirement");
    append_event(
        board,
        event_id,
        req.project_id.as_str(),
        Some(id),
        actor,
        "update",
        message.as_str(),
        payload.as_str(),
        now,
    );
    Ok(req)
}

/// Update editable fields of a `todo` requirement, stamped with the current time.
pub fn update_requirement(
    board: &mut Board,
    id: &str,
    actor: &str,
    input: UpdateRequirementInput,
) -> (r: Result<Requirement, UpdateRequirementError>)
    ensures
        exists|event_id: Seq<char>, now: Micros|
            crate::outside::uuid_shape(event_id) && (final(board)@, update_result_v(r))
                == #[trigger] update_requirement_spec(
                old(board)@,
                id@,
                actor@,
                update_input_v(input),
                event_id,
                now,
            ),
{
    let event_id = crate::outside::new_uuid();
    let now = crate::outside::now_micros();
    update_requirement_at(board, id, actor, input, event_id.as_str(), now)
}

/// Claim a task (`claim_task` verb) at time `now`: one winner; dependencies must be done.
pub fn claim_task_at(
    board: &mut Board,
    requirement_id: &str,
    actor: &str,
    role: Role,
    event_id: &str,
    now: Micros,
) -> (r: Result<Requirement, VerbError>)
    ensures
        (final(board)@, verb_result_v(r)) == claim_spec(
            old(board)@,
            requirement_id@,
            actor@,
            role,
            event_id@,
            now,
        ),
{
    let i = verb_target_index(board, requirement_id)?;
    if !dependencies_satisfied(board, board.requirements[i].dependencies_json.as_str()) {
        return Err(VerbError::DependenciesNotMet);
    }
    let mut message = String::from_str(actor);
    message.append(" claimed requirement");
    apply_status_verb_at(
        board,
        requirement_id,
        actor,
        role,
        Transition::ClaimTask,
        "claim_task",
        message.as_str(),
        "{}",
        event_id,
        now,
    )
}

/// Claim a task, stamped with the current time.
pub fn claim_task(board: &mut Board, requirement_id: &str, actor: &str, role: Role) -> (r: Result<
    Requirement,
    VerbError,
>)
    ensures
        exists|event_id: Seq<char>, now: Micros|
            crate::outside::uuid_shape(event_id) && (final(board)@, verb_result_v(r))
                == #[trigger] claim_spec(old(board)@, requirement_id@, actor@, role, event_id, now),
{
    let event_id = crate::outside::new_uuid();
    let now = crate::outside::now_micros();
    claim_task_at(board, requirement_id, actor, role, event_id.as_str(), now)
}

/// Report progress without changing status (claimant or admin) at time `now`.
pub fn report_progress_at(
    board: &mut Board,
    requirement_id: &str,
    actor: &str,
    role: Role,
    summary: Option<&str>,
    blocked_reason: Option<&str>,
    event_id: &str,
    now: Micros,
) -> (r: Result<Requirement, VerbError>)
    ensures
        (final(board)@, verb_result_v(r)) == progress_spec(
            old(board)@,
            requirement_id@,
            actor@,
            role,
            summary.deep_view(),
            blocked_reason.deep_view(),
            event_id@,
            now,
        ),
{
    let i = verb_target_index(board, requirement_id)?;
    let req = board.requirements[i].copy();
    let ctx = TransitionContext {
        current: req.status,
        role,
        actor: String::from_str(actor),
        claimed_by: clone_opt_string(&req.claimed_by),
    };
    proof {
        lemma_apply_view(ctx, Transition::ReportProgress);
    }
    let result = match apply_transition(&ctx, &Transition::ReportProgress) {
        Ok(res) => res,
        Err(e) => return Err(VerbError::Transition(e)),
    };
    let new_summary = match summary {
        Some(s) => Some(String::from_str(s)),
        None => clone_opt_string(&req.progress_summary),
    };
    // Some("") clears the blocked reason; None leaves it as it was.
    let new_blocked = match blocked_reason {
        Some(s) => {
            if s.is_empty() {
                None
            } else {
                Some(String::from_str(s))
            }
        },
        None => clone_opt_string(&req.blocked_reason),
    };
    let payload = progress_payload_text(summary, blocked_reason);
    let message = match summary {
        Some(s) => String::from_str(s),
        None => String::from_str("progress reported"),
    };
    let mut out = req;
    out.status = result.new_status;
    out.progress_summary = new_summary;
    out.blocked_reason = new_blocked;
    out.updated_at = now;
    let ghost old_reqs = board.requirements;
    board.requirements.set(i, out.copy());
    proof {
        lemma_dv_update(old_reqs, board.requirements, i as int, out);
    }
    append_event(
        board,
        event_id,
        out.project_id.as_str(),
        Some(requirement_id),
        actor,
        "report_progress",
        message.as_str(),
        payload.as_str(),
        now,
    );
    Ok(out)
}

/// Report progress, stamped with the current time.
pub fn report_progress(
    board: &mut Board,
    requirement_id: &str,
    actor: &str,
    role: Role,
    summary: Option<&str>,
    blocked_reason: Option<&str>,
) -> (r: Result<Requirement, VerbError>)
    ensures
        exists|event_id: Seq<char>, now: Micros|
            crate::outside::uuid_shape(event_id) && (final(board)@, verb_result_v(r))
                == #[trigger] progress_spec(
                old(board)@,
                requirement_id@,
                actor@,
                role,
                summary.deep_view(),
                blocked_reason.deep_view(),
                event_id,
                now,
            ),
{
    let event_id = crate::outside::new_uuid();
    let now = crate::outside::now_micros();
    report_progress_at(
        board,
        requirement_id,
        actor,
        role,
        summary,
        blocked_reason,
        event_id.as_str(),
        now,
    )
}

/// in_progress → review (claimant or admin) at time `now`.
pub fn submit_for_review_at(
    board: &mut Board,
    requirement_id: &str,
    actor: &str,
    role: Role,
    event_id: &str,
    now: Micros,
) -> (r: Result<Requirement, VerbError>)
    ensures
        (final(board)@, verb_result_v(r)) == submit_spec(
            old(board)@,
            requirement_id@,
            actor@,
            role,
            event_id@,
            now,
        ),
{
    let mut message = String::from_str(actor);
    message.append(" submitted for review");
    apply_status_verb_at(
        board,
        requirement_id,
        actor,
        role,
        Transition::SubmitForReview,
        "submit_for_review",
        message.as_str(),
        "{}",
        event_id,
        now,
    )
}

/// in_progress → review, stamped with the current time.
pub fn submit_for_review(
    board: &mut Board,
    requirement_id: &str,
    actor: &str,
    role: Role,
) -> (r: Result<Requirement, VerbError>)
    ensures
        exists|event_id: Seq<char>, now: Micros|
            crate::outside::uuid_shape(event_id) && (final(board)@, verb_result_v(r))
                == #[trigger] submit_spec(old(board)@, requirement_id@, actor@, role, event_id, now),
{
    let event_id = crate::outside::new_uuid();
    let now = crate::outside::now_micros();
    submit_for_review_at(board, requirement_id, actor, role, event_id.as_str(), now)
}

/// review → done (pass) or todo (fail) at time `now`. A rejection needs a non-blank reason.
pub fn complete_review_at(
    board: &mut Board,
    requirement_id: &str,
    actor: &str,
    role: Role,
    pass: bool,
    reason: Option<&str>,
    event_id: &str,
    now: Micros,
) -> (r: Result<Requirement, VerbError>)
    ensures
        (final(board)@, verb_result_v(r)) == review_spec(
            old(board)@,
            requirement_id@,
            actor@,
            role,
            pass,
            reason.deep_view(),
            event_id@,
            now,
        ),
{
    if !pass {
        let blank = match reason {
            Some(r) => str_trim(r).is_empty(),
            None => true,
        };
        proof {
            reveal_strlit("");
            if reason is None {
                assert(crate::text::trim(Seq::<char>::empty()) =~= Seq::<char>::empty());
            }
        }
        if blank {
            return Err(VerbError::RejectReasonRequired);
        }
    }
    let kind = if pass {
        "complete_review_pass"
    } else {
        "complete_review_fail"
    };
    let mut message = String::from_str(actor);
    if pass {
        message.append(" approved review");
    } else {
        message.append(" rejected review");
    }
    let payload = review_payload_text(pass, reason);
    apply_status_verb_at(
        board,
        requirement_id,
        actor,
        role,
        Transition::CompleteReview { pass },
        kind,
        message.as_str(),
        payload.as_str(),
        event_id,
        now,
    )
}

/// review → done (pass) or todo (fail), stamped with the current time.
pub fn complete_review(
    board: &mut Board,
    requirement_id: &str,
    actor: &str,
    role: Role,
    pass: bool,
    reason: Option<&str>,
) -> (r: Result<Requirement, VerbError>)
    ensures
        exists|event_id: Seq<char>, now: Micros|
            crate::outside::uuid_shape(event_id) && (final(board)@, verb_result_v(r))
                == #[trigger] review_spec(
                old(board)@,
                requirement_id@,
                actor@,
                role,
                pass,
                reason.deep_view(),
                event_id,
                now,
            ),
{
    let event_id = crate::outside::new_uuid();
    let now = crate::outside::now_micros();
    complete_review_at(board, requirement_id, actor, role, pass, reason, event_id.as_str(), now)
}

/// in_progress → todo; clear claim (claimant or admin) at time `now`.
pub fn release_task_at(
    board: &mut Board,
    requirement_id: &str,
    actor: &str,
    role: Role,
    event_id: &str,
    now: Micros,
) -> (r: Result<Requirement, VerbError>)
    ensures
        (final(board)@, verb_result_v(r)) == release_spec(
            old(board)@,
            requirement_id@,
            actor@,
            role,
            event_id@,
            now,
        ),
{
    let mut message = String::from_str(actor);
    message.append(" released requirement");
    apply_status_verb_at(
        board,
        requirement_id,
        actor,
        role,
        Transition::ReleaseTask,
        "release_task",
        message.as_str(),
        "{}",
        event_id,
        now,
    )
}

/// in_progress → todo, stamped with the current time.
pub fn release_task(board: &mut Board, requirement_id: &str, actor: &str, role: Role) -> (r: Result<
    Requirement,
    VerbError,
>)
    ensures
        exists|event_id: Seq<char>, now: Micros|
            crate::outside::uuid_shape(event_id) && (final(board)@, verb_result_v(r))
                == #[trigger] release_spec(old(board)@, requirement_id@, actor@, role, event_id, now),
{
    let event_id = crate::outside::new_uuid();
    let now = crate::outside::now_micros();
    release_task_at(board, requirement_id, actor, role, event_id.as_str(), now)
}

/// Soft-cancel (role-scoped in domain) at time `now`.
pub fn cancel_requirement_at(
    board: &mut Board,
    requirement_id: &str,
    actor: &str,
    role: Role,
    event_id: &str,
    now: Micros,
) -> (r: Result<Requirement, VerbError>)
    ensures
        (final(board)@, verb_result_v(r)) == cancel_spec(
            old(board)@,
            requirement_id@,
            actor@,
            role,
            event_id@,
            now,
        ),
{
    let mut message = String::from_str(actor);
    message.append(" cancelled requirement");
    apply_status_verb_at(
        board,
        requirement_id,
        actor,
        role,
        Transition::Cancel,
        "cancel",
        message.as_str(),
        "{}",
        event_id,
        now,
    )
}

/// Soft-cancel, stamped with the current time.
pub fn cancel_requirement(board: &mut Board, requirement_id: &str, actor: &str, role: Role) -> (r:
    Result<Requirement, VerbError>)
    ensures
        exists|event_id: Seq<char>, now: Micros|
            crate::outside::uuid_shape(event_id) && (final(board)@, verb_result_v(r))
                == #[trigger] cancel_spec(old(board)@, requirement_id@, actor@, role, event_id, now),
{
    let event_id = crate::outside::new_uuid();
    let now = crate::outside::now_micros();
    cancel_requirement_at(board, requirement_id, actor, role, event_id.as_str(), now)
}

} // verus!

verus! {

/// Requirements of project `pid`, optionally only those in `status`.
pub open spec fn in_project(pid: Seq<char>, status: Option<Status>) -> spec_fn(RequirementV) -> bool {
    |r: RequirementV|
        r.project_id == pid && match status {
            Some(s) => r.status == s,
            None => true,
        }
}

/// Ready to claim: `todo`, in an active (stored, not archived) project, every dependency done;
/// restricted to project `pid` when given.
pub open spec fn ready_in(b: BoardV, pid: Option<Seq<char>>) -> spec_fn(RequirementV) -> bool {
    |r: RequirementV|
        (match pid {
            Some(p) => r.project_id == p,
            None => true,
        }) && r.status == Status::Todo && writable_spec(b, r.project_id) is Ok && deps_satisfied(
            b.requirements,
            r.dependencies_json,
        )
}

/// Log entries of requirement `rid`.
pub open spec fn events_of(rid: Seq<char>) -> spec_fn(EventV) -> bool {
    |e: EventV| e.requirement_id == Some(rid)
}

/// Requirements oldest first (by creation time).
pub open spec fn reqs_by_created(s: Seq<RequirementV>) -> bool {
    forall|i: int, j: int| 0 <= i < j < s.len() ==> (#[trigger] s[i]).created_at <= (#[trigger] s[j]).created_at
}

/// Log entries oldest first (by creation time).
pub open spec fn events_by_created(s: Seq<EventV>) -> bool {
    forall|i: int, j: int| 0 <= i < j < s.len() ==> (#[trigger] s[i]).created_at <= (#[trigger] s[j]).created_at
}

/// `r` lists exactly the requirements of `src`, oldest first (equal times in any order).
pub open spec fn reqs_oldest_first(r: Seq<RequirementV>, src: Seq<RequirementV>) -> bool {
    r.to_multiset() == src.to_multiset() && reqs_by_created(r)
}

/// `r` lists exactly the log entries of `src`, oldest first (equal times in any order).
pub open spec fn events_oldest_first(r: Seq<EventV>, src: Seq<EventV>) -> bool {
    r.to_multiset() == src.to_multiset() && events_by_created(r)
}

/// The requirements of `v` oldest first: each goes after every one created no later.
fn sort_requirements(v: &Vec<Requirement>) -> (r: Vec<Requirement>)
    ensures
        reqs_oldest_first(r.deep_view(), v.deep_view()),
{
    let ghost src = v.deep_view();
    let mut out: Vec<Requirement> = Vec::new();
    proof {
        assert(out.deep_view() =~= src.take(0));
    }
    let mut i: usize = 0;
    while i < v.len()
        invariant
            src == v.deep_view(),
            i <= v.len(),
            out.deep_view().to_multiset() == src.take(i as int).to_multiset(),
            reqs_by_created(out.deep_view()),
        decreases v.len() - i,
    {
        let x = &v[i];
        let ghost o = out.deep_view();
        let mut j: usize = 0;
        while j < out.len() && out[j].created_at <= x.created_at
            invariant
                o == out.deep_view(),
                j <= out.len(),
                forall|k: int| 0 <= k < j ==> (#[trigger] o[k]).created_at <= x.created_at,
            decreases out.len() - j,
        {
            assert(o[j as int].created_at == out@[j as int].created_at);
            j += 1;
        }
        proof {
            if j < out.len() {
                assert(o[j as int].created_at == out@[j as int].created_at);
                assert forall|k: int| j <= k < o.len() implies (#[trigger] o[k]).created_at > x.created_at by {
                    if k > j {
                        assert(o[j as int].created_at <= o[k].created_at);
                    }
                }
            }
        }
        let ghost before = out;
        out.insert(j, x.copy());
        proof {
            crate::services::board::lemma_dv_insert(before, out, j as int, *x);
            let t = out.deep_view();
            assert(t == o.insert(j as int, x.deep_view()));
            assert forall|a: int, b: int| 0 <= a < b < t.len() implies (#[trigger] t[a]).created_at
                <= (#[trigger] t[b]).created_at by {
                if a < j && b < j {
                    assert(t[a] == o[a] && t[b] == o[b]);
                } else if a < j && b == j {
                    assert(t[a] == o[a]);
                } else if a < j {
                    assert(t[a] == o[a] && t[b] == o[b - 1]);
                } else if a == j {
                    assert(t[b] == o[b - 1]);
                } else {
                    assert(t[a] == o[a - 1] && t[b] == o[b - 1]);
                }
            }
            assert(src[i as int] == x.deep_view());
            assert(src.take(i + 1) =~= src.take(i as int).push(x.deep_view()));
            vstd::seq_lib::to_multiset_build(src.take(i as int), x.deep_view());
            vstd::seq_lib::to_multiset_insert(o, j as int, x.deep_view());
        }
        i += 1;
    }
    proof {
        assert(src.take(src.len() as int) =~= src);
    }
    out
}

/// The log entries of `v` oldest first: each goes after every one created no later.
fn sort_events(v: &Vec<Event>) -> (r: Vec<Event>)
    ensures
        events_oldest_first(r.deep_view(), v.deep_view()),
{
    let ghost src = v.deep_view();
    let mut out: Vec<Event> = Vec::new();
    proof {
        assert(out.deep_view() =~= src.take(0));
    }
    let mut i: usize = 0;
    while i < v.len()
        invariant
            src == v.deep_view(),
            i <= v.len(),
            out.deep_view().to_multiset() == src.take(i as int).to_multiset(),
            events_by_created(out.deep_view()),
        decreases v.len() - i,
    {
        let x = &v[i];
        let ghost o = out.deep_view();
        let mut j: usize = 0;
        while j < out.len() && out[j].created_at <= x.created_at
            invariant
                o == out.deep_view(),
                j <= out.len(),
                forall|k: int| 0 <= k < j ==> (#[trigger] o[k]).created_at <= x.created_at,
            decreases out.len() - j,
        {
            assert(o[j as int].created_at == out@[j as int].created_at);
            j += 1;
        }
        proof {
            if j < out.len() {
                assert(o[j as int].created_at == out@[j as int].created_at);
                assert forall|k: int| j <= k < o.len() implies (#[trigger] o[k]).created_at > x.created_at by {
                    if k > j {
                        assert(o[j as int].created_at <= o[k].created_at);
                    }
                }
            }
        }
        let ghost before = out;
        out.insert(j, x.copy());
        proof {
            crate::services::board::lemma_dv_insert(before, out, j as int, *x);
            let t = out.deep_view();
            assert(t == o.insert(j as int, x.deep_view()));
            assert forall|a: int, b: int| 0 <= a < b < t.len() implies (#[trigger] t[a]).created_at
                <= (#[trigger] t[b]).created_at by {
                if a < j && b < j {
                    assert(t[a] == o[a] && t[b] == o[b]);
                } else if a < j && b == j {
                    assert(t[a] == o[a]);
                } else if a < j {
                    assert(t[a] == o[a] && t[b] == o[b - 1]);
                } else if a == j {
                    assert(t[b] == o[b - 1]);
                } else {
                    assert(t[a] == o[a - 1] && t[b] == o[b - 1]);
                }
            }
            assert(src[i as int] == x.deep_view());
            assert(src.take(i + 1) =~= src.take(i as int).push(x.deep_view()));
            vstd::seq_lib::to_multiset_build(src.take(i as int), x.deep_view());
            vstd::seq_lib::to_multiset_insert(o, j as int, x.deep_view());
        }
        i += 1;
    }
    proof {
        assert(src.take(src.len() as int) =~= src);
    }
    out
}

/// The requirement `id`, if stored.
pub fn get_requirement(board: &Board, id: &str) -> (r: Option<Requirement>)
    ensures
        match req_pos(board@, id@) {
            Some(i) => r matches Some(x) && x.deep_view() == board@.requirements[i],
            None => r is None,
        },
{
    match find_requirement(&board.requirements, id) {
        Some(i) => Some(board.requirements[i].copy()),
        None => None,
    }
}

/// List requirements for a project, optionally filtered by status, oldest first.
pub fn list_requirements_for_project_filtered(
    board: &Board,
    project_id: &str,
    status: Option<Status>,
) -> (r: Vec<Requirement>)
    ensures
        reqs_oldest_first(r.deep_view(), board@.requirements.filter(in_project(project_id@, status))),
{
    let ghost s = board@.requirements;
    let ghost p = in_project(project_id@, status);
    let mut out: Vec<Requirement> = Vec::new();
    proof {
        lemma_filter_take_zero(s, p);
        assert(out.deep_view() =~= Seq::<RequirementV>::empty());
    }
    let mut i: usize = 0;
    while i < board.requirements.len()
        invariant
            s == board@.requirements,
            p == in_project(project_id@, status),
            0 <= i <= s.len(),
            out.deep_view() == s.take(i as int).filter(p),
        decreases s.len() - i,
    {
        proof {
            lemma_filter_take_step(s, p, i as int);
        }
        let r = &board.requirements[i];
        let keep = crate::text::str_eq(r.project_id.as_str(), project_id) && match status {
            Some(st) => r.status == st,
            None => true,
        };
        if keep {
            let c = r.copy();
            let ghost old_out = out;
            out.push(c);
            proof {
                lemma_dv_push(old_out, out, c);
            }
        }
        i += 1;
    }
    proof {
        lemma_filter_take_all(s, p);
    }
    sort_requirements(&out)
}

/// List requirements for a project, oldest first.
pub fn list_requirements_for_project(board: &Board, project_id: &str) -> (r: Vec<Requirement>)
    ensures
        reqs_oldest_first(r.deep_view(), board@.requirements.filter(in_project(project_id@, None))),
{
    list_requirements_for_project_filtered(board, project_id, None)
}

/// List tasks ready to claim: status `todo`, active project, and all dependencies `done`.
///
/// If `project_id` is `None`, scans all projects. Oldest first.
pub fn list_ready_tasks(board: &Board, project_id: Option<&str>) -> (r: Vec<Requirement>)
    ensures
        reqs_oldest_first(r.deep_view(), board@.requirements.filter(ready_in(board@, project_id.deep_view()))),
{
    let ghost s = board@.requirements;
    let ghost p = ready_in(board@, project_id.deep_view());
    let mut out: Vec<Requirement> = Vec::new();
    proof {
        lemma_filter_take_zero(s, p);
        assert(out.deep_view() =~= Seq::<RequirementV>::empty());
    }
    let mut i: usize = 0;
    while i < board.requirements.len()
        invariant
            s == board@.requirements,
            p == ready_in(board@, project_id.deep_view()),
            0 <= i <= s.len(),
            out.deep_view() == s.take(i as int).filter(p),
        decreases s.len() - i,
    {
        proof {
            lemma_filter_take_step(s, p, i as int);
        }
        let r = &board.requirements[i];
        let in_scope = match project_id {
            Some(pid) => crate::text::str_eq(r.project_id.as_str(), pid),
            None => true,
        };
        let keep = in_scope && r.status == Status::Todo
            && crate::services::projects::ensure_project_writable(board, r.project_id.as_str()).is_ok()
            && dependencies_satisfied(board, r.dependencies_json.as_str());
        if keep {
            let c = r.copy();
            let ghost old_out = out;
            out.push(c);
            proof {
                lemma_dv_push(old_out, out, c);
            }
        }
        i += 1;
    }
    proof {
        lemma_filter_take_all(s, p);
    }
    sort_requirements(&out)
}

/// The log entries of a requirement, oldest first.
pub fn list_events_for_requirement(board: &Board, requirement_id: &str) -> (r: Vec<Event>)
    ensures
        events_oldest_first(r.deep_view(), board@.events.filter(events_of(requirement_id@))),
{
    let ghost s = board@.events;
    let ghost p = events_of(requirement_id@);
    let mut out: Vec<Event> = Vec::new();
    proof {
        lemma_filter_take_zero(s, p);
        assert(out.deep_view() =~= Seq::<EventV>::empty());
    }
    let mut i: usize = 0;
    while i < board.events.len()
        invariant
            s == board@.events,
            p == events_of(requirement_id@),
            0 <= i <= s.len(),
            out.deep_view() == s.take(i as int).filter(p),
        decreases s.len() - i,
    {
        proof {
            lemma_filter_take_step(s, p, i as int);
        }
        let e = &board.events[i];
        let keep = match &e.requirement_id {
            Some(rid) => crate::text::str_eq(rid.as_str(), requirement_id),
            None => false,
        };
        if keep {
            let c = e.copy();
            let ghost old_out = out;
            out.push(c);
            proof {
                lemma_dv_push(old_out, out, c);
            }
        }
        i += 1;
    }
    proof {
        lemma_filter_take_all(s, p);
    }
    sort_events(&out)
}

/// Text of a lifecycle verb error.
pub open spec fn verb_error_text(e: VerbErrorV) -> Seq<char> {
    match e {
        VerbErrorV::NotFound(id) => "requirement not found: "@ + id,
        VerbErrorV::Transition(t) => crate::domain::state::transition_error_text(t),
        VerbErrorV::ConcurrentClaimLost => "concurrent claim lost (already claimed or status changed)"@,
        VerbErrorV::ProjectArchived(id) => "project is archived: "@ + id,
        VerbErrorV::DependenciesNotMet => "dependencies not satisfied"@,
        VerbErrorV::RejectReasonRequired => "reject reason is required"@,
    }
}

/// Text of a creation error.
pub open spec fn create_error_text(e: CreateRequirementErrorV) -> Seq<char> {
    match e {
        CreateRequirementErrorV::ProjectNotFound(id) => "project not found: "@ + id,
        CreateRequirementErrorV::EmptyTitle => "title must not be empty"@,
        CreateRequirementErrorV::ProjectArchived(id) => "project is archived: "@ + id,
        CreateRequirementErrorV::DuplicateId(id) => "requirement already exists: "@ + id,
    }
}

/// Text of an update error.
pub open spec fn update_error_text(e: UpdateRequirementErrorV) -> Seq<char> {
    match e {
        UpdateRequirementErrorV::NotFound(id) => "requirement not found: "@ + id,
        UpdateRequirementErrorV::NotTodo(st) => "update only allowed when status is todo (current: "@
            + crate::domain::state::status_name(st) + ")"@,
        UpdateRequirementErrorV::EmptyTitle => "title must not be empty"@,
        UpdateRequirementErrorV::ProjectArchived(id) => "project is archived: "@ + id,
    }
}

/// `prefix` followed by `tail`.
fn joined(prefix: &str, tail: &str) -> (r: String)
    ensures
        r@ == prefix@ + tail@,
{
    let mut m = String::from_str(prefix);
    m.append(tail);
    m
}

impl VerbError {
    /// Human-readable message.
    pub fn message(&self) -> (r: String)
        ensures
            r@ == verb_error_text(self@),
    {
        match self {
            VerbError::NotFound(id) => joined("requirement not found: ", id.as_str()),
            VerbError::Transition(t) => t.message(),
            VerbError::ConcurrentClaimLost => String::from_str(
                "concurrent claim lost (already claimed or status changed)",
            ),
            VerbError::ProjectArchived(id) => joined("project is archived: ", id.as_str()),
            VerbError::DependenciesNotMet => String::from_str("dependencies not satisfied"),
            VerbError::RejectReasonRequired => String::from_str("reject reason is required"),
        }
    }
}

impl CreateRequirementError {
    /// Human-readable message.
    pub fn message(&self) -> (r: String)
        ensures
            r@ == create_error_text(self@),
    {
        match self {
            CreateRequirementError::ProjectNotFound(id) => joined("project not found: ", id.as_str()),
            CreateRequirementError::EmptyTitle => String::from_str("title must not be empty"),
            CreateRequirementError::ProjectArchived(id) => joined("project is archived: ", id.as_str()),
            CreateRequirementError::DuplicateId(id) => joined(
                "requirement already exists: ",
                id.as_str(),
            ),
        }
    }
}

impl UpdateRequirementError {
    /// Human-readable message.
    pub fn message(&self) -> (r: String)
        ensures
            r@ == update_error_text(self@),
    {
        match self {
            UpdateRequirementError::NotFound(id) => joined("requirement not found: ", id.as_str()),
            UpdateRequirementError::NotTodo(st) => {
                let mut m = joined("update only allowed when status is todo (current: ", st.as_str());
                m.append(")");
                m
            },
            UpdateRequirementError::EmptyTitle => String::from_str("title must not be empty"),
            UpdateRequirementError::ProjectArchived(id) => joined("project is archived: ", id.as_str()),
        }
    }
}

} // verus!

