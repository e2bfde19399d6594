//! Pure verb-based state machine. No free-form `set_status` / `update_status`.

use vstd::prelude::*;
use vstd::string::*;

verus! {

/// Lifecycle status of a requirement.
#[derive(Debug, Clone, Copy, PartialEq, Eq, Hash, Structural)]
pub enum Status {
    Todo,
    InProgress,
    Review,
    Done,
    Cancelled,
}

/// Wire name of a status.
pub open spec fn status_name(s: Status) -> Seq<char> {
    match s {
        Status::Todo => "todo"@,
        Status::InProgress => "in_progress"@,
        Status::Review => "review"@,
        Status::Done => "done"@,
        Status::Cancelled => "cancelled"@,
    }
}

/// `done` and `cancelled` accept no further verb.
pub open spec fn is_terminal(s: Status) -> bool {
    s == Status::Done || s == Status::Cancelled
}

impl Status {
    pub fn as_str(self) -> (r: &'static str)
        ensures
            r@ == status_name(self),
    {
        proof {
            reveal_strlit("todo");
            reveal_strlit("in_progress");
            reveal_strlit("review");
            reveal_strlit("done");
            reveal_strlit("cancelled");
        }
        match self {
            Status::Todo => "todo",
            Status::InProgress => "in_progress",
            Status::Review => "review",
            Status::Done => "done",
            Status::Cancelled => "cancelled",
        }
    }

    pub fn parse(s: &str) -> (r: Option<Status>)
        ensures
            r matches Some(st) ==> status_name(st) == s@,
            r is None ==> forall|st: Status| status_name(st) != s@,
    {
        proof {
            reveal_strlit("todo");
            reveal_strlit("in_progress");
            reveal_strlit("review");
            reveal_strlit("done");
            reveal_strlit("cancelled");
        }
        if crate::text::str_eq(s, "todo") {
            Some(Status::Todo)
        } else if crate::text::str_eq(s, "in_progress") {
            Some(Status::InProgress)
        } else if crate::text::str_eq(s, "review") {
            Some(Status::Review)
        } else if crate::text::str_eq(s, "done") {
            Some(Status::Done)
        } else if crate::text::str_eq(s, "cancelled") {
            Some(Status::Cancelled)
        } else {
            None
        }
    }
}

} // verus!

verus! {

/// Actor role (bound to a token; modeled here for transition rules).
#[derive(Debug, Clone, Copy, PartialEq, Eq, Hash, Structural)]
pub enum Role {
    Admin,
    Planner,
    Foreman,
}

/// Wire name of a role.
pub open spec fn role_name(r: Role) -> Seq<char> {
    match r {
        Role::Admin => "admin"@,
        Role::Planner => "planner"@,
        Role::Foreman => "foreman"@,
    }
}

impl Role {
    pub fn as_str(self) -> (r: &'static str)
        ensures
            r@ == role_name(self),
    {
        proof {
            reveal_strlit("admin");
            reveal_strlit("planner");
            reveal_strlit("foreman");
        }
        match self {
            Role::Admin => "admin",
            Role::Planner => "planner",
            Role::Foreman => "foreman",
        }
    }

    pub fn parse(s: &str) -> (r: Option<Role>)
        ensures
            r matches Some(role) ==> role_name(role) == s@,
            r is None ==> forall|role: Role| role_name(role) != s@,
    {
        proof {
            reveal_strlit("admin");
            reveal_strlit("planner");
            reveal_strlit("foreman");
        }
        if crate::text::str_eq(s, "admin") {
            Some(Role::Admin)
        } else if crate::text::str_eq(s, "planner") {
            Some(Role::Planner)
        } else if crate::text::str_eq(s, "foreman") {
            Some(Role::Foreman)
        } else {
            None
        }
    }
}

/// Verb-based transitions only. There is no free-form status update.
#[derive(Debug, Clone, Copy, PartialEq, Eq, Structural)]
pub enum Transition {
    /// todo → in_progress; sets claimed_by to actor
    ClaimTask,
    /// in_progress / review — status unchanged; progress note only
    ReportProgress,
    /// in_progress → review; must be claimant or admin
    SubmitForReview,
    /// review → done (pass) or todo (fail)
    CompleteReview { pass: bool },
    /// in_progress → todo; claimant or admin; clears claim
    ReleaseTask,
    /// → cancelled (role-scoped; soft cancel only)
    Cancel,
}

/// Context required to evaluate / apply a transition (pure; no I/O).
#[derive(Debug, Clone, PartialEq, Eq)]
pub struct TransitionContext {
    pub current: Status,
    pub role: Role,
    /// Actor identity (token name / user id).
    pub actor: String,
    /// Current claimant, if any.
    pub claimed_by: Option<String>,
}

/// Outcome of a successful transition application.
#[derive(Debug, Clone, PartialEq, Eq)]
pub struct TransitionResult {
    pub new_status: Status,
    /// If `Some(None)`, clear claimed_by. If `Some(Some(x))`, set claimed_by. If None, leave as-is.
    pub claimed_by_update: Option<Option<String>>,
}

#[derive(Debug, Clone, PartialEq, Eq)]
pub enum TransitionError {
    IllegalFromStatus { verb: &'static str, from: Status },
    ForbiddenRole { role: Role, verb: &'static str },
    NotClaimant { actor: String, claimed_by: Option<String> },
    AlreadyClaimed { claimed_by: String },
    NotClaimable { status: Status },
    Terminal { status: Status },
}

/// Event / error name of a verb.
pub open spec fn verb_str(t: Transition) -> &'static str {
    match t {
        Transition::ClaimTask => "claim_task",
        Transition::ReportProgress => "report_progress",
        Transition::SubmitForReview => "submit_for_review",
        Transition::CompleteReview { pass } => if pass {
            "complete_review_pass"
        } else {
            "complete_review_fail"
        },
        Transition::ReleaseTask => "release_task",
        Transition::Cancel => "cancel",
    }
}

pub fn verb_name(t: &Transition) -> (r: &'static str)
    ensures
        r == verb_str(*t),
{
    match t {
        Transition::ClaimTask => "claim_task",
        Transition::ReportProgress => "report_progress",
        Transition::SubmitForReview => "submit_for_review",
        Transition::CompleteReview { pass: true } => "complete_review_pass",
        Transition::CompleteReview { pass: false } => "complete_review_fail",
        Transition::ReleaseTask => "release_task",
        Transition::Cancel => "cancel",
    }
}

/// The actor holds the claim.
pub open spec fn is_claimant(ctx: TransitionContext) -> bool {
    ctx.claimed_by matches Some(owner) && owner@ == ctx.actor@
}

/// Claimant check: the claimant passes, anyone else is `NotClaimant`.
pub open spec fn claimant_check(ctx: TransitionContext) -> Result<(), TransitionError> {
    if is_claimant(ctx) {
        Ok(())
    } else {
        Err(TransitionError::NotClaimant { actor: ctx.actor, claimed_by: ctx.claimed_by })
    }
}

/// Admin passes; otherwise the claimant check applies.
pub open spec fn claimant_or_admin_check(ctx: TransitionContext) -> Result<(), TransitionError> {
    if ctx.role == Role::Admin {
        Ok(())
    } else {
        claimant_check(ctx)
    }
}

/// Whether (and why not) `t` may be applied in `ctx`.
pub open spec fn check_spec(ctx: TransitionContext, t: Transition) -> Result<(), TransitionError> {
    if is_terminal(ctx.current) {
        Err(TransitionError::Terminal { status: ctx.current })
    } else {
        match t {
            Transition::ClaimTask => if ctx.current != Status::Todo {
                Err(TransitionError::NotClaimable { status: ctx.current })
            } else if ctx.claimed_by is Some {
                Err(TransitionError::AlreadyClaimed { claimed_by: ctx.claimed_by->0 })
            } else {
                Ok(())
            },
            Transition::ReportProgress => if !(ctx.current == Status::InProgress || ctx.current
                == Status::Review) {
                Err(TransitionError::IllegalFromStatus { verb: verb_str(t), from: ctx.current })
            } else {
                claimant_or_admin_check(ctx)
            },
            Transition::SubmitForReview => if ctx.current != Status::InProgress {
                Err(TransitionError::IllegalFromStatus { verb: verb_str(t), from: ctx.current })
            } else {
                claimant_or_admin_check(ctx)
            },
            Transition::CompleteReview { .. } => if ctx.current != Status::Review {
                Err(TransitionError::IllegalFromStatus { verb: verb_str(t), from: ctx.current })
            } else if ctx.role == Role::Foreman {
                Err(TransitionError::ForbiddenRole { role: ctx.role, verb: verb_str(t) })
            } else {
                Ok(())
            },
            Transition::ReleaseTask => if ctx.current != Status::InProgress {
                Err(TransitionError::IllegalFromStatus { verb: verb_str(t), from: ctx.current })
            } else {
                claimant_or_admin_check(ctx)
            },
            Transition::Cancel => match ctx.role {
                Role::Planner => if ctx.current != Status::Todo {
                    Err(
                        TransitionError::IllegalFromStatus { verb: verb_str(t), from: ctx.current },
                    )
                } else {
                    Ok(())
                },
                Role::Admin => Ok(()),
                Role::Foreman => Err(TransitionError::ForbiddenRole { role: ctx.role, verb: verb_str(t) }),
            },
        }
    }
}

/// Status after applying `t` from `current` (meaningful when the check passes).
pub open spec fn next_status(current: Status, t: Transition) -> Status {
    match t {
        Transition::ClaimTask => Status::InProgress,
        Transition::ReportProgress => current,
        Transition::SubmitForReview => Status::Review,
        Transition::CompleteReview { pass } => if pass {
            Status::Done
        } else {
            Status::Todo
        },
        Transition::ReleaseTask => Status::Todo,
        Transition::Cancel => Status::Cancelled,
    }
}

/// Claim update after applying `t` (meaningful when the check passes).
pub open spec fn claim_update(ctx: TransitionContext, t: Transition) -> Option<Option<String>> {
    match t {
        Transition::ClaimTask => Some(Some(ctx.actor)),
        Transition::ReportProgress => None,
        Transition::SubmitForReview => None,
        Transition::CompleteReview { pass } => if pass {
            None
        } else {
            Some(None)
        },
        Transition::ReleaseTask => Some(None),
        Transition::Cancel => Some(None),
    }
}

/// Full outcome of applying `t` in `ctx`.
pub open spec fn apply_spec(ctx: TransitionContext, t: Transition) -> Result<
    TransitionResult,
    TransitionError,
> {
    match check_spec(ctx, t) {
        Err(e) => Err(e),
        Ok(()) => Ok(
            TransitionResult {
                new_status: next_status(ctx.current, t),
                claimed_by_update: claim_update(ctx, t),
            },
        ),
    }
}

/// Copy of an optional string that is equal to it.
pub fn clone_opt_string(o: &Option<String>) -> (r: Option<String>)
    ensures
        r == *o,
{
    match o {
        Some(s) => Some(s.clone()),
        None => None,
    }
}

fn ensure_claimant(ctx: &TransitionContext, transition: &Transition) -> (r: Result<(), TransitionError>)
    ensures
        r == claimant_check(*ctx),
{
    match &ctx.claimed_by {
        Some(owner) => {
            if *owner == ctx.actor {
                return Ok(());
            }
        },
        None => {},
    }
    Err(TransitionError::NotClaimant { actor: ctx.actor.clone(), claimed_by: clone_opt_string(&ctx.claimed_by) })
}

fn ensure_claimant_or_admin(ctx: &TransitionContext, transition: &Transition) -> (r: Result<
    (),
    TransitionError,
>)
    ensures
        r == claimant_or_admin_check(*ctx),
{
    if ctx.role == Role::Admin {
        return Ok(());
    }
    ensure_claimant(ctx, transition)
}

/// Check whether a transition is allowed (pure).
pub fn can_transition(ctx: &TransitionContext, transition: &Transition) -> (r: Result<
    (),
    TransitionError,
>)
    ensures
        r == check_spec(*ctx, *transition),
{
    // Done is fully terminal. Cancelled is terminal for all verbs.
    if ctx.current == Status::Done || ctx.current == Status::Cancelled {
        return Err(TransitionError::Terminal { status: ctx.current });
    }
    match transition {
        Transition::ClaimTask => {
            // Only from todo, unclaimed.
            if ctx.current != Status::Todo {
                return Err(TransitionError::NotClaimable { status: ctx.current });
            }
            if let Some(owner) = &ctx.claimed_by {
                return Err(TransitionError::AlreadyClaimed { claimed_by: owner.clone() });
            }
            // Foreman, planner, admin may claim (HTTP may restrict further).
            Ok(())
        },
        Transition::ReportProgress => {
            // Allowed while in_progress (or review) by claimant / admin.
            if !(ctx.current == Status::InProgress || ctx.current == Status::Review) {
                return Err(
                    TransitionError::IllegalFromStatus {
                        verb: verb_name(transition),
                        from: ctx.current,
                    },
                );
            }
            ensure_claimant_or_admin(ctx, transition)
        },
        Transition::SubmitForReview => {
            if ctx.current != Status::InProgress {
                return Err(
                    TransitionError::IllegalFromStatus {
                        verb: verb_name(transition),
                        from: ctx.current,
                    },
                );
            }
            ensure_claimant_or_admin(ctx, transition)
        },
        Transition::CompleteReview { .. } => {
            if ctx.current != Status::Review {
                return Err(
                    TransitionError::IllegalFromStatus {
                        verb: verb_name(transition),
                        from: ctx.current,
                    },
                );
            }
            // Planner or admin complete review (HTTP restricts to admin only).
            if ctx.role == Role::Foreman {
                return Err(
                    TransitionError::ForbiddenRole { role: ctx.role, verb: verb_name(transition) },
                );
            }
            Ok(())
        },
        Transition::ReleaseTask => {
            if ctx.current != Status::InProgress {
                return Err(
                    TransitionError::IllegalFromStatus {
                        verb: verb_name(transition),
                        from: ctx.current,
                    },
                );
            }
            // Claimant or admin may release.
            ensure_claimant_or_admin(ctx, transition)
        },
        Transition::Cancel => {
            match ctx.role {
                Role::Planner => {
                    // Planner: todo only.
                    if ctx.current != Status::Todo {
                        return Err(
                            TransitionError::IllegalFromStatus {
                                verb: verb_name(transition),
                                from: ctx.current,
                            },
                        );
                    }
                    Ok(())
                },
                // Admin: any non-terminal (todo / in_progress / review).
                Role::Admin => Ok(()),
                Role::Foreman => Err(
                    TransitionError::ForbiddenRole { role: ctx.role, verb: verb_name(transition) },
                ),
            }
        },
    }
}

/// Apply a transition: validate then compute next status / claim updates (pure).
pub fn apply_transition(ctx: &TransitionContext, transition: &Transition) -> (r: Result<
    TransitionResult,
    TransitionError,
>)
    ensures
        r == apply_spec(*ctx, *transition),
{
    match can_transition(ctx, transition) {
        Err(e) => return Err(e),
        Ok(()) => {},
    }
    let result = match transition {
        Transition::ClaimTask => TransitionResult {
            new_status: Status::InProgress,
            claimed_by_update: Some(Some(ctx.actor.clone())),
        },
        Transition::ReportProgress => TransitionResult {
            new_status: ctx.current,
            claimed_by_update: None,
        },
        Transition::SubmitForReview => TransitionResult {
            new_status: Status::Review,
            claimed_by_update: None,
        },
        Transition::CompleteReview { pass: true } => TransitionResult {
            new_status: Status::Done,
            claimed_by_update: None,
        },
        Transition::CompleteReview { pass: false } => TransitionResult {
            new_status: Status::Todo,
            // clear claim on fail-back to todo
            claimed_by_update: Some(None),
        },
        Transition::ReleaseTask => TransitionResult {
            new_status: Status::Todo,
            claimed_by_update: Some(None),
        },
        Transition::Cancel => TransitionResult {
            new_status: Status::Cancelled,
            claimed_by_update: Some(None),
        },
    };
    Ok(result)
}

/// Create always yields `todo` (no free-form status).
pub fn status_on_create() -> (s: Status)
    ensures
        s == Status::Todo,
{
    Status::Todo
}

} // verus!

verus! {

/// Transition errors over plain values.
pub enum TransitionErrorV {
    IllegalFromStatus { verb: Seq<char>, from: Status },
    ForbiddenRole { role: Role, verb: Seq<char> },
    NotClaimant { actor: Seq<char>, claimed_by: Option<Seq<char>> },
    AlreadyClaimed { claimed_by: Seq<char> },
    NotClaimable { status: Status },
    Terminal { status: Status },
}

impl View for TransitionError {
    type V = TransitionErrorV;

    open spec fn view(&self) -> TransitionErrorV {
        match self {
            TransitionError::IllegalFromStatus { verb, from } => TransitionErrorV::IllegalFromStatus {
                verb: verb@,
                from: *from,
            },
            TransitionError::ForbiddenRole { role, verb } => TransitionErrorV::ForbiddenRole {
                role: *role,
                verb: verb@,
            },
            TransitionError::NotClaimant { actor, claimed_by } => TransitionErrorV::NotClaimant {
                actor: actor@,
                claimed_by: claimed_by.deep_view(),
            },
            TransitionError::AlreadyClaimed { claimed_by } => TransitionErrorV::AlreadyClaimed {
                claimed_by: claimed_by@,
            },
            TransitionError::NotClaimable { status } => TransitionErrorV::NotClaimable {
                status: *status,
            },
            TransitionError::Terminal { status } => TransitionErrorV::Terminal { status: *status },
        }
    }
}

/// Whether (and why not) `t` may be applied, over plain values: status, role, actor and claimant.
pub open spec fn check_v(
    current: Status,
    role: Role,
    actor: Seq<char>,
    claimed_by: Option<Seq<char>>,
    t: Transition,
) -> Result<(), TransitionErrorV> {
    let claimant_ok = role == Role::Admin || (claimed_by matches Some(o) && o == actor);
    let not_claimant = TransitionErrorV::NotClaimant { actor: actor, claimed_by: claimed_by };
    let illegal = TransitionErrorV::IllegalFromStatus { verb: verb_str(t)@, from: current };
    if is_terminal(current) {
        Err(TransitionErrorV::Terminal { status: current })
    } else {
        match t {
            Transition::ClaimTask => if current != Status::Todo {
                Err(TransitionErrorV::NotClaimable { status: current })
            } else if claimed_by is Some {
                Err(TransitionErrorV::AlreadyClaimed { claimed_by: claimed_by->0 })
            } else {
                Ok(())
            },
            Transition::ReportProgress => if !(current == Status::InProgress || current
                == Status::Review) {
                Err(illegal)
            } else if !claimant_ok {
                Err(not_claimant)
            } else {
                Ok(())
            },
            Transition::SubmitForReview | Transition::ReleaseTask => if current
                != Status::InProgress {
                Err(illegal)
            } else if !claimant_ok {
                Err(not_claimant)
            } else {
                Ok(())
            },
            Transition::CompleteReview { .. } => if current != Status::Review {
                Err(illegal)
            } else if role == Role::Foreman {
                Err(TransitionErrorV::ForbiddenRole { role: role, verb: verb_str(t)@ })
            } else {
                Ok(())
            },
            Transition::Cancel => match role {
                Role::Planner => if current != Status::Todo {
                    Err(illegal)
                } else {
                    Ok(())
                },
                Role::Admin => Ok(()),
                Role::Foreman => Err(TransitionErrorV::ForbiddenRole { role: role, verb: verb_str(t)@ }),
            },
        }
    }
}

/// Claim update over plain values.
pub open spec fn claim_update_v(actor: Seq<char>, t: Transition) -> Option<Option<Seq<char>>> {
    match t {
        Transition::ClaimTask => Some(Some(actor)),
        Transition::ReportProgress => None,
        Transition::SubmitForReview => None,
        Transition::CompleteReview { pass } => if pass {
            None
        } else {
            Some(None)
        },
        Transition::ReleaseTask => Some(None),
        Transition::Cancel => Some(None),
    }
}

/// The exact outcome of `apply_transition`, read over plain values.
pub proof fn lemma_apply_view(ctx: TransitionContext, t: Transition)
    ensures
        apply_spec(ctx, t) matches Err(e) ==> check_v(
            ctx.current,
            ctx.role,
            ctx.actor@,
            ctx.claimed_by.deep_view(),
            t,
        ) == Err::<(), TransitionErrorV>(e@),
        apply_spec(ctx, t) is Ok ==> check_v(
            ctx.current,
            ctx.role,
            ctx.actor@,
            ctx.claimed_by.deep_view(),
            t,
        ) is Ok,
        apply_spec(ctx, t) matches Ok(res) ==> res.new_status == next_status(ctx.current, t)
            && res.claimed_by_update.deep_view() == claim_update_v(ctx.actor@, t),
{
}

/// The verb table: from which statuses, for which roles, each verb succeeds, and where it
/// leads. Claiming takes an unclaimed `todo` card to `in_progress`; progress (on `in_progress` or
/// `review`), submit and release (on `in_progress`) need the claimant or an admin; review pass
/// and fail need `review` and a planner or admin; a planner cancels only `todo`, an admin any
/// non-terminal card, a foreman never. `done` and `cancelled` accept nothing.
pub proof fn law_verb_table(ctx: TransitionContext, t: Transition)
    ensures
        is_terminal(ctx.current) ==> check_spec(ctx, t) is Err,
        t == Transition::ClaimTask ==> ((check_spec(ctx, t) is Ok) <==> (ctx.current
            == Status::Todo && ctx.claimed_by is None)),
        t == Transition::ReportProgress ==> ((check_spec(ctx, t) is Ok) <==> ((ctx.current
            == Status::InProgress || ctx.current == Status::Review) && (ctx.role == Role::Admin
            || is_claimant(ctx)))),
        t == Transition::SubmitForReview ==> ((check_spec(ctx, t) is Ok) <==> (ctx.current
            == Status::InProgress && (ctx.role == Role::Admin || is_claimant(ctx)))),
        t == Transition::ReleaseTask ==> ((check_spec(ctx, t) is Ok) <==> (ctx.current
            == Status::InProgress && (ctx.role == Role::Admin || is_claimant(ctx)))),
        t is CompleteReview ==> ((check_spec(ctx, t) is Ok) <==> (ctx.current == Status::Review
            && ctx.role != Role::Foreman)),
        t == Transition::Cancel ==> ((check_spec(ctx, t) is Ok) <==> ((ctx.role == Role::Planner
            && ctx.current == Status::Todo) || (ctx.role == Role::Admin && !is_terminal(
            ctx.current,
        )))),
        check_spec(ctx, t) is Ok ==> match t {
            Transition::ClaimTask => next_status(ctx.current, t) == Status::InProgress
                && claim_update(ctx, t) == Some(Some(ctx.actor)),
            Transition::ReportProgress => next_status(ctx.current, t) == ctx.current
                && claim_update(ctx, t) is None,
            Transition::SubmitForReview => next_status(ctx.current, t) == Status::Review
                && claim_update(ctx, t) is None,
            Transition::CompleteReview { pass } => if pass {
                next_status(ctx.current, t) == Status::Done && claim_update(ctx, t) is None
            } else {
                next_status(ctx.current, t) == Status::Todo && claim_update(ctx, t) == Some(
                    None::<String>,
                )
            },
            Transition::ReleaseTask => next_status(ctx.current, t) == Status::Todo
                && claim_update(ctx, t) == Some(None::<String>),
            Transition::Cancel => next_status(ctx.current, t) == Status::Cancelled
                && claim_update(ctx, t) == Some(None::<String>),
        },
{
}

/// Text of a transition error.
pub open spec fn transition_error_text(e: TransitionErrorV) -> Seq<char> {
    match e {
        TransitionErrorV::IllegalFromStatus { verb, from } => "transition `"@ + verb
            + "` is not allowed from status `"@ + status_name(from) + "`"@,
        TransitionErrorV::ForbiddenRole { role, verb } => "role `"@ + role_name(role)
            + "` cannot perform `"@ + verb + "`"@,
        TransitionErrorV::NotClaimant { actor, claimed_by } => "actor `"@ + actor
            + "` is not the claimant (claimed_by="@ + crate::outside::debug_opt_string(claimed_by)
            + ")"@,
        TransitionErrorV::AlreadyClaimed { claimed_by } => "requirement is already claimed by `"@
            + claimed_by + "`"@,
        TransitionErrorV::NotClaimable { status } => "requirement is not claimable in status `"@
            + status_name(status) + "`"@,
        TransitionErrorV::Terminal { status } => "terminal status `"@ + status_name(status)
            + "` rejects further transitions"@,
    }
}

impl TransitionError {
    /// Human-readable message.
    pub fn message(&self) -> (r: String)
        ensures
            r@ == transition_error_text(self@),
    {
        match self {
            TransitionError::IllegalFromStatus { verb, from } => {
                let mut m = String::from_str("transition `");
                m.append(verb);
                m.append("` is not allowed from status `");
                m.append(from.as_str());
                m.append("`");
                m
            },
            TransitionError::ForbiddenRole { role, verb } => {
                let mut m = String::from_str("role `");
                m.append(role.as_str());
                m.append("` cannot perform `");
                m.append(verb);
                m.append("`");
                m
            },
            TransitionError::NotClaimant { actor, claimed_by } => {
                let mut m = String::from_str("actor `");
                m.append(actor.as_str());
                m.append("` is not the claimant (claimed_by=");
                m.append(crate::outside::debug_opt(claimed_by).as_str());
                m.append(")");
                m
            },
            TransitionError::AlreadyClaimed { claimed_by } => {
                let mut m = String::from_str("requirement is already claimed by `");
                m.append(claimed_by.as_str());
                m.append("`");
                m
            },
            TransitionError::NotClaimable { status } => {
                let mut m = String::from_str("requirement is not claimable in status `");
                m.append(status.as_str());
                m.append("`");
                m
            },
            TransitionError::Terminal { status } => {
                let mut m = String::from_str("terminal status `");
                m.append(status.as_str());
                m.append("` rejects further transitions");
                m
            },
        }
    }
}

} // verus!

