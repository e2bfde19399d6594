//! Laws of the requirement lifecycle, stated over the services' own specifications.

use vstd::prelude::*;

use crate::domain::models::{AgentSeat, Micros, ProjectV, RequirementV};
use crate::services::presence::presence_unique;
use crate::domain::state::{
    apply_spec, is_terminal, lemma_apply_view, Role, Status, Transition, TransitionContext,
    TransitionErrorV,
};
use crate::services::board::{
    find_first, first_match, lemma_filter_item_from, lemma_find_first_none, lemma_find_first_props,
    lemma_find_first_some, project_with_id, req_with_id, BoardV,
};
use crate::services::projects::{
    ack_agent_seat_spec, archive_project_spec, create_project_spec, lemma_with_project_keeps_pos,
    listed, normalize_spec, project_pos, unarchive_project_spec, update_project_spec, with_project, writable_spec,
    ProjectErrorV,
};
use crate::services::requirements::{
    cancel_spec, claim_spec, create_requirement_spec, dep_done, ready_in, CreateInputV,
    CreateRequirementErrorV, UpdateRequirementErrorV, dependency_ids, deps_satisfied, progress_spec, release_spec, req_pos, review_spec, submit_spec,
    status_verb_spec, update_requirement_spec, verb_target, UpdateInputV, VerbErrorV,
};

verus! {

/// Done and cancelled are terminal: no verb succeeds on such a requirement, and the store is
/// left as it was.
pub proof fn law_terminal_status_is_final(
    b: BoardV,
    id: Seq<char>,
    actor: Seq<char>,
    role: Role,
    pass: bool,
    reason: Option<Seq<char>>,
    summary: Option<Seq<char>>,
    blocked: Option<Seq<char>>,
    input: UpdateInputV,
    event_id: Seq<char>,
    now: Micros,
)
    requires
        req_pos(b, id) is Some,
        is_terminal(b.requirements[req_pos(b, id)->0].status),
    ensures
        claim_spec(b, id, actor, role, event_id, now).0 == b,
        claim_spec(b, id, actor, role, event_id, now).1 is Err,
        progress_spec(b, id, actor, role, summary, blocked, event_id, now).0 == b,
        progress_spec(b, id, actor, role, summary, blocked, event_id, now).1 is Err,
        submit_spec(b, id, actor, role, event_id, now).0 == b,
        submit_spec(b, id, actor, role, event_id, now).1 is Err,
        review_spec(b, id, actor, role, pass, reason, event_id, now).0 == b,
        review_spec(b, id, actor, role, pass, reason, event_id, now).1 is Err,
        release_spec(b, id, actor, role, event_id, now).0 == b,
        release_spec(b, id, actor, role, event_id, now).1 is Err,
        cancel_spec(b, id, actor, role, event_id, now).0 == b,
        cancel_spec(b, id, actor, role, event_id, now).1 is Err,
        update_requirement_spec(b, id, actor, input, event_id, now).0 == b,
        update_requirement_spec(b, id, actor, input, event_id, now).1 is Err,
{
}

/// Claim is atomic: once a claim succeeds, a second claim on the same requirement — by anyone —
/// fails as not claimable (it is in progress) and changes nothing; the first claimant stays.
pub proof fn law_claim_has_one_winner(
    b: BoardV,
    id: Seq<char>,
    first: Seq<char>,
    first_role: Role,
    second: Seq<char>,
    second_role: Role,
    e1: Seq<char>,
    e2: Seq<char>,
    t1: Micros,
    t2: Micros,
)
    requires
        claim_spec(b, id, first, first_role, e1, t1).1 is Ok,
    ensures
        ({
            let b1 = claim_spec(b, id, first, first_role, e1, t1).0;
            let (b2, r2) = claim_spec(b1, id, second, second_role, e2, t2);
            &&& b2 == b1
            &&& r2 matches Err(VerbErrorV::Transition(TransitionErrorV::NotClaimable { status }))
                && status == Status::InProgress
            &&& b1.requirements[req_pos(b1, id)->0].claimed_by == Some(first)
        }),
{
    let i = req_pos(b, id)->0;
    let b1 = claim_spec(b, id, first, first_role, e1, t1).0;
    lemma_update_keeps_find(b.requirements, i, b1.requirements[i], id);
    lemma_update_keeps_deps(
        b.requirements,
        i,
        b1.requirements[i],
        b.requirements[i].dependencies_json,
    );
}

/// Replacing a requirement by one with the same id keeps every lookup by id where it was.
pub proof fn lemma_update_keeps_find(s: Seq<RequirementV>, i: int, r: RequirementV, id: Seq<char>)
    requires
        0 <= i < s.len(),
        r.id == s[i].id,
    ensures
        find_first(s.update(i, r), req_with_id(id)) == find_first(s, req_with_id(id)),
{
    let s2 = s.update(i, r);
    let p = req_with_id(id);
    lemma_find_first_props(s, p);
    lemma_find_first_props(s2, p);
    assert forall|j: int| 0 <= j < s.len() implies p(#[trigger] s2[j]) == p(s[j]) by {
        if j == i {
        }
    }
    match find_first(s, p) {
        Some(k) => {
            assert(first_match(s2, p, k));
            lemma_find_first_some(s2, p, k);
        },
        None => {
            assert forall|j: int| 0 <= j < s2.len() implies !p(#[trigger] s2[j]) by {
                assert(p(s2[j]) == p(s[j]));
            }
            lemma_find_first_none(s2, p);
        },
    }
}

/// Dependencies read the same after a requirement is replaced by one with the same id that is
/// done exactly when the old one was.
pub proof fn lemma_update_keeps_deps(
    s: Seq<RequirementV>,
    i: int,
    r: RequirementV,
    deps_json: Seq<char>,
)
    requires
        0 <= i < s.len(),
        r.id == s[i].id,
        (r.status == Status::Done) == (s[i].status == Status::Done),
    ensures
        deps_satisfied(s.update(i, r), deps_json) == deps_satisfied(s, deps_json),
{
    let ids = dependency_ids(deps_json);
    assert forall|k: int| 0 <= k < ids.len() implies dep_done(s.update(i, r), #[trigger] ids[k])
        == dep_done(s, ids[k]) by {
        lemma_update_keeps_find(s, i, r, ids[k]);
    }
}

/// Unarchive undoes archive: an active project, archived and then unarchived, is the project it
/// was (but its update time), in the same place, with the rest of the store untouched.
pub proof fn law_unarchive_undoes_archive(b: BoardV, id: Seq<char>, t1: Micros, t2: Micros)
    requires
        writable_spec(b, id) is Ok,
    ensures
        ({
            let b1 = archive_project_spec(b, id, t1).0;
            let (b2, r2) = unarchive_project_spec(b1, id, t2);
            let i = project_pos(b, id)->0;
            let back = ProjectV { updated_at: t2, ..b.projects[i] };
            &&& r2 == Ok::<ProjectV, ProjectErrorV>(back)
            &&& b2 == with_project(b, i, back)
        }),
{
    let i = project_pos(b, id)->0;
    let np = ProjectV { archived_at: Some(t1), updated_at: t1, ..b.projects[i] };
    lemma_find_first_props(b.projects, project_with_id(id));
    lemma_with_project_keeps_pos(b, i, np, id);
    let b1 = with_project(b, i, np);
    let back = ProjectV { updated_at: t2, ..b.projects[i] };
    assert(with_project(b1, i, back).projects =~= with_project(b, i, back).projects);
}

/// A status verb does what the transition rules say. On a stored card of a writable project it
/// succeeds exactly when `apply_transition` accepts the transition for the card's status and
/// claimant and the caller; it then stores the status and claimant that gives, leaves every
/// other card alone and appends one log entry. A refused transition is answered with the
/// rule's own error and writes nothing; a missing card or an archived project writes nothing.
pub proof fn law_status_verb_follows_transition(
    b: BoardV,
    id: Seq<char>,
    ctx: TransitionContext,
    t: Transition,
    kind: Seq<char>,
    message: Seq<char>,
    payload: Seq<char>,
    event_id: Seq<char>,
    now: Micros,
)
    ensures
        verb_target(b, id) matches Err(e) ==> status_verb_spec(
            b,
            id,
            ctx.actor@,
            ctx.role,
            t,
            kind,
            message,
            payload,
            event_id,
            now,
        ) == (b, Err::<RequirementV, VerbErrorV>(e)),
        (verb_target(b, id) matches Ok(i) && ctx.current == b.requirements[i].status
            && ctx.claimed_by.deep_view() == b.requirements[i].claimed_by) ==> ({
            let i = verb_target(b, id)->Ok_0;
            let r = b.requirements[i];
            let (b2, res) = status_verb_spec(
                b,
                id,
                ctx.actor@,
                ctx.role,
                t,
                kind,
                message,
                payload,
                event_id,
                now,
            );
            match apply_spec(ctx, t) {
                Err(e) => b2 == b && res == Err::<RequirementV, VerbErrorV>(VerbErrorV::Transition(e@)),
                Ok(tr) => res matches Ok(nr) && nr.status == tr.new_status && nr.claimed_by == match tr.claimed_by_update.deep_view() {
                    Some(c) => c,
                    None => r.claimed_by,
                } && b2.requirements == b.requirements.update(i, nr) && b2.events.len() == b.events.len()
                    + 1 && b.events.is_prefix_of(b2.events) && b2.projects == b.projects,
            }
        }),
{
    lemma_apply_view(ctx, t);
    if let Ok(i) = verb_target(b, id) {
        let b2 = status_verb_spec(b, id, ctx.actor@, ctx.role, t, kind, message, payload, event_id, now).0;
        assert(b.events.is_prefix_of(b.events.push(b2.events.last()))) by {
            assert forall|k: int| 0 <= k < b.events.len() implies b.events.push(b2.events.last())[k] == b.events[k] by {}
        }
    }
}

/// Archiving hides a project from the default list but keeps it where it was (a lookup still
/// finds it); archiving it again changes nothing and answers the same project; unarchiving
/// brings it back into the list.
pub proof fn law_archive_hides_from_list(b: BoardV, id: Seq<char>, t1: Micros, t2: Micros)
    requires
        writable_spec(b, id) is Ok,
    ensures
        ({
            let i = project_pos(b, id)->0;
            let (b1, r1) = archive_project_spec(b, id, t1);
            &&& r1 == Ok::<ProjectV, ProjectErrorV>(b1.projects[i])
            &&& b1.projects[i].archived_at == Some(t1)
            &&& project_pos(b1, id) == Some(i)
            &&& !listed(false)(b1.projects[i])
            &&& listed(true)(b1.projects[i])
            &&& archive_project_spec(b1, id, t2) == (b1, Ok::<ProjectV, ProjectErrorV>(b1.projects[i]))
            &&& unarchive_project_spec(b1, id, t2).0.projects[i].archived_at is None
            &&& listed(false)(unarchive_project_spec(b1, id, t2).0.projects[i])
        }),
{
    let i = project_pos(b, id)->0;
    let np = ProjectV { archived_at: Some(t1), updated_at: t1, ..b.projects[i] };
    lemma_find_first_props(b.projects, project_with_id(id));
    lemma_with_project_keeps_pos(b, i, np, id);
}

/// No two stored projects share an id.
pub open spec fn project_ids_unique(ps: Seq<ProjectV>) -> bool {
    forall|a: int, c: int| 0 <= a < ps.len() && 0 <= c < ps.len() && a != c ==> ps[a].id != ps[c].id
}

/// The keys the store keeps unique, as the tables' primary keys do: project ids, requirement
/// ids, and one heartbeat row per project and seat.
pub open spec fn board_keys_unique(b: BoardV) -> bool {
    &&& project_ids_unique(b.projects)
    &&& ids_unique(b.requirements)
    &&& presence_unique(b.presence)
}

/// Requirement ids stay unique when the cards keep their ids in place and at most one card with
/// a fresh id is added at the end.
proof fn lemma_req_ids_stay_unique(before: Seq<RequirementV>, after: Seq<RequirementV>)
    requires
        ids_unique(before),
        before.len() <= after.len() <= before.len() + 1,
        forall|i: int| 0 <= i < before.len() ==> (#[trigger] after[i]).id == before[i].id,
        after.len() == before.len() + 1 ==> forall|j: int|
            0 <= j < before.len() ==> (#[trigger] before[j]).id != after.last().id,
    ensures
        ids_unique(after),
{
    assert forall|a: int, c: int| 0 <= a < after.len() && 0 <= c < after.len() && a != c implies after[a].id
        != after[c].id by {
        if a < before.len() && c < before.len() {
            assert(after[a].id == before[a].id && after[c].id == before[c].id);
        } else if a < before.len() {
            assert(after[a].id == before[a].id);
        } else {
            assert(after[c].id == before[c].id);
        }
    }
}

/// Project ids stay unique when projects keep their ids in place and at most one project with
/// a fresh id is added at the end.
proof fn lemma_project_ids_stay_unique(before: Seq<ProjectV>, after: Seq<ProjectV>)
    requires
        project_ids_unique(before),
        before.len() <= after.len() <= before.len() + 1,
        forall|i: int| 0 <= i < before.len() ==> (#[trigger] after[i]).id == before[i].id,
        after.len() == before.len() + 1 ==> forall|j: int|
            0 <= j < before.len() ==> (#[trigger] before[j]).id != after.last().id,
    ensures
        project_ids_unique(after),
{
    assert forall|a: int, c: int| 0 <= a < after.len() && 0 <= c < after.len() && a != c implies after[a].id
        != after[c].id by {
        if a < before.len() && c < before.len() {
            assert(after[a].id == before[a].id && after[c].id == before[c].id);
        } else if a < before.len() {
            assert(after[a].id == before[a].id);
        } else {
            assert(after[c].id == before[c].id);
        }
    }
}

/// Creating a card, editing one and every verb keep the store's keys unique: a new card gets
/// an id no stored card has, and no operation changes a stored card's id.
pub proof fn law_card_operations_keep_keys_unique(
    b: BoardV,
    id: Seq<char>,
    actor: Seq<char>,
    role: Role,
    pass: bool,
    reason: Option<Seq<char>>,
    summary: Option<Seq<char>>,
    blocked: Option<Seq<char>>,
    update: UpdateInputV,
    create: CreateInputV,
    new_id: Seq<char>,
    event_id: Seq<char>,
    now: Micros,
)
    requires
        board_keys_unique(b),
    ensures
        board_keys_unique(claim_spec(b, id, actor, role, event_id, now).0),
        board_keys_unique(progress_spec(b, id, actor, role, summary, blocked, event_id, now).0),
        board_keys_unique(submit_spec(b, id, actor, role, event_id, now).0),
        board_keys_unique(review_spec(b, id, actor, role, pass, reason, event_id, now).0),
        board_keys_unique(release_spec(b, id, actor, role, event_id, now).0),
        board_keys_unique(cancel_spec(b, id, actor, role, event_id, now).0),
        board_keys_unique(update_requirement_spec(b, id, actor, update, event_id, now).0),
        board_keys_unique(create_requirement_spec(b, create, new_id, event_id, now).0),
{
    law_no_hard_delete(
        b,
        id,
        actor,
        role,
        pass,
        reason,
        summary,
        blocked,
        update,
        create,
        new_id,
        event_id,
        now,
    );
    let s = b.requirements;
    lemma_find_first_props(s, req_with_id(new_id));
    let afters = seq![
        claim_spec(b, id, actor, role, event_id, now).0,
        progress_spec(b, id, actor, role, summary, blocked, event_id, now).0,
        submit_spec(b, id, actor, role, event_id, now).0,
        review_spec(b, id, actor, role, pass, reason, event_id, now).0,
        release_spec(b, id, actor, role, event_id, now).0,
        cancel_spec(b, id, actor, role, event_id, now).0,
        update_requirement_spec(b, id, actor, update, event_id, now).0,
        create_requirement_spec(b, create, new_id, event_id, now).0,
    ];
    assert forall|k: int| 0 <= k < afters.len() implies board_keys_unique(#[trigger] afters[k]) by {
        let a = afters[k];
        assert(keeps_history(b, a));
        assert(a.requirements.len() <= s.len() + 1);
        if a.requirements.len() == s.len() + 1 {
            assert(k == 7);
            assert(a.requirements.last().id == new_id);
        }
        lemma_req_ids_stay_unique(s, a.requirements);
    }
    assert(board_keys_unique(afters[0]));
    assert(board_keys_unique(afters[1]));
    assert(board_keys_unique(afters[2]));
    assert(board_keys_unique(afters[3]));
    assert(board_keys_unique(afters[4]));
    assert(board_keys_unique(afters[5]));
    assert(board_keys_unique(afters[6]));
    assert(board_keys_unique(afters[7]));
}

/// Creating, editing, archiving and unarchiving projects and marking seats keep the store's
/// keys unique: a new project gets an id no stored project has, and no operation changes a
/// stored project's id.
pub proof fn law_project_operations_keep_keys_unique(
    b: BoardV,
    id: Seq<char>,
    name: Seq<char>,
    color: Seq<char>,
    blurb: Seq<char>,
    local_path: Seq<char>,
    new_name: Option<Seq<char>>,
    new_color: Option<Seq<char>>,
    new_blurb: Option<Seq<char>>,
    new_path: Option<Seq<char>>,
    seat: AgentSeat,
    now: Micros,
)
    requires
        board_keys_unique(b),
    ensures
        board_keys_unique(create_project_spec(b, id, name, color, blurb, local_path, now).0),
        board_keys_unique(
            update_project_spec(b, id, new_name, new_color, new_blurb, new_path, now).0,
        ),
        board_keys_unique(ack_agent_seat_spec(b, id, seat, now).0),
        board_keys_unique(archive_project_spec(b, id, now).0),
        board_keys_unique(unarchive_project_spec(b, id, now).0),
{
    let ps = b.projects;
    lemma_find_first_props(ps, project_with_id(id));
    let afters = seq![
        create_project_spec(b, id, name, color, blurb, local_path, now).0,
        update_project_spec(b, id, new_name, new_color, new_blurb, new_path, now).0,
        ack_agent_seat_spec(b, id, seat, now).0,
        archive_project_spec(b, id, now).0,
        unarchive_project_spec(b, id, now).0,
    ];
    assert forall|k: int| 0 <= k < afters.len() implies board_keys_unique(#[trigger] afters[k]) by {
        let a = afters[k];
        if let Some(i) = project_pos(b, id) {
            assert(ps[i].id == id);
        }
        assert(a.requirements == b.requirements && a.presence == b.presence);
        lemma_project_ids_stay_unique(ps, a.projects);
    }
    assert(board_keys_unique(afters[0]));
    assert(board_keys_unique(afters[1]));
    assert(board_keys_unique(afters[2]));
    assert(board_keys_unique(afters[3]));
    assert(board_keys_unique(afters[4]));
}

/// `after` keeps every requirement of `before` in its place (same id and project), adds at most
/// new ones at the end, leaves projects, tokens and presence alone, and only appends to the log.
pub open spec fn keeps_history(before: BoardV, after: BoardV) -> bool {
    &&& before.requirements.len() <= after.requirements.len()
    &&& forall|i: int|
        0 <= i < before.requirements.len() ==> (#[trigger] after.requirements[i]).id
            == before.requirements[i].id && after.requirements[i].project_id
            == before.requirements[i].project_id
    &&& before.events.is_prefix_of(after.events)
    &&& after.projects == before.projects
    &&& after.tokens == before.tokens
    &&& after.presence == before.presence
}

/// No hard delete: create, update and every verb keep each stored requirement where it was
/// (a cancelled card stays, as `cancelled`), and the event log is append-only.
pub proof fn law_no_hard_delete(
    b: BoardV,
    id: Seq<char>,
    actor: Seq<char>,
    role: Role,
    pass: bool,
    reason: Option<Seq<char>>,
    summary: Option<Seq<char>>,
    blocked: Option<Seq<char>>,
    update: UpdateInputV,
    create: CreateInputV,
    new_id: Seq<char>,
    event_id: Seq<char>,
    now: Micros,
)
    ensures
        keeps_history(b, claim_spec(b, id, actor, role, event_id, now).0),
        keeps_history(b, progress_spec(b, id, actor, role, summary, blocked, event_id, now).0),
        keeps_history(b, submit_spec(b, id, actor, role, event_id, now).0),
        keeps_history(b, review_spec(b, id, actor, role, pass, reason, event_id, now).0),
        keeps_history(b, release_spec(b, id, actor, role, event_id, now).0),
        keeps_history(b, cancel_spec(b, id, actor, role, event_id, now).0),
        keeps_history(b, update_requirement_spec(b, id, actor, update, event_id, now).0),
        keeps_history(b, create_requirement_spec(b, create, new_id, event_id, now).0),
{
    assert(b.events.is_prefix_of(b.events));
    match req_pos(b, id) {
        Some(i) => {
            lemma_find_first_props(b.requirements, req_with_id(id));
        },
        None => {},
    }
}

} // verus!

verus! {

/// Claimant and status agree: `todo` and `cancelled` cards are unclaimed; `in_progress`,
/// `review` and `done` cards have a claimant.
pub open spec fn claim_matches_status(r: RequirementV) -> bool {
    match r.status {
        Status::Todo | Status::Cancelled => r.claimed_by is None,
        Status::InProgress | Status::Review | Status::Done => r.claimed_by is Some,
    }
}

/// Every stored requirement's claimant agrees with its status.
pub open spec fn claims_consistent(reqs: Seq<RequirementV>) -> bool {
    forall|j: int| 0 <= j < reqs.len() ==> claim_matches_status(#[trigger] reqs[j])
}

/// No two stored requirements share an id.
pub open spec fn ids_unique(reqs: Seq<RequirementV>) -> bool {
    forall|a: int, c: int| 0 <= a < reqs.len() && 0 <= c < reqs.len() && a != c ==> reqs[a].id != reqs[c].id
}

/// Every verb, create and update keep claimants consistent with status: `claimed_by` is set
/// exactly while a card is in progress, in review or done.
pub proof fn law_claims_follow_status(
    b: BoardV,
    id: Seq<char>,
    actor: Seq<char>,
    role: Role,
    pass: bool,
    reason: Option<Seq<char>>,
    summary: Option<Seq<char>>,
    blocked: Option<Seq<char>>,
    update: UpdateInputV,
    create: CreateInputV,
    new_id: Seq<char>,
    event_id: Seq<char>,
    now: Micros,
)
    requires
        claims_consistent(b.requirements),
    ensures
        claims_consistent(claim_spec(b, id, actor, role, event_id, now).0.requirements),
        claims_consistent(
            progress_spec(b, id, actor, role, summary, blocked, event_id, now).0.requirements,
        ),
        claims_consistent(submit_spec(b, id, actor, role, event_id, now).0.requirements),
        claims_consistent(
            review_spec(b, id, actor, role, pass, reason, event_id, now).0.requirements,
        ),
        claims_consistent(release_spec(b, id, actor, role, event_id, now).0.requirements),
        claims_consistent(cancel_spec(b, id, actor, role, event_id, now).0.requirements),
        claims_consistent(
            update_requirement_spec(b, id, actor, update, event_id, now).0.requirements,
        ),
        claims_consistent(create_requirement_spec(b, create, new_id, event_id, now).0.requirements),
{
}

/// Editing a card never moves it: `update` keeps status and claimant of every requirement.
pub proof fn law_update_keeps_status_and_claim(
    b: BoardV,
    id: Seq<char>,
    actor: Seq<char>,
    update: UpdateInputV,
    event_id: Seq<char>,
    now: Micros,
)
    ensures
        ({
            let b2 = update_requirement_spec(b, id, actor, update, event_id, now).0;
            &&& b2.requirements.len() == b.requirements.len()
            &&& forall|j: int|
                0 <= j < b.requirements.len() ==> (#[trigger] b2.requirements[j]).status
                    == b.requirements[j].status && b2.requirements[j].claimed_by
                    == b.requirements[j].claimed_by
        }),
{
}

/// Every card that `list_ready_tasks` offers can be claimed (when ids are unique and claimants
/// agree with status).
pub proof fn law_ready_tasks_are_claimable(
    b: BoardV,
    pid: Option<Seq<char>>,
    k: int,
    actor: Seq<char>,
    role: Role,
    event_id: Seq<char>,
    now: Micros,
)
    requires
        claims_consistent(b.requirements),
        ids_unique(b.requirements),
        0 <= k < b.requirements.filter(ready_in(b, pid)).len(),
    ensures
        claim_spec(b, b.requirements.filter(ready_in(b, pid))[k].id, actor, role, event_id, now).1
            is Ok,
{
    let s = b.requirements;
    let p = ready_in(b, pid);
    let r = s.filter(p)[k];
    lemma_filter_item_from(s, p, k);
    let j = choose|j: int| 0 <= j < s.len() && s[j] == s.filter(p)[k] && p(s[j]);
    assert(first_match(s, req_with_id(r.id), j));
    lemma_find_first_some(s, req_with_id(r.id), j);
    assert(claim_matches_status(s[j]));
}

/// Release undoes claim: after a claim, the claimant's release returns the card to `todo`,
/// unclaimed, with every other field as before the claim (but the update time).
pub proof fn law_release_undoes_claim(
    b: BoardV,
    id: Seq<char>,
    actor: Seq<char>,
    role: Role,
    e1: Seq<char>,
    e2: Seq<char>,
    t1: Micros,
    t2: Micros,
)
    requires
        claim_spec(b, id, actor, role, e1, t1).1 is Ok,
    ensures
        ({
            let b1 = claim_spec(b, id, actor, role, e1, t1).0;
            let (b2, r2) = release_spec(b1, id, actor, role, e2, t2);
            let before = b.requirements[req_pos(b, id)->0];
            &&& r2 is Ok
            &&& r2->Ok_0 == RequirementV { updated_at: t2, ..before }
            &&& b2.requirements == b.requirements.update(req_pos(b, id)->0, r2->Ok_0)
        }),
{
    let i = req_pos(b, id)->0;
    let b1 = claim_spec(b, id, actor, role, e1, t1).0;
    lemma_update_keeps_find(b.requirements, i, b1.requirements[i], id);
    let b2 = release_spec(b1, id, actor, role, e2, t2).0;
    assert(b2.requirements =~= b.requirements.update(i, release_spec(b1, id, actor, role, e2, t2).1->Ok_0));
}

/// A soft-archived project freezes its cards: every verb and update on them fails with the
/// archive error, and creating a card there fails, leaving the store unchanged.
pub proof fn law_archived_project_freezes_cards(
    b: BoardV,
    id: Seq<char>,
    actor: Seq<char>,
    role: Role,
    pass: bool,
    reason: Option<Seq<char>>,
    summary: Option<Seq<char>>,
    blocked: Option<Seq<char>>,
    update: UpdateInputV,
    create: CreateInputV,
    new_id: Seq<char>,
    event_id: Seq<char>,
    now: Micros,
)
    requires
        req_pos(b, id) is Some,
        writable_spec(b, b.requirements[req_pos(b, id)->0].project_id) is Err,
        project_pos(b, b.requirements[req_pos(b, id)->0].project_id) is Some,
        create.project_id == b.requirements[req_pos(b, id)->0].project_id,
        !crate::text::is_blank(create.title),
    ensures
        ({
            let pid = b.requirements[req_pos(b, id)->0].project_id;
            &&& claim_spec(b, id, actor, role, event_id, now) == (b, Err::<RequirementV, VerbErrorV>(VerbErrorV::ProjectArchived(pid)))
            &&& progress_spec(b, id, actor, role, summary, blocked, event_id, now) == (b, Err::<RequirementV, VerbErrorV>(VerbErrorV::ProjectArchived(pid)))
            &&& submit_spec(b, id, actor, role, event_id, now) == (b, Err::<RequirementV, VerbErrorV>(VerbErrorV::ProjectArchived(pid)))
            &&& release_spec(b, id, actor, role, event_id, now) == (b, Err::<RequirementV, VerbErrorV>(VerbErrorV::ProjectArchived(pid)))
            &&& cancel_spec(b, id, actor, role, event_id, now) == (b, Err::<RequirementV, VerbErrorV>(VerbErrorV::ProjectArchived(pid)))
            &&& (pass || !crate::text::is_blank(match reason { Some(x) => x, None => Seq::empty() }))
                ==> review_spec(b, id, actor, role, pass, reason, event_id, now) == (b, Err::<RequirementV, VerbErrorV>(VerbErrorV::ProjectArchived(pid)))
            &&& update_requirement_spec(b, id, actor, update, event_id, now) == (b, Err::<RequirementV, UpdateRequirementErrorV>(UpdateRequirementErrorV::ProjectArchived(pid)))
            &&& create_requirement_spec(b, create, new_id, event_id, now) == (b, Err::<RequirementV, CreateRequirementErrorV>(CreateRequirementErrorV::ProjectArchived(pid)))
        }),
{
}

/// Some stored requirement with id `d` is done.
pub open spec fn stored_done(reqs: Seq<RequirementV>, d: Seq<char>) -> bool {
    exists|j: int| 0 <= j < reqs.len() && (#[trigger] reqs[j]).id == d && reqs[j].status == Status::Done
}

/// A requirement whose dependency `d` is not stored as done fails the dependency test.
proof fn lemma_not_stored_done_blocks(reqs: Seq<RequirementV>, deps_json: Seq<char>, k: int)
    requires
        0 <= k < dependency_ids(deps_json).len(),
        !stored_done(reqs, dependency_ids(deps_json)[k]),
    ensures
        !deps_satisfied(reqs, deps_json),
{
    let d = dependency_ids(deps_json)[k];
    lemma_find_first_props(reqs, req_with_id(d));
    if let Some(i) = find_first(reqs, req_with_id(d)) {
        assert(reqs[i].id == d);
        assert(reqs[i].status != Status::Done);
    }
    assert(!dep_done(reqs, d));
}

/// A satisfied dependency test means every listed dependency is stored as done.
proof fn lemma_satisfied_all_stored_done(reqs: Seq<RequirementV>, deps_json: Seq<char>)
    requires
        deps_satisfied(reqs, deps_json),
    ensures
        forall|k: int|
            0 <= k < dependency_ids(deps_json).len() ==> stored_done(
                reqs,
                #[trigger] dependency_ids(deps_json)[k],
            ),
{
    assert forall|k: int| 0 <= k < dependency_ids(deps_json).len() implies stored_done(
        reqs,
        #[trigger] dependency_ids(deps_json)[k],
    ) by {
        if !stored_done(reqs, dependency_ids(deps_json)[k]) {
            lemma_not_stored_done_blocks(reqs, deps_json, k);
        }
    }
}

/// A claim succeeds only when every dependency listed by the card, at whatever position, is a
/// stored requirement with status done; when some listed dependency is not, the claim is refused
/// with `DependenciesNotMet` and the store is left as it was. The same holds of the ready list:
/// a card is listed as ready only when all its dependencies are done.
pub proof fn law_claim_waits_for_dependencies(
    b: BoardV,
    id: Seq<char>,
    actor: Seq<char>,
    role: Role,
    event_id: Seq<char>,
    now: Micros,
    pid: Option<Seq<char>>,
    r: RequirementV,
)
    ensures
        claim_spec(b, id, actor, role, event_id, now).1 is Ok ==> ({
            let deps = dependency_ids(b.requirements[req_pos(b, id)->0].dependencies_json);
            forall|k: int| 0 <= k < deps.len() ==> stored_done(b.requirements, #[trigger] deps[k])
        }),
        ({
            let deps = dependency_ids(b.requirements[req_pos(b, id)->0].dependencies_json);
            verb_target(b, id) is Ok && exists|k: int|
                0 <= k < deps.len() && !stored_done(b.requirements, #[trigger] deps[k])
        }) ==> claim_spec(b, id, actor, role, event_id, now) == (
            b,
            Err::<RequirementV, VerbErrorV>(VerbErrorV::DependenciesNotMet),
        ),
        ready_in(b, pid)(r) ==> r.status == Status::Todo && forall|k: int|
            0 <= k < dependency_ids(r.dependencies_json).len() ==> stored_done(
                b.requirements,
                #[trigger] dependency_ids(r.dependencies_json)[k],
            ),
{
    if let Ok(i) = verb_target(b, id) {
        lemma_find_first_props(b.requirements, req_with_id(id));
        let dj = b.requirements[i].dependencies_json;
        let deps = dependency_ids(dj);
        if deps_satisfied(b.requirements, dj) {
            lemma_satisfied_all_stored_done(b.requirements, dj);
        }
        if exists|k: int| 0 <= k < deps.len() && !stored_done(b.requirements, #[trigger] deps[k]) {
            let k = choose|k: int| 0 <= k < deps.len() && !stored_done(b.requirements, #[trigger] deps[k]);
            lemma_not_stored_done_blocks(b.requirements, dj, k);
        }
    }
    if ready_in(b, pid)(r) {
        lemma_satisfied_all_stored_done(b.requirements, r.dependencies_json);
    }
}

/// A successful progress report stores and returns the card with the summary given (or the old
/// one when none is given) and the blocked reason given: a non-empty reason is recorded as it
/// is, an empty one clears it, and none keeps the old one. Status and claimant do not change.
pub proof fn law_progress_records_summary_and_blocked_reason(
    b: BoardV,
    id: Seq<char>,
    actor: Seq<char>,
    role: Role,
    summary: Option<Seq<char>>,
    blocked: Option<Seq<char>>,
    event_id: Seq<char>,
    now: Micros,
)
    ensures
        ({
            let out = progress_spec(b, id, actor, role, summary, blocked, event_id, now);
            out.1 matches Ok(nr) ==> ({
                let i = req_pos(b, id)->0;
                let old = b.requirements[i];
                &&& 0 <= i < b.requirements.len()
                &&& out.0.requirements.len() == b.requirements.len()
                &&& out.0.requirements[i] == nr
                &&& nr.id == id
                &&& nr.status == old.status
                &&& nr.claimed_by == old.claimed_by
                &&& (blocked matches Some(s) ==> (s.len() > 0 ==> nr.blocked_reason == Some(s)))
                &&& (blocked matches Some(s) ==> (s.len() == 0 ==> nr.blocked_reason is None))
                &&& (blocked is None ==> nr.blocked_reason == old.blocked_reason)
                &&& (summary matches Some(s) ==> nr.progress_summary == Some(s))
                &&& (summary is None ==> nr.progress_summary == old.progress_summary)
            })
        }),
{
    if let Ok(i) = verb_target(b, id) {
        lemma_find_first_props(b.requirements, req_with_id(id));
    }
}

/// A successful update of a todo card stores and returns, for each editable field (title,
/// description, priority, scope, non-scope, acceptance, dependencies), exactly the value given,
/// and the old value for each field not given; id, project, status and claimant stay.
pub proof fn law_update_sets_given_fields(
    b: BoardV,
    id: Seq<char>,
    actor: Seq<char>,
    input: UpdateInputV,
    event_id: Seq<char>,
    now: Micros,
)
    ensures
        ({
            let out = update_requirement_spec(b, id, actor, input, event_id, now);
            out.1 matches Ok(nr) ==> ({
                let i = req_pos(b, id)->0;
                let old = b.requirements[i];
                &&& 0 <= i < b.requirements.len()
                &&& out.0.requirements.len() == b.requirements.len()
                &&& out.0.requirements[i] == nr
                &&& old.status == Status::Todo
                &&& nr.id == id && nr.project_id == old.project_id
                &&& nr.status == old.status && nr.claimed_by == old.claimed_by
                &&& (input.title matches Some(v) ==> nr.title == v)
                &&& (input.title is None ==> nr.title == old.title)
                &&& (input.description matches Some(v) ==> nr.description == v)
                &&& (input.description is None ==> nr.description == old.description)
                &&& (input.priority matches Some(v) ==> nr.priority == v)
                &&& (input.priority is None ==> nr.priority == old.priority)
                &&& (input.scope_json matches Some(v) ==> nr.scope_json == v)
                &&& (input.scope_json is None ==> nr.scope_json == old.scope_json)
                &&& (input.non_scope_json matches Some(v) ==> nr.non_scope_json == v)
                &&& (input.non_scope_json is None ==> nr.non_scope_json == old.non_scope_json)
                &&& (input.acceptance_json matches Some(v) ==> nr.acceptance_json == v)
                &&& (input.acceptance_json is None ==> nr.acceptance_json == old.acceptance_json)
                &&& (input.dependencies_json matches Some(v) ==> nr.dependencies_json == v)
                &&& (input.dependencies_json is None ==> nr.dependencies_json
                    == old.dependencies_json)
            })
        }),
{
    lemma_find_first_props(b.requirements, req_with_id(id));
}

/// A successful project update stores and returns the project with the name, color and blurb
/// given, and the local path given as normalized; a field not given keeps its old value. The
/// id, archive mark, pair-code hashes and creation time stay.
pub proof fn law_update_project_sets_given_fields(
    b: BoardV,
    id: Seq<char>,
    name: Option<Seq<char>>,
    color: Option<Seq<char>>,
    blurb: Option<Seq<char>>,
    local_path: Option<Seq<char>>,
    now: Micros,
)
    ensures
        ({
            let out = update_project_spec(b, id, name, color, blurb, local_path, now);
            out.1 matches Ok(np) ==> ({
                let i = project_pos(b, id)->0;
                let old = b.projects[i];
                &&& 0 <= i < b.projects.len()
                &&& out.0.projects.len() == b.projects.len()
                &&& out.0.projects[i] == np
                &&& np.id == id
                &&& old.archived_at is None && np.archived_at is None
                &&& np.created_at == old.created_at
                &&& np.discuss_pair_hash == old.discuss_pair_hash
                &&& np.build_pair_hash == old.build_pair_hash
                &&& (name matches Some(v) ==> np.name == v)
                &&& (name is None ==> np.name == old.name)
                &&& (color matches Some(v) ==> np.color == v)
                &&& (color is None ==> np.color == old.color)
                &&& (blurb matches Some(v) ==> np.blurb == v)
                &&& (blurb is None ==> np.blurb == old.blurb)
                &&& (local_path matches Some(v) ==> normalize_spec(v) == Ok::<
                    Seq<char>,
                    ProjectErrorV,
                >(np.local_path))
                &&& (local_path is None ==> np.local_path == old.local_path)
            })
        }),
{
    lemma_find_first_props(b.projects, project_with_id(id));
}

/// The card `nr` is the stored card `old` with only its status, claimant and update time
/// changed.
pub open spec fn moved_only(old: RequirementV, nr: RequirementV) -> bool {
    nr == RequirementV { status: nr.status, claimed_by: nr.claimed_by, updated_at: nr.updated_at, ..old }
}

/// Where each lifecycle verb takes a card when it succeeds: a claim takes an unclaimed todo card
/// to in progress, claimed by the actor; a submit takes an in-progress card to review, keeping
/// the claimant; a release takes an in-progress card back to an unclaimed todo; a cancel takes a
/// card that was not finished to an unclaimed cancelled one. The card's other contents stay, and
/// the stored card is the one returned.
pub proof fn law_lifecycle_verbs_move_card(
    b: BoardV,
    id: Seq<char>,
    actor: Seq<char>,
    role: Role,
    event_id: Seq<char>,
    now: Micros,
)
    ensures
        ({
            let i = req_pos(b, id)->0;
            let old = b.requirements[i];
            let c = claim_spec(b, id, actor, role, event_id, now);
            c.1 matches Ok(nr) ==> ({
                &&& 0 <= i < b.requirements.len() && old.id == id
                &&& c.0.requirements[i] == nr && moved_only(old, nr)
                &&& old.status == Status::Todo && old.claimed_by is None
                &&& nr.status == Status::InProgress && nr.claimed_by == Some(actor)
            })
        }),
        ({
            let i = req_pos(b, id)->0;
            let old = b.requirements[i];
            let c = submit_spec(b, id, actor, role, event_id, now);
            c.1 matches Ok(nr) ==> ({
                &&& 0 <= i < b.requirements.len() && old.id == id
                &&& c.0.requirements[i] == nr && moved_only(old, nr)
                &&& old.status == Status::InProgress
                &&& nr.status == Status::Review && nr.claimed_by == old.claimed_by
            })
        }),
        ({
            let i = req_pos(b, id)->0;
            let old = b.requirements[i];
            let c = release_spec(b, id, actor, role, event_id, now);
            c.1 matches Ok(nr) ==> ({
                &&& 0 <= i < b.requirements.len() && old.id == id
                &&& c.0.requirements[i] == nr && moved_only(old, nr)
                &&& old.status == Status::InProgress
                &&& nr.status == Status::Todo && nr.claimed_by is None
            })
        }),
        ({
            let i = req_pos(b, id)->0;
            let old = b.requirements[i];
            let c = cancel_spec(b, id, actor, role, event_id, now);
            c.1 matches Ok(nr) ==> ({
                &&& 0 <= i < b.requirements.len() && old.id == id
                &&& c.0.requirements[i] == nr && moved_only(old, nr)
                &&& old.status != Status::Done && old.status != Status::Cancelled
                &&& nr.status == Status::Cancelled && nr.claimed_by is None
            })
        }),
{
    lemma_find_first_props(b.requirements, req_with_id(id));
}

/// A successful creation adds one card at the end of the store, carrying exactly the texts of
/// the input (project, title, description, priority, scope, non-scope, acceptance,
/// dependencies, author) under an id no stored card had, as an unclaimed todo with no progress
/// or blocked reason.
pub proof fn law_create_keeps_input(
    b: BoardV,
    input: CreateInputV,
    id: Seq<char>,
    event_id: Seq<char>,
    now: Micros,
)
    ensures
        ({
            let out = create_requirement_spec(b, input, id, event_id, now);
            out.1 matches Ok(r) ==> ({
                &&& out.0.requirements == b.requirements.push(r)
                &&& forall|j: int| 0 <= j < b.requirements.len() ==> (#[trigger] b.requirements[j]).id != id
                &&& r.id == id
                &&& r.project_id == input.project_id && writable_spec(b, input.project_id) is Ok
                &&& r.title == input.title && !crate::text::is_blank(input.title)
                &&& r.description == input.description
                &&& r.priority == input.priority
                &&& r.scope_json == input.scope_json
                &&& r.non_scope_json == input.non_scope_json
                &&& r.acceptance_json == input.acceptance_json
                &&& r.dependencies_json == input.dependencies_json
                &&& r.created_by == input.created_by
                &&& r.status == Status::Todo && r.claimed_by is None
                &&& r.progress_summary is None && r.blocked_reason is None
            })
        }),
{
    lemma_find_first_props(b.requirements, req_with_id(id));
    if exists|j: int| 0 <= j < b.requirements.len() && (#[trigger] b.requirements[j]).id == id {
        let j = choose|j: int| 0 <= j < b.requirements.len() && (#[trigger] b.requirements[j]).id == id;
        assert(req_with_id(id)(b.requirements[j]));
    }
}

} // verus!
