//! What each MCP tool does with the store. Every tool acts as the session's actor and stays
//! inside the project the session is pinned to; a failure comes back as a message.

use vstd::prelude::*;
use vstd::string::*;

use crate::domain::models::{CreateRequirementInput, Micros, Requirement, RequirementV};
use crate::outside::uuid_shape;
use crate::domain::state::{status_name, Status};
use crate::mcp::util::{assert_req_in_scope, bound_project_id, bound_spec, effective_project_id, effective_spec, scope_spec};
use crate::mcp::{McpSession, McpSessionV};
use crate::services::board::{Board, BoardV};
use crate::services::requirements::{
    cancel_requirement, cancel_spec, claim_spec, claim_task, create_error_text, create_requirement,
    create_requirement_spec, get_requirement, in_project, list_ready_tasks,
    list_requirements_for_project_filtered, progress_spec, ready_in, reqs_oldest_first, release_spec, release_task,
    report_progress, req_pos, submit_for_review, submit_spec, update_error_text,
    update_input_v, update_requirement, update_requirement_spec, verb_error_text, verb_result_v,
    update_result_v, create_result_v, create_input_v, CreateRequirementError, UpdateRequirementError,
    VerbError,
    CreateInputV, CreateRequirementErrorV, UpdateRequirementErrorV, UpdateRequirementInput,
    VerbErrorV,
};
use crate::text::owned;

verus! {

/// A tool answer over plain values.
pub open spec fn tool_result_v(r: Result<Requirement, String>) -> Result<RequirementV, Seq<char>> {
    match r {
        Ok(x) => Ok(x.deep_view()),
        Err(m) => Err(m@),
    }
}

/// A verb outcome as a tool answer.
pub open spec fn verb_answer(r: Result<RequirementV, VerbErrorV>) -> Result<RequirementV, Seq<char>> {
    match r {
        Ok(x) => Ok(x),
        Err(e) => Err(verb_error_text(e)),
    }
}

/// Requirement `id` must exist and lie in the session's pinned project.
pub open spec fn in_scope_spec(s: McpSessionV, b: BoardV, id: Seq<char>) -> Result<(), Seq<char>> {
    match req_pos(b, id) {
        None => Err("requirement not found: "@ + id),
        Some(i) => scope_spec(s, b.requirements[i]),
    }
}

/// "requirement not found: {id}"
fn not_found(id: &str) -> (r: String)
    ensures
        r@ == "requirement not found: "@ + id@,
{
    let mut m = String::from_str("requirement not found: ");
    m.append(id);
    m
}

/// Check that requirement `id` exists and lies in the session's pinned project.
pub fn require_in_scope(session: &McpSession, board: &Board, id: &str) -> (r: Result<(), String>)
    ensures
        match r {
            Ok(()) => in_scope_spec(session@, board@, id@) == Ok::<(), Seq<char>>(()),
            Err(m) => in_scope_spec(session@, board@, id@) == Err::<(), Seq<char>>(m@),
        },
{
    match get_requirement(board, id) {
        Some(r) => assert_req_in_scope(session, &r),
        None => Err(not_found(id)),
    }
}

/// `get_requirement`: the requirement, when it exists and lies in the pinned project.
pub open spec fn get_tool_spec(s: McpSessionV, b: BoardV, id: Seq<char>) -> Result<RequirementV, Seq<char>> {
    match req_pos(b, id) {
        None => Err("requirement not found: "@ + id),
        Some(i) => match scope_spec(s, b.requirements[i]) {
            Err(m) => Err(m),
            Ok(()) => Ok(b.requirements[i]),
        },
    }
}

/// `get_requirement` tool.
pub fn tool_get_requirement(session: &McpSession, board: &Board, id: &str) -> (r: Result<Requirement, String>)
    ensures
        tool_result_v(r) == get_tool_spec(session@, board@, id@),
{
    match get_requirement(board, id) {
        Some(r) => match assert_req_in_scope(session, &r) {
            Ok(()) => Ok(r),
            Err(m) => Err(m),
        },
        None => Err(not_found(id)),
    }
}

/// A verb outcome as a tool answer.
fn verb_to_tool(res: Result<Requirement, VerbError>) -> (r: Result<Requirement, String>)
    ensures
        tool_result_v(r) == verb_answer(verb_result_v(res)),
{
    match res {
        Ok(x) => Ok(x),
        Err(e) => Err(e.message()),
    }
}

/// `claim_task` tool.
pub fn tool_claim(session: &McpSession, board: &mut Board, id: &str) -> (r: Result<Requirement, String>)
    ensures
        match in_scope_spec(session@, old(board)@, id@) {
            Err(m) => tool_result_v(r) == Err::<RequirementV, Seq<char>>(m) && final(board)@ == old(board)@,
            Ok(()) => exists|event_id: Seq<char>, now: Micros|
                (final(board)@, tool_result_v(r)) == ({
                    let out = #[trigger] claim_spec(old(board)@, id@, session@.auth.name, session@.auth.role, event_id, now);
                    (out.0, verb_answer(out.1))
                }),
        },
{
    require_in_scope(session, board, id)?;
    let ghost old_b = board@;
    let res = claim_task(board, id, session.auth.name.as_str(), session.auth.role);
    proof {
        let (ev, now) = choose|ev: Seq<char>, now: Micros|
            uuid_shape(ev) && (board@, verb_result_v(res)) == #[trigger] claim_spec(old_b, id@, session@.auth.name, session@.auth.role, ev, now);
    }
    verb_to_tool(res)
}

/// `report_progress` tool.
pub fn tool_progress(
    session: &McpSession,
    board: &mut Board,
    id: &str,
    summary: &str,
    blocked_reason: Option<&str>,
) -> (r: Result<Requirement, String>)
    ensures
        match in_scope_spec(session@, old(board)@, id@) {
            Err(m) => tool_result_v(r) == Err::<RequirementV, Seq<char>>(m) && final(board)@ == old(board)@,
            Ok(()) => exists|event_id: Seq<char>, now: Micros|
                (final(board)@, tool_result_v(r)) == ({
                    let out = #[trigger] progress_spec(
                        old(board)@,
                        id@,
                        session@.auth.name,
                        session@.auth.role,
                        Some(summary@),
                        blocked_reason.deep_view(),
                        event_id,
                        now,
                    );
                    (out.0, verb_answer(out.1))
                }),
        },
{
    require_in_scope(session, board, id)?;
    let ghost old_b = board@;
    let res = report_progress(board, id, session.auth.name.as_str(), session.auth.role, Some(summary), blocked_reason);
    proof {
        let (ev, now) = choose|ev: Seq<char>, now: Micros|
            uuid_shape(ev) && (board@, verb_result_v(res)) == #[trigger] progress_spec(old_b, id@, session@.auth.name, session@.auth.role, Some(summary@), blocked_reason.deep_view(), ev, now);
    }
    verb_to_tool(res)
}

/// `submit_for_review` tool.
pub fn tool_submit(session: &McpSession, board: &mut Board, id: &str) -> (r: Result<Requirement, String>)
    ensures
        match in_scope_spec(session@, old(board)@, id@) {
            Err(m) => tool_result_v(r) == Err::<RequirementV, Seq<char>>(m) && final(board)@ == old(board)@,
            Ok(()) => exists|event_id: Seq<char>, now: Micros|
                (final(board)@, tool_result_v(r)) == ({
                    let out = #[trigger] submit_spec(old(board)@, id@, session@.auth.name, session@.auth.role, event_id, now);
                    (out.0, verb_answer(out.1))
                }),
        },
{
    require_in_scope(session, board, id)?;
    let ghost old_b = board@;
    let res = submit_for_review(board, id, session.auth.name.as_str(), session.auth.role);
    proof {
        let (ev, now) = choose|ev: Seq<char>, now: Micros|
            uuid_shape(ev) && (board@, verb_result_v(res)) == #[trigger] submit_spec(old_b, id@, session@.auth.name, session@.auth.role, ev, now);
    }
    verb_to_tool(res)
}

/// `release_task` tool.
pub fn tool_release(session: &McpSession, board: &mut Board, id: &str) -> (r: Result<Requirement, String>)
    ensures
        match in_scope_spec(session@, old(board)@, id@) {
            Err(m) => tool_result_v(r) == Err::<RequirementV, Seq<char>>(m) && final(board)@ == old(board)@,
            Ok(()) => exists|event_id: Seq<char>, now: Micros|
                (final(board)@, tool_result_v(r)) == ({
                    let out = #[trigger] release_spec(old(board)@, id@, session@.auth.name, session@.auth.role, event_id, now);
                    (out.0, verb_answer(out.1))
                }),
        },
{
    require_in_scope(session, board, id)?;
    let ghost old_b = board@;
    let res = release_task(board, id, session.auth.name.as_str(), session.auth.role);
    proof {
        let (ev, now) = choose|ev: Seq<char>, now: Micros|
            uuid_shape(ev) && (board@, verb_result_v(res)) == #[trigger] release_spec(old_b, id@, session@.auth.name, session@.auth.role, ev, now);
    }
    verb_to_tool(res)
}

/// `cancel_requirement` tool.
pub fn tool_cancel(session: &McpSession, board: &mut Board, id: &str) -> (r: Result<Requirement, String>)
    ensures
        match in_scope_spec(session@, old(board)@, id@) {
            Err(m) => tool_result_v(r) == Err::<RequirementV, Seq<char>>(m) && final(board)@ == old(board)@,
            Ok(()) => exists|event_id: Seq<char>, now: Micros|
                (final(board)@, tool_result_v(r)) == ({
                    let out = #[trigger] cancel_spec(old(board)@, id@, session@.auth.name, session@.auth.role, event_id, now);
                    (out.0, verb_answer(out.1))
                }),
        },
{
    require_in_scope(session, board, id)?;
    let ghost old_b = board@;
    let res = cancel_requirement(board, id, session.auth.name.as_str(), session.auth.role);
    proof {
        let (ev, now) = choose|ev: Seq<char>, now: Micros|
            uuid_shape(ev) && (board@, verb_result_v(res)) == #[trigger] cancel_spec(old_b, id@, session@.auth.name, session@.auth.role, ev, now);
    }
    verb_to_tool(res)
}

/// An update outcome as a tool answer.
pub open spec fn update_answer(r: Result<RequirementV, UpdateRequirementErrorV>) -> Result<RequirementV, Seq<char>> {
    match r {
        Ok(x) => Ok(x),
        Err(e) => Err(update_error_text(e)),
    }
}

/// `update_requirement` tool.
pub fn tool_update(
    session: &McpSession,
    board: &mut Board,
    id: &str,
    input: UpdateRequirementInput,
) -> (r: Result<Requirement, String>)
    ensures
        match in_scope_spec(session@, old(board)@, id@) {
            Err(m) => tool_result_v(r) == Err::<RequirementV, Seq<char>>(m) && final(board)@ == old(board)@,
            Ok(()) => exists|event_id: Seq<char>, now: Micros|
                (final(board)@, tool_result_v(r)) == ({
                    let out = #[trigger] update_requirement_spec(
                        old(board)@,
                        id@,
                        session@.auth.name,
                        update_input_v(input),
                        event_id,
                        now,
                    );
                    (out.0, update_answer(out.1))
                }),
        },
{
    require_in_scope(session, board, id)?;
    let ghost old_b = board@;
    let ghost iv = update_input_v(input);
    let res = update_requirement(board, id, session.auth.name.as_str(), input);
    proof {
        let (ev, now) = choose|ev: Seq<char>, now: Micros|
            uuid_shape(ev) && (board@, update_result_v(res)) == #[trigger] update_requirement_spec(
                old_b, id@, session@.auth.name, iv, ev, now);
    }
    match res {
        Ok(r) => Ok(r),
        Err(e) => Err(e.message()),
    }
}

/// A creation outcome as a tool answer.
pub open spec fn create_answer(r: Result<RequirementV, CreateRequirementErrorV>) -> Result<RequirementV, Seq<char>> {
    match r {
        Ok(x) => Ok(x),
        Err(e) => Err(create_error_text(e)),
    }
}

/// What `create_requirement` asks the store for: the pinned (or named) project, a blank
/// description and `medium` priority when not given, no non-scope, by the session's actor.
pub open spec fn create_tool_input(
    s: McpSessionV,
    project_id: Seq<char>,
    title: Seq<char>,
    description: Option<Seq<char>>,
    priority: Option<Seq<char>>,
    scope_json: Seq<char>,
    acceptance_json: Seq<char>,
    dependencies_json: Seq<char>,
) -> CreateInputV {
    CreateInputV {
        project_id: project_id,
        title: title,
        description: match description {
            Some(d) => d,
            None => Seq::empty(),
        },
        priority: match priority {
            Some(p) => p,
            None => "medium"@,
        },
        scope_json: scope_json,
        non_scope_json: "[]"@,
        acceptance_json: acceptance_json,
        dependencies_json: dependencies_json,
        created_by: s.auth.name,
    }
}

/// `create_requirement`: a requirement in the pinned (or named) project, created with ids
/// `id`, `event_id` at `now`.
pub open spec fn create_tool_spec(
    s: McpSessionV,
    b: BoardV,
    project_id: Option<Seq<char>>,
    title: Seq<char>,
    description: Option<Seq<char>>,
    priority: Option<Seq<char>>,
    scope_json: Seq<char>,
    acceptance_json: Seq<char>,
    dependencies_json: Seq<char>,
    id: Seq<char>,
    event_id: Seq<char>,
    now: Micros,
) -> (BoardV, Result<RequirementV, Seq<char>>) {
    match effective_spec(s, project_id) {
        Err(m) => (b, Err(m)),
        Ok(pid) => {
            let out = create_requirement_spec(
                b,
                create_tool_input(
                    s,
                    pid,
                    title,
                    description,
                    priority,
                    scope_json,
                    acceptance_json,
                    dependencies_json,
                ),
                id,
                event_id,
                now,
            );
            (out.0, create_answer(out.1))
        },
    }
}

/// `create_requirement` tool; the JSON texts are arrays already.
pub fn tool_create_requirement(
    session: &McpSession,
    board: &mut Board,
    project_id: Option<&str>,
    title: &str,
    description: Option<&str>,
    priority: Option<&str>,
    scope_json: &str,
    acceptance_json: &str,
    dependencies_json: &str,
) -> (r: Result<Requirement, String>)
    ensures
        exists|id: Seq<char>, event_id: Seq<char>, now: Micros|
            (final(board)@, tool_result_v(r)) == #[trigger] create_tool_spec(
                session@,
                old(board)@,
                project_id.deep_view(),
                title@,
                description.deep_view(),
                priority.deep_view(),
                scope_json@,
                acceptance_json@,
                dependencies_json@,
                id,
                event_id,
                now,
            ),
{
    let pid = match effective_project_id(session, project_id) {
        Ok(pid) => pid,
        Err(m) => {
            proof {
                assert((board@, tool_result_v(Err(m))) == create_tool_spec(
                    session@,
                    old(board)@,
                    project_id.deep_view(),
                    title@,
                    description.deep_view(),
                    priority.deep_view(),
                    scope_json@,
                    acceptance_json@,
                    dependencies_json@,
                    Seq::empty(),
                    Seq::empty(),
                    0,
                ));
            }
            return Err(m);
        },
    };
    let input = CreateRequirementInput {
        project_id: pid,
        title: owned(title),
        description: match description {
            Some(d) => owned(d),
            None => String::new(),
        },
        priority: match priority {
            Some(p) => owned(p),
            None => String::from_str("medium"),
        },
        scope_json: owned(scope_json),
        non_scope_json: String::from_str("[]"),
        acceptance_json: owned(acceptance_json),
        dependencies_json: owned(dependencies_json),
        created_by: session.auth.name.clone(),
    };
    let ghost old_b = board@;
    let ghost iv = create_input_v(input);
    let res = create_requirement(board, input);
    let out = match res {
        Ok(r) => Ok(r),
        Err(e) => Err(e.message()),
    };
    proof {
        let (rid, ev, now) = choose|rid: Seq<char>, ev: Seq<char>, now: Micros|
            uuid_shape(rid) && uuid_shape(ev) && (board@, create_result_v(res))
                == #[trigger] create_requirement_spec(old_b, iv, rid, ev, now);
        reveal_strlit("medium");
        reveal_strlit("[]");
        let want = create_tool_input(
            session@,
            iv.project_id,
            title@,
            description.deep_view(),
            priority.deep_view(),
            scope_json@,
            acceptance_json@,
            dependencies_json@,
        );
        assert(iv.description == want.description);
        assert(iv.priority == want.priority);
        assert(iv.non_scope_json == want.non_scope_json);
        assert(iv == want);
        assert((board@, tool_result_v(out)) == create_tool_spec(
            session@,
            old(board)@,
            project_id.deep_view(),
            title@,
            description.deep_view(),
            priority.deep_view(),
            scope_json@,
            acceptance_json@,
            dependencies_json@,
            rid,
            ev,
            now,
        ));
    }
    out
}

/// A status filter text read as a status.
pub open spec fn status_of(s: Seq<char>) -> Option<Status> {
    if exists|st: Status| status_name(st) == s {
        Some(choose|st: Status| status_name(st) == s)
    } else {
        None
    }
}

/// Distinct statuses have distinct names.
proof fn lemma_status_name_injective(a: Status, b: Status)
    requires
        status_name(a) == status_name(b),
    ensures
        a == b,
{
    reveal_strlit("todo");
    reveal_strlit("in_progress");
    reveal_strlit("review");
    reveal_strlit("done");
    reveal_strlit("cancelled");
    assert("todo"@.len() == 4 && "todo"@[0] == 't');
    assert("done"@.len() == 4 && "done"@[0] == 'd');
    assert("in_progress"@.len() == 11);
    assert("review"@.len() == 6);
    assert("cancelled"@.len() == 9);
}

/// `list_requirements`: the project's requirements, optionally of one status (listed oldest
/// first by the tool).
pub open spec fn list_tool_spec(
    s: McpSessionV,
    b: BoardV,
    project_id: Option<Seq<char>>,
    status: Option<Seq<char>>,
) -> Result<Seq<RequirementV>, Seq<char>> {
    match effective_spec(s, project_id) {
        Err(m) => Err(m),
        Ok(pid) => match status {
            None => Ok(b.requirements.filter(in_project(pid, None))),
            Some(t) => match status_of(t) {
                None => Err("invalid status '"@ + t + "' (use todo|in_progress|review|done|cancelled)"@),
                Some(st) => Ok(b.requirements.filter(in_project(pid, Some(st)))),
            },
        },
    }
}

/// `list_requirements` tool.
pub fn tool_list_requirements(
    session: &McpSession,
    board: &Board,
    project_id: Option<&str>,
    status: Option<&str>,
) -> (r: Result<Vec<Requirement>, String>)
    ensures
        match r {
            Ok(v) => list_tool_spec(session@, board@, project_id.deep_view(), status.deep_view()) matches Ok(
                src,
            ) && reqs_oldest_first(v.deep_view(), src),
            Err(m) => list_tool_spec(session@, board@, project_id.deep_view(), status.deep_view())
                == Err::<Seq<RequirementV>, Seq<char>>(m@),
        },
{
    let pid = effective_project_id(session, project_id)?;
    let st = match status {
        None => None,
        Some(s) => match Status::parse(s) {
            Some(st) => {
                proof {
                    let c = choose|x: Status| status_name(x) == s@;
                    lemma_status_name_injective(c, st);
                }
                Some(st)
            },
            None => {
                let mut m = String::from_str("invalid status '");
                m.append(s);
                m.append("' (use todo|in_progress|review|done|cancelled)");
                return Err(m);
            },
        },
    };
    Ok(list_requirements_for_project_filtered(board, pid.as_str(), st))
}

/// The project filter of `list_ready_tasks`: the pinned project, else the one asked for.
pub open spec fn ready_filter(s: McpSessionV, project_id: Option<Seq<char>>) -> Option<Seq<char>> {
    match bound_spec(s) {
        Some(id) => Some(id),
        None => project_id,
    }
}

/// `list_ready_tasks` tool.
pub fn tool_list_ready(session: &McpSession, board: &Board, project_id: Option<&str>) -> (r: Vec<Requirement>)
    ensures
        reqs_oldest_first(
            r.deep_view(),
            board@.requirements.filter(ready_in(board@, ready_filter(session@, project_id.deep_view()))),
        ),
{
    let filter: Option<&str> = match bound_project_id(session) {
        Some(id) => Some(id),
        None => project_id,
    };
    list_ready_tasks(board, filter)
}

/// A process pinned to a project acts in that project alone: whatever project a tool names,
/// the pinned one is used, and a requirement of another project is refused (so no verb tool
/// changes it).
pub proof fn law_pinned_session_stays_in_project(
    s: McpSessionV,
    b: BoardV,
    requested: Option<Seq<char>>,
    id: Seq<char>,
)
    requires
        s.binding is Some,
    ensures
        effective_spec(s, requested) == Ok::<Seq<char>, Seq<char>>(s.binding->0.project_id),
        ready_filter(s, requested) == Some(s.binding->0.project_id),
        req_pos(b, id) matches Some(i) && b.requirements[i].project_id != s.binding->0.project_id
            ==> in_scope_spec(s, b, id) is Err && get_tool_spec(s, b, id) is Err,
{
}

/// A requirement made by the `create_requirement` tool carries exactly the texts it was given:
/// its dependencies, scope and acceptance texts and its title are the tool's arguments, its
/// description and priority are the ones given (blank and `medium` when not given), it lies in
/// the project the session acts on, and it is added to the store as a new, unclaimed todo card.
pub proof fn law_created_card_keeps_tool_arguments(
    s: McpSessionV,
    b: BoardV,
    project_id: Option<Seq<char>>,
    title: Seq<char>,
    description: Option<Seq<char>>,
    priority: Option<Seq<char>>,
    scope_json: Seq<char>,
    acceptance_json: Seq<char>,
    dependencies_json: Seq<char>,
    id: Seq<char>,
    event_id: Seq<char>,
    now: Micros,
)
    ensures
        ({
            let out = create_tool_spec(
                s,
                b,
                project_id,
                title,
                description,
                priority,
                scope_json,
                acceptance_json,
                dependencies_json,
                id,
                event_id,
                now,
            );
            out.1 matches Ok(r) ==> ({
                &&& r.dependencies_json == dependencies_json
                &&& r.scope_json == scope_json
                &&& r.acceptance_json == acceptance_json
                &&& r.non_scope_json == "[]"@
                &&& r.title == title
                &&& (description matches Some(d) ==> r.description == d)
                &&& (description is None ==> r.description == Seq::<char>::empty())
                &&& (priority matches Some(p) ==> r.priority == p)
                &&& (priority is None ==> r.priority == "medium"@)
                &&& effective_spec(s, project_id) == Ok::<Seq<char>, Seq<char>>(r.project_id)
                &&& r.created_by == s.auth.name
                &&& r.status == Status::Todo
                &&& r.claimed_by is None
                &&& out.0.requirements == b.requirements.push(r)
            })
        }),
{
}

} // verus!
