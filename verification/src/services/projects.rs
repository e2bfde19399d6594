//! Projects: create, validate, archive, list.

use vstd::prelude::*;
use vstd::string::*;
use vstd::utf8::encode_utf8;

use crate::domain::models::{AgentSeat, Micros, Project, ProjectV};
use crate::services::board::{
    find_first, find_project, lemma_dv_insert, lemma_dv_push, lemma_dv_update,
    lemma_filter_take_all, lemma_filter_take_step, lemma_filter_take_zero, lemma_find_first_same,
    project_with_id, Board, BoardV,
};
use crate::text::{
    ascii_alnum, has_substr, is_ascii_alnum, is_blank, lemma_seq_le_total, lemma_seq_le_trans,
    seq_le, str_contains, str_le, str_trim, trim,
};

verus! {

#[derive(Debug)]
pub enum ProjectError {
    NotFound(String),
    EmptyName,
    AlreadyExists(String),
    InvalidLocalPath(String),
    Archived(String),
    InvalidId(String),
}

pub enum ProjectErrorV {
    NotFound(Seq<char>),
    EmptyName,
    AlreadyExists(Seq<char>),
    InvalidLocalPath(Seq<char>),
    Archived(Seq<char>),
    InvalidId(Seq<char>),
}

impl View for ProjectError {
    type V = ProjectErrorV;

    open spec fn view(&self) -> ProjectErrorV {
        match self {
            ProjectError::NotFound(s) => ProjectErrorV::NotFound(s@),
            ProjectError::EmptyName => ProjectErrorV::EmptyName,
            ProjectError::AlreadyExists(s) => ProjectErrorV::AlreadyExists(s@),
            ProjectError::InvalidLocalPath(s) => ProjectErrorV::InvalidLocalPath(s@),
            ProjectError::Archived(s) => ProjectErrorV::Archived(s@),
            ProjectError::InvalidId(s) => ProjectErrorV::InvalidId(s@),
        }
    }
}

/// Text of a project error.
pub open spec fn project_error_text(e: ProjectErrorV) -> Seq<char> {
    match e {
        ProjectErrorV::NotFound(id) => "project not found: "@ + id,
        ProjectErrorV::EmptyName => "name must not be empty"@,
        ProjectErrorV::AlreadyExists(id) => "project already exists: "@ + id,
        ProjectErrorV::InvalidLocalPath(m) => "invalid local_path: "@ + m,
        ProjectErrorV::Archived(id) => "project is archived: "@ + id,
        ProjectErrorV::InvalidId(m) => "invalid project id: "@ + m,
    }
}

impl ProjectError {
    /// Human-readable message.
    pub fn message(&self) -> (r: String)
        ensures
            r@ == project_error_text(self@),
    {
        let (prefix, tail): (&str, &str) = match self {
            ProjectError::NotFound(id) => ("project not found: ", id.as_str()),
            ProjectError::EmptyName => ("name must not be empty", ""),
            ProjectError::AlreadyExists(id) => ("project already exists: ", id.as_str()),
            ProjectError::InvalidLocalPath(m) => ("invalid local_path: ", m.as_str()),
            ProjectError::Archived(id) => ("project is archived: ", id.as_str()),
            ProjectError::InvalidId(m) => ("invalid project id: ", m.as_str()),
        };
        let mut out = String::from_str(prefix);
        out.append(tail);
        proof {
            reveal_strlit("");
            assert("name must not be empty"@ + ""@ =~= "name must not be empty"@);
        }
        out
    }
}

/// A project outcome over plain values.
pub open spec fn project_result_v(r: Result<Project, ProjectError>) -> Result<ProjectV, ProjectErrorV> {
    match r {
        Ok(p) => Ok(p.deep_view()),
        Err(e) => Err(e@),
    }
}

/// Stored form of a local folder path: trimmed; blank means unbound; null bytes are refused.
pub open spec fn normalize_spec(raw: Seq<char>) -> Result<Seq<char>, ProjectErrorV> {
    let t = trim(raw);
    if t.len() == 0 {
        Ok(Seq::empty())
    } else if has_substr(t, "\0"@) {
        Err(ProjectErrorV::InvalidLocalPath("path must not contain null bytes"@))
    } else {
        Ok(t)
    }
}

/// Characters allowed after the first one of a project id.
pub open spec fn id_tail_char(c: char) -> bool {
    is_ascii_alnum(c) || c == '_' || c == '-'
}

/// Project id rule: the id as given is a slug `[A-Za-z0-9][A-Za-z0-9_-]{0,63}`; `Err` carries
/// the reason.
pub open spec fn validate_id_spec(id: Seq<char>) -> Result<(), Seq<char>> {
    let t = id;
    if t.len() == 0 {
        Err("id must not be empty"@)
    } else if encode_utf8(t).len() > 64 {
        Err("id must be at most 64 characters"@)
    } else if !is_ascii_alnum(t[0]) {
        Err("id must start with a letter or digit"@)
    } else if !(forall|k: int| 1 <= k < t.len() ==> id_tail_char(#[trigger] t[k])) {
        Err("id may only contain letters, digits, '_' and '-'"@)
    } else {
        Ok(())
    }
}

/// Normalize and validate an optional local folder path for storage.
///
/// - Trim whitespace; empty after trim → `""` (unbound).
/// - Reject null bytes.
/// - Path need not exist (user may bind before creating the folder).
pub fn normalize_local_path(raw: &str) -> (r: Result<String, ProjectError>)
    ensures
        match r {
            Ok(s) => normalize_spec(raw@) == Ok::<Seq<char>, ProjectErrorV>(s@),
            Err(e) => normalize_spec(raw@) == Err::<Seq<char>, ProjectErrorV>(e@),
        },
{
    let trimmed = str_trim(raw);
    if trimmed.is_empty() {
        return Ok(String::new());
    }
    if str_contains(trimmed, "\0") {
        return Err(ProjectError::InvalidLocalPath(String::from_str("path must not contain null bytes")));
    }
    Ok(String::from_str(trimmed))
}

/// Stable project ids: slug `[A-Za-z0-9][A-Za-z0-9_-]{0,63}` (covers seed ids and UUIDs).
pub fn validate_project_id(id: &str) -> (r: Result<(), ProjectError>)
    ensures
        match validate_id_spec(id@) {
            Ok(()) => r is Ok,
            Err(m) => r matches Err(e) && e@ == ProjectErrorV::InvalidId(m),
        },
{
    let t = id;
    if t.is_empty() {
        return Err(ProjectError::InvalidId(String::from_str("id must not be empty")));
    }
    if t.as_bytes().len() > 64 {
        return Err(ProjectError::InvalidId(String::from_str("id must be at most 64 characters")));
    }
    let first = t.get_char(0);
    if !ascii_alnum(first) {
        return Err(
            ProjectError::InvalidId(String::from_str("id must start with a letter or digit")),
        );
    }
    let n = t.unicode_len();
    let mut k: usize = 1;
    while k < n
        invariant
            n == t@.len(),
            t@ == id@,
            encode_utf8(t@).len() <= 64,
            is_ascii_alnum(t@[0]),
            1 <= k <= n,
            forall|j: int| 1 <= j < k ==> id_tail_char(#[trigger] t@[j]),
        decreases n - k,
    {
        let c = t.get_char(k);
        if !(ascii_alnum(c) || c == '_' || c == '-') {
            assert(!id_tail_char(t@[k as int]));
            return Err(
                ProjectError::InvalidId(
                    String::from_str("id may only contain letters, digits, '_' and '-'"),
                ),
            );
        }
        k += 1;
    }
    Ok(())
}

} // verus!

verus! {

/// Position of the project `id` in the store.
pub open spec fn project_pos(b: BoardV, id: Seq<char>) -> Option<int> {
    find_first(b.projects, project_with_id(id))
}

/// The project `id` if it exists and is not archived.
pub open spec fn writable_spec(b: BoardV, id: Seq<char>) -> Result<ProjectV, ProjectErrorV> {
    match project_pos(b, id) {
        None => Err(ProjectErrorV::NotFound(id)),
        Some(i) => if b.projects[i].archived_at is Some {
            Err(ProjectErrorV::Archived(id))
        } else {
            Ok(b.projects[i])
        },
    }
}

/// `b` with the project at `i` replaced by `p`.
pub open spec fn with_project(b: BoardV, i: int, p: ProjectV) -> BoardV {
    BoardV { projects: b.projects.update(i, p), ..b }
}

/// Project lookups depend on the ids alone, position by position.
pub proof fn lemma_same_ids_same_pos(a: BoardV, b: BoardV, id: Seq<char>)
    requires
        a.projects.len() == b.projects.len(),
        forall|j: int| 0 <= j < a.projects.len() ==> (#[trigger] a.projects[j]).id == b.projects[j].id,
    ensures
        project_pos(a, id) == project_pos(b, id),
{
    let p = project_with_id(id);
    assert forall|j: int| 0 <= j < a.projects.len() implies p(#[trigger] a.projects[j]) == p(
        b.projects[j],
    ) by {}
    lemma_find_first_same(a.projects, b.projects, p, p);
}

/// Replacing a project by one with the same id does not move any project lookup.
pub proof fn lemma_with_project_keeps_pos(b: BoardV, i: int, np: ProjectV, id: Seq<char>)
    requires
        0 <= i < b.projects.len(),
        np.id == b.projects[i].id,
    ensures
        project_pos(with_project(b, i, np), id) == project_pos(b, id),
{
    lemma_same_ids_same_pos(with_project(b, i, np), b, id);
}

/// Creating a project with a given id at time `now`.
pub open spec fn create_project_spec(
    b: BoardV,
    id: Seq<char>,
    name: Seq<char>,
    color: Seq<char>,
    blurb: Seq<char>,
    local_path: Seq<char>,
    now: Micros,
) -> (BoardV, Result<ProjectV, ProjectErrorV>) {
    if is_blank(name) {
        (b, Err(ProjectErrorV::EmptyName))
    } else {
        match validate_id_spec(id) {
            Err(m) => (b, Err(ProjectErrorV::InvalidId(m))),
            Ok(()) => match normalize_spec(local_path) {
                Err(e) => (b, Err(e)),
                Ok(lp) => if project_pos(b, id) is Some {
                    (b, Err(ProjectErrorV::AlreadyExists(id)))
                } else {
                    let p = ProjectV {
                        id: id,
                        name: name,
                        color: color,
                        blurb: blurb,
                        local_path: lp,
                        archived_at: None,
                        discuss_agent_at: None,
                        build_agent_at: None,
                        created_at: now,
                        updated_at: now,
                        discuss_pair_hash: None,
                        build_pair_hash: None,
                    };
                    (BoardV { projects: b.projects.push(p), ..b }, Ok(p))
                },
            },
        }
    }
}

/// Partial metadata update of a writable project at time `now`.
pub open spec fn update_project_spec(
    b: BoardV,
    id: Seq<char>,
    name: Option<Seq<char>>,
    color: Option<Seq<char>>,
    blurb: Option<Seq<char>>,
    local_path: Option<Seq<char>>,
    now: Micros,
) -> (BoardV, Result<ProjectV, ProjectErrorV>) {
    match writable_spec(b, id) {
        Err(e) => (b, Err(e)),
        Ok(p) => if name matches Some(n) && is_blank(n) {
            (b, Err(ProjectErrorV::EmptyName))
        } else {
            let lp = match local_path {
                Some(raw) => normalize_spec(raw),
                None => Ok(p.local_path),
            };
            match lp {
                Err(e) => (b, Err(e)),
                Ok(lp) => {
                    let np = ProjectV {
                        name: match name {
                            Some(n) => n,
                            None => p.name,
                        },
                        color: match color {
                            Some(c) => c,
                            None => p.color,
                        },
                        blurb: match blurb {
                            Some(x) => x,
                            None => p.blurb,
                        },
                        local_path: lp,
                        updated_at: now,
                        ..p
                    };
                    (with_project(b, project_pos(b, id)->0, np), Ok(np))
                },
            }
        },
    }
}

/// Marking a seat's agent as linked on a writable project at time `now`.
pub open spec fn ack_agent_seat_spec(b: BoardV, id: Seq<char>, seat: AgentSeat, now: Micros) -> (
    BoardV,
    Result<ProjectV, ProjectErrorV>,
) {
    match writable_spec(b, id) {
        Err(e) => (b, Err(e)),
        Ok(p) => {
            let np = match seat {
                AgentSeat::Discuss => ProjectV { discuss_agent_at: Some(now), updated_at: now, ..p },
                AgentSeat::Build => ProjectV { build_agent_at: Some(now), updated_at: now, ..p },
            };
            (with_project(b, project_pos(b, id)->0, np), Ok(np))
        },
    }
}

/// Soft-archiving at time `now`; archiving an archived project changes nothing.
pub open spec fn archive_project_spec(b: BoardV, id: Seq<char>, now: Micros) -> (
    BoardV,
    Result<ProjectV, ProjectErrorV>,
) {
    match project_pos(b, id) {
        None => (b, Err(ProjectErrorV::NotFound(id))),
        Some(i) => if b.projects[i].archived_at is Some {
            (b, Ok(b.projects[i]))
        } else {
            let np = ProjectV { archived_at: Some(now), updated_at: now, ..b.projects[i] };
            (with_project(b, i, np), Ok(np))
        },
    }
}

/// Clearing the archive mark at time `now`; an active project is left as it is.
pub open spec fn unarchive_project_spec(b: BoardV, id: Seq<char>, now: Micros) -> (
    BoardV,
    Result<ProjectV, ProjectErrorV>,
) {
    match project_pos(b, id) {
        None => (b, Err(ProjectErrorV::NotFound(id))),
        Some(i) => if b.projects[i].archived_at is None {
            (b, Ok(b.projects[i]))
        } else {
            let np = ProjectV { archived_at: None, updated_at: now, ..b.projects[i] };
            (with_project(b, i, np), Ok(np))
        },
    }
}

fn writable_index(board: &Board, id: &str) -> (r: Result<usize, ProjectError>)
    ensures
        match r {
            Ok(i) => project_pos(board@, id@) == Some(i as int) && writable_spec(board@, id@)
                == Ok::<ProjectV, ProjectErrorV>(board@.projects[i as int]),
            Err(e) => writable_spec(board@, id@) == Err::<ProjectV, ProjectErrorV>(e@),
        },
{
    match find_project(&board.projects, id) {
        None => Err(ProjectError::NotFound(String::from_str(id))),
        Some(i) => {
            if board.projects[i].archived_at.is_some() {
                Err(ProjectError::Archived(String::from_str(id)))
            } else {
                Ok(i)
            }
        },
    }
}

/// Load a project and reject if it is missing or soft-archived.
pub fn ensure_project_writable(board: &Board, id: &str) -> (r: Result<Project, ProjectError>)
    ensures
        project_result_v(r) == writable_spec(board@, id@),
{
    let i = writable_index(board, id)?;
    Ok(board.projects[i].copy())
}

/// Create a project with a chosen id, stamped `now`.
pub fn create_project_with_id_at(
    board: &mut Board,
    id: &str,
    name: &str,
    color: &str,
    blurb: &str,
    local_path: &str,
    now: Micros,
) -> (r: Result<Project, ProjectError>)
    ensures
        (final(board)@, project_result_v(r)) == create_project_spec(
            old(board)@,
            id@,
            name@,
            color@,
            blurb@,
            local_path@,
            now,
        ),
{
    if str_trim(name).is_empty() {
        return Err(ProjectError::EmptyName);
    }
    validate_project_id(id)?;
    let local_path = normalize_local_path(local_path)?;
    if find_project(&board.projects, id).is_some() {
        return Err(ProjectError::AlreadyExists(String::from_str(id)));
    }
    let p = Project {
        id: String::from_str(id),
        name: String::from_str(name),
        color: String::from_str(color),
        blurb: String::from_str(blurb),
        local_path,
        archived_at: None,
        discuss_agent_at: None,
        build_agent_at: None,
        created_at: now,
        updated_at: now,
        discuss_pair_hash: None,
        build_pair_hash: None,
    };
    let ghost old_projects = board.projects;
    board.projects.push(p.copy());
    proof {
        lemma_dv_push(old_projects, board.projects, p);
    }
    Ok(p)
}

/// Create a project with a chosen id, stamped with the current time.
pub fn create_project_with_id(
    board: &mut Board,
    id: &str,
    name: &str,
    color: &str,
    blurb: &str,
    local_path: &str,
) -> (r: Result<Project, ProjectError>)
    ensures
        exists|now: Micros|
            (final(board)@, project_result_v(r)) == #[trigger] create_project_spec(
                old(board)@,
                id@,
                name@,
                color@,
                blurb@,
                local_path@,
                now,
            ),
{
    let now = crate::outside::now_micros();
    create_project_with_id_at(board, id, name, color, blurb, local_path, now)
}

/// Create a project under a fresh random (UUID v4) id, stamped with the current time.
pub fn create_project(
    board: &mut Board,
    name: &str,
    color: &str,
    blurb: &str,
    local_path: &str,
) -> (r: Result<Project, ProjectError>)
    ensures
        exists|id: Seq<char>, now: Micros|
            crate::outside::uuid_shape(id) && (final(board)@, project_result_v(r))
                == #[trigger] create_project_spec(
                old(board)@,
                id,
                name@,
                color@,
                blurb@,
                local_path@,
                now,
            ),
{
    let id = crate::outside::new_uuid();
    let now = crate::outside::now_micros();
    create_project_with_id_at(board, id.as_str(), name, color, blurb, local_path, now)
}

/// Partial update of project metadata fields at time `now`. Only non-`None` fields apply.
pub fn update_project_at(
    board: &mut Board,
    id: &str,
    name: Option<&str>,
    color: Option<&str>,
    blurb: Option<&str>,
    local_path: Option<&str>,
    now: Micros,
) -> (r: Result<Project, ProjectError>)
    ensures
        (final(board)@, project_result_v(r)) == update_project_spec(
            old(board)@,
            id@,
            name.deep_view(),
            color.deep_view(),
            blurb.deep_view(),
            local_path.deep_view(),
            now,
        ),
{
    let i = writable_index(board, id)?;
    let existing = board.projects[i].copy();
    let new_name = match name {
        Some(n) => {
            if str_trim(n).is_empty() {
                return Err(ProjectError::EmptyName);
            }
            String::from_str(n)
        },
        None => existing.name,
    };
    let new_color = match color {
        Some(c) => String::from_str(c),
        None => existing.color,
    };
    let new_blurb = match blurb {
        Some(b) => String::from_str(b),
        None => existing.blurb,
    };
    let new_local_path = match local_path {
        Some(p) => normalize_local_path(p)?,
        None => existing.local_path,
    };
    let p = Project {
        id: existing.id,
        name: new_name,
        color: new_color,
        blurb: new_blurb,
        local_path: new_local_path,
        archived_at: existing.archived_at,
        discuss_agent_at: existing.discuss_agent_at,
        build_agent_at: existing.build_agent_at,
        created_at: existing.created_at,
        updated_at: now,
        discuss_pair_hash: existing.discuss_pair_hash,
        build_pair_hash: existing.build_pair_hash,
    };
    let ghost old_projects = board.projects;
    board.projects.set(i, p.copy());
    proof {
        lemma_dv_update(old_projects, board.projects, i as int, p);
    }
    Ok(p)
}

/// Partial update of project metadata fields, stamped with the current time.
pub fn update_project(
    board: &mut Board,
    id: &str,
    name: Option<&str>,
    color: Option<&str>,
    blurb: Option<&str>,
    local_path: Option<&str>,
) -> (r: Result<Project, ProjectError>)
    ensures
        exists|now: Micros|
            (final(board)@, project_result_v(r)) == #[trigger] update_project_spec(
                old(board)@,
                id@,
                name.deep_view(),
                color.deep_view(),
                blurb.deep_view(),
                local_path.deep_view(),
                now,
            ),
{
    let now = crate::outside::now_micros();
    update_project_at(board, id, name, color, blurb, local_path, now)
}

/// Mark a product agent seat as linked (after MCP setup succeeds) at time `now`.
pub fn ack_agent_seat_at(board: &mut Board, id: &str, seat: AgentSeat, now: Micros) -> (r: Result<
    Project,
    ProjectError,
>)
    ensures
        (final(board)@, project_result_v(r)) == ack_agent_seat_spec(old(board)@, id@, seat, now),
{
    let i = writable_index(board, id)?;
    let mut p = board.projects[i].copy();
    p.updated_at = now;
    match seat {
        AgentSeat::Discuss => p.discuss_agent_at = Some(now),
        AgentSeat::Build => p.build_agent_at = Some(now),
    }
    let ghost old_projects = board.projects;
    board.projects.set(i, p.copy());
    proof {
        lemma_dv_update(old_projects, board.projects, i as int, p);
    }
    Ok(p)
}

/// Mark a product agent seat as linked, stamped with the current time.
pub fn ack_agent_seat(board: &mut Board, id: &str, seat: AgentSeat) -> (r: Result<
    Project,
    ProjectError,
>)
    ensures
        exists|now: Micros|
            (final(board)@, project_result_v(r)) == #[trigger] ack_agent_seat_spec(
                old(board)@,
                id@,
                seat,
                now,
            ),
{
    let now = crate::outside::now_micros();
    ack_agent_seat_at(board, id, seat, now)
}

/// Soft-archive a project (hidden from default list) at time `now`. Requirements are kept.
pub fn archive_project_at(board: &mut Board, id: &str, now: Micros) -> (r: Result<
    Project,
    ProjectError,
>)
    ensures
        (final(board)@, project_result_v(r)) == archive_project_spec(old(board)@, id@, now),
{
    let i = match find_project(&board.projects, id) {
        Some(i) => i,
        None => return Err(ProjectError::NotFound(String::from_str(id))),
    };
    let mut p = board.projects[i].copy();
    if p.archived_at.is_some() {
        return Ok(p);
    }
    p.archived_at = Some(now);
    p.updated_at = now;
    let ghost old_projects = board.projects;
    board.projects.set(i, p.copy());
    proof {
        lemma_dv_update(old_projects, board.projects, i as int, p);
    }
    Ok(p)
}

/// Soft-archive a project, stamped with the current time.
pub fn archive_project(board: &mut Board, id: &str) -> (r: Result<Project, ProjectError>)
    ensures
        exists|now: Micros|
            (final(board)@, project_result_v(r)) == #[trigger] archive_project_spec(
                old(board)@,
                id@,
                now,
            ),
{
    let now = crate::outside::now_micros();
    archive_project_at(board, id, now)
}

/// Clear soft-archive at time `now` so the project returns to the default list and accepts
/// writes.
pub fn unarchive_project_at(board: &mut Board, id: &str, now: Micros) -> (r: Result<
    Project,
    ProjectError,
>)
    ensures
        (final(board)@, project_result_v(r)) == unarchive_project_spec(old(board)@, id@, now),
{
    let i = match find_project(&board.projects, id) {
        Some(i) => i,
        None => return Err(ProjectError::NotFound(String::from_str(id))),
    };
    let mut p = board.projects[i].copy();
    if p.archived_at.is_none() {
        return Ok(p);
    }
    p.archived_at = None;
    p.updated_at = now;
    let ghost old_projects = board.projects;
    board.projects.set(i, p.copy());
    proof {
        lemma_dv_update(old_projects, board.projects, i as int, p);
    }
    Ok(p)
}

/// Clear soft-archive, stamped with the current time.
pub fn unarchive_project(board: &mut Board, id: &str) -> (r: Result<Project, ProjectError>)
    ensures
        exists|now: Micros|
            (final(board)@, project_result_v(r)) == #[trigger] unarchive_project_spec(
                old(board)@,
                id@,
                now,
            ),
{
    let now = crate::outside::now_micros();
    unarchive_project_at(board, id, now)
}

/// The project `id`, if stored.
pub fn get_project(board: &Board, id: &str) -> (r: Option<Project>)
    ensures
        match project_pos(board@, id@) {
            Some(i) => r matches Some(p) && p.deep_view() == board@.projects[i],
            None => r is None,
        },
{
    match find_project(&board.projects, id) {
        Some(i) => Some(board.projects[i].copy()),
        None => None,
    }
}

/// Projects a list shows: every project, or only the active ones.
pub open spec fn listed(include_archived: bool) -> spec_fn(ProjectV) -> bool {
    |p: ProjectV| include_archived || p.archived_at is None
}

/// List order: active projects before archived ones, then by name.
pub open spec fn listed_before(a: ProjectV, b: ProjectV) -> bool {
    if (a.archived_at is None) != (b.archived_at is None) {
        a.archived_at is None
    } else {
        seq_le(a.name, b.name)
    }
}

/// A sequence of projects in list order.
pub open spec fn in_list_order(s: Seq<ProjectV>) -> bool {
    forall|i: int, j: int| 0 <= i < j < s.len() ==> listed_before(#[trigger] s[i], #[trigger] s[j])
}

proof fn lemma_listed_before_total(a: ProjectV, b: ProjectV)
    ensures
        listed_before(a, b) || listed_before(b, a),
{
    lemma_seq_le_total(a.name, b.name);
}

proof fn lemma_listed_before_trans(a: ProjectV, b: ProjectV, c: ProjectV)
    requires
        listed_before(a, b),
        listed_before(b, c),
    ensures
        listed_before(a, c),
{
    if (a.archived_at is None) == (b.archived_at is None) && (b.archived_at is None) == (
    c.archived_at is None) {
        lemma_seq_le_trans(a.name, b.name, c.name);
    }
}

/// Inserting at a position between the items ordered before and after keeps list order.
proof fn lemma_insert_keeps_order(s: Seq<ProjectV>, pos: int, x: ProjectV)
    requires
        in_list_order(s),
        0 <= pos <= s.len(),
        forall|j: int| 0 <= j < pos ==> listed_before(#[trigger] s[j], x),
        forall|j: int| pos <= j < s.len() ==> listed_before(x, #[trigger] s[j]),
    ensures
        in_list_order(s.insert(pos, x)),
{
    let t = s.insert(pos, x);
    assert forall|i: int, j: int| 0 <= i < j < t.len() implies listed_before(
        #[trigger] t[i],
        #[trigger] t[j],
    ) by {
        if i < pos && j < pos {
            assert(t[i] == s[i] && t[j] == s[j]);
        } else if i < pos && j == pos {
            assert(t[i] == s[i]);
        } else if i < pos {
            assert(t[i] == s[i] && t[j] == s[j - 1]);
        } else if i == pos {
            assert(t[j] == s[j - 1]);
        } else {
            assert(t[i] == s[i - 1] && t[j] == s[j - 1]);
        }
    }
}

/// Where `x` goes in an ordered list: after every item listed before or with it.
fn insert_pos(out: &Vec<Project>, x: &Project) -> (pos: usize)
    requires
        in_list_order(out.deep_view()),
    ensures
        pos <= out.len(),
        forall|j: int| 0 <= j < pos ==> listed_before(#[trigger] out.deep_view()[j], x.deep_view()),
        forall|j: int|
            pos <= j < out.len() ==> listed_before(x.deep_view(), #[trigger] out.deep_view()[j]),
{
    let ghost s = out.deep_view();
    let mut j: usize = 0;
    while j < out.len()
        invariant
            s == out.deep_view(),
            in_list_order(s),
            j <= out.len(),
            forall|k: int| 0 <= k < j ==> listed_before(#[trigger] s[k], x.deep_view()),
        decreases out.len() - j,
    {
        let y = &out[j];
        let before = if (y.archived_at.is_none()) != (x.archived_at.is_none()) {
            y.archived_at.is_none()
        } else {
            str_le(y.name.as_str(), x.name.as_str())
        };
        assert(s[j as int] == y.deep_view());
        if !before {
            proof {
                lemma_listed_before_total(s[j as int], x.deep_view());
                assert forall|k: int| j <= k < s.len() implies listed_before(
                    x.deep_view(),
                    #[trigger] s[k],
                ) by {
                    if k > j {
                        lemma_listed_before_trans(x.deep_view(), s[j as int], s[k]);
                    }
                }
            }
            return j;
        }
        j += 1;
    }
    j
}

/// Projects in list order (active first, then by name); archived ones only when asked for.
pub fn list_projects_filtered(board: &Board, include_archived: bool) -> (r: Vec<Project>)
    ensures
        r.deep_view().to_multiset() == board@.projects.filter(listed(include_archived)).to_multiset(),
        in_list_order(r.deep_view()),
{
    let ghost src = board@.projects;
    let ghost p = listed(include_archived);
    let mut out: Vec<Project> = Vec::new();
    proof {
        lemma_filter_take_zero(src, p);
        assert(out.deep_view() =~= Seq::<ProjectV>::empty());
    }
    let mut i: usize = 0;
    while i < board.projects.len()
        invariant
            src == board@.projects,
            p == listed(include_archived),
            i <= src.len(),
            out.deep_view().to_multiset() == src.take(i as int).filter(p).to_multiset(),
            in_list_order(out.deep_view()),
        decreases board.projects.len() - i,
    {
        proof {
            lemma_filter_take_step(src, p, i as int);
        }
        let x = &board.projects[i];
        if include_archived || x.archived_at.is_none() {
            let pos = insert_pos(&out, x);
            let ghost before = out;
            out.insert(pos, x.copy());
            proof {
                lemma_dv_insert(before, out, pos as int, *x);
                lemma_insert_keeps_order(before.deep_view(), pos as int, x.deep_view());
                assert(src[i as int] == x.deep_view());
                assert(src.take(i + 1).filter(p) == src.take(i as int).filter(p).push(x.deep_view()));
                vstd::seq_lib::to_multiset_build(src.take(i as int).filter(p), x.deep_view());
                vstd::seq_lib::to_multiset_insert(before.deep_view(), pos as int, x.deep_view());
            }
        }
        i += 1;
    }
    proof {
        lemma_filter_take_all(src, p);
    }
    out
}

/// Active projects in list order (by name).
pub fn list_projects(board: &Board) -> (r: Vec<Project>)
    ensures
        r.deep_view().to_multiset() == board@.projects.filter(listed(false)).to_multiset(),
        in_list_order(r.deep_view()),
{
    list_projects_filtered(board, false)
}

} // verus!
