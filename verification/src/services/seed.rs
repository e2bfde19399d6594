//! Demo seed data aligned with the UI mock projects. Re-running skips existing project ids.

use vstd::prelude::*;
use vstd::string::*;

use crate::domain::models::{CreateRequirementInput, RequirementV};
use crate::domain::state::Status;
use crate::services::board::{find_first, lemma_find_first_props, lemma_find_first_some, lemma_find_first_none, project_with_id, Board, BoardV};
use crate::services::projects::{
    create_project_spec, create_project_with_id, get_project, lemma_same_ids_same_pos, project_pos,
    project_result_v, writable_spec, ProjectError,
};
use crate::services::requirements::{
    create_input_v, create_requirement, create_requirement_spec, create_result_v,
    CreateRequirementError,
};
use crate::text::{is_ascii_alnum, is_blank, lemma_trim_keeps, trim};
use crate::services::projects::{id_tail_char, validate_id_spec};
use vstd::utf8::{is_ascii_chars, is_ascii_chars_encode_utf8};

verus! {

#[derive(Debug)]
pub enum SeedError {
    Project(ProjectError),
    Requirement(CreateRequirementError),
}

/// What a seed run did.
#[derive(Debug)]
pub struct SeedReport {
    pub projects_created: u32,
    pub projects_skipped: u32,
    pub requirements_created: u32,
}

impl Default for SeedReport {
    fn default() -> (r: SeedReport)
        ensures
            r.projects_created == 0,
            r.projects_skipped == 0,
            r.requirements_created == 0,
    {
        SeedReport { projects_created: 0, projects_skipped: 0, requirements_created: 0 }
    }
}

/// Number of demo projects.
pub open spec fn seed_len() -> int {
    4
}

/// Id of demo project `k`.
pub open spec fn seed_id(k: int) -> Seq<char> {
    if k == 0 {
        "demo-shop"@
    } else if k == 1 {
        "trace-sight"@
    } else if k == 2 {
        "req-engine"@
    } else {
        "mobile-h5"@
    }
}

/// Name, colour and blurb of demo project `k`.
pub open spec fn seed_fields(k: int) -> (Seq<char>, Seq<char>, Seq<char>) {
    if k == 0 {
        ("Demo Shop"@, "#f59e0b"@, "Sample e-commerce demo for lifecycle walkthrough"@)
    } else if k == 1 {
        ("Trace Sight"@, "#06b6d4"@, "Observability / tracing UI mock"@)
    } else if k == 2 {
        ("Req Engine"@, "#6366f1"@, "This product — verb-based requirements lifecycle"@)
    } else {
        ("Mobile H5"@, "#ec4899"@, "Mobile web (H5) client shell"@)
    }
}

/// How many of the first `k` demo ids the store already has.
pub open spec fn seed_present_count(b: BoardV, k: int) -> int
    decreases k,
{
    if k <= 0 {
        0
    } else {
        seed_present_count(b, k - 1) + if project_pos(b, seed_id(k - 1)) is Some {
            1int
        } else {
            0int
        }
    }
}

/// Demo project `k`: id, name, colour, blurb.
fn seed_project(k: usize) -> (r: (&'static str, &'static str, &'static str, &'static str))
    requires
        k < 4,
    ensures
        r.0@ == seed_id(k as int),
        (r.1@, r.2@, r.3@) == seed_fields(k as int),
{
    if k == 0 {
        ("demo-shop", "Demo Shop", "#f59e0b", "Sample e-commerce demo for lifecycle walkthrough")
    } else if k == 1 {
        ("trace-sight", "Trace Sight", "#06b6d4", "Observability / tracing UI mock")
    } else if k == 2 {
        ("req-engine", "Req Engine", "#6366f1", "This product — verb-based requirements lifecycle")
    } else {
        ("mobile-h5", "Mobile H5", "#ec4899", "Mobile web (H5) client shell")
    }
}

/// Sample requirement `m` of demo project `k`: title, description, priority, scope,
/// non-scope, acceptance.
pub open spec fn seed_req_fields(k: int, m: int) -> (
    Seq<char>,
    Seq<char>,
    Seq<char>,
    Seq<char>,
    Seq<char>,
    Seq<char>,
) {
    if k == 0 && m == 0 {
        (
            "Cart checkout flow"@,
            "User can add items and complete checkout"@,
            "high"@,
            "[\"cart\",\"checkout\",\"payment mock\"]"@,
            "[\"real payment gateway\"]"@,
            "[\"cart totals correct\",\"order confirmation page\"]"@,
        )
    } else if k == 0 {
        (
            "Product catalog page"@,
            "List products with filters"@,
            "medium"@,
            "[\"list\",\"filter by category\"]"@,
            "[\"recommendations\"]"@,
            "[\"shows 12 products\",\"filter updates list\"]"@,
        )
    } else if k == 1 && m == 0 {
        (
            "Span timeline view"@,
            "Visualize request spans on a timeline"@,
            "high"@,
            "[\"timeline\",\"hover details\"]"@,
            "[\"live tail\"]"@,
            "[\"renders sample trace\",\"hover shows span attrs\"]"@,
        )
    } else if k == 1 {
        (
            "Service map"@,
            "Graph of service dependencies from traces"@,
            "medium"@,
            "[\"nodes\",\"edges\",\"latency badge\"]"@,
            "[\"edit topology\"]"@,
            "[\"loads mock graph\",\"click node filters list\"]"@,
        )
    } else if k == 2 && m == 0 {
        (
            "HTTP serve + auth"@,
            "Axum server with bearer token roles"@,
            "high"@,
            "[\"/v1 routes\",\"CORS localhost\",\"token auth\"]"@,
            "[\"OAuth\",\"MCP full\"]"@,
            "[\"health ok\",\"claim verb works\",\"planner cannot claim\"]"@,
        )
    } else if k == 2 {
        (
            "Seed demo projects"@,
            "Four UI-aligned projects with sample requirements"@,
            "medium"@,
            "[\"demo-shop\",\"trace-sight\",\"req-engine\",\"mobile-h5\"]"@,
            "[\"production data migration\"]"@,
            "[\"seed is idempotent-ish\",\"list projects returns 4\"]"@,
        )
    } else if m == 0 {
        (
            "Bottom navigation shell"@,
            "Tab bar for Home / Tasks / Me"@,
            "high"@,
            "[\"tabs\",\"routing\"]"@,
            "[\"native apps\"]"@,
            "[\"three tabs\",\"active state visible\"]"@,
        )
    } else {
        (
            "Task card list"@,
            "Show requirement cards with status chips"@,
            "medium"@,
            "[\"card\",\"status chip\",\"priority\"]"@,
            "[\"offline sync\"]"@,
            "[\"loads from API\",\"empty state\"]"@,
        )
    }
}

/// Sample requirement `m` of demo project `k`: title, description, priority, scope,
/// non-scope, acceptance.
fn seed_requirement(k: usize, m: usize) -> (r: (
    &'static str,
    &'static str,
    &'static str,
    &'static str,
    &'static str,
    &'static str,
))
    requires
        k < 4,
        m < 2,
    ensures
        (r.0@, r.1@, r.2@, r.3@, r.4@, r.5@) == seed_req_fields(k as int, m as int),
{
    if k == 0 && m == 0 {
        (
            "Cart checkout flow",
            "User can add items and complete checkout",
            "high",
            "[\"cart\",\"checkout\",\"payment mock\"]",
            "[\"real payment gateway\"]",
            "[\"cart totals correct\",\"order confirmation page\"]",
        )
    } else if k == 0 {
        (
            "Product catalog page",
            "List products with filters",
            "medium",
            "[\"list\",\"filter by category\"]",
            "[\"recommendations\"]",
            "[\"shows 12 products\",\"filter updates list\"]",
        )
    } else if k == 1 && m == 0 {
        (
            "Span timeline view",
            "Visualize request spans on a timeline",
            "high",
            "[\"timeline\",\"hover details\"]",
            "[\"live tail\"]",
            "[\"renders sample trace\",\"hover shows span attrs\"]",
        )
    } else if k == 1 {
        (
            "Service map",
            "Graph of service dependencies from traces",
            "medium",
            "[\"nodes\",\"edges\",\"latency badge\"]",
            "[\"edit topology\"]",
            "[\"loads mock graph\",\"click node filters list\"]",
        )
    } else if k == 2 && m == 0 {
        (
            "HTTP serve + auth",
            "Axum server with bearer token roles",
            "high",
            "[\"/v1 routes\",\"CORS localhost\",\"token auth\"]",
            "[\"OAuth\",\"MCP full\"]",
            "[\"health ok\",\"claim verb works\",\"planner cannot claim\"]",
        )
    } else if k == 2 {
        (
            "Seed demo projects",
            "Four UI-aligned projects with sample requirements",
            "medium",
            "[\"demo-shop\",\"trace-sight\",\"req-engine\",\"mobile-h5\"]",
            "[\"production data migration\"]",
            "[\"seed is idempotent-ish\",\"list projects returns 4\"]",
        )
    } else if m == 0 {
        (
            "Bottom navigation shell",
            "Tab bar for Home / Tasks / Me",
            "high",
            "[\"tabs\",\"routing\"]",
            "[\"native apps\"]",
            "[\"three tabs\",\"active state visible\"]",
        )
    } else {
        (
            "Task card list",
            "Show requirement cards with status chips",
            "medium",
            "[\"card\",\"status chip\",\"priority\"]",
            "[\"offline sync\"]",
            "[\"loads from API\",\"empty state\"]",
        )
    }
}

/// A slug of letters, digits, `_` and `-`, starting with a letter or digit, at most 64 long, is
/// a valid project id.
proof fn lemma_slug_valid(t: Seq<char>)
    requires
        0 < t.len() <= 64,
        is_ascii_alnum(t[0]),
        forall|j: int| 0 <= j < t.len() ==> id_tail_char(#[trigger] t[j]),
    ensures
        validate_id_spec(t) is Ok,
{
    assert(is_ascii_chars(t));
    is_ascii_chars_encode_utf8(t);
}

/// The demo ids are valid project ids and the demo names are not blank.
proof fn lemma_seed_projects_valid(k: int)
    requires
        0 <= k < 4,
    ensures
        validate_id_spec(seed_id(k)) is Ok,
        !is_blank(seed_fields(k).0),
{
    if k == 0 {
        reveal_strlit("demo-shop");
        reveal_strlit("Demo Shop");
        let t = "demo-shop"@;
        assert forall|j: int| 0 <= j < t.len() implies id_tail_char(#[trigger] t[j]) by {
            if j == 0 {
            } else if j == 1 {
            } else if j == 2 {
            } else if j == 3 {
            } else if j == 4 {
            } else if j == 5 {
            } else if j == 6 {
            } else if j == 7 {
            } else if j == 8 {
            }
        }
        lemma_slug_valid(t);
        lemma_trim_keeps("Demo Shop"@);
    } else if k == 1 {
        reveal_strlit("trace-sight");
        reveal_strlit("Trace Sight");
        let t = "trace-sight"@;
        assert forall|j: int| 0 <= j < t.len() implies id_tail_char(#[trigger] t[j]) by {
            if j == 0 {
            } else if j == 1 {
            } else if j == 2 {
            } else if j == 3 {
            } else if j == 4 {
            } else if j == 5 {
            } else if j == 6 {
            } else if j == 7 {
            } else if j == 8 {
            } else if j == 9 {
            } else if j == 10 {
            }
        }
        lemma_slug_valid(t);
        lemma_trim_keeps("Trace Sight"@);
    } else if k == 2 {
        reveal_strlit("req-engine");
        reveal_strlit("Req Engine");
        let t = "req-engine"@;
        assert forall|j: int| 0 <= j < t.len() implies id_tail_char(#[trigger] t[j]) by {
            if j == 0 {
            } else if j == 1 {
            } else if j == 2 {
            } else if j == 3 {
            } else if j == 4 {
            } else if j == 5 {
            } else if j == 6 {
            } else if j == 7 {
            } else if j == 8 {
            } else if j == 9 {
            }
        }
        lemma_slug_valid(t);
        lemma_trim_keeps("Req Engine"@);
    } else {
        reveal_strlit("mobile-h5");
        reveal_strlit("Mobile H5");
        let t = "mobile-h5"@;
        assert forall|j: int| 0 <= j < t.len() implies id_tail_char(#[trigger] t[j]) by {
            if j == 0 {
            } else if j == 1 {
            } else if j == 2 {
            } else if j == 3 {
            } else if j == 4 {
            } else if j == 5 {
            } else if j == 6 {
            } else if j == 7 {
            } else if j == 8 {
            }
        }
        lemma_slug_valid(t);
        lemma_trim_keeps("Mobile H5"@);
    }
}

/// Demo card titles are not blank.
proof fn lemma_seed_titles_not_blank(k: int, m: int)
    ensures
        !is_blank(seed_req_fields(k, m).0),
{
    reveal_strlit("Cart checkout flow");
    reveal_strlit("Product catalog page");
    reveal_strlit("Span timeline view");
    reveal_strlit("Service map");
    reveal_strlit("HTTP serve + auth");
    reveal_strlit("Seed demo projects");
    reveal_strlit("Bottom navigation shell");
    reveal_strlit("Task card list");
    lemma_trim_keeps(seed_req_fields(k, m).0);
}

/// Appending a project moves no lookup of another id, and makes its own id found when it was
/// missing.
proof fn lemma_push_project_pos(b: BoardV, nb: BoardV, x: Seq<char>)
    requires
        nb.projects.len() == b.projects.len() + 1,
        forall|j: int| 0 <= j < b.projects.len() ==> nb.projects[j] == #[trigger] b.projects[j],
    ensures
        project_pos(nb, x) == match project_pos(b, x) {
            Some(i) => Some(i),
            None => if nb.projects.last().id == x {
                Some(b.projects.len() as int)
            } else {
                None
            },
        },
{
    let p = project_with_id(x);
    lemma_find_first_props(b.projects, p);
    match find_first(b.projects, p) {
        Some(i) => {
            assert forall|j: int| 0 <= j < i implies !p(#[trigger] nb.projects[j]) by {
                assert(nb.projects[j] == b.projects[j]);
            }
            lemma_find_first_some(nb.projects, p, i);
        },
        None => {
            let n = b.projects.len() as int;
            assert forall|j: int| 0 <= j < n implies !p(#[trigger] nb.projects[j]) by {
                assert(nb.projects[j] == b.projects[j]);
            }
            if nb.projects.last().id == x {
                lemma_find_first_some(nb.projects, p, n);
            } else {
                lemma_find_first_none(nb.projects, p);
            }
        },
    }
}

/// Card `m` of demo project `k`, as stored in project `pid`: the seed fields, `todo`, unclaimed,
/// no dependencies, created by `seed`.
pub open spec fn seed_card(r: RequirementV, k: int, m: int, pid: Seq<char>) -> bool {
    &&& r.project_id == pid
    &&& (r.title, r.description, r.priority, r.scope_json, r.non_scope_json, r.acceptance_json)
        == seed_req_fields(k, m)
    &&& r.dependencies_json == "[]"@
    &&& r.created_by == "seed"@
    &&& r.status == Status::Todo
    &&& r.claimed_by is None
}

/// `r` is a card of one of the first `upto` demo projects that `b` did not have.
pub open spec fn seed_origin(b: BoardV, r: RequirementV, upto: int) -> bool {
    exists|k: int, m: int|
        0 <= k < upto && 0 <= m < 2 && project_pos(b, seed_id(k)) is None && #[trigger] seed_card(
            r,
            k,
            m,
            seed_id(k),
        )
}

/// Create the two sample requirements of demo project `k` in project `id`. The only failure is
/// a clash of a freshly drawn requirement id with a stored one.
fn seed_requirements_of(board: &mut Board, k: usize, id: &str) -> (r: Result<(), CreateRequirementError>)
    requires
        k < 4,
        writable_spec(old(board)@, id@) is Ok,
    ensures
        final(board)@.projects == old(board)@.projects,
        old(board)@.requirements.is_prefix_of(final(board)@.requirements),
        forall|j: int|
            old(board)@.requirements.len() <= j < final(board)@.requirements.len() ==> seed_card(
                #[trigger] final(board)@.requirements[j],
                k as int,
                j - old(board)@.requirements.len(),
                id@,
            ),
        final(board)@.requirements.len() <= old(board)@.requirements.len() + 2,
        r is Ok ==> final(board)@.requirements.len() == old(board)@.requirements.len() + 2,
        r is Err ==> r matches Err(CreateRequirementError::DuplicateId(_)),
{
    let ghost b0 = board@;
    let mut m: usize = 0;
    while m < 2
        invariant
            m <= 2,
            k < 4,
            b0 == old(board)@,
            writable_spec(b0, id@) is Ok,
            board@.projects == b0.projects,
            board@.requirements.len() == b0.requirements.len() + m,
            b0.requirements.is_prefix_of(board@.requirements),
            forall|j: int|
                b0.requirements.len() <= j < board@.requirements.len() ==> seed_card(
                    #[trigger] board@.requirements[j],
                    k as int,
                    j - b0.requirements.len(),
                    id@,
                ),
        decreases 2 - m,
    {
        let (title, description, priority, scope, non_scope, acceptance) = seed_requirement(k, m);
        let input = CreateRequirementInput {
            project_id: String::from_str(id),
            title: String::from_str(title),
            description: String::from_str(description),
            priority: String::from_str(priority),
            scope_json: String::from_str(scope),
            non_scope_json: String::from_str(non_scope),
            acceptance_json: String::from_str(acceptance),
            dependencies_json: String::from_str("[]"),
            created_by: String::from_str("seed"),
        };
        let ghost before = board@;
        let ghost iv = create_input_v(input);
        proof {
            lemma_seed_titles_not_blank(k as int, m as int);
            lemma_same_ids_same_pos(before, b0, id@);
        }
        let res = create_requirement(board, input);
        proof {
            let (rid, eid, now) = choose|rid: Seq<char>, eid: Seq<char>, now: crate::domain::models::Micros|
                crate::outside::uuid_shape(rid) && crate::outside::uuid_shape(eid) && (
                board@, create_result_v(res)) == #[trigger] create_requirement_spec(before, iv, rid, eid, now);
            assert(writable_spec(before, id@) == writable_spec(b0, id@));
        }
        match res {
            Err(e) => {
                return Err(e);
            },
            Ok(_) => {},
        }
        proof {
            assert forall|j: int|
                b0.requirements.len() <= j < board@.requirements.len() implies seed_card(
                    #[trigger] board@.requirements[j],
                    k as int,
                    j - b0.requirements.len(),
                    id@,
                ) by {
                if j < before.requirements.len() {
                    assert(board@.requirements[j] == before.requirements[j]);
                }
            }
            assert forall|j: int| 0 <= j < b0.requirements.len() implies board@.requirements[j]
                == b0.requirements[j] by {
                assert(board@.requirements[j] == before.requirements[j]);
            }
        }
        m += 1;
    }
    Ok(())
}

/// Create the four demo projects with two sample requirements each. Safe to re-run: a
/// project id that is already stored is skipped (with its requirements).
pub fn seed_demo_data(board: &mut Board) -> (r: Result<SeedReport, SeedError>)
    ensures
        (forall|k: int| 0 <= k < seed_len() ==> project_pos(old(board)@, #[trigger] seed_id(k)) is Some)
            ==> (r matches Ok(rep) && rep.projects_created == 0 && rep.projects_skipped == 4
            && rep.requirements_created == 0 && final(board)@ == old(board)@),
        r is Err ==> r matches Err(SeedError::Requirement(CreateRequirementError::DuplicateId(_))),
        old(board)@.projects.len() == 0 ==> (r matches Ok(rep) ==> rep.projects_created == 4
            && rep.projects_skipped == 0 && rep.requirements_created == 8),
        old(board)@.requirements.is_prefix_of(final(board)@.requirements),
        forall|j: int|
            old(board)@.requirements.len() <= j < final(board)@.requirements.len() ==> seed_origin(
                old(board)@,
                #[trigger] final(board)@.requirements[j],
                seed_len(),
            ),
        r matches Ok(rep) ==> {
            &&& rep.projects_skipped == seed_present_count(old(board)@, seed_len())
            &&& rep.projects_created + rep.projects_skipped == 4
            &&& rep.requirements_created == 2 * rep.projects_created
            &&& final(board)@.requirements.len() == old(board)@.requirements.len()
                + rep.requirements_created
            &&& final(board)@.projects.len() == old(board)@.projects.len() + rep.projects_created
            &&& forall|j: int|
                0 <= j < old(board)@.projects.len() ==> final(board)@.projects[j]
                    == #[trigger] old(board)@.projects[j]
            &&& forall|k: int|
                0 <= k < seed_len() ==> project_pos(final(board)@, #[trigger] seed_id(k)) is Some
            &&& forall|k: int|
                0 <= k < seed_len() && project_pos(old(board)@, #[trigger] seed_id(k)) is None
                    ==> ({
                    let p = final(board)@.projects[project_pos(final(board)@, seed_id(k))->0];
                    (p.name, p.color, p.blurb) == seed_fields(k) && p.local_path.len() == 0
                })
        },
{
    proof {
        reveal_strlit("demo-shop");
        reveal_strlit("trace-sight");
        reveal_strlit("req-engine");
        reveal_strlit("mobile-h5");
        assert(seed_id(0).len() == 9 && seed_id(0)[0] == 'd');
        assert(seed_id(1).len() == 11 && seed_id(1)[0] == 't');
        assert(seed_id(2).len() == 10 && seed_id(2)[0] == 'r');
        assert(seed_id(3).len() == 9 && seed_id(3)[0] == 'm');
    }
    let ghost b0 = board@;
    proof {
        if b0.projects.len() == 0 {
            assert forall|k: int| 0 <= k < seed_len() implies project_pos(b0, #[trigger] seed_id(k))
                is None by {
                lemma_find_first_none(b0.projects, project_with_id(seed_id(k)));
            }
            assert(seed_present_count(b0, 0) == 0);
            assert(seed_present_count(b0, 1) == 0);
            assert(seed_present_count(b0, 2) == 0);
            assert(seed_present_count(b0, 3) == 0);
            assert(seed_present_count(b0, 4) == 0);
        }
    }
    let mut report = SeedReport::default();
    let mut k: usize = 0;
    while k < 4
        invariant
            k <= 4,
            b0 == old(board)@,
            forall|i: int, j: int| 0 <= i < j < 4 ==> seed_id(i) != seed_id(j),
            report.projects_skipped == seed_present_count(b0, k as int),
            report.projects_created + report.projects_skipped == k,
            report.requirements_created == 2 * report.projects_created,
            board@.requirements.len() == b0.requirements.len() + report.requirements_created,
            board@.projects.len() == b0.projects.len() + report.projects_created,
            report.projects_created == 0 ==> board@ == b0,
            (forall|j: int| 0 <= j < seed_len() ==> project_pos(b0, #[trigger] seed_id(j)) is Some)
                ==> report.projects_created == 0,
            forall|j: int| 0 <= j < b0.projects.len() ==> board@.projects[j] == #[trigger] b0.projects[j],
            forall|j: int| 0 <= j < k ==> project_pos(board@, #[trigger] seed_id(j)) is Some,
            forall|j: int|
                k <= j < 4 ==> project_pos(board@, #[trigger] seed_id(j)) == project_pos(b0, seed_id(j)),
            forall|j: int|
                0 <= j < k && project_pos(b0, #[trigger] seed_id(j)) is None ==> ({
                    let p = board@.projects[project_pos(board@, seed_id(j))->0];
                    (p.name, p.color, p.blurb) == seed_fields(j) && p.local_path.len() == 0
                }),
            b0.requirements.is_prefix_of(board@.requirements),
            forall|j: int|
                b0.requirements.len() <= j < board@.requirements.len() ==> seed_origin(
                    b0,
                    #[trigger] board@.requirements[j],
                    k as int,
                ),
        decreases 4 - k,
    {
        let (id, name, color, blurb) = seed_project(k);
        if get_project(board, id).is_some() {
            report.projects_skipped = report.projects_skipped + 1;
            proof {
                assert forall|j: int|
                    b0.requirements.len() <= j < board@.requirements.len() implies seed_origin(
                        b0,
                        #[trigger] board@.requirements[j],
                        k + 1,
                    ) by {
                    let r = board@.requirements[j];
                    assert(seed_origin(b0, r, k as int));
                    let (kk, m) = choose|kk: int, m: int|
                        0 <= kk < k && 0 <= m < 2 && project_pos(b0, seed_id(kk)) is None
                            && #[trigger] seed_card(r, kk, m, seed_id(kk));
                    assert(seed_card(r, kk, m, seed_id(kk)));
                }
            }
            k += 1;
            continue;
        }
        assert(project_pos(b0, seed_id(k as int)) is None);
        let ghost bk = board@;
        proof {
            lemma_seed_projects_valid(k as int);
        }
        let created = create_project_with_id(board, id, name, color, blurb, "");
        proof {
            reveal_strlit("");
            let now = choose|now: crate::domain::models::Micros|
                (board@, project_result_v(created)) == #[trigger] create_project_spec(
                    bk,
                    id@,
                    name@,
                    color@,
                    blurb@,
                    ""@,
                    now,
                );
            assert(trim(""@) =~= ""@);
        }
        match created {
            Err(e) => {
                return Err(SeedError::Project(e));
            },
            Ok(_) => {},
        }
        proof {
            lemma_push_project_pos(bk, board@, seed_id(k as int));
            assert forall|j: int| 0 <= j < 4 && j != k implies project_pos(board@, #[trigger] seed_id(j))
                == project_pos(bk, seed_id(j)) by {
                lemma_push_project_pos(bk, board@, seed_id(j));
            }
        }
        report.projects_created = report.projects_created + 1;
        let ghost bp = board@;
        let seeded = seed_requirements_of(board, k, id);
        proof {
            assert(b0.requirements.is_prefix_of(board@.requirements)) by {
                assert forall|j: int| 0 <= j < b0.requirements.len() implies board@.requirements[j]
                    == b0.requirements[j] by {
                    assert(board@.requirements[j] == bp.requirements[j]);
                }
            }
            assert forall|j: int|
                b0.requirements.len() <= j < board@.requirements.len() implies seed_origin(
                    b0,
                    #[trigger] board@.requirements[j],
                    k + 1,
                ) by {
                let r = board@.requirements[j];
                if j < bp.requirements.len() {
                    assert(r == bp.requirements[j]);
                    assert(seed_origin(b0, bp.requirements[j], k as int));
                    let (kk, m) = choose|kk: int, m: int|
                        0 <= kk < k && 0 <= m < 2 && project_pos(b0, seed_id(kk)) is None
                            && #[trigger] seed_card(r, kk, m, seed_id(kk));
                    assert(seed_card(r, kk, m, seed_id(kk)));
                } else {
                    let m = j - bp.requirements.len();
                    assert(seed_card(r, k as int, m, seed_id(k as int)));
                }
            }
        }
        match seeded {
            Err(e) => {
                return Err(SeedError::Requirement(e));
            },
            Ok(()) => {},
        }
        report.requirements_created = report.requirements_created + 2;
        proof {
            assert forall|j: int| 0 <= j < 4 implies project_pos(board@, #[trigger] seed_id(j))
                == project_pos(bp, seed_id(j)) by {
                lemma_same_ids_same_pos(board@, bp, seed_id(j));
            }
        }
        k += 1;
    }
    Ok(report)
}

} // verus!
