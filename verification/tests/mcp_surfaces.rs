//! MCP surfaces, sessions and tools over the store.

use req_engine::domain::models::{AgentSeat, CreateRequirementInput};
use req_engine::domain::state::{Role, Status};
use req_engine::mcp::tools::{
    tool_cancel, tool_claim, tool_create_requirement, tool_get_requirement, tool_list_ready,
    tool_list_requirements, tool_progress, tool_release, tool_submit, tool_update,
};
use req_engine::mcp::util::{assert_req_in_scope, effective_project_id};
use req_engine::mcp::{
    foreman_tools, open_session, pair_session, peer_hint, planner_tools, resolve_auth,
    role_allowed_for_surface, token_session, AuthContext, McpRole, McpSession,
};
use req_engine::services::pair_codes::{ensure_project_pair_codes, PairBinding, PairFile};
use req_engine::services::{
    claim_task, create_project, create_requirement, generate_bootstrap_tokens, get_requirement,
    list_projects, Board, UpdateRequirementInput,
};

fn input(project_id: &str, title: &str) -> CreateRequirementInput {
    CreateRequirementInput {
        project_id: project_id.to_string(),
        title: title.to_string(),
        description: "".into(),
        priority: "high".into(),
        scope_json: "[]".into(),
        non_scope_json: "[]".into(),
        acceptance_json: "[]".into(),
        dependencies_json: "[]".into(),
        created_by: "planner".into(),
    }
}

fn planner_session() -> McpSession {
    McpSession {
        auth: AuthContext { name: "planner".into(), role: Role::Planner },
        surface: McpRole::Planner,
        binding: None,
    }
}

fn foreman_session() -> McpSession {
    McpSession {
        auth: AuthContext { name: "foreman".into(), role: Role::Foreman },
        surface: McpRole::Foreman,
        binding: None,
    }
}

#[test]
fn role_surface_matrix() {
    assert!(role_allowed_for_surface(Role::Admin, McpRole::Planner));
    assert!(role_allowed_for_surface(Role::Admin, McpRole::Foreman));
    assert!(role_allowed_for_surface(Role::Planner, McpRole::Planner));
    assert!(!role_allowed_for_surface(Role::Planner, McpRole::Foreman));
    assert!(role_allowed_for_surface(Role::Foreman, McpRole::Foreman));
    assert!(!role_allowed_for_surface(Role::Foreman, McpRole::Planner));
}

#[test]
fn planner_tool_names() {
    let names = planner_tools();
    assert_eq!(
        names,
        vec![
            "create_requirement",
            "list_requirements",
            "get_requirement",
            "update_requirement",
            "cancel_requirement",
        ]
    );
    assert_eq!(names.len(), 5);
    assert!(!names.contains(&"list_projects"));
    assert!(!names.contains(&"claim_task"));
}

#[test]
fn foreman_tool_names() {
    let names = foreman_tools();
    assert_eq!(
        names,
        vec![
            "list_ready_tasks",
            "get_requirement",
            "claim_task",
            "report_progress",
            "submit_for_review",
            "release_task",
        ]
    );
    assert_eq!(names.len(), 6);
    assert!(!names.contains(&"complete_review"));
    assert!(!names.contains(&"set_status"));
}

#[test]
fn surface_names_parse() {
    assert_eq!(McpRole::parse("planner"), Some(McpRole::Planner));
    assert_eq!(McpRole::parse("foreman"), Some(McpRole::Foreman));
    assert_eq!(McpRole::parse("admin"), None);
    assert_eq!(McpRole::Foreman.as_str(), "foreman");
}

#[test]
fn planner_token_matches_planner_surface() {
    let mut board = Board::new();
    let tokens = generate_bootstrap_tokens(&mut board).unwrap();
    let pt = tokens.iter().find(|t| t.role == Role::Planner).unwrap();
    let auth = resolve_auth(&board, &pt.plaintext, McpRole::Planner).unwrap();
    assert_eq!(auth.role, Role::Planner);
    assert_eq!(auth.name, "planner");
}

#[test]
fn planner_token_rejected_for_foreman_surface() {
    let mut board = Board::new();
    let tokens = generate_bootstrap_tokens(&mut board).unwrap();
    let pt = tokens.iter().find(|t| t.role == Role::Planner).unwrap();
    let err = resolve_auth(&board, &pt.plaintext, McpRole::Foreman).unwrap_err();
    assert!(err.message().contains("does not match"));
    assert_eq!(
        err.message(),
        "CLI --role foreman does not match token role planner (admin tokens may use either)"
    );
}

#[test]
fn admin_token_allowed_for_either_surface() {
    let mut board = Board::new();
    let tokens = generate_bootstrap_tokens(&mut board).unwrap();
    let at = tokens.iter().find(|t| t.role == Role::Admin).unwrap();
    assert!(resolve_auth(&board, &at.plaintext, McpRole::Planner).is_ok());
    assert!(resolve_auth(&board, &at.plaintext, McpRole::Foreman).is_ok());
    let s = token_session(&board, &at.plaintext, McpRole::Foreman).unwrap();
    assert!(s.binding.is_none());
    assert_eq!(s.surface, McpRole::Foreman);
}

#[test]
fn invalid_token_rejected() {
    let mut board = Board::new();
    generate_bootstrap_tokens(&mut board).unwrap();
    let err = resolve_auth(&board, "nope", McpRole::Planner).unwrap_err();
    assert!(err.message().contains("invalid"));
}

#[test]
fn planner_tools_map_to_services() {
    let mut board = Board::new();
    let p = create_project(&mut board, "P", "#000", "", "").unwrap();
    let state = planner_session();

    let projects = list_projects(&board);
    assert_eq!(projects.len(), 1);
    assert_eq!(projects[0].name, "P");

    let created = tool_create_requirement(
        &state,
        &mut board,
        Some(&p.id),
        "T1",
        Some("d"),
        Some("high"),
        "[\"a\"]",
        "[\"ok\"]",
        "[]",
    )
    .unwrap();
    assert_eq!(created.status, Status::Todo);
    assert_eq!(created.non_scope_json, "[]");
    assert_eq!(created.created_by, "planner");
    let id = created.id.clone();

    let listed = tool_list_requirements(&state, &board, Some(&p.id), Some("todo")).unwrap();
    assert!(listed.iter().any(|r| r.id == id));
    let err = tool_list_requirements(&state, &board, Some(&p.id), Some("open")).unwrap_err();
    assert_eq!(err, "invalid status 'open' (use todo|in_progress|review|done|cancelled)");

    let renamed = tool_update(
        &state,
        &mut board,
        &id,
        UpdateRequirementInput { title: Some("T1-renamed".into()), ..Default::default() },
    )
    .unwrap();
    assert_eq!(renamed.title, "T1-renamed");

    let st = tool_cancel(&state, &mut board, &id).unwrap();
    assert_eq!(st.status, Status::Cancelled);
}

#[test]
fn foreman_tools_map_to_services() {
    let mut board = Board::new();
    let p = create_project(&mut board, "P", "#000", "", "").unwrap();
    let req = create_requirement(&mut board, input(&p.id, "Ship")).unwrap();
    let id = req.id.clone();
    let state = foreman_session();

    let ready = tool_list_ready(&state, &board, Some(&p.id));
    assert!(ready.iter().any(|r| r.id == id));

    assert_eq!(tool_claim(&state, &mut board, &id).unwrap().status, Status::InProgress);
    assert_eq!(
        tool_progress(&state, &mut board, &id, "50%", None).unwrap().progress_summary.as_deref(),
        Some("50%")
    );
    assert_eq!(tool_submit(&state, &mut board, &id).unwrap().status, Status::Review);

    let req2 = create_requirement(&mut board, input(&p.id, "Release me")).unwrap();
    claim_task(&mut board, &req2.id, "foreman", Role::Foreman).unwrap();
    assert_eq!(tool_release(&state, &mut board, &req2.id).unwrap().status, Status::Todo);
    let stored = get_requirement(&board, &req2.id).unwrap();
    assert!(stored.claimed_by.is_none());
    assert_eq!(
        tool_get_requirement(&state, &board, "missing").unwrap_err(),
        "requirement not found: missing"
    );
}

#[test]
fn pair_binding_pins_project() {
    let mut board = Board::new();
    let a = create_project(&mut board, "A", "#000", "", "").unwrap();
    let b = create_project(&mut board, "B", "#000", "", "").unwrap();
    let req_b = create_requirement(&mut board, input(&b.id, "other")).unwrap();

    let mut state = planner_session();
    state.binding = Some(PairBinding { project_id: a.id.clone(), seat: AgentSeat::Discuss });

    assert_eq!(effective_project_id(&state, Some(&b.id)).unwrap(), a.id);
    assert!(assert_req_in_scope(&state, &req_b).is_err());

    let created = tool_create_requirement(
        &state,
        &mut board,
        Some(&b.id),
        "forced-into-a",
        None,
        None,
        "[]",
        "[]",
        "[]",
    )
    .unwrap();
    assert_eq!(created.project_id, a.id);
    assert_eq!(created.priority, "medium");

    let before = get_requirement(&board, &req_b.id).unwrap();
    let err = tool_cancel(&state, &mut board, &req_b.id).unwrap_err();
    assert_eq!(err, format!("requirement {} is not in bound project {}", req_b.id, a.id));
    let after = get_requirement(&board, &req_b.id).unwrap();
    assert_eq!(before.status, after.status);
}

#[test]
fn pair_code_opens_seat_session() {
    let mut board = Board::new();
    let mut file = PairFile::new();
    let p = create_project(&mut board, "P", "#000", "", "").unwrap();
    let codes = ensure_project_pair_codes(&mut board, &mut file, &p.id).unwrap();
    let s = pair_session(&board, &format!("  {}  ", codes.build)).unwrap();
    assert_eq!(s.surface, McpRole::Foreman);
    assert_eq!(s.auth.role, Role::Foreman);
    assert_eq!(s.auth.name, format!("build:{}", p.id));
    assert_eq!(s.binding.unwrap().project_id, p.id);
    let err = pair_session(&board, "disc_00").unwrap_err();
    assert_eq!(err.message(), "invalid --pair: invalid pair code");
}

#[test]
fn peer_hint_trims_and_drops_blanks() {
    let h = peer_hint("  cursor ", Some("  "), Some(" 1.2 ")).unwrap();
    assert_eq!(h.name, "cursor");
    assert_eq!(h.title, None);
    assert_eq!(h.version.as_deref(), Some("1.2"));
    assert!(peer_hint("   ", Some("t"), None).is_none());
}

#[test]
fn session_from_pair_or_role_and_token() {
    let mut board = Board::new();
    let mut file = PairFile::new();
    let tokens = generate_bootstrap_tokens(&mut board).unwrap();
    let ft = tokens.iter().find(|t| t.role == Role::Foreman).unwrap().plaintext.clone();
    let p = create_project(&mut board, "P", "#000", "", "").unwrap();
    let codes = ensure_project_pair_codes(&mut board, &mut file, &p.id).unwrap();
    let s = open_session(&board, Some(&format!(" {} ", codes.build)), None, None).unwrap();
    assert_eq!(s.surface, McpRole::Foreman);
    assert_eq!(s.binding.unwrap().project_id, p.id);
    let s = open_session(&board, Some("  "), Some(McpRole::Foreman), Some(&ft)).unwrap();
    assert_eq!(s.surface, McpRole::Foreman);
    assert!(s.binding.is_none());
    let e = open_session(&board, None, None, Some(&ft)).unwrap_err();
    assert_eq!(e.message(), "pass --pair <CODE> (product) or --role + --token (debug)");
    let e = open_session(&board, None, Some(McpRole::Planner), Some("")).unwrap_err();
    assert_eq!(e.message(), "token required without --pair: pass --token or set REQ_ENGINE_TOKEN");
    let e = open_session(&board, None, Some(McpRole::Planner), None).unwrap_err();
    assert_eq!(e.message(), "token required without --pair: pass --token or set REQ_ENGINE_TOKEN");
    let e = open_session(&board, Some("disc_nope"), Some(McpRole::Planner), Some(&ft)).unwrap_err();
    assert!(e.message().starts_with("invalid --pair: "));
}
