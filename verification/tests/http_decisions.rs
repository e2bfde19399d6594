//! HTTP decisions: role gates, bearer parsing, error answers, sent projects.

use req_engine::domain::models::AgentSeat;
use req_engine::domain::state::{Role, Status, TransitionError};
use req_engine::http::auth::{authenticate, bearer_token, endpoint_roles, AuthUser, Endpoint};
use req_engine::http::dto::{
    default_color, default_priority, health, occupant_dto, pair_codes_dto,
    project_dto_with_presence, ProjectDto,
};
use req_engine::http::error::{transition_to_api, ApiError};
use req_engine::services::pair_codes::{ensure_project_pair_codes, PairError, PairFile};
use req_engine::services::presence::{touch_seat_presence_at, OccupantHint, SeatLive};
use req_engine::services::projects::ProjectError;
use req_engine::services::requirements::{CreateRequirementError, VerbError};
use req_engine::services::{create_project, generate_bootstrap_tokens, Board};
use req_engine::http::dto::CreateProjectBody;
use req_engine::http::endpoints::create_project_endpoint;
use req_engine::http::endpoints::{pair_codes_endpoint, rotate_pair_code_endpoint};
use req_engine::services::pair_codes::lookup_pair_code;
use req_engine::http::endpoints::{ack_seat_param, rotate_seat_param};

#[test]
fn roles_per_endpoint() {
    let planner = AuthUser { role: Role::Planner, name: "planner".into() };
    let foreman = AuthUser { role: Role::Foreman, name: "foreman".into() };
    let admin = AuthUser { role: Role::Admin, name: "admin".into() };
    let err = planner.require_endpoint(Endpoint::Claim).unwrap_err();
    assert_eq!(err.status, 403);
    assert_eq!(err.code, "forbidden");
    assert_eq!(err.message, "role `planner` is not allowed for this endpoint");
    assert!(foreman.require_endpoint(Endpoint::Claim).is_ok());
    assert!(foreman.require_endpoint(Endpoint::CompleteReview).is_err());
    assert!(admin.require_endpoint(Endpoint::CompleteReview).is_ok());
    assert!(planner.require_endpoint(Endpoint::AckAgentSeat(AgentSeat::Discuss)).is_ok());
    assert!(planner.require_endpoint(Endpoint::AckAgentSeat(AgentSeat::Build)).is_err());
    assert!(foreman.require_endpoint(Endpoint::ListProjects).is_ok());
    assert_eq!(endpoint_roles(Endpoint::CreateRequirement), vec![Role::Admin, Role::Planner]);
    assert!(planner.require_roles(&[Role::Admin, Role::Planner]).is_ok());
    assert!(planner.require_roles(&[]).is_err());
}

#[test]
fn bearer_header_forms() {
    assert_eq!(bearer_token(Some("Bearer abc")).unwrap(), "abc");
    assert_eq!(bearer_token(Some("bearer  abc  ")).unwrap(), "abc");
    assert_eq!(bearer_token(None).unwrap_err().message, "missing Authorization header");
    assert_eq!(bearer_token(Some("Basic x")).unwrap_err().message, "expected Bearer token");
    assert_eq!(bearer_token(Some("Bearer    ")).unwrap_err().status, 401);
}

#[test]
fn authenticate_against_store() {
    let mut board = Board::new();
    let tokens = generate_bootstrap_tokens(&mut board).unwrap();
    let f = tokens.iter().find(|t| t.role == Role::Foreman).unwrap();
    let header = format!("Bearer {}", f.plaintext);
    let user = authenticate(&board, Some(&header)).unwrap();
    assert_eq!(user.role, Role::Foreman);
    assert_eq!(user.name, "foreman");
    let err = authenticate(&board, Some("Bearer nope")).unwrap_err();
    assert_eq!((err.status, err.code, err.message.as_str()), (401, "unauthorized", "invalid token"));
}

#[test]
fn error_answers() {
    let e = ApiError::from_verb(&VerbError::DependenciesNotMet);
    assert_eq!((e.status, e.code), (409, "dependencies_not_met"));
    assert_eq!(e.message, "cannot claim: one or more dependencies are not done");
    let e = ApiError::from_verb(&VerbError::RejectReasonRequired);
    assert_eq!((e.status, e.code), (400, "reject_reason_required"));
    let e = ApiError::from_verb(&VerbError::NotFound("r1".into()));
    assert_eq!((e.status, e.message.as_str()), (404, "requirement not found: r1"));
    let e = transition_to_api(&TransitionError::NotClaimant {
        actor: "bob".into(),
        claimed_by: Some("alice".into()),
    });
    assert_eq!(e.status, 403);
    assert_eq!(e.message, "actor `bob` is not the claimant (claimed_by=Some(\"alice\"))");
    let e = transition_to_api(&TransitionError::IllegalFromStatus { verb: "submit_for_review", from: Status::Todo });
    assert_eq!(e.message, "`submit_for_review` not allowed from status `todo`");
    let e = ApiError::from_create(&CreateRequirementError::EmptyTitle);
    assert_eq!((e.status, e.code), (400, "bad_request"));
    let e = ApiError::from_project(&ProjectError::Archived("p".into()));
    assert_eq!((e.status, e.code, e.message.as_str()), (409, "project_archived", "project is archived: p"));
    let e = ApiError::from_pair(&PairError::InvalidCode);
    assert_eq!((e.status, e.code), (401, "unauthorized"));
    let e = ApiError::from_pair(&PairError::File("bad json".into()));
    assert_eq!((e.status, e.code, e.message.as_str()), (500, "internal", "bad json"));
}

#[test]
fn sent_project_shows_live_seat() {
    let mut board = Board::new();
    let p = create_project(&mut board, "P", "#000", "", "").unwrap();
    let id = p.id.clone();
    let hint = OccupantHint { name: "cursor".into(), title: None, version: None };
    let now = chrono::Utc::now().timestamp_micros();
    touch_seat_presence_at(&mut board, &id, AgentSeat::Discuss, now, 7, Some(&hint));
    let dto = project_dto_with_presence(&board, p);
    assert!(dto.discuss_seated);
    assert!(!dto.build_seated);
    let occ = dto.discuss_occupant.unwrap();
    assert_eq!(occ.key, "cursor");
    assert_eq!(occ.raw_name, "cursor");
    assert!(dto.build_occupant.is_none());
    let plain = ProjectDto::from_project(req_engine::services::get_project(&board, &id).unwrap());
    assert!(!plain.discuss_seated);
    assert!(!plain.discuss_agent_configured);
}

#[test]
fn occupant_only_while_seated() {
    let empty = SeatLive::default();
    assert!(occupant_dto(&empty).is_none());
    let live = req_engine::services::presence::live_from(true, Some(1), Some(2), Some("zed".into()), None);
    let occ = occupant_dto(&live).unwrap();
    assert_eq!(occ.label, "Zed");
    assert_eq!(occ.hue, 45);
    let not_seated = req_engine::services::presence::live_from(false, Some(1), Some(2), Some("zed".into()), None);
    assert!(occupant_dto(&not_seated).is_none());
}

#[test]
fn pair_codes_answer_carries_prompts() {
    let mut board = Board::new();
    let mut file = PairFile::new();
    let p = create_project(&mut board, "P", "#000", "", "").unwrap();
    let codes = ensure_project_pair_codes(&mut board, &mut file, &p.id).unwrap();
    let dto = pair_codes_dto(&board, &p, &codes, "/opt/req-engine", "/home/u/.req-engine");
    assert_eq!(dto.discuss.code, codes.discuss);
    assert!(dto.discuss.copy_text.contains(&codes.discuss));
    assert!(dto.build.copy_text.contains("claim_task"));
    assert!(!dto.build.copy_text.contains("/opt/req-engine"));
    assert!(!dto.discuss.seated);
}

#[test]
fn defaults_and_health() {
    assert_eq!(default_color(), "#6366f1");
    assert_eq!(default_priority(), "medium");
    let h = health();
    assert_eq!((h.status, h.service), ("ok", "req-engine"));
}

#[test]
fn browser_origins_are_local_static_servers() {
    let o = req_engine::http::cors_origins();
    assert_eq!(o.len(), 9);
    assert!(o.contains(&"http://127.0.0.1:5500"));
    assert!(o.contains(&"http://localhost:8080"));
    assert!(o.contains(&"null"));
    assert!(!o.contains(&"http://127.0.0.1:7420"));
}

#[test]
fn creating_a_project_issues_its_pair_codes() {
    let mut board = Board::new();
    let mut file = PairFile::new();
    let body = CreateProjectBody {
        name: "Alpha".into(),
        color: "#111".into(),
        blurb: "".into(),
        local_path: "".into(),
        id: Some("alpha".into()),
    };
    let p = create_project_endpoint(&mut board, &mut file, &body).unwrap();
    assert_eq!(p.id, "alpha");
    assert!(p.discuss_pair_hash.is_none());
    let stored = &board.projects[0];
    assert!(stored.discuss_pair_hash.is_some());
    assert!(stored.build_pair_hash.is_some());
    let codes = req_engine::services::pair_codes::read_plaintext_codes(&file, "alpha").unwrap();
    assert!(codes.discuss.starts_with("disc_"));
    assert!(codes.build.starts_with("build_"));
    let again = create_project_endpoint(&mut board, &mut file, &body).unwrap_err();
    assert_eq!((again.status, again.code), (409, "conflict"));
    assert_eq!(again.message, "project already exists: alpha");
    let blank = CreateProjectBody { name: "  ".into(), id: None, ..body };
    let e = create_project_endpoint(&mut board, &mut file, &blank).unwrap_err();
    assert_eq!((e.status, e.code, e.message.as_str()), (400, "bad_request", "name must not be empty"));
    assert_eq!(board.projects.len(), 1);
}

#[test]
fn pair_code_answers_and_rotation() {
    let mut board = Board::new();
    let mut file = PairFile::new();
    let p = create_project(&mut board, "P", "#000", "", "").unwrap();
    let e = pair_codes_endpoint(&mut board, &mut file, "nope", "exe", "home").unwrap_err();
    assert_eq!((e.status, e.message.as_str()), (404, "project not found: nope"));
    let a = pair_codes_endpoint(&mut board, &mut file, &p.id, "exe", "home").unwrap();
    assert!(a.discuss.code.starts_with("disc_"));
    assert!(a.discuss.copy_text.contains(&a.discuss.code));
    assert!(a.build.copy_text.contains(&a.build.code));
    assert!(!a.discuss.seated);
    let b = pair_codes_endpoint(&mut board, &mut file, &p.id, "exe", "home").unwrap();
    assert_eq!(a.discuss.code, b.discuss.code);
    let r = rotate_pair_code_endpoint(&mut board, &mut file, &p.id, AgentSeat::Build, "exe", "home")
        .unwrap();
    assert_eq!(r.discuss.code, a.discuss.code);
    assert_ne!(r.build.code, a.build.code);
    assert!(lookup_pair_code(&board, &a.build.code).is_err());
    assert_eq!(lookup_pair_code(&board, &r.build.code).unwrap().project_id, p.id);
    let e = rotate_pair_code_endpoint(&mut board, &mut file, "nope", AgentSeat::Build, "exe", "home")
        .unwrap_err();
    assert_eq!(e.status, 404);
}

#[test]
fn seat_path_parameters() {
    assert_eq!(ack_seat_param("discuss").unwrap(), AgentSeat::Discuss);
    assert_eq!(rotate_seat_param(" BUILD ").unwrap(), AgentSeat::Build);
    let e = ack_seat_param("pilot").unwrap_err();
    assert_eq!(
        (e.status, e.code, e.message.as_str()),
        (400, "bad_request", "seat must be `discuss` (讨论 Agent) or `build` (实现 Agent)")
    );
    let e = rotate_seat_param("pilot").unwrap_err();
    assert_eq!(e.message, "seat must be `discuss` or `build`");
}
