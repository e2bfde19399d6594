//! Project helpers over the store.

use req_engine::domain::models::AgentSeat;
use req_engine::services::projects::{
    ack_agent_seat, archive_project, create_project, create_project_with_id, get_project,
    list_projects, list_projects_filtered, normalize_local_path, unarchive_project,
    update_project, validate_project_id, ProjectError,
};
use req_engine::services::Board;

#[test]
fn create_and_list_with_local_path() {
    let mut board = Board::new();
    let p = create_project(
        &mut board,
        "Bound",
        "#111",
        "has folder",
        r"C:\Users\demo\work\app",
    )
    .unwrap();
    assert_eq!(p.local_path, r"C:\Users\demo\work\app");

    let list = list_projects(&board);
    assert_eq!(list.len(), 1);
    assert_eq!(list[0].local_path, r"C:\Users\demo\work\app");
}

#[test]
fn empty_local_path_is_unbound() {
    let mut board = Board::new();
    let p = create_project(&mut board, "Unbound", "#000", "", "   ").unwrap();
    assert_eq!(p.local_path, "");
}

#[test]
fn archive_hides_from_list() {
    let mut board = Board::new();
    let p = create_project(&mut board, "Gone", "#000", "", "").unwrap();
    assert_eq!(list_projects(&board).len(), 1);
    archive_project(&mut board, &p.id).unwrap();
    assert_eq!(list_projects(&board).len(), 0);
    assert!(get_project(&board, &p.id).unwrap().archived_at.is_some());
}

#[test]
fn ack_agent_seats() {
    
    let mut board = Board::new();
    let p = create_project(&mut board, "P", "#000", "", "").unwrap();
    assert!(p.discuss_agent_at.is_none());
    let p2 = ack_agent_seat(&mut board, &p.id, AgentSeat::Discuss).unwrap();
    assert!(p2.discuss_agent_at.is_some());
    let p3 = ack_agent_seat(&mut board, &p.id, AgentSeat::Build).unwrap();
    assert!(p3.build_agent_at.is_some());
}

#[test]
fn rejects_empty_and_unsafe_project_ids() {
    let mut board = Board::new();
    assert!(matches!(
        create_project_with_id(&mut board, "", "N", "#000", "", "").unwrap_err(),
        ProjectError::InvalidId(_)
    ));
    assert!(matches!(
        create_project_with_id(&mut board, "../etc/passwd", "N", "#000", "", "").unwrap_err(),
        ProjectError::InvalidId(_)
    ));
    assert!(matches!(
        create_project_with_id(&mut board, "has space", "N", "#000", "", "").unwrap_err(),
        ProjectError::InvalidId(_)
    ));
    let ok = create_project_with_id(&mut board, "demo-shop", "N", "#000", "", "").unwrap();
    assert_eq!(ok.id, "demo-shop");
    let uuid = create_project(&mut board, "Auto", "#000", "", "").unwrap();
    assert!(uuid.id.contains('-'));
}

#[test]
fn rejects_null_byte_in_local_path() {
    let mut board = Board::new();
    let err = create_project(&mut board, "Bad", "#000", "", "C:\\foo\0bar").unwrap_err();
    assert!(matches!(err, ProjectError::InvalidLocalPath(_)));
}

#[test]
fn update_project_local_path() {
    let mut board = Board::new();
    let p = create_project(&mut board, "P", "#000", "", "").unwrap();
    let updated = update_project(
        &mut board,
        &p.id,
        None,
        None,
        None,
        Some(r"D:\repos\my-app"),
    )
    .unwrap();
    assert_eq!(updated.local_path, r"D:\repos\my-app");
    assert_eq!(updated.name, "P");
}

#[test]
fn archive_rejects_metadata_writes_until_unarchive() {
    
    let mut board = Board::new();
    let p = create_project(&mut board, "Freeze", "#000", "", "").unwrap();
    archive_project(&mut board, &p.id).unwrap();

    let err = update_project(&mut board, &p.id, Some("Nope"), None, None, None).unwrap_err();
    assert!(matches!(err, ProjectError::Archived(_)), "got {err:?}");

    let err = ack_agent_seat(&mut board, &p.id, AgentSeat::Discuss).unwrap_err();
    assert!(matches!(err, ProjectError::Archived(_)), "got {err:?}");

    let restored = unarchive_project(&mut board, &p.id).unwrap();
    assert!(restored.archived_at.is_none());
    assert_eq!(list_projects(&board).len(), 1);

    let updated = update_project(&mut board, &p.id, Some("Thawed"), None, None, None).unwrap();
    assert_eq!(updated.name, "Thawed");
}

#[test]
fn list_order_is_active_first_then_name() {
    let mut board = Board::new();
    let c = create_project(&mut board, "Charlie", "#000", "", "").unwrap();
    create_project(&mut board, "alpha", "#000", "", "").unwrap();
    create_project(&mut board, "Bravo", "#000", "", "").unwrap();
    archive_project(&mut board, &c.id).unwrap();
    let names: Vec<String> = list_projects(&board).into_iter().map(|p| p.name).collect();
    assert_eq!(names, vec!["Bravo", "alpha"]);
    let all: Vec<String> =
        list_projects_filtered(&board, true).into_iter().map(|p| p.name).collect();
    assert_eq!(all, vec!["Bravo", "alpha", "Charlie"]);
}

#[test]
fn id_and_path_rules() {
    assert!(validate_project_id("  demo-shop ").is_err());
    assert!(validate_project_id("a_b-9").is_ok());
    assert!(validate_project_id("-lead").is_err());
    assert!(validate_project_id(&"x".repeat(65)).is_err());
    assert!(validate_project_id(&"x".repeat(64)).is_ok());
    assert_eq!(normalize_local_path("  /srv/app  ").unwrap(), "/srv/app");
    assert_eq!(normalize_local_path("   ").unwrap(), "");
    assert!(matches!(normalize_local_path("a\0b"), Err(ProjectError::InvalidLocalPath(_))));
}

#[test]
fn project_error_messages() {
    let mut board = Board::new();
    let e = create_project(&mut board, "  ", "#000", "", "").unwrap_err();
    assert_eq!(e.message(), "name must not be empty");
    create_project_with_id(&mut board, "dup", "N", "#000", "", "").unwrap();
    let e = create_project_with_id(&mut board, "dup", "N", "#000", "", "").unwrap_err();
    assert_eq!(e.message(), "project already exists: dup");
    let e = archive_project(&mut board, "nope").unwrap_err();
    assert_eq!(e.message(), "project not found: nope");
}

#[test]
fn unarchive_gives_the_project_back() {
    let mut board = Board::new();
    let p = create_project_with_id(&mut board, "alpha", "Alpha", "#123456", "blurb", "").unwrap();
    let a = archive_project(&mut board, "alpha").unwrap();
    assert!(a.archived_at.is_some());
    let back = unarchive_project(&mut board, "alpha").unwrap();
    assert!(back.archived_at.is_none());
    assert_eq!(back.id, p.id);
    assert_eq!(back.name, p.name);
    assert_eq!(back.color, p.color);
    assert_eq!(back.blurb, p.blurb);
    assert_eq!(back.local_path, p.local_path);
    assert_eq!(back.created_at, p.created_at);
    assert_eq!(back.discuss_agent_at, p.discuss_agent_at);
    assert_eq!(back.build_agent_at, p.build_agent_at);
    assert_eq!(board.projects.len(), 1);
    assert_eq!(get_project(&board, "alpha").unwrap().archived_at, None);
}

#[test]
fn project_ids_are_checked_as_given() {
    let e = validate_project_id(" demo ").unwrap_err();
    assert!(matches!(e, ProjectError::InvalidId(ref m) if m == "id must start with a letter or digit"));
    let e = validate_project_id("demo ").unwrap_err();
    assert!(matches!(e, ProjectError::InvalidId(ref m) if m == "id may only contain letters, digits, '_' and '-'"));
    let e = validate_project_id(&"a".repeat(65)).unwrap_err();
    assert!(matches!(e, ProjectError::InvalidId(ref m) if m == "id must be at most 64 characters"));
    assert!(validate_project_id(&"a".repeat(64)).is_ok());
    assert!(validate_project_id("demo-shop").is_ok());
    let mut board = Board::new();
    assert!(create_project_with_id(&mut board, " d", "N", "#000", "", "").is_err());
    assert!(board.projects.is_empty());
}
