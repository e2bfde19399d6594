//! Demo seed data.

use req_engine::services::projects::list_projects;
use req_engine::services::seed::seed_demo_data;
use req_engine::services::Board;

#[test]
fn seed_creates_four_projects_and_is_idempotent() {
    let mut board = Board::new();
    let r1 = seed_demo_data(&mut board).unwrap();
    assert_eq!(r1.projects_created, 4);
    assert!(r1.requirements_created >= 8);

    let r2 = seed_demo_data(&mut board).unwrap();
    assert_eq!(r2.projects_created, 0);
    assert_eq!(r2.projects_skipped, 4);

    let projects = list_projects(&board);
    assert_eq!(projects.len(), 4);
    let ids: Vec<_> = projects.iter().map(|p| p.id.as_str()).collect();
    assert!(ids.contains(&"demo-shop"));
    assert!(ids.contains(&"trace-sight"));
    assert!(ids.contains(&"req-engine"));
    assert!(ids.contains(&"mobile-h5"));
}

#[test]
fn seed_counts_and_fields() {
    let mut board = Board::new();
    let r = seed_demo_data(&mut board).unwrap();
    assert_eq!(r.requirements_created, 8);
    assert_eq!(board.requirements.len(), 8);
    let shop = board.projects.iter().find(|p| p.id == "demo-shop").unwrap();
    assert_eq!(shop.name, "Demo Shop");
    assert_eq!(shop.color, "#f59e0b");
    assert_eq!(shop.local_path, "");
    let cart = board.requirements.iter().find(|q| q.title == "Cart checkout flow").unwrap();
    assert_eq!(cart.project_id, "demo-shop");
    assert_eq!(cart.created_by, "seed");
    assert_eq!(cart.dependencies_json, "[]");
}

#[test]
fn seed_cards_are_unclaimed_todo_cards_of_new_projects() {
    let mut board = Board::new();
    req_engine::services::create_project_with_id(&mut board, "trace-sight", "Mine", "#000", "", "")
        .unwrap();
    let r = seed_demo_data(&mut board).unwrap();
    assert_eq!((r.projects_created, r.projects_skipped, r.requirements_created), (3, 1, 6));
    assert_eq!(board.requirements.len(), 6);
    for q in &board.requirements {
        assert_ne!(q.project_id, "trace-sight");
        assert_eq!(q.status, req_engine::Status::Todo);
        assert!(q.claimed_by.is_none());
        assert_eq!(q.created_by, "seed");
        assert_eq!(q.dependencies_json, "[]");
    }
    let mine = board.projects.iter().find(|p| p.id == "trace-sight").unwrap();
    assert_eq!(mine.name, "Mine");
    let nav = board.requirements.iter().find(|q| q.title == "Bottom navigation shell").unwrap();
    assert_eq!(nav.project_id, "mobile-h5");
    assert_eq!(nav.priority, "high");
    assert_eq!(nav.scope_json, "[\"tabs\",\"routing\"]");
}
