//! Seat heartbeats and what the UI shows.

use req_engine::domain::models::AgentSeat;
use req_engine::services::presence::{
    clear_seat_presence_pid, project_presence_at, touch_seat_presence_at, OccupantHint, SEAT_TTL,
};
use req_engine::services::{create_project, Board};

#[test]
fn touch_then_seated_until_ttl() {
    let mut board = Board::new();
    let p = create_project(&mut board, "P", "#111", "", "").unwrap();
    let t0: i64 = 1_700_000_000_000_000;
    touch_seat_presence_at(&mut board, &p.id, AgentSeat::Discuss, t0, 42, None);
    let live = project_presence_at(&board, &p.id, t0);
    assert!(live.discuss.seated);
    assert!(!live.build.seated);

    let stale = project_presence_at(&board, &p.id, t0 + SEAT_TTL + 1_000_000);
    assert!(!stale.discuss.seated);

    clear_seat_presence_pid(&mut board, &p.id, AgentSeat::Discuss, 99);
    let still = project_presence_at(&board, &p.id, t0);
    assert!(still.discuss.seated, "other pid must not clear occupant");

    clear_seat_presence_pid(&mut board, &p.id, AgentSeat::Discuss, 42);
    let gone = project_presence_at(&board, &p.id, t0);
    assert!(!gone.discuss.seated);
}

#[test]
fn client_name_survives_heartbeat_without_hint() {
    let mut board = Board::new();
    let p = create_project(&mut board, "P", "#111", "", "").unwrap();
    let t0: i64 = 1_700_000_000_000_000;
    let hint = OccupantHint { name: "cursor".into(), title: None, version: Some("1".into()) };
    touch_seat_presence_at(&mut board, &p.id, AgentSeat::Discuss, t0, 1, Some(&hint));
    touch_seat_presence_at(&mut board, &p.id, AgentSeat::Discuss, t0, 1, None);
    let live = project_presence_at(&board, &p.id, t0);
    assert_eq!(live.discuss.client_name.as_deref(), Some("cursor"));
    assert_eq!(live.discuss.face.as_ref().map(|f| f.key.as_str()), Some("cursor"));
}

#[test]
fn ttl_edge_is_inclusive() {
    let mut board = Board::new();
    let t0: i64 = 10;
    touch_seat_presence_at(&mut board, "p", AgentSeat::Build, t0, 5, None);
    assert!(project_presence_at(&board, "p", t0 + SEAT_TTL).build.seated);
    assert!(!project_presence_at(&board, "p", t0 + SEAT_TTL + 1).build.seated);
    assert_eq!(SEAT_TTL, 15_000_000);
}

#[test]
fn heartbeat_keeps_start_and_one_row() {
    let mut board = Board::new();
    touch_seat_presence_at(&mut board, "p", AgentSeat::Build, 100, 5, None);
    let live = touch_seat_presence_at(&mut board, "p", AgentSeat::Build, 200, 6, None);
    assert!(live.seated);
    assert_eq!(live.pid, Some(6));
    assert_eq!(board.presence.len(), 1);
    assert_eq!(board.presence[0].started_at, 100);
    assert_eq!(board.presence[0].last_seen_at, 200);
    let shown = project_presence_at(&board, "p", 200);
    assert_eq!(shown.build.last_seen_at, Some(200));
    assert!(shown.build.face.is_none());
}

#[test]
fn clear_keeps_one_row_per_seat() {
    let mut board = Board::new();
    let t0: i64 = 1_000;
    touch_seat_presence_at(&mut board, "p", AgentSeat::Discuss, t0, 1, None);
    touch_seat_presence_at(&mut board, "p", AgentSeat::Build, t0, 2, None);
    touch_seat_presence_at(&mut board, "q", AgentSeat::Discuss, t0, 3, None);
    touch_seat_presence_at(&mut board, "p", AgentSeat::Discuss, t0 + 1, 4, None);
    clear_seat_presence_pid(&mut board, "p", AgentSeat::Build, 2);
    assert_eq!(board.presence.len(), 2);
    let pd = board.presence.iter().filter(|r| r.project_id == "p" && r.seat == AgentSeat::Discuss).count();
    assert_eq!(pd, 1);
    assert!(project_presence_at(&board, "q", t0).discuss.seated);
    assert!(!project_presence_at(&board, "p", t0).build.seated);
}
