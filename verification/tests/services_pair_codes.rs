//! Pair codes: issue, resolve, rotate, and the plaintext file.

use req_engine::domain::models::AgentSeat;
use req_engine::services::pair_codes::{
    ensure_all_project_pair_codes, ensure_project_pair_codes, ensure_project_pair_codes_with,
    generate_pair_code, hash_pair_code, lookup_pair_code, pair_code_from_bytes,
    read_plaintext_codes, rotate_pair_code, rotate_pair_code_with, seat_from_code_prefix,
    PairError, PairFile,
};
use req_engine::services::{create_project, Board};

#[test]
fn generate_uses_seat_prefix() {
    assert!(generate_pair_code(AgentSeat::Discuss).starts_with("disc_"));
    assert!(generate_pair_code(AgentSeat::Build).starts_with("build_"));
    assert_eq!(seat_from_code_prefix("disc_aa"), Some(AgentSeat::Discuss));
    assert_eq!(seat_from_code_prefix("build_aa"), Some(AgentSeat::Build));
    assert!(seat_from_code_prefix("req_aa").is_none());
    assert_eq!(generate_pair_code(AgentSeat::Build).len(), "build_".len() + 48);
}

#[test]
fn issue_lookup_rotate() {
    let mut board = Board::new();
    let mut file = PairFile::new();
    let p = create_project(&mut board, "Alpha", "#000", "", "").unwrap();

    let codes = ensure_project_pair_codes(&mut board, &mut file, &p.id).unwrap();
    assert!(codes.discuss.starts_with("disc_"));
    assert!(codes.build.starts_with("build_"));

    let d = lookup_pair_code(&board, &codes.discuss).unwrap();
    assert_eq!(d.project_id, p.id);
    assert_eq!(d.seat, AgentSeat::Discuss);

    let b = lookup_pair_code(&board, &codes.build).unwrap();
    assert_eq!(b.seat, AgentSeat::Build);

    assert!(lookup_pair_code(&board, "disc_deadbeef").is_err());

    // The prefix of the other seat must not resolve (hashes live in different columns).
    assert!(lookup_pair_code(&board, &codes.discuss.replace("disc_", "build_")).is_err());

    let old = codes.discuss.clone();
    let new_d = rotate_pair_code(&mut board, &mut file, &p.id, AgentSeat::Discuss).unwrap();
    assert_ne!(old, new_d);
    assert!(lookup_pair_code(&board, &old).is_err());
    assert_eq!(lookup_pair_code(&board, &new_d).unwrap().seat, AgentSeat::Discuss);
    assert_eq!(lookup_pair_code(&board, &codes.build).unwrap().seat, AgentSeat::Build);
    assert_eq!(read_plaintext_codes(&file, &p.id).unwrap().discuss, new_d);
}

#[test]
fn ensure_is_idempotent_when_hashes_exist() {
    let mut board = Board::new();
    let mut file = PairFile::new();
    let p = create_project(&mut board, "Beta", "#000", "", "").unwrap();
    let a = ensure_project_pair_codes(&mut board, &mut file, &p.id).unwrap();
    let b = ensure_project_pair_codes(&mut board, &mut file, &p.id).unwrap();
    assert_eq!(a, b);
}

#[test]
fn fixed_codes_are_issued_and_hashed() {
    let mut board = Board::new();
    let mut file = PairFile::new();
    let p = create_project(&mut board, "Gamma", "#000", "", "").unwrap();
    let c = ensure_project_pair_codes_with(&mut board, &mut file, &p.id, "disc_1", "build_2").unwrap();
    assert_eq!(c.discuss, "disc_1");
    assert_eq!(c.build, "build_2");
    assert_eq!(board.projects[0].discuss_pair_hash.as_deref(), Some(hash_pair_code("disc_1").as_str()));
    assert_eq!(lookup_pair_code(&board, "build_2 ").unwrap().project_id, p.id);
    let rotated = rotate_pair_code_with(&mut board, &mut file, &p.id, AgentSeat::Build, "build_3").unwrap();
    assert_eq!(rotated, "build_3");
    assert!(lookup_pair_code(&board, "build_2").is_err());
    assert_eq!(read_plaintext_codes(&file, &p.id).unwrap().build, "build_3");
    assert_eq!(read_plaintext_codes(&file, &p.id).unwrap().discuss, "disc_1");
}

#[test]
fn errors_and_messages() {
    let mut board = Board::new();
    let mut file = PairFile::new();
    let err = ensure_project_pair_codes(&mut board, &mut file, "ghost").unwrap_err();
    assert!(matches!(err, PairError::NotFound(_)));
    assert_eq!(err.message(), "project not found: ghost");
    let err = read_plaintext_codes(&file, "ghost").unwrap_err();
    assert_eq!(
        err.message(),
        "plaintext pair codes missing for project ghost; rotate to issue new ones"
    );
    let err = lookup_pair_code(&board, "req_x").unwrap_err();
    assert!(matches!(err, PairError::InvalidCode));
    assert_eq!(err.message(), "invalid pair code");
    assert!(matches!(
        rotate_pair_code(&mut board, &mut file, "ghost", AgentSeat::Build).unwrap_err(),
        PairError::NotFound(_)
    ));
}

#[test]
fn lost_plaintext_is_reported_but_hashes_stay() {
    let mut board = Board::new();
    let mut file = PairFile::new();
    let p = create_project(&mut board, "Delta", "#000", "", "").unwrap();
    ensure_project_pair_codes(&mut board, &mut file, &p.id).unwrap();
    let hash = board.projects[0].discuss_pair_hash.clone();
    let mut empty = PairFile::new();
    let err = ensure_project_pair_codes(&mut board, &mut empty, &p.id).unwrap_err();
    assert!(matches!(err, PairError::PlaintextLost(_)));
    assert_eq!(board.projects[0].discuss_pair_hash, hash);
}

#[test]
fn ensure_all_issues_for_every_project() {
    let mut board = Board::new();
    let mut file = PairFile::new();
    create_project(&mut board, "One", "#000", "", "").unwrap();
    create_project(&mut board, "Two", "#000", "", "").unwrap();
    ensure_all_project_pair_codes(&mut board, &mut file).unwrap();
    for p in &board.projects {
        assert_eq!(p.discuss_pair_hash.as_ref().map(|h| h.len()), Some(64));
        assert_eq!(p.build_pair_hash.as_ref().map(|h| h.len()), Some(64));
        let codes = read_plaintext_codes(&file, &p.id).unwrap();
        assert_eq!(lookup_pair_code(&board, &codes.discuss).unwrap().project_id, p.id);
        assert_eq!(p.discuss_pair_hash.as_deref(), Some(hash_pair_code(&codes.discuss).as_str()));
        assert_eq!(p.build_pair_hash.as_deref(), Some(hash_pair_code(&codes.build).as_str()));
    }
}

#[test]
fn code_text_from_bytes() {
    assert_eq!(pair_code_from_bytes(AgentSeat::Discuss, &[1, 0xfe]), "disc_01fe");
    assert_eq!(pair_code_from_bytes(AgentSeat::Build, &[]), "build_");
}

#[test]
fn leading_space_hides_the_prefix() {
    let mut board = Board::new();
    let mut file = PairFile::new();
    let p = create_project(&mut board, "Eps", "#000", "", "").unwrap();
    ensure_project_pair_codes_with(&mut board, &mut file, &p.id, "disc_1", "build_2").unwrap();
    assert!(matches!(lookup_pair_code(&board, " build_2"), Err(PairError::InvalidCode)));
}

#[test]
fn pair_file_keeps_one_entry_per_project() {
    let mut board = Board::new();
    let mut file = PairFile::new();
    let a = create_project(&mut board, "Delta", "#000", "", "").unwrap();
    let b = create_project(&mut board, "Epsilon", "#000", "", "").unwrap();
    ensure_project_pair_codes(&mut board, &mut file, &a.id).unwrap();
    ensure_project_pair_codes(&mut board, &mut file, &b.id).unwrap();
    ensure_project_pair_codes(&mut board, &mut file, &a.id).unwrap();
    rotate_pair_code(&mut board, &mut file, &a.id, AgentSeat::Build).unwrap();
    rotate_pair_code_with(&mut board, &mut file, &b.id, AgentSeat::Discuss, "disc_9").unwrap();
    ensure_all_project_pair_codes(&mut board, &mut file).unwrap();
    assert_eq!(file.projects.len(), 2);
    assert_eq!(file.projects.iter().filter(|e| e.project_id == a.id).count(), 1);
    assert_eq!(file.projects.iter().filter(|e| e.project_id == b.id).count(), 1);
}
