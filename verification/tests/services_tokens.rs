//! Token generation, hashing and lookup.

use req_engine::domain::state::Role;
use req_engine::services::board::TokenRow;
use req_engine::desktop::admin_token_from;
use req_engine::services::tokens::{
    generate_bootstrap_tokens, generate_bootstrap_tokens_with, hash_token, lookup_token,
    token_from_bytes, tokens_file_text, TokenError,
};
use req_engine::services::Board;

#[test]
fn bootstrap_inserts_three_hashed_tokens() {
    let mut board = Board::new();
    let tokens = generate_bootstrap_tokens(&mut board).unwrap();
    assert_eq!(tokens.len(), 3);
    for t in &tokens {
        assert!(t.plaintext.starts_with("req_"));
        assert_eq!(hash_token(&t.plaintext), t.token_hash);
    }
    assert_eq!(board.tokens.len(), 3);
}

#[test]
fn lookup_roundtrip() {
    let mut board = Board::new();
    let tokens = generate_bootstrap_tokens(&mut board).unwrap();
    let admin = tokens.iter().find(|t| t.role == Role::Admin).unwrap();
    let found = lookup_token(&board, &admin.plaintext).unwrap();
    assert_eq!(found.role, Role::Admin);
    assert_eq!(found.name, "admin");
    assert!(lookup_token(&board, "nope").is_none());
}

#[test]
fn unknown_role_string_is_rejected() {
    let mut board = Board::new();
    let tokens = generate_bootstrap_tokens(&mut board).unwrap();
    let planner = tokens.iter().find(|t| t.role == Role::Planner).unwrap();
    for row in board.tokens.iter_mut() {
        if row.name == "planner" {
            row.role = "nope".to_string();
        }
    }
    let found = lookup_token(&board, &planner.plaintext);
    assert!(found.is_none(), "unknown role must not become Foreman: {found:?}");
}

#[test]
fn sha256_hex_of_known_text() {
    assert_eq!(
        hash_token("abc"),
        "ba7816bf8f01cfea414140de5dae2223b00361a396177a9cb410ff61f20015ad"
    );
    assert_eq!(hash_token("").len(), 64);
}

#[test]
fn token_text_is_prefix_and_hex() {
    assert_eq!(token_from_bytes(&[0x00, 0xab, 0xff]), "req_00abff");
    assert_eq!(token_from_bytes(&[]), "req_");
}

#[test]
fn bootstrap_with_fixed_plaintexts_then_duplicate_is_refused() {
    let mut board = Board::new();
    let tokens = generate_bootstrap_tokens_with(&mut board, "a1", "p1", "f1", 7).unwrap();
    assert_eq!(tokens[0].role, Role::Admin);
    assert_eq!(tokens[1].name, "planner");
    assert_eq!(tokens[2].token_hash, hash_token("f1"));
    assert_eq!(board.tokens[2].created_at, 7);
    assert_eq!(board.tokens[1].role, "planner");
    let err = generate_bootstrap_tokens_with(&mut board, "a2", "p1", "f2", 8).unwrap_err();
    match &err {
        TokenError::DuplicateHash(h) => assert_eq!(h, &hash_token("p1")),
    }
    assert_eq!(err.message(), format!("duplicate token hash: {}", hash_token("p1")));
    // The admin token issued before the clash stays stored.
    assert_eq!(board.tokens.len(), 4);
    assert_eq!(lookup_token(&board, "a2").unwrap().role, Role::Admin);
}

#[test]
fn first_stored_row_wins_lookup() {
    let mut board = Board::new();
    board.tokens.push(TokenRow {
        token_hash: hash_token("t"),
        role: "foreman".into(),
        name: "first".into(),
        created_at: 1,
    });
    board.tokens.push(TokenRow {
        token_hash: hash_token("t"),
        role: "admin".into(),
        name: "second".into(),
        created_at: 2,
    });
    let t = lookup_token(&board, "t").unwrap();
    assert_eq!(t.name, "first");
    assert_eq!(t.role, Role::Foreman);
    assert_eq!(t.created_at, 1);
}

#[test]
fn tokens_file_gives_the_admin_token_back() {
    let mut board = Board::new();
    let tokens = generate_bootstrap_tokens(&mut board).unwrap();
    let admin = tokens.iter().find(|t| t.role == Role::Admin).unwrap().plaintext.clone();
    for annotated in [true, false] {
        let text = tokens_file_text(&tokens, "2024-01-02T03:04:05+00:00", annotated);
        assert_eq!(admin_token_from(&text), Some(admin.clone()));
    }
}

#[test]
fn tokens_file_layout() {
    let mut board = Board::new();
    let tokens =
        generate_bootstrap_tokens_with(&mut board, "req_aa", "req_bb", "req_cc", 5).unwrap();
    let plain = tokens_file_text(&tokens, "T", false);
    assert_eq!(
        plain,
        "# req-engine bootstrap tokens — treat as secrets\n# Generated at T\n\nadmin=req_aa\nplanner=req_bb\nforeman=req_cc\n"
    );
    let annotated = tokens_file_text(&tokens, "T", true);
    assert_eq!(
        annotated,
        "# req-engine bootstrap tokens — treat as secrets\n# Generated at T\n# Hash is stored in DB; plaintext only here / printed once\n\n# role=admin name=admin\nadmin=req_aa\n# role=planner name=planner\nplanner=req_bb\n# role=foreman name=foreman\nforeman=req_cc\n"
    );
}
