//! API token generation, hashing, and lookup.

use vstd::prelude::*;
use vstd::string::*;
use vstd::utf8::encode_utf8;

use crate::domain::models::{ApiToken, ApiTokenV, Micros};
use crate::domain::state::{role_name, Role};
use crate::outside::{hex_encode, hex_lower, random_bytes, sha256_digest, sha256_spec};
use crate::services::board::{
    find_first, find_token, lemma_dv_push, lemma_find_first_props, lemma_find_first_some,
    token_with_hash, Board, BoardV, TokenRow, TokenRowV,
};

verus! {

#[derive(Debug)]
pub struct GeneratedToken {
    pub role: Role,
    pub name: String,
    /// Plaintext token (print once / write to tokens.txt for local dev).
    pub plaintext: String,
    pub token_hash: String,
}

pub struct GeneratedTokenV {
    pub role: Role,
    pub name: Seq<char>,
    pub plaintext: Seq<char>,
    pub token_hash: Seq<char>,
}

impl DeepView for GeneratedToken {
    type V = GeneratedTokenV;

    open spec fn deep_view(&self) -> GeneratedTokenV {
        GeneratedTokenV {
            role: self.role,
            name: self.name@,
            plaintext: self.plaintext@,
            token_hash: self.token_hash@,
        }
    }
}

/// Why a token could not be stored.
#[derive(Debug)]
pub enum TokenError {
    /// A token with this hash is already stored (hashes are unique).
    DuplicateHash(String),
}

pub enum TokenErrorV {
    DuplicateHash(Seq<char>),
}

impl View for TokenError {
    type V = TokenErrorV;

    open spec fn view(&self) -> TokenErrorV {
        match self {
            TokenError::DuplicateHash(h) => TokenErrorV::DuplicateHash(h@),
        }
    }
}

impl TokenError {
    /// Human-readable message.
    pub fn message(&self) -> (r: String)
        ensures
            r@ == token_error_text(self@),
    {
        match self {
            TokenError::DuplicateHash(h) => {
                let mut m = String::from_str("duplicate token hash: ");
                m.append(h.as_str());
                m
            },
        }
    }
}

/// Text of a token error.
pub open spec fn token_error_text(e: TokenErrorV) -> Seq<char> {
    match e {
        TokenErrorV::DuplicateHash(h) => "duplicate token hash: "@ + h,
    }
}

/// Stored hash of a plaintext token: lower-case hex of the SHA-256 of its UTF-8 bytes.
pub open spec fn token_hash_spec(plaintext: Seq<char>) -> Seq<char> {
    hex_lower(sha256_spec(encode_utf8(plaintext)))
}

/// Plaintext token text made of random bytes: `req_` and their hex.
pub open spec fn token_text(bytes: Seq<u8>) -> Seq<char> {
    "req_"@ + hex_lower(bytes)
}

/// SHA-256 of the plaintext, as lower-case hex.
pub fn hash_token(plaintext: &str) -> (r: String)
    ensures
        r@ == token_hash_spec(plaintext@),
        r@.len() == 64,
{
    let digest = sha256_digest(plaintext.as_bytes());
    hex_encode(digest.as_slice())
}

/// Token text for the given bytes: `req_` and their lower-case hex.
pub fn token_from_bytes(bytes: &[u8]) -> (r: String)
    ensures
        r@ == token_text(bytes@),
{
    let mut s = String::from_str("req_");
    let h = hex_encode(bytes);
    s.append(h.as_str());
    s
}

/// A fresh plaintext token: `req_` and the hex of 32 random bytes.
pub fn random_token() -> (r: String)
    ensures
        exists|bytes: Seq<u8>| bytes.len() == 32 && r@ == token_text(bytes),
{
    let bytes = random_bytes(32);
    token_from_bytes(bytes.as_slice())
}

/// The bootstrap roles, in the order their tokens are issued.
pub open spec fn bootstrap_role(k: int) -> Role {
    if k == 0 {
        Role::Admin
    } else if k == 1 {
        Role::Planner
    } else {
        Role::Foreman
    }
}

/// Store after issuing the first `k` bootstrap tokens from `plains` at `now`, and the outcome:
/// each token is stored by hash under its role's name, and a hash that is already stored
/// stops the run (the tokens issued before it stay stored).
pub open spec fn bootstrap_spec(b: BoardV, plains: Seq<Seq<char>>, now: Micros, k: nat) -> (
    BoardV,
    Result<Seq<GeneratedTokenV>, TokenErrorV>,
)
    decreases k,
{
    if k == 0 {
        (b, Ok(Seq::empty()))
    } else {
        let (b1, r) = bootstrap_spec(b, plains, now, (k - 1) as nat);
        match r {
            Err(e) => (b1, Err(e)),
            Ok(gs) => {
                let role = bootstrap_role(k - 1);
                let h = token_hash_spec(plains[k - 1]);
                if find_first(b1.tokens, token_with_hash(h)) is Some {
                    (b1, Err(TokenErrorV::DuplicateHash(h)))
                } else {
                    let row = TokenRowV {
                        token_hash: h,
                        role: role_name(role),
                        name: role_name(role),
                        created_at: now,
                    };
                    let g = GeneratedTokenV {
                        role: role,
                        name: role_name(role),
                        plaintext: plains[k - 1],
                        token_hash: h,
                    };
                    (BoardV { tokens: b1.tokens.push(row), ..b1 }, Ok(gs.push(g)))
                }
            },
        }
    }
}

/// Store and outcome after issuing all three bootstrap tokens with plaintexts `a`, `p`, `f`.
pub open spec fn bootstrap_all(b: BoardV, a: Seq<char>, p: Seq<char>, f: Seq<char>, now: Micros) -> (
    BoardV,
    Result<Seq<GeneratedTokenV>, TokenErrorV>,
) {
    bootstrap_spec(b, seq![a, p, f], now, 3)
}

/// View of a bootstrap outcome.
pub open spec fn generated_result_v(r: Result<Vec<GeneratedToken>, TokenError>) -> Result<
    Seq<GeneratedTokenV>,
    TokenErrorV,
> {
    match r {
        Ok(v) => Ok(v.deep_view()),
        Err(e) => Err(e@),
    }
}

/// Store admin / planner / foreman tokens with the given plaintexts, stamped `now`.
pub fn generate_bootstrap_tokens_with(
    board: &mut Board,
    admin: &str,
    planner: &str,
    foreman: &str,
    now: Micros,
) -> (r: Result<Vec<GeneratedToken>, TokenError>)
    ensures
        (final(board)@, generated_result_v(r)) == bootstrap_all(
            old(board)@,
            admin@,
            planner@,
            foreman@,
            now,
        ),
{
    let ghost plains = seq![admin@, planner@, foreman@];
    let plaintexts = vec![admin, planner, foreman];
    let roles = vec![Role::Admin, Role::Planner, Role::Foreman];
    let mut out: Vec<GeneratedToken> = Vec::new();
    assert(out.deep_view() =~= Seq::<GeneratedTokenV>::empty());
    let mut k: usize = 0;
    while k < 3
        invariant
            k <= 3,
            plaintexts@.len() == 3,
            roles@.len() == 3,
            forall|j: int| 0 <= j < 3 ==> (#[trigger] plaintexts@[j])@ == plains[j],
            forall|j: int| 0 <= j < 3 ==> #[trigger] roles@[j] == bootstrap_role(j),
            plains == seq![admin@, planner@, foreman@],
            (board@, Ok::<Seq<GeneratedTokenV>, TokenErrorV>(out.deep_view())) == bootstrap_spec(
                old(board)@,
                plains,
                now,
                k as nat,
            ),
        decreases 3 - k,
    {
        let role = roles[k];
        let plain = plaintexts[k];
        let h = hash_token(plain);
        if find_token(&board.tokens, h.as_str()).is_some() {
            proof {
                lemma_bootstrap_err_stays(old(board)@, plains, now, (k + 1) as nat, 3);
            }
            return Err(TokenError::DuplicateHash(h));
        }
        let row = TokenRow {
            token_hash: h.clone(),
            role: String::from_str(role.as_str()),
            name: String::from_str(role.as_str()),
            created_at: now,
        };
        let ghost old_tokens = board.tokens;
        board.tokens.push(row);
        proof {
            lemma_dv_push(old_tokens, board.tokens, board.tokens@[board.tokens@.len() - 1]);
        }
        let g = GeneratedToken {
            role: role,
            name: String::from_str(role.as_str()),
            plaintext: String::from_str(plain),
            token_hash: h,
        };
        let ghost old_out = out;
        out.push(g);
        proof {
            lemma_dv_push(old_out, out, out@[out@.len() - 1]);
        }
        k += 1;
    }
    Ok(out)
}

/// Store admin / planner / foreman tokens with fresh random plaintexts, stamped now.
pub fn generate_bootstrap_tokens(board: &mut Board) -> (r: Result<Vec<GeneratedToken>, TokenError>)
    ensures
        exists|a: Seq<char>, p: Seq<char>, f: Seq<char>, now: Micros|
            (exists|x: Seq<u8>| x.len() == 32 && a == token_text(x)) && (exists|x: Seq<u8>|
                x.len() == 32 && p == token_text(x)) && (exists|x: Seq<u8>|
                x.len() == 32 && f == token_text(x)) && (final(board)@, generated_result_v(r))
                == #[trigger] bootstrap_all(old(board)@, a, p, f, now),
{
    let a = random_token();
    let p = random_token();
    let f = random_token();
    let now = crate::outside::now_micros();
    generate_bootstrap_tokens_with(board, a.as_str(), p.as_str(), f.as_str(), now)
}

/// What a lookup of `plaintext` finds: the first stored token with its hash, when its stored
/// role is a known role name; an unknown role is refused rather than read as another role.
pub open spec fn lookup_spec(b: BoardV, plaintext: Seq<char>) -> Option<ApiTokenV> {
    let h = token_hash_spec(plaintext);
    match find_first(b.tokens, token_with_hash(h)) {
        None => None,
        Some(i) => {
            let row = b.tokens[i];
            if exists|role: Role| role_name(role) == row.role {
                let role = choose|role: Role| role_name(role) == row.role;
                Some(
                    ApiTokenV {
                        token_hash: row.token_hash,
                        role: role,
                        name: row.name,
                        created_at: row.created_at,
                    },
                )
            } else {
                None
            }
        },
    }
}

/// Distinct roles have distinct names.
proof fn lemma_role_name_injective(a: Role, b: Role)
    requires
        role_name(a) == role_name(b),
    ensures
        a == b,
{
    reveal_strlit("admin");
    reveal_strlit("planner");
    reveal_strlit("foreman");
    assert("admin"@.len() == 5);
    assert("planner"@.len() == 7);
    assert("foreman"@.len() == 7);
    assert("planner"@[0] == 'p');
    assert("foreman"@[0] == 'f');
}

/// Once a bootstrap run has failed, later steps change nothing.
proof fn lemma_bootstrap_err_stays(b: BoardV, plains: Seq<Seq<char>>, now: Micros, k: nat, m: nat)
    requires
        k <= m,
        bootstrap_spec(b, plains, now, k).1 is Err,
    ensures
        bootstrap_spec(b, plains, now, m) == bootstrap_spec(b, plains, now, k),
    decreases m - k,
{
    if k < m {
        lemma_bootstrap_err_stays(b, plains, now, k, (m - 1) as nat);
    }
}

/// Look up a bearer token by hashing its plaintext and matching the stored hashes.
pub fn lookup_token(board: &Board, plaintext: &str) -> (r: Option<ApiToken>)
    ensures
        r.deep_view() == lookup_spec(board@, plaintext@),
{
    let h = hash_token(plaintext);
    match find_token(&board.tokens, h.as_str()) {
        None => None,
        Some(i) => {
            let row = &board.tokens[i];
            match Role::parse(row.role.as_str()) {
                None => None,
                Some(role) => {
                    proof {
                        let c = choose|x: Role| role_name(x) == row.role@;
                        lemma_role_name_injective(c, role);
                    }
                    Some(
                        ApiToken {
                            token_hash: row.token_hash.clone(),
                            role: role,
                            name: row.name.clone(),
                            created_at: row.created_at,
                        },
                    )
                },
            }
        },
    }
}

/// The token issued at position `i` of a store is found again by its plaintext when no row
/// before it has the same hash.
proof fn lemma_issued_row_found(
    tokens: Seq<TokenRowV>,
    i: int,
    plaintext: Seq<char>,
    role: Role,
    now: Micros,
)
    requires
        0 <= i < tokens.len(),
        tokens[i] == (TokenRowV {
            token_hash: token_hash_spec(plaintext),
            role: role_name(role),
            name: role_name(role),
            created_at: now,
        }),
        find_first(tokens.take(i), token_with_hash(token_hash_spec(plaintext))) is None,
    ensures
        find_first(tokens, token_with_hash(token_hash_spec(plaintext))) == Some(i),
{
    let p = token_with_hash(token_hash_spec(plaintext));
    lemma_find_first_props(tokens.take(i), p);
    assert forall|j: int| 0 <= j < i implies !p(#[trigger] tokens[j]) by {
        assert(tokens.take(i)[j] == tokens[j]);
    }
    lemma_find_first_some(tokens, p, i);
}

/// A completed bootstrap can be used at once: looking up each issued plaintext finds its token,
/// with the role it was issued for and that role's name.
pub proof fn law_bootstrap_tokens_found(
    b: BoardV,
    admin: Seq<char>,
    planner: Seq<char>,
    foreman: Seq<char>,
    now: Micros,
)
    requires
        bootstrap_all(b, admin, planner, foreman, now).1 is Ok,
    ensures
        lookup_spec(bootstrap_all(b, admin, planner, foreman, now).0, admin) == Some(
            ApiTokenV {
                token_hash: token_hash_spec(admin),
                role: Role::Admin,
                name: "admin"@,
                created_at: now,
            },
        ),
        lookup_spec(bootstrap_all(b, admin, planner, foreman, now).0, planner) == Some(
            ApiTokenV {
                token_hash: token_hash_spec(planner),
                role: Role::Planner,
                name: "planner"@,
                created_at: now,
            },
        ),
        lookup_spec(bootstrap_all(b, admin, planner, foreman, now).0, foreman) == Some(
            ApiTokenV {
                token_hash: token_hash_spec(foreman),
                role: Role::Foreman,
                name: "foreman"@,
                created_at: now,
            },
        ),
{
    let plains = seq![admin, planner, foreman];
    let s1 = bootstrap_spec(b, plains, now, 1);
    let s2 = bootstrap_spec(b, plains, now, 2);
    let s3 = bootstrap_spec(b, plains, now, 3);
    assert(bootstrap_spec(b, plains, now, 0) == (b, Ok::<Seq<GeneratedTokenV>, TokenErrorV>(Seq::empty())));
    let n: int = b.tokens.len() as int;
    let t = s3.0.tokens;
    assert(s1.1 is Ok);
    assert(s2.1 is Ok);
    assert(t.len() == n + 3);
    assert(t.take(n) =~= b.tokens);
    assert(t.take(n + 1) =~= s1.0.tokens);
    assert(t.take(n + 2) =~= s2.0.tokens);
    lemma_issued_row_found(t, n, admin, Role::Admin, now);
    lemma_issued_row_found(t, n + 1, planner, Role::Planner, now);
    lemma_issued_row_found(t, n + 2, foreman, Role::Foreman, now);
    let ca = choose|x: Role| #[trigger] role_name(x) == role_name(Role::Admin);
    lemma_role_name_injective(ca, Role::Admin);
    let cp = choose|x: Role| #[trigger] role_name(x) == role_name(Role::Planner);
    lemma_role_name_injective(cp, Role::Planner);
    let cf = choose|x: Role| #[trigger] role_name(x) == role_name(Role::Foreman);
    lemma_role_name_injective(cf, Role::Foreman);
}

} // verus!

verus! {

/// The lines of `tokens.txt` above the tokens; the annotated form (written by `init`) adds a
/// line on where the hashes are.
pub open spec fn tokens_header(at: Seq<char>, annotated: bool) -> Seq<Seq<char>> {
    if annotated {
        seq![
            "# req-engine bootstrap tokens — treat as secrets"@,
            "# Generated at "@ + at,
            "# Hash is stored in DB; plaintext only here / printed once"@,
            Seq::<char>::empty(),
        ]
    } else {
        seq!["# req-engine bootstrap tokens — treat as secrets"@, "# Generated at "@ + at, Seq::<char>::empty()]
    }
}

/// The line that gives a token: `role=plaintext`.
pub open spec fn token_line(g: GeneratedTokenV) -> Seq<char> {
    role_name(g.role) + "="@ + g.plaintext
}

/// The lines of one token in `tokens.txt`; the annotated form puts a `# role=… name=…` line
/// above it.
pub open spec fn token_entry(g: GeneratedTokenV, annotated: bool) -> Seq<Seq<char>> {
    if annotated {
        seq!["# role="@ + role_name(g.role) + " name="@ + g.name, token_line(g)]
    } else {
        seq![token_line(g)]
    }
}

/// The lines of all tokens, in order.
pub open spec fn token_entries(gs: Seq<GeneratedTokenV>, annotated: bool) -> Seq<Seq<char>>
    decreases gs.len(),
{
    if gs.len() == 0 {
        Seq::empty()
    } else {
        token_entries(gs.drop_last(), annotated) + token_entry(gs.last(), annotated)
    }
}

/// Lines written one after the other, each ended by a line feed.
pub open spec fn join_lines(ls: Seq<Seq<char>>) -> Seq<char>
    decreases ls.len(),
{
    if ls.len() == 0 {
        Seq::empty()
    } else {
        join_lines(ls.drop_last()) + ls.last() + "\n"@
    }
}

/// The text of `tokens.txt` for `gs`, generated at `at`.
pub open spec fn tokens_file_spec(gs: Seq<GeneratedTokenV>, at: Seq<char>, annotated: bool) -> Seq<
    char,
> {
    join_lines(tokens_header(at, annotated) + token_entries(gs, annotated))
}

/// Writing one line.
pub proof fn lemma_join_one(l: Seq<char>)
    ensures
        join_lines(seq![l]) == l + "\n"@,
{
    assert(seq![l].drop_last() =~= Seq::<Seq<char>>::empty());
    assert(join_lines(Seq::<Seq<char>>::empty()) == Seq::<char>::empty());
    assert(Seq::<char>::empty() + l + "\n"@ =~= l + "\n"@);
}

/// Writing a run of lines and then one more.
pub proof fn lemma_join_push(ls: Seq<Seq<char>>, l: Seq<char>)
    ensures
        join_lines(ls.push(l)) == join_lines(ls) + l + "\n"@,
{
    assert(ls.push(l).drop_last() =~= ls);
}

/// Writing two runs of lines is writing their concatenation.
pub proof fn lemma_join_concat(a: Seq<Seq<char>>, b: Seq<Seq<char>>)
    ensures
        join_lines(a + b) == join_lines(a) + join_lines(b),
    decreases b.len(),
{
    if b.len() == 0 {
        assert(a + b =~= a);
        assert(join_lines(b) =~= Seq::<char>::empty());
        assert(join_lines(a) + join_lines(b) =~= join_lines(a));
    } else {
        lemma_join_concat(a, b.drop_last());
        assert((a + b).drop_last() =~= a + b.drop_last());
        assert(join_lines(a) + join_lines(b) =~= join_lines(a) + join_lines(b.drop_last()) + b.last() + "\n"@);
    }
}

/// The text of `tokens.txt`: a header, then each token's lines (see `tokens_file_spec`).
pub fn tokens_file_text(tokens: &Vec<GeneratedToken>, generated_at: &str, annotated: bool) -> (r:
    String)
    ensures
        r@ == tokens_file_spec(tokens.deep_view(), generated_at@, annotated),
{
    let ghost gs = tokens.deep_view();
    let mut out = String::from_str("# req-engine bootstrap tokens — treat as secrets\n# Generated at ");
    out.append(generated_at);
    out.append("\n");
    if annotated {
        out.append("# Hash is stored in DB; plaintext only here / printed once\n");
    }
    out.append("\n");
    proof {
        let h = tokens_header(generated_at@, annotated);
        reveal_strlit("# req-engine bootstrap tokens — treat as secrets\n# Generated at ");
        reveal_strlit("# req-engine bootstrap tokens — treat as secrets");
        reveal_strlit("# Generated at ");
        reveal_strlit("\n");
        reveal_strlit("# Hash is stored in DB; plaintext only here / printed once\n");
        reveal_strlit("# Hash is stored in DB; plaintext only here / printed once");
        assert("# req-engine bootstrap tokens — treat as secrets\n# Generated at "@ =~= "# req-engine bootstrap tokens — treat as secrets"@ + "\n"@ + "# Generated at "@);
        assert("# Hash is stored in DB; plaintext only here / printed once\n"@ =~= "# Hash is stored in DB; plaintext only here / printed once"@ + "\n"@);
        let l0 = "# req-engine bootstrap tokens — treat as secrets"@;
        let l1 = "# Generated at "@ + generated_at@;
        let l2 = "# Hash is stored in DB; plaintext only here / printed once"@;
        lemma_join_one(l0);
        lemma_join_push(seq![l0], l1);
        assert(seq![l0].push(l1) =~= seq![l0, l1]);
        if annotated {
            lemma_join_push(seq![l0, l1], l2);
            assert(seq![l0, l1].push(l2) =~= seq![l0, l1, l2]);
            lemma_join_push(seq![l0, l1, l2], Seq::<char>::empty());
            assert(seq![l0, l1, l2].push(Seq::<char>::empty()) =~= h);
        } else {
            lemma_join_push(seq![l0, l1], Seq::<char>::empty());
            assert(seq![l0, l1].push(Seq::<char>::empty()) =~= h);
        }
        assert(out@ =~= join_lines(h));
        assert(gs.take(0) =~= Seq::<GeneratedTokenV>::empty());
        assert(h + token_entries(gs.take(0), annotated) =~= h);
    }
    let mut i: usize = 0;
    while i < tokens.len()
        invariant
            gs == tokens.deep_view(),
            i <= tokens.len(),
            out@ == join_lines(tokens_header(generated_at@, annotated) + token_entries(gs.take(i as int), annotated)),
        decreases tokens.len() - i,
    {
        let t = &tokens[i];
        let ghost before = out@;
        let ghost g = gs[i as int];
        let ghost prev = tokens_header(generated_at@, annotated) + token_entries(gs.take(i as int), annotated);
        if annotated {
            out.append("# role=");
            out.append(t.role.as_str());
            out.append(" name=");
            out.append(t.name.as_str());
            out.append("\n");
        }
        out.append(t.role.as_str());
        out.append("=");
        out.append(t.plaintext.as_str());
        out.append("\n");
        proof {
            assert(gs.take(i + 1).drop_last() =~= gs.take(i as int));
            assert(gs.take(i + 1).last() == g);
            lemma_join_concat(prev, token_entry(g, annotated));
            assert(prev + token_entry(g, annotated) =~= tokens_header(generated_at@, annotated)
                + token_entries(gs.take(i + 1), annotated));
            let c = "# role="@ + role_name(g.role) + " name="@ + g.name;
            if annotated {
                lemma_join_one(c);
                lemma_join_push(seq![c], token_line(g));
                assert(seq![c].push(token_line(g)) =~= token_entry(g, annotated));
            } else {
                lemma_join_one(token_line(g));
            }
            assert(out@ =~= before + join_lines(token_entry(g, annotated)));
        }
        i += 1;
    }
    proof {
        assert(gs.take(gs.len() as int) =~= gs);
    }
    out
}

} // verus!
