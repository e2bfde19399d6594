//! Per-project MCP pairing codes.
//!
//! The store keeps SHA-256 hashes of the current codes on each project (the source of truth);
//! the plaintext codes live in a separate pair-codes file, held here as a `PairFile`.

use vstd::prelude::*;
use vstd::string::*;

use crate::domain::models::{AgentSeat, Project, ProjectV};
use crate::outside::{hex_encode, hex_lower, random_bytes};
use crate::services::board::{
    find_first, find_project, lemma_dv_push, lemma_dv_update, lemma_find_first_none,
    lemma_find_first_props, lemma_find_first_same, lemma_find_first_some, project_with_id, Board,
    BoardV,
};
use crate::services::projects::{
    lemma_same_ids_same_pos, lemma_with_project_keeps_pos, project_pos, with_project,
};
use crate::services::tokens::{hash_token, token_hash_spec};
use crate::outside::hex_digit;
use crate::text::{has_prefix, is_ws, owned, str_eq, str_starts_with, str_trim, trim, trim_end, trim_start};

verus! {

/// The project and seat that a pair code opens.
#[derive(Debug, PartialEq, Eq)]
pub struct PairBinding {
    pub project_id: String,
    pub seat: AgentSeat,
}

pub struct PairBindingV {
    pub project_id: Seq<char>,
    pub seat: AgentSeat,
}

impl DeepView for PairBinding {
    type V = PairBindingV;

    open spec fn deep_view(&self) -> PairBindingV {
        PairBindingV { project_id: self.project_id@, seat: self.seat }
    }
}

/// The plaintext codes of one project's two seats (empty = not known).
#[derive(Debug, PartialEq, Eq)]
pub struct SeatPlaintexts {
    pub discuss: String,
    pub build: String,
}

pub struct SeatPlaintextsV {
    pub discuss: Seq<char>,
    pub build: Seq<char>,
}

impl DeepView for SeatPlaintexts {
    type V = SeatPlaintextsV;

    open spec fn deep_view(&self) -> SeatPlaintextsV {
        SeatPlaintextsV { discuss: self.discuss@, build: self.build@ }
    }
}

impl SeatPlaintexts {
    /// Field-by-field copy.
    pub fn copy(&self) -> (r: SeatPlaintexts)
        ensures
            r.deep_view() == self.deep_view(),
    {
        SeatPlaintexts { discuss: self.discuss.clone(), build: self.build.clone() }
    }
}

/// One entry of the pair-codes file.
#[derive(Debug)]
pub struct PairEntry {
    pub project_id: String,
    pub codes: SeatPlaintexts,
}

pub struct PairEntryV {
    pub project_id: Seq<char>,
    pub codes: SeatPlaintextsV,
}

impl DeepView for PairEntry {
    type V = PairEntryV;

    open spec fn deep_view(&self) -> PairEntryV {
        PairEntryV { project_id: self.project_id@, codes: self.codes.deep_view() }
    }
}

/// The pair-codes file: plaintext codes by project id.
#[derive(Debug)]
pub struct PairFile {
    pub projects: Vec<PairEntry>,
}

pub struct PairFileV {
    pub projects: Seq<PairEntryV>,
}

impl View for PairFile {
    type V = PairFileV;

    open spec fn view(&self) -> PairFileV {
        PairFileV { projects: self.projects.deep_view() }
    }
}

impl PairFile {
    /// A file with no entries.
    pub fn new() -> (r: PairFile)
        ensures
            r@.projects.len() == 0,
            pair_file_wf(r@),
    {
        PairFile { projects: Vec::new() }
    }
}

#[derive(Debug)]
pub enum PairError {
    InvalidCode,
    NotFound(String),
    PlaintextLost(String),
    File(String),
}

pub enum PairErrorV {
    InvalidCode,
    NotFound(Seq<char>),
    PlaintextLost(Seq<char>),
    File(Seq<char>),
}

impl View for PairError {
    type V = PairErrorV;

    open spec fn view(&self) -> PairErrorV {
        match self {
            PairError::InvalidCode => PairErrorV::InvalidCode,
            PairError::NotFound(s) => PairErrorV::NotFound(s@),
            PairError::PlaintextLost(s) => PairErrorV::PlaintextLost(s@),
            PairError::File(s) => PairErrorV::File(s@),
        }
    }
}

/// Text of a pair-code error.
pub open spec fn pair_error_text(e: PairErrorV) -> Seq<char> {
    match e {
        PairErrorV::InvalidCode => "invalid pair code"@,
        PairErrorV::NotFound(id) => "project not found: "@ + id,
        PairErrorV::PlaintextLost(id) => "plaintext pair codes missing for project "@ + id
            + "; rotate to issue new ones"@,
        PairErrorV::File(m) => "pair-codes file: "@ + m,
    }
}

impl PairError {
    /// Human-readable message.
    pub fn message(&self) -> (r: String)
        ensures
            r@ == pair_error_text(self@),
    {
        match self {
            PairError::InvalidCode => String::from_str("invalid pair code"),
            PairError::NotFound(id) => {
                let mut m = String::from_str("project not found: ");
                m.append(id.as_str());
                m
            },
            PairError::PlaintextLost(id) => {
                let mut m = String::from_str("plaintext pair codes missing for project ");
                m.append(id.as_str());
                m.append("; rotate to issue new ones");
                m
            },
            PairError::File(msg) => {
                let mut m = String::from_str("pair-codes file: ");
                m.append(msg.as_str());
                m
            },
        }
    }
}

/// Prefix that marks the seat a code belongs to.
pub open spec fn seat_prefix(seat: AgentSeat) -> Seq<char> {
    match seat {
        AgentSeat::Discuss => "disc_"@,
        AgentSeat::Build => "build_"@,
    }
}

/// Code text for a seat made of the given bytes: the seat's prefix and their hex.
pub open spec fn pair_code_text(seat: AgentSeat, bytes: Seq<u8>) -> Seq<char> {
    seat_prefix(seat) + hex_lower(bytes)
}

/// Seat named by a code's prefix.
pub open spec fn seat_from_prefix_spec(code: Seq<char>) -> Option<AgentSeat> {
    if has_prefix(code, "disc_"@) {
        Some(AgentSeat::Discuss)
    } else if has_prefix(code, "build_"@) {
        Some(AgentSeat::Build)
    } else {
        None
    }
}

/// The stored hash of a project's code for a seat.
pub open spec fn seat_hash(p: ProjectV, seat: AgentSeat) -> Option<Seq<char>> {
    match seat {
        AgentSeat::Discuss => p.discuss_pair_hash,
        AgentSeat::Build => p.build_pair_hash,
    }
}

/// `p` with the stored hash of `seat` set to `h`.
pub open spec fn with_seat_hash(p: ProjectV, seat: AgentSeat, h: Seq<char>) -> ProjectV {
    match seat {
        AgentSeat::Discuss => ProjectV { discuss_pair_hash: Some(h), ..p },
        AgentSeat::Build => ProjectV { build_pair_hash: Some(h), ..p },
    }
}

/// A seat has no usable code when its hash is missing or empty.
pub open spec fn needs_code(h: Option<Seq<char>>) -> bool {
    match h {
        None => true,
        Some(s) => s.len() == 0,
    }
}

/// Projects whose code for `seat` has hash `h`.
pub open spec fn project_with_seat_hash(seat: AgentSeat, h: Seq<char>) -> spec_fn(ProjectV) -> bool {
    |p: ProjectV| seat_hash(p, seat) == Some(h)
}

/// File entries of the project `pid`.
pub open spec fn entry_for(pid: Seq<char>) -> spec_fn(PairEntryV) -> bool {
    |e: PairEntryV| e.project_id == pid
}

/// No project id has more than one entry in the file.
pub open spec fn pair_file_wf(f: PairFileV) -> bool {
    forall|i: int, j: int|
        0 <= i < j < f.projects.len() ==> (#[trigger] f.projects[i]).project_id
            != (#[trigger] f.projects[j]).project_id
}

/// The plaintexts the file holds for `pid`, if it has an entry.
pub open spec fn file_codes(f: PairFileV, pid: Seq<char>) -> Option<SeatPlaintextsV> {
    match find_first(f.projects, entry_for(pid)) {
        Some(i) => Some(f.projects[i].codes),
        None => None,
    }
}

/// The plaintexts the file holds for `pid`, or two empty codes.
pub open spec fn codes_or_empty(f: PairFileV, pid: Seq<char>) -> SeatPlaintextsV {
    match file_codes(f, pid) {
        Some(c) => c,
        None => SeatPlaintextsV { discuss: Seq::empty(), build: Seq::empty() },
    }
}

/// The file with the entry of `pid` set to `codes` (added at the end when it has none).
pub open spec fn set_codes(f: PairFileV, pid: Seq<char>, codes: SeatPlaintextsV) -> PairFileV {
    let e = PairEntryV { project_id: pid, codes: codes };
    match find_first(f.projects, entry_for(pid)) {
        Some(i) => PairFileV { projects: f.projects.update(i, e) },
        None => PairFileV { projects: f.projects.push(e) },
    }
}

/// `codes` with the code of `seat` replaced.
pub open spec fn with_seat_code(codes: SeatPlaintextsV, seat: AgentSeat, code: Seq<char>) -> SeatPlaintextsV {
    match seat {
        AgentSeat::Discuss => SeatPlaintextsV { discuss: code, ..codes },
        AgentSeat::Build => SeatPlaintextsV { build: code, ..codes },
    }
}

/// Reading the plaintexts of `pid`: both must be known.
pub open spec fn codes_result(f: PairFileV, pid: Seq<char>) -> Result<SeatPlaintextsV, PairErrorV> {
    match file_codes(f, pid) {
        Some(c) => if c.discuss.len() > 0 && c.build.len() > 0 {
            Ok(c)
        } else {
            Err(PairErrorV::PlaintextLost(pid))
        },
        None => Err(PairErrorV::PlaintextLost(pid)),
    }
}

/// Issuing the missing codes of project `pid` with the fresh codes `fd` (discuss) and `fb`
/// (build): a seat whose hash is set keeps it; a seat without one gets the fresh code, whose
/// hash is stored and whose plaintext goes to the file. The answer is what the file then holds.
pub open spec fn ensure_spec(
    b: BoardV,
    f: PairFileV,
    pid: Seq<char>,
    fd: Seq<char>,
    fb: Seq<char>,
) -> (BoardV, PairFileV, Result<SeatPlaintextsV, PairErrorV>) {
    match project_pos(b, pid) {
        None => (b, f, Err(PairErrorV::NotFound(pid))),
        Some(i) => {
            let p = b.projects[i];
            let nd = needs_code(p.discuss_pair_hash);
            let nb = needs_code(p.build_pair_hash);
            if !nd && !nb {
                (b, f, codes_result(f, pid))
            } else {
                let np = ProjectV {
                    discuss_pair_hash: if nd {
                        Some(token_hash_spec(fd))
                    } else {
                        p.discuss_pair_hash
                    },
                    build_pair_hash: if nb {
                        Some(token_hash_spec(fb))
                    } else {
                        p.build_pair_hash
                    },
                    ..p
                };
                let cur = codes_or_empty(f, pid);
                let nc = SeatPlaintextsV {
                    discuss: if nd {
                        fd
                    } else {
                        cur.discuss
                    },
                    build: if nb {
                        fb
                    } else {
                        cur.build
                    },
                };
                let nf = set_codes(f, pid, nc);
                (with_project(b, i, np), nf, codes_result(nf, pid))
            }
        },
    }
}

/// Replacing the code of `seat` of project `pid` with `code`.
pub open spec fn rotate_spec(
    b: BoardV,
    f: PairFileV,
    pid: Seq<char>,
    seat: AgentSeat,
    code: Seq<char>,
) -> (BoardV, PairFileV, Result<Seq<char>, PairErrorV>) {
    match project_pos(b, pid) {
        None => (b, f, Err(PairErrorV::NotFound(pid))),
        Some(i) => {
            let np = with_seat_hash(b.projects[i], seat, token_hash_spec(code));
            let nf = set_codes(f, pid, with_seat_code(codes_or_empty(f, pid), seat, code));
            (with_project(b, i, np), nf, Ok(code))
        },
    }
}

/// Resolving a plaintext code: its prefix names the seat, and the first project whose hash for
/// that seat is the hash of the trimmed code is the one it opens.
pub open spec fn pair_lookup_spec(b: BoardV, code: Seq<char>) -> Result<PairBindingV, PairErrorV> {
    match seat_from_prefix_spec(code) {
        None => Err(PairErrorV::InvalidCode),
        Some(seat) => match find_first(
            b.projects,
            project_with_seat_hash(seat, token_hash_spec(trim(code))),
        ) {
            Some(i) => Ok(PairBindingV { project_id: b.projects[i].id, seat: seat }),
            None => Err(PairErrorV::InvalidCode),
        },
    }
}

/// View of an outcome that carries plaintexts.
pub open spec fn plaintexts_result_v(r: Result<SeatPlaintexts, PairError>) -> Result<
    SeatPlaintextsV,
    PairErrorV,
> {
    match r {
        Ok(c) => Ok(c.deep_view()),
        Err(e) => Err(e@),
    }
}

/// View of an outcome that carries a code.
pub open spec fn code_result_v(r: Result<String, PairError>) -> Result<Seq<char>, PairErrorV> {
    match r {
        Ok(c) => Ok(c@),
        Err(e) => Err(e@),
    }
}

/// View of a lookup outcome.
pub open spec fn binding_result_v(r: Result<PairBinding, PairError>) -> Result<
    PairBindingV,
    PairErrorV,
> {
    match r {
        Ok(c) => Ok(c.deep_view()),
        Err(e) => Err(e@),
    }
}

/// Hash stored for a pair code (the same hash as for API tokens).
pub fn hash_pair_code(plaintext: &str) -> (r: String)
    ensures
        r@ == token_hash_spec(plaintext@),
        r@.len() == 64,
{
    hash_token(plaintext)
}

/// Code text for `seat` from the given bytes.
pub fn pair_code_from_bytes(seat: AgentSeat, bytes: &[u8]) -> (r: String)
    ensures
        r@ == pair_code_text(seat, bytes@),
{
    let mut s = match seat {
        AgentSeat::Discuss => String::from_str("disc_"),
        AgentSeat::Build => String::from_str("build_"),
    };
    let h = hex_encode(bytes);
    s.append(h.as_str());
    s
}

/// A fresh code for `seat`: its prefix and the hex of 24 random bytes.
pub fn generate_pair_code(seat: AgentSeat) -> (r: String)
    ensures
        exists|bytes: Seq<u8>| bytes.len() == 24 && r@ == pair_code_text(seat, bytes),
{
    let bytes = random_bytes(24);
    pair_code_from_bytes(seat, bytes.as_slice())
}

/// Seat named by a code's prefix (`disc_` or `build_`).
pub fn seat_from_code_prefix(code: &str) -> (r: Option<AgentSeat>)
    ensures
        r == seat_from_prefix_spec(code@),
{
    if str_starts_with(code, "disc_") {
        Some(AgentSeat::Discuss)
    } else if str_starts_with(code, "build_") {
        Some(AgentSeat::Build)
    } else {
        None
    }
}

/// Whether a stored hash is missing or empty.
fn needs_code_exec(h: &Option<String>) -> (r: bool)
    ensures
        r == needs_code(h.deep_view()),
{
    match h {
        None => true,
        Some(s) => s.as_str().is_empty(),
    }
}

/// Position of the file entry of `pid`.
fn find_entry(file: &PairFile, pid: &str) -> (r: Option<usize>)
    ensures
        match r {
            Some(i) => find_first(file@.projects, entry_for(pid@)) == Some(i as int),
            None => find_first(file@.projects, entry_for(pid@)) is None,
        },
{
    let mut i: usize = 0;
    while i < file.projects.len()
        invariant
            0 <= i <= file.projects.len(),
            forall|j: int| 0 <= j < i ==> !entry_for(pid@)(#[trigger] file@.projects[j]),
        decreases file.projects.len() - i,
    {
        if str_eq(file.projects[i].project_id.as_str(), pid) {
            proof {
                lemma_find_first_some(file@.projects, entry_for(pid@), i as int);
            }
            return Some(i);
        }
        i += 1;
    }
    proof {
        lemma_find_first_none(file@.projects, entry_for(pid@));
    }
    None
}

/// The plaintexts the file holds for `pid`, or two empty codes.
fn current_codes(file: &PairFile, pid: &str) -> (r: SeatPlaintexts)
    ensures
        r.deep_view() == codes_or_empty(file@, pid@),
{
    match find_entry(file, pid) {
        Some(i) => file.projects[i].codes.copy(),
        None => SeatPlaintexts { discuss: String::new(), build: String::new() },
    }
}

/// Set the entry of `pid` to `codes`.
fn put_codes(file: &mut PairFile, pid: &str, codes: SeatPlaintexts)
    ensures
        final(file)@ == set_codes(old(file)@, pid@, codes.deep_view()),
{
    let e = PairEntry { project_id: owned(pid), codes: codes };
    let ghost old_entries = file.projects;
    match find_entry(file, pid) {
        Some(i) => {
            file.projects.set(i, e);
            proof {
                lemma_dv_update(old_entries, file.projects, i as int, file.projects@[i as int]);
            }
        },
        None => {
            file.projects.push(e);
            proof {
                lemma_dv_push(old_entries, file.projects, file.projects@[file.projects@.len() - 1]);
            }
        },
    }
}

/// Read the plaintext codes of a project from the file; both must be known.
pub fn read_plaintext_codes(file: &PairFile, project_id: &str) -> (r: Result<
    SeatPlaintexts,
    PairError,
>)
    ensures
        plaintexts_result_v(r) == codes_result(file@, project_id@),
{
    match find_entry(file, project_id) {
        Some(i) => {
            let c = &file.projects[i].codes;
            if !c.discuss.as_str().is_empty() && !c.build.as_str().is_empty() {
                Ok(c.copy())
            } else {
                Err(PairError::PlaintextLost(owned(project_id)))
            }
        },
        None => Err(PairError::PlaintextLost(owned(project_id))),
    }
}

/// Issue the missing codes of one project, using the given fresh codes where a seat has none.
/// Existing hashes are left alone.
pub fn ensure_project_pair_codes_with(
    board: &mut Board,
    file: &mut PairFile,
    project_id: &str,
    fresh_discuss: &str,
    fresh_build: &str,
) -> (r: Result<SeatPlaintexts, PairError>)
    ensures
        (final(board)@, final(file)@, plaintexts_result_v(r)) == ensure_spec(
            old(board)@,
            old(file)@,
            project_id@,
            fresh_discuss@,
            fresh_build@,
        ),
        project_pos(old(board)@, project_id@) is Some ==> ({
            &&& project_pos(final(board)@, project_id@) == project_pos(old(board)@, project_id@)
            &&& !needs_code(final(board)@.projects[project_pos(final(board)@, project_id@)->0].discuss_pair_hash)
            &&& !needs_code(final(board)@.projects[project_pos(final(board)@, project_id@)->0].build_pair_hash)
        }),
        r is Ok ==> forall|gd: Seq<char>, gb: Seq<char>|
            #[trigger] ensure_spec(final(board)@, final(file)@, project_id@, gd, gb) == (
                final(board)@,
                final(file)@,
                plaintexts_result_v(r),
            ),
{
    let i = match find_project(&board.projects, project_id) {
        None => return Err(PairError::NotFound(owned(project_id))),
        Some(i) => i,
    };
    let nd = needs_code_exec(&board.projects[i].discuss_pair_hash);
    let nb = needs_code_exec(&board.projects[i].build_pair_hash);
    if nd || nb {
        let mut p = board.projects[i].copy();
        if nd {
            p.discuss_pair_hash = Some(hash_pair_code(fresh_discuss));
        }
        if nb {
            p.build_pair_hash = Some(hash_pair_code(fresh_build));
        }
        let ghost old_projects = board.projects;
        let ghost old_b = board@;
        board.projects.set(i, p);
        proof {
            lemma_dv_update(old_projects, board.projects, i as int, board.projects@[i as int]);
            lemma_with_project_keeps_pos(old_b, i as int, board@.projects[i as int], project_id@);
        }
        let cur = current_codes(file, project_id);
        let nc = SeatPlaintexts {
            discuss: if nd {
                owned(fresh_discuss)
            } else {
                cur.discuss
            },
            build: if nb {
                owned(fresh_build)
            } else {
                cur.build
            },
        };
        put_codes(file, project_id, nc);
    }
    read_plaintext_codes(file, project_id)
}

/// Issue the missing codes of one project with fresh random codes. Existing hashes are left
/// alone.
pub fn ensure_project_pair_codes(board: &mut Board, file: &mut PairFile, project_id: &str) -> (r:
    Result<SeatPlaintexts, PairError>)
    ensures
        exists|x: Seq<u8>, y: Seq<u8>|
            x.len() == 24 && y.len() == 24 && (final(board)@, final(file)@, plaintexts_result_v(r))
                == #[trigger] ensure_spec(
                old(board)@,
                old(file)@,
                project_id@,
                pair_code_text(AgentSeat::Discuss, x),
                pair_code_text(AgentSeat::Build, y),
            ),
        project_pos(old(board)@, project_id@) is Some ==> ({
            &&& project_pos(final(board)@, project_id@) == project_pos(old(board)@, project_id@)
            &&& !needs_code(final(board)@.projects[project_pos(final(board)@, project_id@)->0].discuss_pair_hash)
            &&& !needs_code(final(board)@.projects[project_pos(final(board)@, project_id@)->0].build_pair_hash)
        }),
{
    let d = generate_pair_code(AgentSeat::Discuss);
    let b = generate_pair_code(AgentSeat::Build);
    ensure_project_pair_codes_with(board, file, project_id, d.as_str(), b.as_str())
}

/// Position of the first project whose hash for `seat` is `h`.
fn find_by_seat_hash(projects: &Vec<Project>, seat: AgentSeat, h: &str) -> (r: Option<usize>)
    ensures
        match r {
            Some(i) => find_first(projects.deep_view(), project_with_seat_hash(seat, h@)) == Some(
                i as int,
            ),
            None => find_first(projects.deep_view(), project_with_seat_hash(seat, h@)) is None,
        },
{
    let mut i: usize = 0;
    while i < projects.len()
        invariant
            0 <= i <= projects.len(),
            forall|j: int|
                0 <= j < i ==> !project_with_seat_hash(seat, h@)(#[trigger] projects.deep_view()[j]),
        decreases projects.len() - i,
    {
        let stored = match seat {
            AgentSeat::Discuss => &projects[i].discuss_pair_hash,
            AgentSeat::Build => &projects[i].build_pair_hash,
        };
        let hit = match stored {
            Some(x) => str_eq(x.as_str(), h),
            None => false,
        };
        if hit {
            proof {
                lemma_find_first_some(projects.deep_view(), project_with_seat_hash(seat, h@), i as int);
            }
            return Some(i);
        }
        i += 1;
    }
    proof {
        lemma_find_first_none(projects.deep_view(), project_with_seat_hash(seat, h@));
    }
    None
}

/// Resolve a plaintext pair code to its project and seat. The stored hashes decide.
pub fn lookup_pair_code(board: &Board, code: &str) -> (r: Result<PairBinding, PairError>)
    ensures
        binding_result_v(r) == pair_lookup_spec(board@, code@),
{
    let seat = match seat_from_code_prefix(code) {
        None => return Err(PairError::InvalidCode),
        Some(s) => s,
    };
    let h = hash_pair_code(str_trim(code));
    match find_by_seat_hash(&board.projects, seat, h.as_str()) {
        Some(i) => Ok(PairBinding { project_id: board.projects[i].id.clone(), seat: seat }),
        None => Err(PairError::InvalidCode),
    }
}

/// Replace the code of one seat of a project with `code`; the other seat keeps its code.
pub fn rotate_pair_code_with(
    board: &mut Board,
    file: &mut PairFile,
    project_id: &str,
    seat: AgentSeat,
    code: &str,
) -> (r: Result<String, PairError>)
    ensures
        (final(board)@, final(file)@, code_result_v(r)) == rotate_spec(
            old(board)@,
            old(file)@,
            project_id@,
            seat,
            code@,
        ),
{
    let i = match find_project(&board.projects, project_id) {
        None => return Err(PairError::NotFound(owned(project_id))),
        Some(i) => i,
    };
    let h = hash_pair_code(code);
    let mut p = board.projects[i].copy();
    match seat {
        AgentSeat::Discuss => p.discuss_pair_hash = Some(h),
        AgentSeat::Build => p.build_pair_hash = Some(h),
    }
    let ghost old_projects = board.projects;
    board.projects.set(i, p);
    proof {
        lemma_dv_update(old_projects, board.projects, i as int, board.projects@[i as int]);
    }
    let cur = current_codes(file, project_id);
    let nc = match seat {
        AgentSeat::Discuss => SeatPlaintexts { discuss: owned(code), build: cur.build },
        AgentSeat::Build => SeatPlaintexts { discuss: cur.discuss, build: owned(code) },
    };
    put_codes(file, project_id, nc);
    Ok(owned(code))
}

/// Replace the code of one seat of a project with a fresh random code, and hand it back.
pub fn rotate_pair_code(board: &mut Board, file: &mut PairFile, project_id: &str, seat: AgentSeat) -> (r:
    Result<String, PairError>)
    ensures
        exists|x: Seq<u8>|
            x.len() == 24 && (final(board)@, final(file)@, code_result_v(r)) == #[trigger] rotate_spec(
                old(board)@,
                old(file)@,
                project_id@,
                seat,
                pair_code_text(seat, x),
            ),
{
    let code = generate_pair_code(seat);
    rotate_pair_code_with(board, file, project_id, seat, code.as_str())
}

/// `a` and `b` are the same project apart from the stored pair-code hashes.
pub open spec fn same_but_pair_hashes(a: ProjectV, b: ProjectV) -> bool {
    a == ProjectV { discuss_pair_hash: a.discuss_pair_hash, build_pair_hash: a.build_pair_hash, ..b }
}

/// Whether issuing for `pid` would write codes: the project exists and misses a seat's hash.
pub open spec fn issues_for(b: BoardV, pid: Seq<char>) -> bool {
    project_pos(b, pid) matches Some(i) && (needs_code(b.projects[i].discuss_pair_hash) || needs_code(
        b.projects[i].build_pair_hash,
    ))
}

/// Issue codes for every project missing a hash. A project whose codes exist but whose
/// plaintexts were lost is passed over (its hashes stay).
pub fn ensure_all_project_pair_codes(board: &mut Board, file: &mut PairFile) -> (r: Result<
    (),
    PairError,
>)
    ensures
        r is Ok,
        final(board)@.requirements == old(board)@.requirements,
        final(board)@.events == old(board)@.events,
        final(board)@.tokens == old(board)@.tokens,
        final(board)@.presence == old(board)@.presence,
        final(board)@.projects.len() == old(board)@.projects.len(),
        forall|j: int|
            0 <= j < old(board)@.projects.len() ==> same_but_pair_hashes(
                #[trigger] final(board)@.projects[j],
                old(board)@.projects[j],
            ),
        forall|j: int|
            0 <= j < old(board)@.projects.len() && !needs_code(
                (#[trigger] old(board)@.projects[j]).discuss_pair_hash,
            ) ==> final(board)@.projects[j].discuss_pair_hash
                == old(board)@.projects[j].discuss_pair_hash,
        forall|j: int|
            0 <= j < old(board)@.projects.len() && !needs_code(
                (#[trigger] old(board)@.projects[j]).build_pair_hash,
            ) ==> final(board)@.projects[j].build_pair_hash
                == old(board)@.projects[j].build_pair_hash,
        forall|j: int|
            0 <= j < old(board)@.projects.len() && project_pos(
                old(board)@,
                (#[trigger] old(board)@.projects[j]).id,
            ) == Some(j) ==> !needs_code(final(board)@.projects[j].discuss_pair_hash)
                && !needs_code(final(board)@.projects[j].build_pair_hash),
        forall|j: int|
            0 <= j < old(board)@.projects.len() && project_pos(
                old(board)@,
                (#[trigger] old(board)@.projects[j]).id,
            ) == Some(j) && needs_code(old(board)@.projects[j].discuss_pair_hash)
                ==> final(board)@.projects[j].discuss_pair_hash == Some(
                token_hash_spec(codes_or_empty(final(file)@, old(board)@.projects[j].id).discuss),
            ),
        forall|j: int|
            0 <= j < old(board)@.projects.len() && project_pos(
                old(board)@,
                (#[trigger] old(board)@.projects[j]).id,
            ) == Some(j) && needs_code(old(board)@.projects[j].build_pair_hash)
                ==> final(board)@.projects[j].build_pair_hash == Some(
                token_hash_spec(codes_or_empty(final(file)@, old(board)@.projects[j].id).build),
            ),
        forall|q: Seq<char>|
            !issues_for(old(board)@, q) ==> #[trigger] file_codes(final(file)@, q) == file_codes(
                old(file)@,
                q,
            ),
        pair_file_wf(old(file)@) ==> pair_file_wf(final(file)@),
{
    let ghost b0 = board@;
    let ghost f0 = file@;
    let mut ids: Vec<String> = Vec::new();
    let mut k: usize = 0;
    while k < board.projects.len()
        invariant
            board@ == b0,
            k <= board@.projects.len(),
            ids@.len() == k,
            forall|j: int| 0 <= j < k ==> (#[trigger] ids@[j])@ == b0.projects[j].id,
        decreases board.projects.len() - k,
    {
        ids.push(board.projects[k].id.clone());
        k += 1;
    }
    let n = ids.len();
    let mut k: usize = 0;
    while k < n
        invariant
            n == b0.projects.len(),
            ids@.len() == n,
            forall|j: int| 0 <= j < n ==> (#[trigger] ids@[j])@ == b0.projects[j].id,
            k <= n,
            board@.requirements == b0.requirements,
            board@.events == b0.events,
            board@.tokens == b0.tokens,
            board@.presence == b0.presence,
            board@.projects.len() == n,
            forall|j: int|
                0 <= j < n ==> same_but_pair_hashes(#[trigger] board@.projects[j], b0.projects[j]),
            forall|j: int|
                0 <= j < n && !needs_code((#[trigger] b0.projects[j]).discuss_pair_hash)
                    ==> board@.projects[j].discuss_pair_hash == b0.projects[j].discuss_pair_hash,
            forall|j: int|
                0 <= j < n && !needs_code((#[trigger] b0.projects[j]).build_pair_hash)
                    ==> board@.projects[j].build_pair_hash == b0.projects[j].build_pair_hash,
            forall|j: int|
                0 <= j < k && project_pos(b0, (#[trigger] b0.projects[j]).id) == Some(j)
                    ==> !needs_code(board@.projects[j].discuss_pair_hash) && !needs_code(
                    board@.projects[j].build_pair_hash,
                ),
            forall|j: int|
                0 <= j < n && project_pos(b0, (#[trigger] b0.projects[j]).id) == Some(j) && k <= j
                    ==> board@.projects[j] == b0.projects[j],
            forall|j: int|
                0 <= j < k && project_pos(b0, (#[trigger] b0.projects[j]).id) == Some(j)
                    && needs_code(b0.projects[j].discuss_pair_hash)
                    ==> board@.projects[j].discuss_pair_hash == Some(
                    token_hash_spec(codes_or_empty(file@, b0.projects[j].id).discuss),
                ),
            forall|j: int|
                0 <= j < k && project_pos(b0, (#[trigger] b0.projects[j]).id) == Some(j)
                    && needs_code(b0.projects[j].build_pair_hash)
                    ==> board@.projects[j].build_pair_hash == Some(
                    token_hash_spec(codes_or_empty(file@, b0.projects[j].id).build),
                ),
            f0 == old(file)@,
            pair_file_wf(f0) ==> pair_file_wf(file@),
            forall|q: Seq<char>|
                !issues_for(b0, q) ==> #[trigger] file_codes(file@, q) == file_codes(f0, q),
        decreases n - k,
    {
        let ghost bk = board@;
        let ghost fk = file@;
        proof {
            lemma_same_ids_same_pos(bk, b0, ids@[k as int]@);
            lemma_find_first_props(b0.projects, project_with_id(ids@[k as int]@));
            assert(project_with_id(ids@[k as int]@)(b0.projects[k as int]));
        }
        let res = ensure_project_pair_codes(board, file, ids[k].as_str());
        proof {
            let id = ids@[k as int]@;
            let i = project_pos(b0, id)->0;
            let (x, y) = choose|x: Seq<u8>, y: Seq<u8>|
                x.len() == 24 && y.len() == 24 && (board@, file@, plaintexts_result_v(res))
                    == #[trigger] ensure_spec(
                    bk,
                    fk,
                    id,
                    pair_code_text(AgentSeat::Discuss, x),
                    pair_code_text(AgentSeat::Build, y),
                );
            assert(0 <= i <= k);
            assert forall|j: int| 0 <= j < n && j != i implies board@.projects[j] == bk.projects[j] by {}
            let nd = needs_code(bk.projects[i].discuss_pair_hash);
            let nb = needs_code(bk.projects[i].build_pair_hash);
            if nd || nb {
                assert(issues_for(b0, id)) by {
                    if i < k {
                        assert(project_pos(b0, b0.projects[i].id) == Some(i));
                    }
                }
                let cur = codes_or_empty(fk, id);
                let nc = SeatPlaintextsV {
                    discuss: if nd { pair_code_text(AgentSeat::Discuss, x) } else { cur.discuss },
                    build: if nb { pair_code_text(AgentSeat::Build, y) } else { cur.build },
                };
                lemma_set_codes_get(fk, id, nc);
                if pair_file_wf(fk) {
                    lemma_set_codes_keeps_wf(fk, id, nc);
                }
                assert forall|j: int| 0 <= j < n && b0.projects[j].id != id implies file_codes(
                    file@,
                    #[trigger] b0.projects[j].id,
                ) == file_codes(fk, b0.projects[j].id) by {
                    lemma_set_codes_other(fk, id, nc, b0.projects[j].id);
                }
                assert forall|q: Seq<char>| !issues_for(b0, q) implies #[trigger] file_codes(file@, q)
                    == file_codes(f0, q) by {
                    lemma_set_codes_other(fk, id, nc, q);
                }
            }
            assert forall|j: int|
                0 <= j < k + 1 && project_pos(b0, (#[trigger] b0.projects[j]).id) == Some(j)
                    && needs_code(b0.projects[j].discuss_pair_hash)
                    implies board@.projects[j].discuss_pair_hash == Some(
                    token_hash_spec(codes_or_empty(file@, b0.projects[j].id).discuss),
                ) by {
                if b0.projects[j].id != id {
                    assert(j != i);
                }
            }
            assert forall|j: int|
                0 <= j < k + 1 && project_pos(b0, (#[trigger] b0.projects[j]).id) == Some(j)
                    && needs_code(b0.projects[j].build_pair_hash)
                    implies board@.projects[j].build_pair_hash == Some(
                    token_hash_spec(codes_or_empty(file@, b0.projects[j].id).build),
                ) by {
                if b0.projects[j].id != id {
                    assert(j != i);
                }
            }
        }
        match res {
            Ok(_) => {},
            Err(PairError::PlaintextLost(_)) => {},
            Err(e) => {
                return Err(e);
            },
        }
        k += 1;
    }
    Ok(())
}

/// A generated code names its own seat and has no surrounding whitespace.
proof fn lemma_code_shape(seat: AgentSeat, x: Seq<u8>)
    requires
        x.len() > 0,
    ensures
        seat_from_prefix_spec(pair_code_text(seat, x)) == Some(seat),
        trim(pair_code_text(seat, x)) == pair_code_text(seat, x),
        pair_code_text(seat, x).len() > 0,
{
    reveal_strlit("disc_");
    reveal_strlit("build_");
    let c = pair_code_text(seat, x);
    let pre = seat_prefix(seat);
    assert(c.subrange(0, pre.len() as int) =~= pre);
    assert(c[0] == pre[0]);
    assert(!is_ws(c[0]));
    assert(trim_start(c) == c);
    let h = hex_lower(x);
    let n = x.len();
    assert(c.last() == h[2 * n - 1]);
    let d = x[n - 1] % 16;
    assert(h[2 * n - 1] == hex_digit(d));
    assert(!is_ws(hex_digit(d)));
    assert(trim_end(c) == c);
}

/// Setting the entry of `pid` leaves what the file holds for any other project.
proof fn lemma_set_codes_other(f: PairFileV, pid: Seq<char>, c: SeatPlaintextsV, q: Seq<char>)
    requires
        q != pid,
    ensures
        file_codes(set_codes(f, pid, c), q) == file_codes(f, q),
{
    let p = entry_for(q);
    let nf = set_codes(f, pid, c);
    lemma_find_first_props(f.projects, entry_for(pid));
    lemma_find_first_props(f.projects, p);
    match find_first(f.projects, entry_for(pid)) {
        Some(i) => {
            assert forall|j: int| 0 <= j < f.projects.len() implies p(#[trigger] nf.projects[j])
                == p(f.projects[j]) by {
                if j == i {
                    assert(entry_for(pid)(f.projects[i]));
                }
            }
            lemma_find_first_same(nf.projects, f.projects, p, p);
            match find_first(f.projects, p) {
                Some(k) => {
                    assert(k != i);
                },
                None => {},
            }
        },
        None => {
            let n = f.projects.len() as int;
            match find_first(f.projects, p) {
                Some(k) => {
                    assert forall|j: int| 0 <= j < k implies !p(#[trigger] nf.projects[j]) by {
                        assert(nf.projects[j] == f.projects[j]);
                    }
                    assert(nf.projects[k] == f.projects[k]);
                    lemma_find_first_some(nf.projects, p, k);
                },
                None => {
                    assert forall|j: int| 0 <= j < nf.projects.len() implies !p(
                        #[trigger] nf.projects[j],
                    ) by {
                        if j < n {
                            assert(nf.projects[j] == f.projects[j]);
                        }
                    }
                    lemma_find_first_none(nf.projects, p);
                },
            }
        },
    }
}

/// Setting the entry of `pid` makes it what the file then holds for `pid`.
proof fn lemma_set_codes_get(f: PairFileV, pid: Seq<char>, c: SeatPlaintextsV)
    ensures
        file_codes(set_codes(f, pid, c), pid) == Some(c),
{
    let p = entry_for(pid);
    let nf = set_codes(f, pid, c);
    lemma_find_first_props(f.projects, p);
    match find_first(f.projects, p) {
        Some(i) => {
            assert forall|j: int| 0 <= j < i implies !p(#[trigger] nf.projects[j]) by {
                assert(!p(f.projects[j]));
            }
            lemma_find_first_some(nf.projects, p, i);
        },
        None => {
            let n = f.projects.len() as int;
            assert forall|j: int| 0 <= j < n implies !p(#[trigger] nf.projects[j]) by {
                assert(!p(f.projects[j]));
            }
            lemma_find_first_some(nf.projects, p, n);
        },
    }
}

/// Setting the entry of `pid` keeps one entry per project id.
proof fn lemma_set_codes_keeps_wf(f: PairFileV, pid: Seq<char>, c: SeatPlaintextsV)
    requires
        pair_file_wf(f),
    ensures
        pair_file_wf(set_codes(f, pid, c)),
{
    let p = entry_for(pid);
    let nf = set_codes(f, pid, c);
    lemma_find_first_props(f.projects, p);
    match find_first(f.projects, p) {
        Some(k) => {
            assert(p(f.projects[k]));
            assert forall|i: int, j: int| 0 <= i < j < nf.projects.len() implies (
            #[trigger] nf.projects[i]).project_id != (#[trigger] nf.projects[j]).project_id by {
                assert(f.projects[i].project_id != f.projects[j].project_id);
            }
        },
        None => {
            let n = f.projects.len() as int;
            assert forall|i: int, j: int| 0 <= i < j < nf.projects.len() implies (
            #[trigger] nf.projects[i]).project_id != (#[trigger] nf.projects[j]).project_id by {
                if j == n {
                    assert(!p(f.projects[i]));
                } else {
                    assert(f.projects[i].project_id != f.projects[j].project_id);
                }
            }
        },
    }
}

/// Issuing and rotating codes keep the pair-codes file at one entry per project: a project that
/// had an entry has it rewritten in place, and one that had none gets a single new entry.
pub proof fn law_pair_file_keeps_one_entry_per_project(
    b: BoardV,
    f: PairFileV,
    pid: Seq<char>,
    fd: Seq<char>,
    fb: Seq<char>,
    seat: AgentSeat,
    code: Seq<char>,
)
    requires
        pair_file_wf(f),
    ensures
        pair_file_wf(ensure_spec(b, f, pid, fd, fb).1),
        pair_file_wf(rotate_spec(b, f, pid, seat, code).1),
{
    if let Some(i) = project_pos(b, pid) {
        let p = b.projects[i];
        let nd = needs_code(p.discuss_pair_hash);
        let nb = needs_code(p.build_pair_hash);
        let cur = codes_or_empty(f, pid);
        let nc = SeatPlaintextsV {
            discuss: if nd { fd } else { cur.discuss },
            build: if nb { fb } else { cur.build },
        };
        lemma_set_codes_keeps_wf(f, pid, nc);
        lemma_set_codes_keeps_wf(f, pid, with_seat_code(cur, seat, code));
    }
}

/// The project found by `project_pos` carries the id that was asked for.
proof fn lemma_pos_has_id(b: BoardV, pid: Seq<char>)
    requires
        project_pos(b, pid) is Some,
    ensures
        0 <= project_pos(b, pid)->0 < b.projects.len(),
        b.projects[project_pos(b, pid)->0].id == pid,
{
    lemma_find_first_props(b.projects, project_with_id(pid));
}

/// A fresh code just issued for a seat of project `pid` resolves to that project and seat,
/// provided no project already holds its hash for that seat; when both seats were issued,
/// the two fresh codes are what is handed back.
pub proof fn law_issued_codes_resolve(
    b: BoardV,
    f: PairFileV,
    pid: Seq<char>,
    x: Seq<u8>,
    y: Seq<u8>,
)
    requires
        project_pos(b, pid) is Some,
        x.len() > 0,
        y.len() > 0,
        forall|j: int|
            0 <= j < b.projects.len() ==> seat_hash(#[trigger] b.projects[j], AgentSeat::Discuss)
                != Some(token_hash_spec(pair_code_text(AgentSeat::Discuss, x))),
        forall|j: int|
            0 <= j < b.projects.len() ==> seat_hash(#[trigger] b.projects[j], AgentSeat::Build)
                != Some(token_hash_spec(pair_code_text(AgentSeat::Build, y))),
    ensures
        ({
            let d = pair_code_text(AgentSeat::Discuss, x);
            let c = pair_code_text(AgentSeat::Build, y);
            let after = ensure_spec(b, f, pid, d, c);
            let p = b.projects[project_pos(b, pid)->0];
            &&& needs_code(p.discuss_pair_hash) ==> pair_lookup_spec(after.0, d) == Ok::<PairBindingV, PairErrorV>(
                PairBindingV { project_id: pid, seat: AgentSeat::Discuss },
            )
            &&& needs_code(p.build_pair_hash) ==> pair_lookup_spec(after.0, c) == Ok::<PairBindingV, PairErrorV>(
                PairBindingV { project_id: pid, seat: AgentSeat::Build },
            )
            &&& needs_code(p.discuss_pair_hash) && needs_code(p.build_pair_hash) ==> after.2 == Ok::<SeatPlaintextsV, PairErrorV>(
                SeatPlaintextsV { discuss: d, build: c },
            )
        }),
{
    let d = pair_code_text(AgentSeat::Discuss, x);
    let c = pair_code_text(AgentSeat::Build, y);
    lemma_code_shape(AgentSeat::Discuss, x);
    lemma_code_shape(AgentSeat::Build, y);
    lemma_pos_has_id(b, pid);
    let i = project_pos(b, pid)->0;
    let p = b.projects[i];
    let after = ensure_spec(b, f, pid, d, c);
    let nd = needs_code(p.discuss_pair_hash);
    let nb = needs_code(p.build_pair_hash);
    if nd || nb {
        let b2 = after.0;
        assert(b2.projects.len() == b.projects.len());
        if nd {
            let q = project_with_seat_hash(AgentSeat::Discuss, token_hash_spec(d));
            assert forall|j: int| 0 <= j < i implies !q(#[trigger] b2.projects[j]) by {
                assert(b2.projects[j] == b.projects[j]);
            }
            lemma_find_first_some(b2.projects, q, i);
        }
        if nb {
            let q = project_with_seat_hash(AgentSeat::Build, token_hash_spec(c));
            assert forall|j: int| 0 <= j < i implies !q(#[trigger] b2.projects[j]) by {
                assert(b2.projects[j] == b.projects[j]);
            }
            lemma_find_first_some(b2.projects, q, i);
        }
        let cur = codes_or_empty(f, pid);
        let nc = SeatPlaintextsV {
            discuss: if nd { d } else { cur.discuss },
            build: if nb { c } else { cur.build },
        };
        lemma_set_codes_get(f, pid, nc);
    }
}

/// A code opens a seat only where a project holds its hash for the seat its prefix names: a
/// code with neither prefix, and a code whose hash no project holds for that seat (a made-up
/// code, or one seat's code under the other seat's prefix), are refused; a code that opens a
/// seat opens that of a project holding its hash.
pub proof fn law_unmatched_code_refused(b: BoardV, code: Seq<char>)
    ensures
        seat_from_prefix_spec(code) is None ==> pair_lookup_spec(b, code) == Err::<
            PairBindingV,
            PairErrorV,
        >(PairErrorV::InvalidCode),
        (seat_from_prefix_spec(code) is Some && forall|j: int|
            0 <= j < b.projects.len() ==> seat_hash(
                #[trigger] b.projects[j],
                seat_from_prefix_spec(code)->0,
            ) != Some(token_hash_spec(trim(code)))) ==> pair_lookup_spec(b, code) == Err::<
            PairBindingV,
            PairErrorV,
        >(PairErrorV::InvalidCode),
        pair_lookup_spec(b, code) matches Ok(bd) ==> seat_from_prefix_spec(code) == Some(bd.seat)
            && exists|j: int|
            0 <= j < b.projects.len() && (#[trigger] b.projects[j]).id == bd.project_id && seat_hash(
                b.projects[j],
                bd.seat,
            ) == Some(token_hash_spec(trim(code))),
{
    if let Some(seat) = seat_from_prefix_spec(code) {
        let p = project_with_seat_hash(seat, token_hash_spec(trim(code)));
        lemma_find_first_props(b.projects, p);
        if let Some(i) = find_first(b.projects, p) {
            assert(p(b.projects[i]));
        }
    }
}

/// Rotating the code of one seat: the new code resolves to the project and seat and is kept in
/// the file; an old code of that seat stops resolving unless it hashes like the new one or
/// another project holds its hash; codes of the other seat resolve exactly as before.
pub proof fn law_rotate_replaces_code(
    b: BoardV,
    f: PairFileV,
    pid: Seq<char>,
    seat: AgentSeat,
    x: Seq<u8>,
    old_code: Seq<char>,
    other: Seq<char>,
)
    requires
        project_pos(b, pid) is Some,
        x.len() > 0,
        forall|j: int|
            0 <= j < b.projects.len() && j != project_pos(b, pid)->0 ==> seat_hash(
                #[trigger] b.projects[j],
                seat,
            ) != Some(token_hash_spec(pair_code_text(seat, x))),
    ensures
        ({
            let new = pair_code_text(seat, x);
            let after = rotate_spec(b, f, pid, seat, new);
            let i = project_pos(b, pid)->0;
            let h_old = token_hash_spec(trim(old_code));
            &&& after.2 == Ok::<Seq<char>, PairErrorV>(new)
            &&& pair_lookup_spec(after.0, new) == Ok::<PairBindingV, PairErrorV>(PairBindingV { project_id: pid, seat: seat })
            &&& file_codes(after.1, pid) == Some(with_seat_code(codes_or_empty(f, pid), seat, new))
            &&& (seat_from_prefix_spec(old_code) == Some(seat) && h_old != token_hash_spec(new)
                && forall|j: int|
                0 <= j < b.projects.len() && j != i ==> seat_hash(#[trigger] b.projects[j], seat)
                    != Some(h_old)) ==> pair_lookup_spec(after.0, old_code) == Err::<
                PairBindingV,
                PairErrorV,
            >(PairErrorV::InvalidCode)
            &&& (seat_from_prefix_spec(other) is Some && seat_from_prefix_spec(other)->0 != seat)
                ==> pair_lookup_spec(after.0, other) == pair_lookup_spec(b, other)
        }),
{
    let new = pair_code_text(seat, x);
    lemma_code_shape(seat, x);
    lemma_pos_has_id(b, pid);
    let i = project_pos(b, pid)->0;
    let after = rotate_spec(b, f, pid, seat, new);
    let b2 = after.0;
    let h_new = token_hash_spec(new);
    let q = project_with_seat_hash(seat, h_new);
    assert forall|j: int| 0 <= j < i implies !q(#[trigger] b2.projects[j]) by {
        assert(b2.projects[j] == b.projects[j]);
    }
    lemma_find_first_some(b2.projects, q, i);
    lemma_set_codes_get(f, pid, with_seat_code(codes_or_empty(f, pid), seat, new));
    let h_old = token_hash_spec(trim(old_code));
    if seat_from_prefix_spec(old_code) == Some(seat) && h_old != h_new && forall|j: int|
        0 <= j < b.projects.len() && j != i ==> seat_hash(#[trigger] b.projects[j], seat) != Some(
            h_old,
        ) {
        let qo = project_with_seat_hash(seat, h_old);
        assert forall|j: int| 0 <= j < b2.projects.len() implies !qo(#[trigger] b2.projects[j]) by {
            if j != i {
                assert(b2.projects[j] == b.projects[j]);
            }
        }
        lemma_find_first_none(b2.projects, qo);
    }
    if seat_from_prefix_spec(other) is Some && seat_from_prefix_spec(other)->0 != seat {
        let s = seat_from_prefix_spec(other)->0;
        let qs = project_with_seat_hash(s, token_hash_spec(trim(other)));
        assert forall|j: int| 0 <= j < b2.projects.len() implies qs(#[trigger] b2.projects[j]) == qs(
            b.projects[j],
        ) by {
            if j != i {
                assert(b2.projects[j] == b.projects[j]);
            }
        }
        lemma_find_first_same(b2.projects, b.projects, qs, qs);
        lemma_find_first_props(b.projects, qs);
    }
}

} // verus!
