//! Live seat occupancy: paired MCP processes heartbeat into the store, and a seat counts as
//! occupied while its last heartbeat is within the TTL.

use vstd::prelude::*;

use crate::domain::models::{AgentSeat, Micros};
use crate::domain::state::clone_opt_string;
use crate::outside::now_micros;
use crate::services::board::{
    find_first, find_presence, lemma_dv_push, lemma_dv_update, lemma_filter_take_all,
    lemma_filter_keeps_all, lemma_filter_take_step, lemma_filter_take_zero, lemma_find_first_props, lemma_find_first_some,
    presence_of, Board, BoardV, SeatPresence, SeatPresenceV,
};
use crate::services::client_host::{recognize, recognize_spec, OccupantFace, OccupantFaceV};
use crate::text::str_eq;

verus! {

/// A missed-heartbeat window (15 s, in microseconds) after which a seat shows empty.
pub const SEAT_TTL: Micros = 15000000;

/// What a paired client says about itself.
#[derive(Debug)]
pub struct OccupantHint {
    pub name: String,
    pub title: Option<String>,
    pub version: Option<String>,
}

pub struct OccupantHintV {
    pub name: Seq<char>,
    pub title: Option<Seq<char>>,
    pub version: Option<Seq<char>>,
}

impl DeepView for OccupantHint {
    type V = OccupantHintV;

    open spec fn deep_view(&self) -> OccupantHintV {
        OccupantHintV {
            name: self.name@,
            title: self.title.deep_view(),
            version: self.version.deep_view(),
        }
    }
}

impl Default for OccupantHint {
    fn default() -> (r: OccupantHint)
        ensures
            r.name@.len() == 0,
            r.title is None,
            r.version is None,
    {
        OccupantHint { name: String::new(), title: None, version: None }
    }
}

/// One seat as the UI sees it.
#[derive(Debug)]
pub struct SeatLive {
    pub seated: bool,
    pub last_seen_at: Option<Micros>,
    pub pid: Option<i64>,
    pub client_name: Option<String>,
    pub client_title: Option<String>,
    pub face: Option<OccupantFace>,
}

pub struct SeatLiveV {
    pub seated: bool,
    pub last_seen_at: Option<Micros>,
    pub pid: Option<i64>,
    pub client_name: Option<Seq<char>>,
    pub client_title: Option<Seq<char>>,
    pub face: Option<OccupantFaceV>,
}

impl DeepView for SeatLive {
    type V = SeatLiveV;

    open spec fn deep_view(&self) -> SeatLiveV {
        SeatLiveV {
            seated: self.seated,
            last_seen_at: self.last_seen_at,
            pid: self.pid,
            client_name: self.client_name.deep_view(),
            client_title: self.client_title.deep_view(),
            face: match self.face {
                Some(f) => Some(f.deep_view()),
                None => None,
            },
        }
    }
}

impl Default for SeatLive {
    fn default() -> (r: SeatLive)
        ensures
            r.deep_view() == empty_live(),
    {
        live_from(false, None, None, None, None)
    }
}

/// Both seats of a project.
#[derive(Debug)]
pub struct ProjectPresence {
    pub discuss: SeatLive,
    pub build: SeatLive,
}

pub struct ProjectPresenceV {
    pub discuss: SeatLiveV,
    pub build: SeatLiveV,
}

impl DeepView for ProjectPresence {
    type V = ProjectPresenceV;

    open spec fn deep_view(&self) -> ProjectPresenceV {
        ProjectPresenceV { discuss: self.discuss.deep_view(), build: self.build.deep_view() }
    }
}

impl Default for ProjectPresence {
    fn default() -> (r: ProjectPresence)
        ensures
            r.deep_view() == (ProjectPresenceV { discuss: empty_live(), build: empty_live() }),
    {
        ProjectPresence { discuss: SeatLive::default(), build: SeatLive::default() }
    }
}

/// A seat as shown: the face is recognized from the client name, when there is one.
pub open spec fn live_from_spec(
    seated: bool,
    last: Option<Micros>,
    pid: Option<i64>,
    name: Option<Seq<char>>,
    title: Option<Seq<char>>,
) -> SeatLiveV {
    SeatLiveV {
        seated: seated,
        last_seen_at: last,
        pid: pid,
        client_name: name,
        client_title: title,
        face: match name {
            Some(n) => Some(recognize_spec(n, title)),
            None => None,
        },
    }
}

/// A seat with nobody on it.
pub open spec fn empty_live() -> SeatLiveV {
    live_from_spec(false, None, None, None, None)
}

/// `new` when given, else `old`.
pub open spec fn coalesce(new: Option<Seq<char>>, old: Option<Seq<char>>) -> Option<Seq<char>> {
    if new is Some {
        new
    } else {
        old
    }
}

/// Client name carried by an optional hint.
pub open spec fn hint_name(h: Option<OccupantHintV>) -> Option<Seq<char>> {
    match h {
        Some(x) => Some(x.name),
        None => None,
    }
}

/// Client title carried by an optional hint.
pub open spec fn hint_title(h: Option<OccupantHintV>) -> Option<Seq<char>> {
    match h {
        Some(x) => x.title,
        None => None,
    }
}

/// Client version carried by an optional hint.
pub open spec fn hint_version(h: Option<OccupantHintV>) -> Option<Seq<char>> {
    match h {
        Some(x) => x.version,
        None => None,
    }
}

/// A heartbeat of `pid` for the seat of project `project_id` at `now`: the seat's row is
/// refreshed (it keeps its start time and any client detail the hint leaves out), or added.
/// The answer shows the seat occupied, with what the hint says.
pub open spec fn touch_spec(
    b: BoardV,
    project_id: Seq<char>,
    seat: AgentSeat,
    now: Micros,
    pid: i64,
    hint: Option<OccupantHintV>,
) -> (BoardV, SeatLiveV) {
    let name = hint_name(hint);
    let title = hint_title(hint);
    let version = hint_version(hint);
    let rows = b.presence;
    let nb = match find_first(rows, presence_of(project_id, seat)) {
        Some(i) => {
            let r = rows[i];
            let nr = SeatPresenceV {
                last_seen_at: now,
                pid: pid,
                client_name: coalesce(name, r.client_name),
                client_title: coalesce(title, r.client_title),
                client_version: coalesce(version, r.client_version),
                ..r
            };
            BoardV { presence: rows.update(i, nr), ..b }
        },
        None => {
            let nr = SeatPresenceV {
                project_id: project_id,
                seat: seat,
                last_seen_at: now,
                started_at: now,
                pid: pid,
                client_name: name,
                client_title: title,
                client_version: version,
            };
            BoardV { presence: rows.push(nr), ..b }
        },
    };
    (nb, live_from_spec(true, Some(now), Some(pid), name, title))
}

/// Rows that a clear of `pid` on the seat of `project_id` keeps.
pub open spec fn kept_by_clear(project_id: Seq<char>, seat: AgentSeat, pid: i64) -> spec_fn(
    SeatPresenceV,
) -> bool {
    |r: SeatPresenceV| !(r.project_id == project_id && r.seat == seat && r.pid == pid)
}

/// Clearing removes the seat's rows written by `pid`; a newer occupant is left alone.
pub open spec fn clear_spec(b: BoardV, project_id: Seq<char>, seat: AgentSeat, pid: i64) -> BoardV {
    BoardV { presence: b.presence.filter(kept_by_clear(project_id, seat, pid)), ..b }
}

/// Last position of `s` whose item satisfies `p`, if any.
pub open spec fn last_match<T>(s: Seq<T>, p: spec_fn(T) -> bool) -> Option<int>
    decreases s.len(),
{
    if s.len() == 0 {
        None
    } else if p(s.last()) {
        Some(s.len() - 1)
    } else {
        last_match(s.drop_last(), p)
    }
}

/// A heartbeat row as a seat at time `now`: occupied while `now` is at most the TTL after it.
pub open spec fn row_live_spec(r: SeatPresenceV, now: Micros) -> SeatLiveV {
    live_from_spec(
        now - r.last_seen_at <= SEAT_TTL,
        Some(r.last_seen_at),
        Some(r.pid),
        r.client_name,
        r.client_title,
    )
}

/// The seat as shown at `now`: read from the last row of the seat, else empty.
pub open spec fn seat_live_spec(
    rows: Seq<SeatPresenceV>,
    project_id: Seq<char>,
    seat: AgentSeat,
    now: Micros,
) -> SeatLiveV {
    match last_match(rows, presence_of(project_id, seat)) {
        Some(j) => row_live_spec(rows[j], now),
        None => empty_live(),
    }
}

/// Both seats of a project as shown at `now`.
pub open spec fn presence_at_spec(b: BoardV, project_id: Seq<char>, now: Micros) -> ProjectPresenceV {
    ProjectPresenceV {
        discuss: seat_live_spec(b.presence, project_id, AgentSeat::Discuss, now),
        build: seat_live_spec(b.presence, project_id, AgentSeat::Build, now),
    }
}

/// At most one heartbeat row per project and seat.
pub open spec fn presence_unique(rows: Seq<SeatPresenceV>) -> bool {
    forall|i: int, j: int|
        0 <= i < j < rows.len() ==> !(#[trigger] rows[i].project_id == #[trigger] rows[j].project_id
            && rows[i].seat == rows[j].seat)
}

/// A seat as shown, built from its parts.
pub fn live_from(
    seated: bool,
    last_seen_at: Option<Micros>,
    pid: Option<i64>,
    client_name: Option<String>,
    client_title: Option<String>,
) -> (r: SeatLive)
    ensures
        r.deep_view() == live_from_spec(
            seated,
            last_seen_at,
            pid,
            client_name.deep_view(),
            client_title.deep_view(),
        ),
{
    let face = match &client_name {
        Some(n) => {
            let t: Option<&str> = match &client_title {
                Some(t) => Some(t.as_str()),
                None => None,
            };
            Some(recognize(n.as_str(), t))
        },
        None => None,
    };
    SeatLive {
        seated: seated,
        last_seen_at: last_seen_at,
        pid: pid,
        client_name: client_name,
        client_title: client_title,
        face: face,
    }
}

/// `new` when given, else `old`.
fn coalesce_exec(new: &Option<String>, old: &Option<String>) -> (r: Option<String>)
    ensures
        r.deep_view() == coalesce(new.deep_view(), old.deep_view()),
{
    if new.is_some() {
        clone_opt_string(new)
    } else {
        clone_opt_string(old)
    }
}

/// Record a heartbeat of `pid` for a seat at `now`.
pub fn touch_seat_presence_at(
    board: &mut Board,
    project_id: &str,
    seat: AgentSeat,
    now: Micros,
    pid: i64,
    hint: Option<&OccupantHint>,
) -> (r: SeatLive)
    ensures
        (final(board)@, r.deep_view()) == touch_spec(
            old(board)@,
            project_id@,
            seat,
            now,
            pid,
            hint.deep_view(),
        ),
{
    let name: Option<String> = match hint {
        Some(h) => Some(h.name.clone()),
        None => None,
    };
    let title: Option<String> = match hint {
        Some(h) => clone_opt_string(&h.title),
        None => None,
    };
    let version: Option<String> = match hint {
        Some(h) => clone_opt_string(&h.version),
        None => None,
    };
    let ghost old_rows = board.presence;
    match find_presence(&board.presence, project_id, seat) {
        Some(i) => {
            let row = SeatPresence {
                project_id: board.presence[i].project_id.clone(),
                seat: board.presence[i].seat,
                last_seen_at: now,
                started_at: board.presence[i].started_at,
                pid: pid,
                client_name: coalesce_exec(&name, &board.presence[i].client_name),
                client_title: coalesce_exec(&title, &board.presence[i].client_title),
                client_version: coalesce_exec(&version, &board.presence[i].client_version),
            };
            board.presence.set(i, row);
            proof {
                lemma_dv_update(old_rows, board.presence, i as int, board.presence@[i as int]);
            }
        },
        None => {
            let row = SeatPresence {
                project_id: String::from_str(project_id),
                seat: seat,
                last_seen_at: now,
                started_at: now,
                pid: pid,
                client_name: clone_opt_string(&name),
                client_title: clone_opt_string(&title),
                client_version: version,
            };
            board.presence.push(row);
            proof {
                lemma_dv_push(old_rows, board.presence, board.presence@[board.presence@.len() - 1]);
            }
        },
    }
    live_from(true, Some(now), Some(pid), name, title)
}

/// Record a heartbeat of `pid` for a seat, stamped now.
pub fn touch_seat_presence(board: &mut Board, project_id: &str, seat: AgentSeat, pid: i64) -> (r:
    SeatLive)
    ensures
        exists|now: Micros|
            (final(board)@, r.deep_view()) == #[trigger] touch_spec(
                old(board)@,
                project_id@,
                seat,
                now,
                pid,
                None,
            ),
{
    touch_seat_presence_at(board, project_id, seat, now_micros(), pid, None)
}

/// Record a heartbeat of `pid` for a seat with what the client says about itself, stamped now.
pub fn touch_seat_presence_client(
    board: &mut Board,
    project_id: &str,
    seat: AgentSeat,
    pid: i64,
    hint: &OccupantHint,
) -> (r: SeatLive)
    ensures
        exists|now: Micros|
            (final(board)@, r.deep_view()) == #[trigger] touch_spec(
                old(board)@,
                project_id@,
                seat,
                now,
                pid,
                Some(hint.deep_view()),
            ),
{
    touch_seat_presence_at(board, project_id, seat, now_micros(), pid, Some(hint))
}

/// Field-by-field copy of a heartbeat row.
fn copy_row(r: &SeatPresence) -> (c: SeatPresence)
    ensures
        c.deep_view() == r.deep_view(),
{
    SeatPresence {
        project_id: r.project_id.clone(),
        seat: r.seat,
        last_seen_at: r.last_seen_at,
        started_at: r.started_at,
        pid: r.pid,
        client_name: clone_opt_string(&r.client_name),
        client_title: clone_opt_string(&r.client_title),
        client_version: clone_opt_string(&r.client_version),
    }
}

/// Remove the seat's rows written by `pid`. A newer occupant (another pid) is left alone.
pub fn clear_seat_presence_pid(board: &mut Board, project_id: &str, seat: AgentSeat, pid: i64)
    ensures
        final(board)@ == clear_spec(old(board)@, project_id@, seat, pid),
{
    let ghost rows = board@.presence;
    let ghost p = kept_by_clear(project_id@, seat, pid);
    let mut kept: Vec<SeatPresence> = Vec::new();
    proof {
        lemma_filter_take_zero(rows, p);
        assert(kept.deep_view() =~= rows.take(0).filter(p));
    }
    let mut i: usize = 0;
    while i < board.presence.len()
        invariant
            rows == board@.presence,
            p == kept_by_clear(project_id@, seat, pid),
            i <= rows.len(),
            kept.deep_view() == rows.take(i as int).filter(p),
        decreases board.presence.len() - i,
    {
        proof {
            lemma_filter_take_step(rows, p, i as int);
        }
        let r = &board.presence[i];
        if !(r.seat == seat && r.pid == pid && str_eq(r.project_id.as_str(), project_id)) {
            let ghost before = kept;
            kept.push(copy_row(r));
            proof {
                lemma_dv_push(before, kept, kept@[kept@.len() - 1]);
            }
        }
        i += 1;
    }
    proof {
        lemma_filter_take_all(rows, p);
    }
    board.presence = kept;
}

/// A heartbeat row as a seat at time `now`.
fn row_live(r: &SeatPresence, now: Micros) -> (l: SeatLive)
    ensures
        l.deep_view() == row_live_spec(r.deep_view(), now),
{
    let seated = (now as i128) - (r.last_seen_at as i128) <= (SEAT_TTL as i128);
    live_from(
        seated,
        Some(r.last_seen_at),
        Some(r.pid),
        clone_opt_string(&r.client_name),
        clone_opt_string(&r.client_title),
    )
}

/// One more row read into a seat's view.
proof fn lemma_seat_live_step(
    rows: Seq<SeatPresenceV>,
    project_id: Seq<char>,
    seat: AgentSeat,
    now: Micros,
    i: int,
)
    requires
        0 <= i < rows.len(),
    ensures
        seat_live_spec(rows.take(i + 1), project_id, seat, now) == if presence_of(project_id, seat)(
            rows[i],
        ) {
            row_live_spec(rows[i], now)
        } else {
            seat_live_spec(rows.take(i), project_id, seat, now)
        },
{
    let t = rows.take(i + 1);
    assert(t.drop_last() =~= rows.take(i));
    let p = presence_of(project_id, seat);
    if !p(rows[i]) {
        match last_match(rows.take(i), p) {
            Some(j) => {
                lemma_last_match_in_range(rows.take(i), p);
                assert(t[j] == rows.take(i)[j]);
            },
            None => {},
        }
    }
}

/// A last match is a position of the sequence.
proof fn lemma_last_match_in_range<T>(s: Seq<T>, p: spec_fn(T) -> bool)
    ensures
        last_match(s, p) matches Some(j) ==> 0 <= j < s.len() && p(s[j]),
    decreases s.len(),
{
    if s.len() > 0 && !p(s.last()) {
        lemma_last_match_in_range(s.drop_last(), p);
        if let Some(j) = last_match(s.drop_last(), p) {
            assert(s.drop_last()[j] == s[j]);
        }
    }
}

/// Both seats of a project as shown at `now`.
pub fn project_presence_at(board: &Board, project_id: &str, now: Micros) -> (r: ProjectPresence)
    ensures
        r.deep_view() == presence_at_spec(board@, project_id@, now),
{
    let ghost rows = board@.presence;
    let mut out = ProjectPresence::default();
    let mut i: usize = 0;
    proof {
        assert(rows.take(0) =~= Seq::<SeatPresenceV>::empty());
    }
    while i < board.presence.len()
        invariant
            rows == board@.presence,
            i <= rows.len(),
            out.discuss.deep_view() == seat_live_spec(
                rows.take(i as int),
                project_id@,
                AgentSeat::Discuss,
                now,
            ),
            out.build.deep_view() == seat_live_spec(
                rows.take(i as int),
                project_id@,
                AgentSeat::Build,
                now,
            ),
        decreases board.presence.len() - i,
    {
        proof {
            lemma_seat_live_step(rows, project_id@, AgentSeat::Discuss, now, i as int);
            lemma_seat_live_step(rows, project_id@, AgentSeat::Build, now, i as int);
        }
        let r = &board.presence[i];
        if str_eq(r.project_id.as_str(), project_id) {
            match r.seat {
                AgentSeat::Discuss => out.discuss = row_live(r, now),
                AgentSeat::Build => out.build = row_live(r, now),
            }
        }
        i += 1;
    }
    proof {
        assert(rows.take(rows.len() as int) =~= rows);
    }
    out
}

/// Both seats of a project as shown now.
pub fn project_presence(board: &Board, project_id: &str) -> (r: ProjectPresence)
    ensures
        exists|now: Micros| r.deep_view() == #[trigger] presence_at_spec(board@, project_id@, now),
{
    project_presence_at(board, project_id, now_micros())
}

/// The row of the seat before a heartbeat, if any.
pub open spec fn prior_row(b: BoardV, project_id: Seq<char>, seat: AgentSeat) -> Option<SeatPresenceV> {
    match find_first(b.presence, presence_of(project_id, seat)) {
        Some(i) => Some(b.presence[i]),
        None => None,
    }
}

/// Where a heartbeat writes the seat's row: over the first row of the seat, else at the end.
pub open spec fn touch_pos(b: BoardV, project_id: Seq<char>, seat: AgentSeat) -> int {
    match find_first(b.presence, presence_of(project_id, seat)) {
        Some(i) => i,
        None => b.presence.len() as int,
    }
}

/// When exactly one item matches, it is the last match.
proof fn lemma_only_match_is_last<T>(s: Seq<T>, p: spec_fn(T) -> bool, i: int)
    requires
        0 <= i < s.len(),
        p(s[i]),
        forall|j: int| 0 <= j < s.len() && j != i ==> !p(#[trigger] s[j]),
    ensures
        last_match(s, p) == Some(i),
    decreases s.len(),
{
    if i < s.len() - 1 {
        let t = s.drop_last();
        assert forall|j: int| 0 <= j < t.len() && j != i implies !p(#[trigger] t[j]) by {
            assert(t[j] == s[j]);
        }
        assert(t[i] == s[i]);
        lemma_only_match_is_last(t, p, i);
    }
}

/// With no matching item there is no last match.
proof fn lemma_no_match_no_last<T>(s: Seq<T>, p: spec_fn(T) -> bool)
    requires
        forall|j: int| 0 <= j < s.len() ==> !p(#[trigger] s[j]),
    ensures
        last_match(s, p) is None,
    decreases s.len(),
{
    if s.len() > 0 {
        let t = s.drop_last();
        assert forall|j: int| 0 <= j < t.len() implies !p(#[trigger] t[j]) by {
            assert(t[j] == s[j]);
        }
        lemma_no_match_no_last(t, p);
    }
}

/// What a heartbeat leaves: one row per seat still, and the seat's single row at `touch_pos`
/// carrying the heartbeat and the merged client details.
proof fn lemma_touch_facts(
    b: BoardV,
    project_id: Seq<char>,
    seat: AgentSeat,
    now: Micros,
    pid: i64,
    hint: Option<OccupantHintV>,
)
    requires
        presence_unique(b.presence),
    ensures
        ({
            let rows = touch_spec(b, project_id, seat, now, pid, hint).0.presence;
            let k = touch_pos(b, project_id, seat);
            let old_name = match prior_row(b, project_id, seat) {
                Some(r) => r.client_name,
                None => None,
            };
            let old_title = match prior_row(b, project_id, seat) {
                Some(r) => r.client_title,
                None => None,
            };
            &&& presence_unique(rows)
            &&& 0 <= k < rows.len()
            &&& presence_of(project_id, seat)(rows[k])
            &&& forall|j: int|
                0 <= j < rows.len() && j != k ==> !presence_of(project_id, seat)(#[trigger] rows[j])
            &&& rows[k].last_seen_at == now
            &&& rows[k].pid == pid
            &&& rows[k].client_name == coalesce(hint_name(hint), old_name)
            &&& rows[k].client_title == coalesce(hint_title(hint), old_title)
        }),
{
    let key = presence_of(project_id, seat);
    let old_rows = b.presence;
    let rows = touch_spec(b, project_id, seat, now, pid, hint).0.presence;
    lemma_find_first_props(old_rows, key);
    match find_first(old_rows, key) {
        Some(i) => {
            assert forall|j: int| 0 <= j < rows.len() && j != i implies !key(#[trigger] rows[j]) by {
                assert(rows[j] == old_rows[j]);
                if j > i && key(old_rows[j]) {
                    assert(old_rows[i].project_id == old_rows[j].project_id && old_rows[i].seat
                        == old_rows[j].seat);
                }
            }
            assert forall|x: int, y: int|
                0 <= x < y < rows.len() implies !(#[trigger] rows[x].project_id
                == #[trigger] rows[y].project_id && rows[x].seat == rows[y].seat) by {
                if x != i && y != i {
                    assert(rows[x] == old_rows[x] && rows[y] == old_rows[y]);
                } else if x == i {
                    assert(rows[y] == old_rows[y]);
                    assert(old_rows[x].project_id == old_rows[y].project_id ==> old_rows[x].seat
                        != old_rows[y].seat);
                } else {
                    assert(rows[x] == old_rows[x]);
                    assert(old_rows[x].project_id == old_rows[y].project_id ==> old_rows[x].seat
                        != old_rows[y].seat);
                }
            }
        },
        None => {
            let n = old_rows.len() as int;
            assert forall|j: int| 0 <= j < rows.len() && j != n implies !key(#[trigger] rows[j]) by {
                assert(rows[j] == old_rows[j]);
            }
            assert forall|x: int, y: int|
                0 <= x < y < rows.len() implies !(#[trigger] rows[x].project_id
                == #[trigger] rows[y].project_id && rows[x].seat == rows[y].seat) by {
                assert(rows[x] == old_rows[x]);
                if y < n {
                    assert(rows[y] == old_rows[y]);
                } else {
                    assert(!key(old_rows[x]));
                }
            }
        },
    }
}

/// A heartbeat keeps the store at one row per project and seat.
pub proof fn law_touch_keeps_one_row_per_seat(
    b: BoardV,
    project_id: Seq<char>,
    seat: AgentSeat,
    now: Micros,
    pid: i64,
    hint: Option<OccupantHintV>,
)
    requires
        presence_unique(b.presence),
    ensures
        presence_unique(touch_spec(b, project_id, seat, now, pid, hint).0.presence),
{
    lemma_touch_facts(b, project_id, seat, now, pid, hint);
}

/// Dropping rows keeps at most one row per project and seat.
proof fn lemma_filter_keeps_unique(rows: Seq<SeatPresenceV>, p: spec_fn(SeatPresenceV) -> bool)
    requires
        presence_unique(rows),
    ensures
        presence_unique(rows.filter(p)),
    decreases rows.len(),
{
    reveal(Seq::filter);
    if rows.len() > 0 {
        let t = rows.drop_last();
        let last = rows.last();
        assert(presence_unique(t)) by {
            assert forall|i: int, j: int| 0 <= i < j < t.len() implies !(
            #[trigger] t[i].project_id == #[trigger] t[j].project_id && t[i].seat == t[j].seat) by {
                assert(t[i] == rows[i] && t[j] == rows[j]);
            }
        }
        lemma_filter_keeps_unique(t, p);
        if p(last) {
            let f0 = t.filter(p);
            let out = f0.push(last);
            assert(rows.filter(p) == out);
            assert forall|i: int, j: int| 0 <= i < j < out.len() implies !(
            #[trigger] out[i].project_id == #[trigger] out[j].project_id && out[i].seat
                == out[j].seat) by {
                if j == f0.len() {
                    crate::services::board::lemma_filter_item_from(t, p, i);
                    let k = choose|k: int| 0 <= k < t.len() && t[k] == f0[i] && p(t[k]);
                    assert(rows[k] == out[i]);
                    assert(rows[rows.len() - 1] == out[j]);
                    assert(!(rows[k].project_id == rows[rows.len() - 1].project_id && rows[k].seat
                        == rows[rows.len() - 1].seat));
                } else {
                    assert(out[i] == f0[i] && out[j] == f0[j]);
                }
            }
        }
    }
}

/// A clear keeps at most one heartbeat row per project and seat.
pub proof fn law_clear_keeps_one_row_per_seat(
    b: BoardV,
    project_id: Seq<char>,
    seat: AgentSeat,
    pid: i64,
)
    requires
        presence_unique(b.presence),
    ensures
        presence_unique(clear_spec(b, project_id, seat, pid).presence),
{
    lemma_filter_keeps_unique(b.presence, kept_by_clear(project_id, seat, pid));
}

/// After a heartbeat at `t0`, the seat shows occupied by that process exactly while the time
/// read is at most the TTL after `t0`.
pub proof fn law_seated_until_ttl(
    b: BoardV,
    project_id: Seq<char>,
    seat: AgentSeat,
    t0: Micros,
    pid: i64,
    hint: Option<OccupantHintV>,
    now: Micros,
)
    requires
        presence_unique(b.presence),
    ensures
        ({
            let live = seat_live_spec(
                touch_spec(b, project_id, seat, t0, pid, hint).0.presence,
                project_id,
                seat,
                now,
            );
            &&& live.seated == (now - t0 <= SEAT_TTL)
            &&& live.last_seen_at == Some(t0)
            &&& live.pid == Some(pid)
        }),
{
    lemma_touch_facts(b, project_id, seat, t0, pid, hint);
    let rows = touch_spec(b, project_id, seat, t0, pid, hint).0.presence;
    lemma_only_match_is_last(rows, presence_of(project_id, seat), touch_pos(b, project_id, seat));
}

/// A clear by a process that wrote none of the seat's rows changes nothing.
pub proof fn law_clear_by_other_pid_changes_nothing(
    b: BoardV,
    project_id: Seq<char>,
    seat: AgentSeat,
    pid: i64,
)
    requires
        forall|j: int|
            0 <= j < b.presence.len() && presence_of(project_id, seat)(#[trigger] b.presence[j])
                ==> b.presence[j].pid != pid,
    ensures
        clear_spec(b, project_id, seat, pid) == b,
{
    let p = kept_by_clear(project_id, seat, pid);
    assert forall|j: int| 0 <= j < b.presence.len() implies p(#[trigger] b.presence[j]) by {}
    lemma_filter_keeps_all(b.presence, p);
    assert(clear_spec(b, project_id, seat, pid).presence =~= b.presence);
}

/// When every row of the seat was written by `pid`, a clear by `pid` leaves the seat empty.
pub proof fn law_clear_by_owner_empties_seat(
    b: BoardV,
    project_id: Seq<char>,
    seat: AgentSeat,
    pid: i64,
    now: Micros,
)
    requires
        forall|j: int|
            0 <= j < b.presence.len() && presence_of(project_id, seat)(#[trigger] b.presence[j])
                ==> b.presence[j].pid == pid,
    ensures
        seat_live_spec(clear_spec(b, project_id, seat, pid).presence, project_id, seat, now)
            == empty_live(),
{
    let p = kept_by_clear(project_id, seat, pid);
    let key = presence_of(project_id, seat);
    let rows = b.presence;
    let out = rows.filter(p);
    assert forall|j: int| 0 <= j < out.len() implies !key(#[trigger] out[j]) by {
        crate::services::board::lemma_filter_item_from(rows, p, j);
    }
    lemma_no_match_no_last(out, key);
}

/// A heartbeat without a hint keeps the client name an earlier heartbeat gave, and the seat's
/// face is recognized from it.
pub proof fn law_client_name_survives_heartbeat(
    b: BoardV,
    project_id: Seq<char>,
    seat: AgentSeat,
    t0: Micros,
    pid0: i64,
    hint: OccupantHintV,
    t1: Micros,
    pid1: i64,
    now: Micros,
)
    requires
        presence_unique(b.presence),
    ensures
        ({
            let b1 = touch_spec(b, project_id, seat, t0, pid0, Some(hint)).0;
            let b2 = touch_spec(b1, project_id, seat, t1, pid1, None).0;
            let live = seat_live_spec(b2.presence, project_id, seat, now);
            &&& live.client_name == Some(hint.name)
            &&& live.face == Some(recognize_spec(hint.name, live.client_title))
        }),
{
    let key = presence_of(project_id, seat);
    let b1 = touch_spec(b, project_id, seat, t0, pid0, Some(hint)).0;
    lemma_touch_facts(b, project_id, seat, t0, pid0, Some(hint));
    let k = touch_pos(b, project_id, seat);
    assert forall|j: int| 0 <= j < k implies !key(#[trigger] b1.presence[j]) by {}
    lemma_find_first_some(b1.presence, key, k);
    lemma_touch_facts(b1, project_id, seat, t1, pid1, None);
    let b2 = touch_spec(b1, project_id, seat, t1, pid1, None).0;
    lemma_only_match_is_last(b2.presence, key, k);
}

} // verus!
