//! The store: every table the engine keeps, held as plain records, and lookups over it.

use vstd::prelude::*;

use crate::domain::models::{
    AgentSeat, Event, EventV, Micros, Project, ProjectV, Requirement, RequirementV,
};
use crate::text::str_eq;

verus! {

/// Live-seat heartbeat row (one per project and seat).
#[derive(Debug)]
pub struct SeatPresence {
    pub project_id: String,
    pub seat: AgentSeat,
    pub last_seen_at: Micros,
    pub started_at: Micros,
    pub pid: i64,
    pub client_name: Option<String>,
    pub client_title: Option<String>,
    pub client_version: Option<String>,
}

pub struct SeatPresenceV {
    pub project_id: Seq<char>,
    pub seat: AgentSeat,
    pub last_seen_at: Micros,
    pub started_at: Micros,
    pub pid: i64,
    pub client_name: Option<Seq<char>>,
    pub client_title: Option<Seq<char>>,
    pub client_version: Option<Seq<char>>,
}

impl DeepView for SeatPresence {
    type V = SeatPresenceV;

    open spec fn deep_view(&self) -> SeatPresenceV {
        SeatPresenceV {
            project_id: self.project_id@,
            seat: self.seat,
            last_seen_at: self.last_seen_at,
            started_at: self.started_at,
            pid: self.pid,
            client_name: self.client_name.deep_view(),
            client_title: self.client_title.deep_view(),
            client_version: self.client_version.deep_view(),
        }
    }
}

/// A stored API token: the SHA-256 (hex) of its plaintext, the role as stored text, a name.
#[derive(Debug)]
pub struct TokenRow {
    pub token_hash: String,
    pub role: String,
    pub name: String,
    pub created_at: Micros,
}

pub struct TokenRowV {
    pub token_hash: Seq<char>,
    pub role: Seq<char>,
    pub name: Seq<char>,
    pub created_at: Micros,
}

impl DeepView for TokenRow {
    type V = TokenRowV;

    open spec fn deep_view(&self) -> TokenRowV {
        TokenRowV {
            token_hash: self.token_hash@,
            role: self.role@,
            name: self.name@,
            created_at: self.created_at,
        }
    }
}

/// All tables of the engine: projects, requirements, the event log, token hashes and seat
/// heartbeats. Rows keep the order in which they were stored.
#[derive(Debug)]
pub struct Board {
    pub projects: Vec<Project>,
    pub requirements: Vec<Requirement>,
    pub events: Vec<Event>,
    pub tokens: Vec<TokenRow>,
    pub presence: Vec<SeatPresence>,
}

pub struct BoardV {
    pub projects: Seq<ProjectV>,
    pub requirements: Seq<RequirementV>,
    pub events: Seq<EventV>,
    pub tokens: Seq<TokenRowV>,
    pub presence: Seq<SeatPresenceV>,
}

impl View for Board {
    type V = BoardV;

    open spec fn view(&self) -> BoardV {
        BoardV {
            projects: self.projects.deep_view(),
            requirements: self.requirements.deep_view(),
            events: self.events.deep_view(),
            tokens: self.tokens.deep_view(),
            presence: self.presence.deep_view(),
        }
    }
}

impl Board {
    /// An empty store.
    pub fn new() -> (b: Board)
        ensures
            b@.projects.len() == 0,
            b@.requirements.len() == 0,
            b@.events.len() == 0,
            b@.tokens.len() == 0,
            b@.presence.len() == 0,
    {
        Board {
            projects: Vec::new(),
            requirements: Vec::new(),
            events: Vec::new(),
            tokens: Vec::new(),
            presence: Vec::new(),
        }
    }
}

/// `i` is the first position of `s` whose item satisfies `p`.
pub open spec fn first_match<T>(s: Seq<T>, p: spec_fn(T) -> bool, i: int) -> bool {
    0 <= i < s.len() && p(s[i]) && forall|j: int| 0 <= j < i ==> !p(#[trigger] s[j])
}

/// First position of `s` whose item satisfies `p`, if any.
pub open spec fn find_first<T>(s: Seq<T>, p: spec_fn(T) -> bool) -> Option<int> {
    if exists|i: int| first_match(s, p, i) {
        Some(choose|i: int| first_match(s, p, i))
    } else {
        None
    }
}

pub proof fn lemma_find_first_some<T>(s: Seq<T>, p: spec_fn(T) -> bool, i: int)
    requires
        first_match(s, p, i),
    ensures
        find_first(s, p) == Some(i),
{
    let k = choose|k: int| first_match(s, p, k);
    assert(first_match(s, p, k));
    if k < i {
        assert(!p(s[k]));
    } else if i < k {
        assert(!p(s[i]));
    }
}

pub proof fn lemma_find_first_none<T>(s: Seq<T>, p: spec_fn(T) -> bool)
    requires
        forall|j: int| 0 <= j < s.len() ==> !p(#[trigger] s[j]),
    ensures
        find_first(s, p) is None,
{
}

/// A first match exists exactly when some item matches.
pub proof fn lemma_find_first_exists<T>(s: Seq<T>, p: spec_fn(T) -> bool, k: int)
    requires
        0 <= k < s.len(),
        p(s[k]),
    ensures
        find_first(s, p) is Some,
    decreases k,
{
    if exists|j: int| 0 <= j < k && p(s[j]) {
        let j = choose|j: int| 0 <= j < k && p(s[j]);
        lemma_find_first_exists(s, p, j);
    } else {
        assert(first_match(s, p, k));
    }
}

/// The found position matches and nothing before it does.
pub proof fn lemma_find_first_props<T>(s: Seq<T>, p: spec_fn(T) -> bool)
    ensures
        find_first(s, p) matches Some(i) ==> first_match(s, p, i),
        find_first(s, p) is None ==> forall|j: int| 0 <= j < s.len() ==> !p(#[trigger] s[j]),
{
    if find_first(s, p) is None {
        assert forall|j: int| 0 <= j < s.len() implies !p(#[trigger] s[j]) by {
            if p(s[j]) {
                lemma_find_first_exists(s, p, j);
            }
        }
    }
}

/// Two sequences on which a test agrees position by position have the same first match.
pub proof fn lemma_find_first_same<T, U>(a: Seq<T>, b: Seq<U>, p: spec_fn(T) -> bool, q: spec_fn(U) -> bool)
    requires
        a.len() == b.len(),
        forall|j: int| 0 <= j < a.len() ==> p(#[trigger] a[j]) == q(b[j]),
    ensures
        find_first(a, p) == find_first(b, q),
{
    lemma_find_first_props(b, q);
    match find_first(b, q) {
        Some(k) => {
            assert forall|j: int| 0 <= j < k implies !p(#[trigger] a[j]) by {
                assert(!q(b[j]));
            }
            lemma_find_first_some(a, p, k);
        },
        None => {
            assert forall|j: int| 0 <= j < a.len() implies !p(#[trigger] a[j]) by {
                assert(!q(b[j]));
            }
            lemma_find_first_none(a, p);
        },
    }
}

/// Requirement rows with the given id.
pub open spec fn req_with_id(id: Seq<char>) -> spec_fn(RequirementV) -> bool {
    |r: RequirementV| r.id == id
}

/// Project rows with the given id.
pub open spec fn project_with_id(id: Seq<char>) -> spec_fn(ProjectV) -> bool {
    |p: ProjectV| p.id == id
}

/// Token rows with the given hash.
pub open spec fn token_with_hash(h: Seq<char>) -> spec_fn(TokenRowV) -> bool {
    |t: TokenRowV| t.token_hash == h
}

/// Heartbeat rows of the given project and seat.
pub open spec fn presence_of(pid: Seq<char>, seat: AgentSeat) -> spec_fn(SeatPresenceV) -> bool {
    |s: SeatPresenceV| s.project_id == pid && s.seat == seat
}

/// Position of the requirement with `id`.
pub fn find_requirement(reqs: &Vec<Requirement>, id: &str) -> (r: Option<usize>)
    ensures
        match r {
            Some(i) => find_first(reqs.deep_view(), req_with_id(id@)) == Some(i as int),
            None => find_first(reqs.deep_view(), req_with_id(id@)) is None,
        },
{
    let mut i: usize = 0;
    while i < reqs.len()
        invariant
            0 <= i <= reqs.len(),
            forall|j: int| 0 <= j < i ==> !req_with_id(id@)(#[trigger] reqs.deep_view()[j]),
        decreases reqs.len() - i,
    {
        if str_eq(reqs[i].id.as_str(), id) {
            proof {
                lemma_find_first_some(reqs.deep_view(), req_with_id(id@), i as int);
            }
            return Some(i);
        }
        i += 1;
    }
    proof {
        lemma_find_first_none(reqs.deep_view(), req_with_id(id@));
    }
    None
}

/// Position of the project with `id`.
pub fn find_project(projects: &Vec<Project>, id: &str) -> (r: Option<usize>)
    ensures
        match r {
            Some(i) => find_first(projects.deep_view(), project_with_id(id@)) == Some(i as int),
            None => find_first(projects.deep_view(), project_with_id(id@)) is None,
        },
{
    let mut i: usize = 0;
    while i < projects.len()
        invariant
            0 <= i <= projects.len(),
            forall|j: int|
                0 <= j < i ==> !project_with_id(id@)(#[trigger] projects.deep_view()[j]),
        decreases projects.len() - i,
    {
        if str_eq(projects[i].id.as_str(), id) {
            proof {
                lemma_find_first_some(projects.deep_view(), project_with_id(id@), i as int);
            }
            return Some(i);
        }
        i += 1;
    }
    proof {
        lemma_find_first_none(projects.deep_view(), project_with_id(id@));
    }
    None
}

/// Position of the token with hash `h`.
pub fn find_token(tokens: &Vec<TokenRow>, h: &str) -> (r: Option<usize>)
    ensures
        match r {
            Some(i) => find_first(tokens.deep_view(), token_with_hash(h@)) == Some(i as int),
            None => find_first(tokens.deep_view(), token_with_hash(h@)) is None,
        },
{
    let mut i: usize = 0;
    while i < tokens.len()
        invariant
            0 <= i <= tokens.len(),
            forall|j: int| 0 <= j < i ==> !token_with_hash(h@)(#[trigger] tokens.deep_view()[j]),
        decreases tokens.len() - i,
    {
        if str_eq(tokens[i].token_hash.as_str(), h) {
            proof {
                lemma_find_first_some(tokens.deep_view(), token_with_hash(h@), i as int);
            }
            return Some(i);
        }
        i += 1;
    }
    proof {
        lemma_find_first_none(tokens.deep_view(), token_with_hash(h@));
    }
    None
}

/// Position of the heartbeat row of `pid` and `seat`.
pub fn find_presence(rows: &Vec<SeatPresence>, pid: &str, seat: AgentSeat) -> (r: Option<usize>)
    ensures
        match r {
            Some(i) => find_first(rows.deep_view(), presence_of(pid@, seat)) == Some(i as int),
            None => find_first(rows.deep_view(), presence_of(pid@, seat)) is None,
        },
{
    let mut i: usize = 0;
    while i < rows.len()
        invariant
            0 <= i <= rows.len(),
            forall|j: int|
                0 <= j < i ==> !presence_of(pid@, seat)(#[trigger] rows.deep_view()[j]),
        decreases rows.len() - i,
    {
        if rows[i].seat == seat && str_eq(rows[i].project_id.as_str(), pid) {
            proof {
                lemma_find_first_some(rows.deep_view(), presence_of(pid@, seat), i as int);
            }
            return Some(i);
        }
        i += 1;
    }
    proof {
        lemma_find_first_none(rows.deep_view(), presence_of(pid@, seat));
    }
    None
}

} // verus!

verus! {

pub proof fn lemma_dv_push<T: DeepView>(old: Vec<T>, new: Vec<T>, x: T)
    requires
        new@ == old@.push(x),
    ensures
        new.deep_view() == old.deep_view().push(x.deep_view()),
{
    assert(new.deep_view() =~= old.deep_view().push(x.deep_view()));
}

pub proof fn lemma_dv_insert<T: DeepView>(old: Vec<T>, new: Vec<T>, i: int, x: T)
    requires
        0 <= i <= old@.len(),
        new@ == old@.insert(i, x),
    ensures
        new.deep_view() == old.deep_view().insert(i, x.deep_view()),
{
    assert(new.deep_view() =~= old.deep_view().insert(i, x.deep_view()));
}

pub proof fn lemma_dv_update<T: DeepView>(old: Vec<T>, new: Vec<T>, i: int, x: T)
    requires
        0 <= i < old@.len(),
        new@ == old@.update(i, x),
    ensures
        new.deep_view() == old.deep_view().update(i, x.deep_view()),
{
    assert(new.deep_view() =~= old.deep_view().update(i, x.deep_view()));
}

} // verus!

verus! {

/// One more item of `s` through `filter`.
pub proof fn lemma_filter_take_step<T>(s: Seq<T>, p: spec_fn(T) -> bool, i: int)
    requires
        0 <= i < s.len(),
    ensures
        s.take(i + 1).filter(p) == if p(s[i]) {
            s.take(i).filter(p).push(s[i])
        } else {
            s.take(i).filter(p)
        },
{
    reveal(Seq::filter);
    assert(s.take(i + 1).drop_last() =~= s.take(i));
    assert(s.take(i + 1).last() == s[i]);
}

/// A filter that keeps every item changes nothing.
pub proof fn lemma_filter_keeps_all<T>(s: Seq<T>, p: spec_fn(T) -> bool)
    requires
        forall|j: int| 0 <= j < s.len() ==> p(#[trigger] s[j]),
    ensures
        s.filter(p) == s,
    decreases s.len(),
{
    reveal(Seq::filter);
    if s.len() > 0 {
        let t = s.drop_last();
        assert forall|j: int| 0 <= j < t.len() implies p(#[trigger] t[j]) by {
            assert(t[j] == s[j]);
        }
        lemma_filter_keeps_all(t, p);
        assert(t.push(s.last()) =~= s);
    }
}

pub proof fn lemma_filter_take_all<T>(s: Seq<T>, p: spec_fn(T) -> bool)
    ensures
        s.take(s.len() as int).filter(p) == s.filter(p),
{
    assert(s.take(s.len() as int) =~= s);
}

pub proof fn lemma_filter_take_zero<T>(s: Seq<T>, p: spec_fn(T) -> bool)
    ensures
        s.take(0).filter(p) == Seq::<T>::empty(),
{
    reveal(Seq::filter);
    assert(s.take(0) =~= Seq::<T>::empty());
}

} // verus!

verus! {

/// Every item kept by `filter` comes from the sequence and satisfies the predicate.
pub proof fn lemma_filter_item_from<T>(s: Seq<T>, p: spec_fn(T) -> bool, k: int)
    requires
        0 <= k < s.filter(p).len(),
    ensures
        exists|j: int| 0 <= j < s.len() && s[j] == s.filter(p)[k] && p(s[j]),
    decreases s.len(),
{
    reveal(Seq::filter);
    if s.len() > 0 {
        let f0 = s.drop_last().filter(p);
        if p(s.last()) && k == f0.len() {
            assert(s[s.len() - 1] == s.filter(p)[k]);
        } else {
            lemma_filter_item_from(s.drop_last(), p, k);
            let j = choose|j: int|
                0 <= j < s.drop_last().len() && s.drop_last()[j] == s.drop_last().filter(p)[k]
                    && p(s.drop_last()[j]);
            assert(s[j] == s.filter(p)[k]);
        }
    }
}

} // verus!
