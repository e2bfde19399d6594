//! What the HTTP API sends back for projects, seats and pair codes (times as microseconds;
//! the wire form writes them as RFC 3339).

use vstd::prelude::*;
use vstd::string::*;

use crate::domain::models::{AgentSeat, Micros, Project, ProjectV};
use crate::domain::state::clone_opt_string;
use crate::services::board::{Board, BoardV};
use crate::services::onboarding::{onboarding_prompt, prompt_spec, OnboardingCtx};
use crate::services::pair_codes::{SeatPlaintexts, SeatPlaintextsV};
use crate::services::presence::{
    presence_at_spec, project_presence, ProjectPresence, ProjectPresenceV, SeatLive, SeatLiveV,
};

verus! {

#[derive(Debug)]
pub struct HealthResponse {
    pub status: &'static str,
    pub service: &'static str,
}

/// The health answer.
pub fn health() -> (r: HealthResponse)
    ensures
        r.status@ == "ok"@,
        r.service@ == "req-engine"@,
{
    HealthResponse { status: "ok", service: "req-engine" }
}

/// Colour of a project created without one.
pub fn default_color() -> (r: String)
    ensures
        r@ == "#6366f1"@,
{
    String::from_str("#6366f1")
}

/// Priority of a requirement created without one.
pub fn default_priority() -> (r: String)
    ensures
        r@ == "medium"@,
{
    String::from_str("medium")
}

/// Who sits on a seat, as shown on the card.
#[derive(Debug)]
pub struct OccupantDto {
    pub raw_name: String,
    pub label: String,
    pub key: String,
    pub initials: String,
    pub hue: u16,
    pub known: bool,
}

pub struct OccupantDtoV {
    pub raw_name: Seq<char>,
    pub label: Seq<char>,
    pub key: Seq<char>,
    pub initials: Seq<char>,
    pub hue: u16,
    pub known: bool,
}

impl DeepView for OccupantDto {
    type V = OccupantDtoV;

    open spec fn deep_view(&self) -> OccupantDtoV {
        OccupantDtoV {
            raw_name: self.raw_name@,
            label: self.label@,
            key: self.key@,
            initials: self.initials@,
            hue: self.hue,
            known: self.known,
        }
    }
}

/// An optional occupant over plain values.
pub open spec fn opt_occupant_v(o: Option<OccupantDto>) -> Option<OccupantDtoV> {
    match o {
        Some(x) => Some(x.deep_view()),
        None => None,
    }
}

/// The occupant shown for a seat: only while seated, and only when a face is known.
pub open spec fn occupant_spec(live: SeatLiveV) -> Option<OccupantDtoV> {
    if !live.seated {
        None
    } else {
        match live.face {
            None => None,
            Some(f) => Some(
                OccupantDtoV {
                    raw_name: match live.client_name {
                        Some(n) => n,
                        None => Seq::empty(),
                    },
                    label: f.label,
                    key: f.key,
                    initials: f.initials,
                    hue: f.hue,
                    known: f.known,
                },
            ),
        }
    }
}

/// The occupant shown for a seat.
pub fn occupant_dto(live: &SeatLive) -> (r: Option<OccupantDto>)
    ensures
        opt_occupant_v(r) == occupant_spec(live.deep_view()),
{
    if !live.seated {
        return None;
    }
    match &live.face {
        None => None,
        Some(face) => Some(
            OccupantDto {
                raw_name: match &live.client_name {
                    Some(n) => n.clone(),
                    None => String::new(),
                },
                label: face.label.clone(),
                key: face.key.clone(),
                initials: face.initials.clone(),
                hue: face.hue,
                known: face.known,
            },
        ),
    }
}

/// A project as the API sends it.
#[derive(Debug)]
pub struct ProjectDto {
    pub id: String,
    pub name: String,
    pub color: String,
    pub blurb: String,
    /// Optional absolute local folder path (empty = unbound).
    pub local_path: String,
    pub archived_at: Option<Micros>,
    /// Discuss agent (MCP planner) linked?
    pub discuss_agent_configured: bool,
    /// Build agent (MCP foreman) linked?
    pub build_agent_configured: bool,
    pub discuss_agent_at: Option<Micros>,
    pub build_agent_at: Option<Micros>,
    /// Live MCP stdio process is heartbeating this seat (TTL window).
    pub discuss_seated: bool,
    pub build_seated: bool,
    pub discuss_occupant: Option<OccupantDto>,
    pub build_occupant: Option<OccupantDto>,
}

pub struct ProjectDtoV {
    pub id: Seq<char>,
    pub name: Seq<char>,
    pub color: Seq<char>,
    pub blurb: Seq<char>,
    pub local_path: Seq<char>,
    pub archived_at: Option<Micros>,
    pub discuss_agent_configured: bool,
    pub build_agent_configured: bool,
    pub discuss_agent_at: Option<Micros>,
    pub build_agent_at: Option<Micros>,
    pub discuss_seated: bool,
    pub build_seated: bool,
    pub discuss_occupant: Option<OccupantDtoV>,
    pub build_occupant: Option<OccupantDtoV>,
}

impl DeepView for ProjectDto {
    type V = ProjectDtoV;

    open spec fn deep_view(&self) -> ProjectDtoV {
        ProjectDtoV {
            id: self.id@,
            name: self.name@,
            color: self.color@,
            blurb: self.blurb@,
            local_path: self.local_path@,
            archived_at: self.archived_at,
            discuss_agent_configured: self.discuss_agent_configured,
            build_agent_configured: self.build_agent_configured,
            discuss_agent_at: self.discuss_agent_at,
            build_agent_at: self.build_agent_at,
            discuss_seated: self.discuss_seated,
            build_seated: self.build_seated,
            discuss_occupant: opt_occupant_v(self.discuss_occupant),
            build_occupant: opt_occupant_v(self.build_occupant),
        }
    }
}

/// A project as sent without seat information: seats shown empty.
pub open spec fn project_dto_spec(p: ProjectV) -> ProjectDtoV {
    ProjectDtoV {
        id: p.id,
        name: p.name,
        color: p.color,
        blurb: p.blurb,
        local_path: p.local_path,
        archived_at: p.archived_at,
        discuss_agent_configured: p.discuss_agent_at is Some,
        build_agent_configured: p.build_agent_at is Some,
        discuss_agent_at: p.discuss_agent_at,
        build_agent_at: p.build_agent_at,
        discuss_seated: false,
        build_seated: false,
        discuss_occupant: None,
        build_occupant: None,
    }
}

/// A project as sent with its seats as shown.
pub open spec fn project_dto_live_spec(p: ProjectV, live: ProjectPresenceV) -> ProjectDtoV {
    ProjectDtoV {
        discuss_seated: live.discuss.seated,
        build_seated: live.build.seated,
        discuss_occupant: occupant_spec(live.discuss),
        build_occupant: occupant_spec(live.build),
        ..project_dto_spec(p)
    }
}

impl ProjectDto {
    /// A project as sent without seat information.
    pub fn from_project(p: Project) -> (r: ProjectDto)
        ensures
            r.deep_view() == project_dto_spec(p.deep_view()),
    {
        ProjectDto {
            id: p.id,
            name: p.name,
            color: p.color,
            blurb: p.blurb,
            local_path: p.local_path,
            archived_at: p.archived_at,
            discuss_agent_configured: p.discuss_agent_at.is_some(),
            build_agent_configured: p.build_agent_at.is_some(),
            discuss_agent_at: p.discuss_agent_at,
            build_agent_at: p.build_agent_at,
            discuss_seated: false,
            build_seated: false,
            discuss_occupant: None,
            build_occupant: None,
        }
    }
}

/// A project as sent with its seats as shown now.
pub fn project_dto_with_presence(board: &Board, project: Project) -> (r: ProjectDto)
    ensures
        exists|now: Micros|
            r.deep_view() == project_dto_live_spec(
                project.deep_view(),
                #[trigger] presence_at_spec(board@, project.id@, now),
            ),
{
    let live = project_presence(board, project.id.as_str());
    let mut dto = ProjectDto::from_project(project);
    dto.discuss_seated = live.discuss.seated;
    dto.build_seated = live.build.seated;
    dto.discuss_occupant = occupant_dto(&live.discuss);
    dto.build_occupant = occupant_dto(&live.build);
    dto
}

/// One seat's pair code with its copyable onboarding text and who sits there.
#[derive(Debug)]
pub struct SeatPairDto {
    pub code: String,
    pub copy_text: String,
    pub seated: bool,
    pub last_seen_at: Option<Micros>,
    pub occupant: Option<OccupantDto>,
}

pub struct SeatPairDtoV {
    pub code: Seq<char>,
    pub copy_text: Seq<char>,
    pub seated: bool,
    pub last_seen_at: Option<Micros>,
    pub occupant: Option<OccupantDtoV>,
}

impl DeepView for SeatPairDto {
    type V = SeatPairDtoV;

    open spec fn deep_view(&self) -> SeatPairDtoV {
        SeatPairDtoV {
            code: self.code@,
            copy_text: self.copy_text@,
            seated: self.seated,
            last_seen_at: self.last_seen_at,
            occupant: opt_occupant_v(self.occupant),
        }
    }
}

#[derive(Debug)]
pub struct ProjectPairCodesDto {
    pub discuss: SeatPairDto,
    pub build: SeatPairDto,
}

pub struct ProjectPairCodesDtoV {
    pub discuss: SeatPairDtoV,
    pub build: SeatPairDtoV,
}

impl DeepView for ProjectPairCodesDto {
    type V = ProjectPairCodesDtoV;

    open spec fn deep_view(&self) -> ProjectPairCodesDtoV {
        ProjectPairCodesDtoV { discuss: self.discuss.deep_view(), build: self.build.deep_view() }
    }
}

/// One seat's pair-code answer.
pub open spec fn seat_pair_spec(seat: AgentSeat, code: Seq<char>, live: SeatLiveV) -> SeatPairDtoV {
    SeatPairDtoV {
        code: code,
        copy_text: prompt_spec(seat, code),
        seated: live.seated,
        last_seen_at: live.last_seen_at,
        occupant: occupant_spec(live),
    }
}

/// Both seats' pair-code answers.
pub open spec fn pair_codes_spec(codes: SeatPlaintextsV, live: ProjectPresenceV) -> ProjectPairCodesDtoV {
    ProjectPairCodesDtoV {
        discuss: seat_pair_spec(AgentSeat::Discuss, codes.discuss, live.discuss),
        build: seat_pair_spec(AgentSeat::Build, codes.build, live.build),
    }
}

/// One seat's pair-code answer.
fn seat_pair_dto(seat: AgentSeat, ctx: &OnboardingCtx<'_>, live: &SeatLive) -> (r: SeatPairDto)
    ensures
        r.deep_view() == seat_pair_spec(seat, ctx.pair_code@, live.deep_view()),
{
    SeatPairDto {
        code: String::from_str(ctx.pair_code),
        copy_text: onboarding_prompt(seat, ctx),
        seated: live.seated,
        last_seen_at: live.last_seen_at,
        occupant: occupant_dto(live),
    }
}

/// The pair codes of a project with their onboarding texts and the seats as shown now.
pub fn pair_codes_dto(
    board: &Board,
    project: &Project,
    codes: &SeatPlaintexts,
    exe: &str,
    home: &str,
) -> (r: ProjectPairCodesDto)
    ensures
        exists|now: Micros|
            r.deep_view() == pair_codes_spec(
                codes.deep_view(),
                #[trigger] presence_at_spec(board@, project.id@, now),
            ),
{
    let live = project_presence(board, project.id.as_str());
    let discuss_ctx = OnboardingCtx {
        exe: exe,
        home: home,
        project_id: project.id.as_str(),
        project_name: project.name.as_str(),
        pair_code: codes.discuss.as_str(),
        local_path: project.local_path.as_str(),
    };
    let build_ctx = OnboardingCtx {
        exe: exe,
        home: home,
        project_id: project.id.as_str(),
        project_name: project.name.as_str(),
        pair_code: codes.build.as_str(),
        local_path: project.local_path.as_str(),
    };
    ProjectPairCodesDto {
        discuss: seat_pair_dto(AgentSeat::Discuss, &discuss_ctx, &live.discuss),
        build: seat_pair_dto(AgentSeat::Build, &build_ctx, &live.build),
    }
}

/// Body of a project creation.
#[derive(Debug)]
pub struct CreateProjectBody {
    pub name: String,
    pub color: String,
    pub blurb: String,
    /// Optional local folder path (empty = unbound). Stored trimmed; need not exist.
    pub local_path: String,
    /// Optional stable id (seed / admin convenience).
    pub id: Option<String>,
}

/// Partial project update (admin). Omitted fields are left unchanged.
#[derive(Debug)]
pub struct PatchProjectBody {
    pub name: Option<String>,
    pub color: Option<String>,
    pub blurb: Option<String>,
    pub local_path: Option<String>,
}

/// Body of a progress report.
#[derive(Debug)]
pub struct ProgressBody {
    pub summary: Option<String>,
    pub blocked_reason: Option<String>,
}

/// Body of a review completion.
#[derive(Debug)]
pub struct CompleteReviewBody {
    pub pass: bool,
    pub reason: Option<String>,
}

} // verus!

