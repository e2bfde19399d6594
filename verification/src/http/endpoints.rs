//! The HTTP endpoints that do more than one thing to the store: creating a project issues its
//! pair codes; the pair-code endpoints make sure both codes exist before answering.

use vstd::prelude::*;
use vstd::string::*;

use crate::domain::models::{seat_parse_spec, AgentSeat, Micros, Project, ProjectV};
use crate::http::dto::{pair_codes_dto, pair_codes_spec, CreateProjectBody, ProjectPairCodesDto, ProjectPairCodesDtoV};
use crate::http::error::{api_error, pair_api_error, project_api_error, ApiError, ApiErrorV};
use crate::outside::uuid_shape;
use crate::services::board::{lemma_find_first_props, project_with_id, Board, BoardV};
use crate::services::pair_codes::{
    codes_result, ensure_project_pair_codes, ensure_spec, pair_code_text, read_plaintext_codes,
    rotate_pair_code, rotate_spec, PairFile, PairFileV,
};
use crate::services::presence::presence_at_spec;
use crate::services::projects::{
    create_project, create_project_spec, create_project_with_id, get_project, project_pos,
    project_result_v,
};

verus! {

/// The project found for `pid` carries `pid`.
proof fn lemma_project_id_found(b: BoardV, pid: Seq<char>)
    ensures
        project_pos(b, pid) matches Some(i) ==> b.projects[i].id == pid,
{
    lemma_find_first_props(b.projects, project_with_id(pid));
}

/// `POST /v1/projects` over plain values, for the id `id` the project is created under, the
/// time `now` and the fresh pair codes `fd`, `fb`: a created project gets its pair codes at once;
/// the answer is the project as created.
pub open spec fn create_project_endpoint_spec(
    b: BoardV,
    f: PairFileV,
    id: Seq<char>,
    body: (Seq<char>, Seq<char>, Seq<char>, Seq<char>),
    now: Micros,
    fd: Seq<char>,
    fb: Seq<char>,
) -> (BoardV, PairFileV, Result<ProjectV, ApiErrorV>) {
    let (b1, res) = create_project_spec(b, id, body.0, body.1, body.2, body.3, now);
    match res {
        Err(e) => (b, f, Err(project_api_error(e))),
        Ok(p) => {
            let (b2, f2, _) = ensure_spec(b1, f, id, fd, fb);
            (b2, f2, Ok(p))
        },
    }
}

/// An endpoint's project answer over plain values.
pub open spec fn project_answer_v(r: Result<Project, ApiError>) -> Result<ProjectV, ApiErrorV> {
    match r {
        Ok(p) => Ok(p.deep_view()),
        Err(e) => Err(e@),
    }
}

/// `POST /v1/projects` once the caller is known to be an admin: create the project under
/// `body.id` when given, else under a fresh id, and issue its pair codes.
pub fn create_project_endpoint(board: &mut Board, file: &mut PairFile, body: &CreateProjectBody) -> (r:
    Result<Project, ApiError>)
    ensures
        exists|id: Seq<char>, now: Micros, x: Seq<u8>, y: Seq<u8>|
            (match body.id {
                Some(given) => id == given@,
                None => uuid_shape(id),
            }) && x.len() == 24 && y.len() == 24 && (final(board)@, final(file)@, project_answer_v(r))
                == #[trigger] create_project_endpoint_spec(
                old(board)@,
                old(file)@,
                id,
                (body.name@, body.color@, body.blurb@, body.local_path@),
                now,
                pair_code_text(AgentSeat::Discuss, x),
                pair_code_text(AgentSeat::Build, y),
            ),
{
    let ghost b0 = board@;
    let ghost f0 = file@;
    let ghost fields = (body.name@, body.color@, body.blurb@, body.local_path@);
    let created = match &body.id {
        Some(id) => create_project_with_id(
            board,
            id.as_str(),
            body.name.as_str(),
            body.color.as_str(),
            body.blurb.as_str(),
            body.local_path.as_str(),
        ),
        None => create_project(
            board,
            body.name.as_str(),
            body.color.as_str(),
            body.blurb.as_str(),
            body.local_path.as_str(),
        ),
    };
    let ghost (id, now) = choose|id: Seq<char>, now: Micros|
        (match body.id {
            Some(given) => id == given@,
            None => uuid_shape(id),
        }) && (board@, project_result_v(created)) == #[trigger] create_project_spec(
            b0,
            id,
            fields.0,
            fields.1,
            fields.2,
            fields.3,
            now,
        );
    match created {
        Err(e) => {
            let r = Err(ApiError::from_project(&e));
            proof {
                let x = Seq::<u8>::new(24, |i: int| 0u8);
                assert((board@, file@, project_answer_v(r)) == create_project_endpoint_spec(
                    b0,
                    f0,
                    id,
                    fields,
                    now,
                    pair_code_text(AgentSeat::Discuss, x),
                    pair_code_text(AgentSeat::Build, x),
                ));
            }
            r
        },
        Ok(p) => {
            let ghost b1 = board@;
            let ensured = ensure_project_pair_codes(board, file, p.id.as_str());
            let r = Ok(p);
            proof {
                let (x, y) = choose|x: Seq<u8>, y: Seq<u8>|
                    x.len() == 24 && y.len() == 24 && (
                        board@,
                        file@,
                        crate::services::pair_codes::plaintexts_result_v(ensured),
                    ) == #[trigger] ensure_spec(
                        b1,
                        f0,
                        id,
                        pair_code_text(AgentSeat::Discuss, x),
                        pair_code_text(AgentSeat::Build, y),
                    );
                assert((board@, file@, project_answer_v(r)) == create_project_endpoint_spec(
                    b0,
                    f0,
                    id,
                    fields,
                    now,
                    pair_code_text(AgentSeat::Discuss, x),
                    pair_code_text(AgentSeat::Build, y),
                ));
            }
            r
        },
    }
}

/// The pair-code answer for project `pid` from the file `f`, with the seats as seen at `now`.
pub open spec fn pair_codes_answer(b: BoardV, f: PairFileV, pid: Seq<char>, now: Micros) -> Result<
    ProjectPairCodesDtoV,
    ApiErrorV,
> {
    match codes_result(f, pid) {
        Err(e) => Err(pair_api_error(e)),
        Ok(c) => Ok(pair_codes_spec(c, presence_at_spec(b, pid, now))),
    }
}

/// The answer when the project does not exist.
pub open spec fn project_missing(pid: Seq<char>) -> ApiErrorV {
    api_error(404, "not_found"@, "project not found: "@ + pid)
}

/// `GET /v1/projects/:id/pair-codes` over plain values, for the fresh codes `fd`, `fb` and the
/// time `now`: missing codes are issued first, then both plaintexts are answered.
pub open spec fn pair_codes_endpoint_spec(
    b: BoardV,
    f: PairFileV,
    pid: Seq<char>,
    fd: Seq<char>,
    fb: Seq<char>,
    now: Micros,
) -> (BoardV, PairFileV, Result<ProjectPairCodesDtoV, ApiErrorV>) {
    match project_pos(b, pid) {
        None => (b, f, Err(project_missing(pid))),
        Some(_) => {
            let (b1, f1, _) = ensure_spec(b, f, pid, fd, fb);
            (b1, f1, pair_codes_answer(b1, f1, pid, now))
        },
    }
}

/// An endpoint's pair-code answer over plain values.
pub open spec fn codes_answer_v(r: Result<ProjectPairCodesDto, ApiError>) -> Result<
    ProjectPairCodesDtoV,
    ApiErrorV,
> {
    match r {
        Ok(d) => Ok(d.deep_view()),
        Err(e) => Err(e@),
    }
}

/// `GET /v1/projects/:id/pair-codes` once the caller is known to be an admin.
pub fn pair_codes_endpoint(
    board: &mut Board,
    file: &mut PairFile,
    project_id: &str,
    exe: &str,
    home: &str,
) -> (r: Result<ProjectPairCodesDto, ApiError>)
    ensures
        exists|x: Seq<u8>, y: Seq<u8>, now: Micros|
            x.len() == 24 && y.len() == 24 && (final(board)@, final(file)@, codes_answer_v(r))
                == #[trigger] pair_codes_endpoint_spec(
                old(board)@,
                old(file)@,
                project_id@,
                pair_code_text(AgentSeat::Discuss, x),
                pair_code_text(AgentSeat::Build, y),
                now,
            ),
{
    let ghost b0 = board@;
    let ghost f0 = file@;
    let project = match get_project(board, project_id) {
        None => {
            let mut m = String::from_str("project not found: ");
            m.append(project_id);
            let r = Err(ApiError::not_found(m));
            proof {
                let x = Seq::<u8>::new(24, |i: int| 0u8);
                assert((board@, file@, codes_answer_v(r)) == pair_codes_endpoint_spec(
                    b0,
                    f0,
                    project_id@,
                    pair_code_text(AgentSeat::Discuss, x),
                    pair_code_text(AgentSeat::Build, x),
                    0,
                ));
            }
            return r;
        },
        Some(p) => p,
    };
    let ensured = ensure_project_pair_codes(board, file, project_id);
    let ghost (x, y) = choose|x: Seq<u8>, y: Seq<u8>|
        x.len() == 24 && y.len() == 24 && (board@, file@, crate::services::pair_codes::plaintexts_result_v(
            ensured,
        )) == #[trigger] ensure_spec(
            b0,
            f0,
            project_id@,
            pair_code_text(AgentSeat::Discuss, x),
            pair_code_text(AgentSeat::Build, y),
        );
    match ensured {
        Err(e) => {
            let r = Err(ApiError::from_pair(&e));
            proof {
                assert((board@, file@, codes_answer_v(r)) == pair_codes_endpoint_spec(
                    b0,
                    f0,
                    project_id@,
                    pair_code_text(AgentSeat::Discuss, x),
                    pair_code_text(AgentSeat::Build, y),
                    0,
                ));
            }
            r
        },
        Ok(codes) => {
            let dto = pair_codes_dto(board, &project, &codes, exe, home);
            let r = Ok(dto);
            proof {
                lemma_project_id_found(b0, project_id@);
                let now = choose|now: Micros|
                    dto.deep_view() == pair_codes_spec(
                        codes.deep_view(),
                        #[trigger] presence_at_spec(board@, project.id@, now),
                    );
                assert((board@, file@, codes_answer_v(r)) == pair_codes_endpoint_spec(
                    b0,
                    f0,
                    project_id@,
                    pair_code_text(AgentSeat::Discuss, x),
                    pair_code_text(AgentSeat::Build, y),
                    now,
                ));
            }
            r
        },
    }
}

/// `POST /v1/projects/:id/pair-codes/:seat/rotate` over plain values, for the fresh codes `fd`,
/// `fb` (issued first where a seat has none), the new code `code` of `seat`, and the time `now`.
pub open spec fn rotate_endpoint_spec(
    b: BoardV,
    f: PairFileV,
    pid: Seq<char>,
    seat: AgentSeat,
    fd: Seq<char>,
    fb: Seq<char>,
    code: Seq<char>,
    now: Micros,
) -> (BoardV, PairFileV, Result<ProjectPairCodesDtoV, ApiErrorV>) {
    match project_pos(b, pid) {
        None => (b, f, Err(project_missing(pid))),
        Some(_) => {
            let (b1, f1, _) = ensure_spec(b, f, pid, fd, fb);
            let (b2, f2, rr) = rotate_spec(b1, f1, pid, seat, code);
            match rr {
                Err(e) => (b2, f2, Err(pair_api_error(e))),
                Ok(_) => (b2, f2, pair_codes_answer(b2, f2, pid, now)),
            }
        },
    }
}

/// `POST /v1/projects/:id/pair-codes/:seat/rotate` once the caller is known to be an admin and
/// the seat is read: the old code of `seat` stops working and a new one is answered.
pub fn rotate_pair_code_endpoint(
    board: &mut Board,
    file: &mut PairFile,
    project_id: &str,
    seat: AgentSeat,
    exe: &str,
    home: &str,
) -> (r: Result<ProjectPairCodesDto, ApiError>)
    ensures
        exists|x: Seq<u8>, y: Seq<u8>, z: Seq<u8>, now: Micros|
            x.len() == 24 && y.len() == 24 && z.len() == 24 && (
                final(board)@,
                final(file)@,
                codes_answer_v(r),
            ) == #[trigger] rotate_endpoint_spec(
                old(board)@,
                old(file)@,
                project_id@,
                seat,
                pair_code_text(AgentSeat::Discuss, x),
                pair_code_text(AgentSeat::Build, y),
                pair_code_text(seat, z),
                now,
            ),
{
    let ghost b0 = board@;
    let ghost f0 = file@;
    let project = match get_project(board, project_id) {
        None => {
            let mut m = String::from_str("project not found: ");
            m.append(project_id);
            let r = Err(ApiError::not_found(m));
            proof {
                let x = Seq::<u8>::new(24, |i: int| 0u8);
                assert((board@, file@, codes_answer_v(r)) == rotate_endpoint_spec(
                    b0,
                    f0,
                    project_id@,
                    seat,
                    pair_code_text(AgentSeat::Discuss, x),
                    pair_code_text(AgentSeat::Build, x),
                    pair_code_text(seat, x),
                    0,
                ));
            }
            return r;
        },
        Some(p) => p,
    };
    let ensured = ensure_project_pair_codes(board, file, project_id);
    let ghost (x, y) = choose|x: Seq<u8>, y: Seq<u8>|
        x.len() == 24 && y.len() == 24 && (board@, file@, crate::services::pair_codes::plaintexts_result_v(
            ensured,
        )) == #[trigger] ensure_spec(
            b0,
            f0,
            project_id@,
            pair_code_text(AgentSeat::Discuss, x),
            pair_code_text(AgentSeat::Build, y),
        );
    let ghost b1 = board@;
    let ghost f1 = file@;
    let rotated = rotate_pair_code(board, file, project_id, seat);
    let ghost z = choose|z: Seq<u8>|
        z.len() == 24 && (board@, file@, crate::services::pair_codes::code_result_v(rotated))
            == #[trigger] rotate_spec(b1, f1, project_id@, seat, pair_code_text(seat, z));
    match rotated {
        Err(e) => {
            let r = Err(ApiError::from_pair(&e));
            proof {
                assert((board@, file@, codes_answer_v(r)) == rotate_endpoint_spec(
                    b0,
                    f0,
                    project_id@,
                    seat,
                    pair_code_text(AgentSeat::Discuss, x),
                    pair_code_text(AgentSeat::Build, y),
                    pair_code_text(seat, z),
                    0,
                ));
            }
            return r;
        },
        Ok(_) => {},
    }
    match read_plaintext_codes(file, project_id) {
        Err(e) => {
            let r = Err(ApiError::from_pair(&e));
            proof {
                assert((board@, file@, codes_answer_v(r)) == rotate_endpoint_spec(
                    b0,
                    f0,
                    project_id@,
                    seat,
                    pair_code_text(AgentSeat::Discuss, x),
                    pair_code_text(AgentSeat::Build, y),
                    pair_code_text(seat, z),
                    0,
                ));
            }
            r
        },
        Ok(codes) => {
            let dto = pair_codes_dto(board, &project, &codes, exe, home);
            let r = Ok(dto);
            proof {
                lemma_project_id_found(b0, project_id@);
                let now = choose|now: Micros|
                    dto.deep_view() == pair_codes_spec(
                        codes.deep_view(),
                        #[trigger] presence_at_spec(board@, project.id@, now),
                    );
                assert((board@, file@, codes_answer_v(r)) == rotate_endpoint_spec(
                    b0,
                    f0,
                    project_id@,
                    seat,
                    pair_code_text(AgentSeat::Discuss, x),
                    pair_code_text(AgentSeat::Build, y),
                    pair_code_text(seat, z),
                    now,
                ));
            }
            r
        },
    }
}

/// The seat named in the path of the seat-acknowledge endpoint.
pub fn ack_seat_param(seat: &str) -> (r: Result<AgentSeat, ApiError>)
    ensures
        match seat_parse_spec(seat@) {
            Some(s) => r == Ok::<AgentSeat, ApiError>(s),
            None => r matches Err(e) && e@ == api_error(
                400,
                "bad_request"@,
                "seat must be `discuss` (讨论 Agent) or `build` (实现 Agent)"@,
            ),
        },
{
    match AgentSeat::parse(seat) {
        Some(s) => Ok(s),
        None => Err(
            ApiError::bad_request(
                String::from_str("seat must be `discuss` (讨论 Agent) or `build` (实现 Agent)"),
            ),
        ),
    }
}

/// The seat named in the path of the rotate endpoint.
pub fn rotate_seat_param(seat: &str) -> (r: Result<AgentSeat, ApiError>)
    ensures
        match seat_parse_spec(seat@) {
            Some(s) => r == Ok::<AgentSeat, ApiError>(s),
            None => r matches Err(e) && e@ == api_error(
                400,
                "bad_request"@,
                "seat must be `discuss` or `build`"@,
            ),
        },
{
    match AgentSeat::parse(seat) {
        Some(s) => Ok(s),
        None => Err(ApiError::bad_request(String::from_str("seat must be `discuss` or `build`"))),
    }
}

} // verus!
