//! Application services — lifecycle verbs, projects, tokens, pair codes, seats, seed — over
//! the store.

pub mod board;
pub mod client_host;
pub mod laws;
pub mod onboarding;
pub mod pair_codes;
pub mod presence;
pub mod projects;
pub mod requirements;
pub mod seed;
pub mod tokens;

pub use board::Board;
pub use client_host::{recognize, OccupantFace};
pub use onboarding::{onboarding_prompt, OnboardingCtx};
pub use pair_codes::{
    ensure_all_project_pair_codes, ensure_project_pair_codes, lookup_pair_code,
    read_plaintext_codes, rotate_pair_code, PairBinding, PairError, PairFile, SeatPlaintexts,
};
pub use presence::{
    clear_seat_presence_pid, project_presence, touch_seat_presence, touch_seat_presence_client,
    OccupantHint, ProjectPresence, SeatLive, SEAT_TTL,
};
pub use projects::{
    ack_agent_seat, archive_project, create_project, create_project_with_id,
    ensure_project_writable, get_project, list_projects, list_projects_filtered,
    normalize_local_path, unarchive_project, update_project, ProjectError,
};
pub use requirements::{
    cancel_requirement, claim_task, complete_review, create_requirement, get_requirement,
    list_events_for_requirement, list_ready_tasks, list_requirements_for_project,
    list_requirements_for_project_filtered, release_task, report_progress, submit_for_review,
    update_requirement, ClaimError, CreateRequirementError, UpdateRequirementError,
    UpdateRequirementInput, VerbError,
};
pub use seed::{seed_demo_data, SeedError, SeedReport};
pub use tokens::{generate_bootstrap_tokens, hash_token, lookup_token, GeneratedToken};
