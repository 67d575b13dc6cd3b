//! Verified core of a chat bot that browses and edits records of a remote
//! project tracker: a snapshot cache with name resolution, an opaque
//! correlation-token codec, the item-edit workflow and the device
//! authorization flow.

mod text;

pub use text::{contains_text, eq_ignore_ascii_case, text_eq};
mod types;

pub use types::{CachedField, CachedItem, CachedProject, CachedRepo, CachedUser, UserMapping};
mod snapshot;

pub use snapshot::{FetchOutcome, Snapshot, merge_people};
mod resolve;

pub use resolve::{
    MutationValue, PayloadKind, build_mutation_payload, field_by_id, field_by_name, filter_names,
    find_people, find_projects, find_record, find_repos, mutation_payload, option_by_name,
    project_by_id, project_by_title, record_matches_folded,
};
mod token;

pub use token::CorrelationToken;
mod workflow;

pub use workflow::{
    ConfirmAction, ConfirmEvent, ConfirmState, EditAction, EditEvent, EditPlan, PlanError,
    current_value, edit_step, edit_step_now, field_choices_of, item_node, parse_item_number,
    plan_edit,
};
mod device_auth;

pub use device_auth::{
    AuthAction, AuthState, DEFAULT_INTERVAL_SECS, DeviceFlow, POLL_CEILING_SECS, PollResponse,
    classify_poll,
};
mod suggest;

pub use suggest::{VALUE_INPUT_LIMIT, VALUE_SUGGESTION_LIMIT, find_fields, value_options};
mod ingest;

pub use ingest::{
    RawField, RawItem, RawOption, RawProject, field_from_raw, project_from_raw, projects_from_raw,
};
