//! The item-edit workflow: each inbound control event, decoded from its
//! token, leads to the next prompt or to the one remote update; and the
//! confirm/cancel prompt of the single-shot edit, bounded by a timeout.

use crate::resolve::{
    field_by_name, field_by_name_spec, project_by_title, project_by_title_spec, PayloadKind, build_mutation_payload, field_by_id, field_by_id_spec, payload_kind_spec,
    payload_text_spec, project_by_id, project_by_id_spec, today_iso_date,
};
use crate::snapshot::{Snapshot, SnapshotView};
use crate::text::{
    chars_of, eq_ignore_ascii_case, eq_ignore_case, is_digit, nat_text, parse_u64, parse_u64_spec,
    push_decimal, text_eq,
};
use crate::token::{CorrelationToken, TokenView, decode_spec, encode_spec};
use crate::types::{CachedField, CachedProject, FieldView};
use vstd::prelude::*;

verus! {

/// What the user did on a control.
pub enum EditEvent {
    /// Pressed a button.
    Pressed,
    /// Picked an entry of a choice; carries the entry's value.
    Selected(String),
    /// Submitted a text prompt; carries the text.
    Submitted(String),
}

pub enum EventView {
    Pressed,
    Selected(Seq<char>),
    Submitted(Seq<char>),
}

impl View for EditEvent {
    type V = EventView;

    open spec fn view(&self) -> EventView {
        match self {
            EditEvent::Pressed => EventView::Pressed,
            EditEvent::Selected(v) => EventView::Selected(v@),
            EditEvent::Submitted(v) => EventView::Submitted(v@),
        }
    }
}

/// What the workflow does next.
pub enum EditAction {
    /// The control matches no live step: report it as outdated, change nothing.
    Stale,
    /// The project or field that the control names is not in the snapshot.
    Unknown,
    /// The project has no field that can be edited here.
    NoEditableFields,
    /// The chosen selection field has no options.
    NoOptions,
    /// Offer the fields as (label, field id) choices under `token`.
    PresentFieldChoice { token: String, number: u64, choices: Vec<(String, String)> },
    /// Offer the field's options as (name, option id) choices under `token`.
    PresentOptionChoice {
        token: String,
        field_name: String,
        number: u64,
        choices: Vec<(String, String)>,
    },
    /// Open a text prompt under `token`.
    OpenTextPrompt { token: String, field_name: String, data_type: String, number: u64 },
    /// Issue the one remote update of the record's field.
    Mutate { project_id: String, number: u64, field_id: String, kind: PayloadKind, value: String },
}

pub enum ActionView {
    Stale,
    Unknown,
    NoEditableFields,
    NoOptions,
    PresentFieldChoice { token: Seq<char>, number: u64, choices: Seq<(Seq<char>, Seq<char>)> },
    PresentOptionChoice {
        token: Seq<char>,
        field_name: Seq<char>,
        number: u64,
        choices: Seq<(Seq<char>, Seq<char>)>,
    },
    OpenTextPrompt { token: Seq<char>, field_name: Seq<char>, data_type: Seq<char>, number: u64 },
    Mutate {
        project_id: Seq<char>,
        number: u64,
        field_id: Seq<char>,
        kind: PayloadKind,
        value: Seq<char>,
    },
}

pub open spec fn pair_views(v: Seq<(String, String)>) -> Seq<(Seq<char>, Seq<char>)> {
    v.map_values(|p: (String, String)| (p.0@, p.1@))
}

impl View for EditAction {
    type V = ActionView;

    open spec fn view(&self) -> ActionView {
        match self {
            EditAction::Stale => ActionView::Stale,
            EditAction::Unknown => ActionView::Unknown,
            EditAction::NoEditableFields => ActionView::NoEditableFields,
            EditAction::NoOptions => ActionView::NoOptions,
            EditAction::PresentFieldChoice { token, number, choices } =>
                ActionView::PresentFieldChoice {
                token: token@,
                number: *number,
                choices: pair_views(choices@),
            },
            EditAction::PresentOptionChoice { token, field_name, number, choices } =>
                ActionView::PresentOptionChoice {
                token: token@,
                field_name: field_name@,
                number: *number,
                choices: pair_views(choices@),
            },
            EditAction::OpenTextPrompt { token, field_name, data_type, number } =>
                ActionView::OpenTextPrompt {
                token: token@,
                field_name: field_name@,
                data_type: data_type@,
                number: *number,
            },
            EditAction::Mutate { project_id, number, field_id, kind, value } => ActionView::Mutate {
                project_id: project_id@,
                number: *number,
                field_id: field_id@,
                kind: *kind,
                value: value@,
            },
        }
    }
}

/// Fields that the record view shows by other means and that are not edited here.
pub open spec fn is_fixed_field(name: Seq<char>) -> bool {
    ||| name == "Title"@
    ||| name == "Assignees"@
    ||| name == "Labels"@
    ||| name == "Repository"@
    ||| name == "Milestone"@
    ||| name == "Linked pull requests"@
}

/// Data types whose values are picked from enumerated options.
pub open spec fn is_selection_type(data_type: Seq<char>) -> bool {
    data_type == "SINGLE_SELECT"@ || data_type == "ITERATION"@ || data_type == "STATUS"@
}

/// `"{name} ({data type})"`.
pub open spec fn field_label(f: FieldView) -> Seq<char> {
    f.name@ + " ("@ + f.data_type@ + ")"@
}

/// The editable fields as (label, field id) choices, in project order.
pub open spec fn field_choices(fs: Seq<FieldView>) -> Seq<(Seq<char>, Seq<char>)>
    decreases fs.len(),
{
    if fs.len() == 0 {
        Seq::empty()
    } else {
        let r = field_choices(fs.drop_last());
        let f = fs.last();
        if is_fixed_field(f.name@) {
            r
        } else {
            r.push((field_label(f), f.id@))
        }
    }
}

/// The field's options as (name, option id) choices.
pub open spec fn option_choices(f: FieldView) -> Seq<(Seq<char>, Seq<char>)> {
    pair_views(f.options)
}

/// The next action for an event on a control whose token decoded to `t`.
pub open spec fn edit_step_spec(
    snap: SnapshotView,
    t: Option<TokenView>,
    ev: EventView,
    today: Seq<char>,
) -> ActionView {
    let ps = snap.projects;
    match t {
        None => ActionView::Stale,
        Some(TokenView::EditItem { project_id, number }) => match ev {
            EventView::Pressed => {
                let k = project_by_id_spec(ps, project_id);
                if k < 0 {
                    ActionView::Unknown
                } else {
                    let ch = field_choices(ps[k].fields);
                    if ch.len() == 0 {
                        ActionView::NoEditableFields
                    } else {
                        ActionView::PresentFieldChoice {
                            token: encode_spec(TokenView::FieldChoice { project_id, number }),
                            number,
                            choices: ch,
                        }
                    }
                }
            },
            _ => ActionView::Stale,
        },
        Some(TokenView::FieldChoice { project_id, number }) => match ev {
            EventView::Selected(field_id) => {
                let k = project_by_id_spec(ps, project_id);
                if k < 0 {
                    ActionView::Unknown
                } else {
                    let j = field_by_id_spec(ps[k].fields, field_id);
                    if j < 0 {
                        ActionView::Unknown
                    } else {
                        let f = ps[k].fields[j];
                        if is_selection_type(f.data_type@) {
                            let ch = option_choices(f);
                            if ch.len() == 0 {
                                ActionView::NoOptions
                            } else {
                                ActionView::PresentOptionChoice {
                                    token: encode_spec(
                                        TokenView::ValueChoice { project_id, number, field_id },
                                    ),
                                    field_name: f.name@,
                                    number,
                                    choices: ch,
                                }
                            }
                        } else {
                            ActionView::OpenTextPrompt {
                                token: encode_spec(
                                    TokenView::ValueEntry { project_id, number, field_id },
                                ),
                                field_name: f.name@,
                                data_type: f.data_type@,
                                number,
                            }
                        }
                    }
                }
            },
            _ => ActionView::Stale,
        },
        Some(TokenView::ValueChoice { project_id, number, field_id }) => match ev {
            EventView::Selected(option_id) => ActionView::Mutate {
                project_id,
                number,
                field_id,
                kind: PayloadKind::SingleSelectOption,
                value: option_id,
            },
            _ => ActionView::Stale,
        },
        Some(TokenView::ValueEntry { project_id, number, field_id }) => match ev {
            EventView::Submitted(value) => {
                let k = project_by_id_spec(ps, project_id);
                let j = if k < 0 {
                    -1
                } else {
                    field_by_id_spec(ps[k].fields, field_id)
                };
                if j < 0 {
                    ActionView::Mutate { project_id, number, field_id, kind: PayloadKind::Text, value }
                } else {
                    let f = ps[k].fields[j];
                    ActionView::Mutate {
                        project_id,
                        number,
                        field_id,
                        kind: payload_kind_spec(f, value),
                        value: payload_text_spec(f, value, today),
                    }
                }
            },
            _ => ActionView::Stale,
        },
    }
}

fn is_fixed(name: &str) -> (r: bool)
    ensures
        r == is_fixed_field(name@),
{
    text_eq(name, "Title") || text_eq(name, "Assignees") || text_eq(name, "Labels") || text_eq(
        name,
        "Repository",
    ) || text_eq(name, "Milestone") || text_eq(name, "Linked pull requests")
}

pub(crate) fn is_selection(data_type: &str) -> (r: bool)
    ensures
        r == is_selection_type(data_type@),
{
    text_eq(data_type, "SINGLE_SELECT") || text_eq(data_type, "ITERATION") || text_eq(
        data_type,
        "STATUS",
    )
}

fn field_label_of(f: &CachedField) -> (r: String)
    ensures
        r@ == field_label(f@),
{
    let mut s = f.name.clone();
    s.append(" (");
    s.append(f.data_type.as_str());
    s.append(")");
    s
}

/// The editable fields of `p` as (label, field id) choices.
pub fn field_choices_of(p: &CachedProject) -> (r: Vec<(String, String)>)
    ensures
        pair_views(r@) == field_choices(p@.fields),
{
    let ghost fv = p@.fields;
    let mut r: Vec<(String, String)> = Vec::new();
    let mut i: usize = 0;
    while i < p.fields.len()
        invariant
            i <= p.fields@.len(),
            fv == p@.fields,
            pair_views(r@) == field_choices(fv.take(i as int)),
        decreases p.fields@.len() - i,
    {
        let f = &p.fields[i];
        assert(fv.take(i + 1).drop_last() =~= fv.take(i as int));
        assert(fv.take(i + 1).last() == f@);
        if !is_fixed(f.name.as_str()) {
            let label = field_label_of(f);
            let ghost before = r@;
            r.push((label, f.id.clone()));
            assert(pair_views(r@) =~= pair_views(before).push((field_label(f@), f@.id@)));
        }
        i = i + 1;
    }
    assert(fv.take(i as int) =~= fv);
    r
}

fn option_choices_of(f: &CachedField) -> (r: Vec<(String, String)>)
    ensures
        pair_views(r@) == option_choices(f@),
{
    let mut r: Vec<(String, String)> = Vec::new();
    let mut i: usize = 0;
    while i < f.options.len()
        invariant
            i <= f.options@.len(),
            r@.len() == i,
            forall|k: int|
                0 <= k < i ==> (#[trigger] r@[k]).0@ == f.options@[k].0@ && r@[k].1@
                    == f.options@[k].1@,
        decreases f.options@.len() - i,
    {
        r.push((f.options[i].0.clone(), f.options[i].1.clone()));
        i = i + 1;
    }
    assert(pair_views(r@) =~= pair_views(f.options@));
    r
}

/// The workflow's next action for `event` on the control identified by
/// `custom_id`, with `today` standing for the current date.
pub fn edit_step(snap: &Snapshot, custom_id: &str, event: &EditEvent, today: &str) -> (r: EditAction)
    ensures
        r@ == edit_step_spec(snap@, decode_spec(custom_id@), event@, today@),
{
    proof {
        reveal_strlit(" (");
        reveal_strlit(")");
    }
    let t = match CorrelationToken::decode(custom_id) {
        Some(t) => t,
        None => {
            return EditAction::Stale;
        },
    };
    match t {
        CorrelationToken::EditItem { project_id, number } => match event {
            EditEvent::Pressed => match project_by_id(snap, project_id.as_str()) {
                None => EditAction::Unknown,
                Some(k) => {
                    let choices = field_choices_of(&snap.projects[k]);
                    if choices.len() == 0 {
                        EditAction::NoEditableFields
                    } else {
                        let next = CorrelationToken::FieldChoice { project_id, number };
                        EditAction::PresentFieldChoice { token: next.encode(), number, choices }
                    }
                },
            },
            _ => EditAction::Stale,
        },
        CorrelationToken::FieldChoice { project_id, number } => match event {
            EditEvent::Selected(field_id) => match project_by_id(snap, project_id.as_str()) {
                None => EditAction::Unknown,
                Some(k) => {
                    let p = &snap.projects[k];
                    match field_by_id(p, field_id.as_str()) {
                        None => EditAction::Unknown,
                        Some(j) => {
                            let f = &p.fields[j];
                            if is_selection(f.data_type.as_str()) {
                                let choices = option_choices_of(f);
                                if choices.len() == 0 {
                                    EditAction::NoOptions
                                } else {
                                    let next = CorrelationToken::ValueChoice {
                                        project_id,
                                        number,
                                        field_id: field_id.clone(),
                                    };
                                    EditAction::PresentOptionChoice {
                                        token: next.encode(),
                                        field_name: f.name.clone(),
                                        number,
                                        choices,
                                    }
                                }
                            } else {
                                let next = CorrelationToken::ValueEntry {
                                    project_id,
                                    number,
                                    field_id: field_id.clone(),
                                };
                                EditAction::OpenTextPrompt {
                                    token: next.encode(),
                                    field_name: f.name.clone(),
                                    data_type: f.data_type.clone(),
                                    number,
                                }
                            }
                        },
                    }
                },
            },
            _ => EditAction::Stale,
        },
        CorrelationToken::ValueChoice { project_id, number, field_id } => match event {
            EditEvent::Selected(option_id) => EditAction::Mutate {
                project_id,
                number,
                field_id,
                kind: PayloadKind::SingleSelectOption,
                value: option_id.clone(),
            },
            _ => EditAction::Stale,
        },
        CorrelationToken::ValueEntry { project_id, number, field_id } => match event {
            EditEvent::Submitted(value) => {
                let found = match project_by_id(snap, project_id.as_str()) {
                    None => None,
                    Some(k) => match field_by_id(&snap.projects[k], field_id.as_str()) {
                        None => None,
                        Some(j) => Some((k, j)),
                    },
                };
                match found {
                    None => EditAction::Mutate {
                        project_id,
                        number,
                        field_id,
                        kind: PayloadKind::Text,
                        value: value.clone(),
                    },
                    Some((k, j)) => {
                        let payload = build_mutation_payload(
                            &snap.projects[k].fields[j],
                            value.as_str(),
                            today,
                        );
                        EditAction::Mutate {
                            project_id,
                            number,
                            field_id,
                            kind: payload.kind,
                            value: payload.value,
                        }
                    },
                }
            },
            _ => EditAction::Stale,
        },
    }
}

/// The workflow's next action, reading the clock for the current date.
pub fn edit_step_now(snap: &Snapshot, custom_id: &str, event: &EditEvent) -> (r: EditAction)
    ensures
        exists|today: Seq<char>| r@ == edit_step_spec(snap@, decode_spec(custom_id@), event@, today),
{
    let today = today_iso_date();
    let r = edit_step(snap, custom_id, event, today.as_str());
    assert(r@ == edit_step_spec(snap@, decode_spec(custom_id@), event@, today@));
    r
}

/// The confirm/cancel prompt of the single-shot edit.
pub enum ConfirmState {
    /// Waiting for `author` to press one of the two controls.
    Awaiting { confirm_id: String, cancel_id: String, author: u64 },
    Confirmed,
    Cancelled,
    TimedOut,
}

pub enum ConfirmView {
    Awaiting { confirm_id: Seq<char>, cancel_id: Seq<char>, author: u64 },
    Confirmed,
    Cancelled,
    TimedOut,
}

impl View for ConfirmState {
    type V = ConfirmView;

    open spec fn view(&self) -> ConfirmView {
        match self {
            ConfirmState::Awaiting { confirm_id, cancel_id, author } => ConfirmView::Awaiting {
                confirm_id: confirm_id@,
                cancel_id: cancel_id@,
                author: *author,
            },
            ConfirmState::Confirmed => ConfirmView::Confirmed,
            ConfirmState::Cancelled => ConfirmView::Cancelled,
            ConfirmState::TimedOut => ConfirmView::TimedOut,
        }
    }
}

/// What reaches a waiting prompt: a press on some control, or the end of its wait.
pub enum ConfirmEvent {
    Pressed { custom_id: String, author: u64 },
    Timeout,
}

pub enum ConfirmEventView {
    Pressed { custom_id: Seq<char>, author: u64 },
    Timeout,
}

impl View for ConfirmEvent {
    type V = ConfirmEventView;

    open spec fn view(&self) -> ConfirmEventView {
        match self {
            ConfirmEvent::Pressed { custom_id, author } => ConfirmEventView::Pressed {
                custom_id: custom_id@,
                author: *author,
            },
            ConfirmEvent::Timeout => ConfirmEventView::Timeout,
        }
    }
}

/// What the prompt does on an event.
#[derive(PartialEq, Eq, Structural, Clone, Copy, Debug)]
pub enum ConfirmAction {
    /// The event is not for this prompt, or the prompt is over.
    Ignore,
    /// Issue the update.
    Proceed,
    /// Show that the edit was cancelled.
    ShowCancelled,
    /// Show that the prompt timed out.
    ShowTimedOut,
}

pub open spec fn confirm_id_spec(correlation: u64) -> Seq<char> {
    "edit_confirm_"@ + nat_text(correlation as nat)
}

pub open spec fn cancel_id_spec(correlation: u64) -> Seq<char> {
    "edit_cancel_"@ + nat_text(correlation as nat)
}

/// The prompt's next state and action on an event.
pub open spec fn confirm_next(s: ConfirmView, e: ConfirmEventView) -> (ConfirmView, ConfirmAction) {
    match s {
        ConfirmView::Awaiting { confirm_id, cancel_id, author } => match e {
            ConfirmEventView::Timeout => (ConfirmView::TimedOut, ConfirmAction::ShowTimedOut),
            ConfirmEventView::Pressed { custom_id, author: who } => {
                if who != author {
                    (s, ConfirmAction::Ignore)
                } else if custom_id == confirm_id {
                    (ConfirmView::Confirmed, ConfirmAction::Proceed)
                } else if custom_id == cancel_id {
                    (ConfirmView::Cancelled, ConfirmAction::ShowCancelled)
                } else {
                    (s, ConfirmAction::Ignore)
                }
            },
        },
        _ => (s, ConfirmAction::Ignore),
    }
}

impl ConfirmState {
    /// The prompt for the edit with this correlation id, waiting for `author`;
    /// its controls are `edit_confirm_{id}` and `edit_cancel_{id}`.
    pub fn prompt(correlation: u64, author: u64) -> (r: ConfirmState)
        ensures
            r@ == (ConfirmView::Awaiting {
                confirm_id: confirm_id_spec(correlation),
                cancel_id: cancel_id_spec(correlation),
                author,
            }),
    {
        let mut confirm_id = String::from_str("edit_confirm_");
        push_decimal(&mut confirm_id, correlation);
        let mut cancel_id = String::from_str("edit_cancel_");
        push_decimal(&mut cancel_id, correlation);
        ConfirmState::Awaiting { confirm_id, cancel_id, author }
    }

    /// Whether the prompt is over.
    pub fn is_terminal(&self) -> (r: bool)
        ensures
            r == !(self@ is Awaiting),
    {
        !matches!(self, ConfirmState::Awaiting { .. })
    }

    /// Moves the prompt on by one event. A press by someone else or on another
    /// control is ignored; once the prompt is over every event is ignored.
    pub fn step(&mut self, e: &ConfirmEvent) -> (r: ConfirmAction)
        ensures
            (final(self)@, r) == confirm_next(old(self)@, e@),
    {
        let (next, action) = match &*self {
            ConfirmState::Awaiting { confirm_id, cancel_id, author } => match e {
                ConfirmEvent::Timeout => (ConfirmState::TimedOut, ConfirmAction::ShowTimedOut),
                ConfirmEvent::Pressed { custom_id, author: who } => {
                    if *who != *author {
                        return ConfirmAction::Ignore;
                    } else if text_eq(custom_id.as_str(), confirm_id.as_str()) {
                        (ConfirmState::Confirmed, ConfirmAction::Proceed)
                    } else if text_eq(custom_id.as_str(), cancel_id.as_str()) {
                        (ConfirmState::Cancelled, ConfirmAction::ShowCancelled)
                    } else {
                        return ConfirmAction::Ignore;
                    }
                },
            },
            _ => {
                return ConfirmAction::Ignore;
            },
        };
        *self = next;
        action
    }
}

/// A prompt that timed out stays timed out and ignores every later event,
/// so no update is issued after the timeout.
pub proof fn lemma_timeout_is_terminal(s: ConfirmView, late: ConfirmEventView)
    requires
        s is Awaiting,
    ensures
        confirm_next(s, ConfirmEventView::Timeout) == (
            ConfirmView::TimedOut,
            ConfirmAction::ShowTimedOut,
        ),
        confirm_next(ConfirmView::TimedOut, late) == (ConfirmView::TimedOut, ConfirmAction::Ignore),
{
}

/// Only a press of the confirm control by the prompt's author issues the update.
pub proof fn lemma_proceed_only_on_confirm(s: ConfirmView, e: ConfirmEventView)
    ensures
        confirm_next(s, e).1 == ConfirmAction::Proceed ==> (s is Awaiting && e is Pressed
            && e->Pressed_custom_id == s->Awaiting_confirm_id && e->Pressed_author
            == s->Awaiting_author),
{
}

/// The first position at or after `i` that holds `c`, or -1.
pub open spec fn index_of_from(s: Seq<char>, c: char, i: int) -> int
    decreases s.len() - i,
{
    if i < 0 || i >= s.len() {
        -1
    } else if s[i] == c {
        i
    } else {
        index_of_from(s, c, i + 1)
    }
}

/// The end of the run of digits that starts at `i`.
pub open spec fn digit_run_end(s: Seq<char>, i: int) -> int
    decreases s.len() - i,
{
    if 0 <= i < s.len() && is_digit(s[i]) {
        digit_run_end(s, i + 1)
    } else {
        i
    }
}

/// The record number in what the user typed (`"123"` or `"repo #123"`): the
/// digits after the first `#`, or the leading digits when there is no `#`;
/// 0 when there are none or they do not fit.
pub open spec fn item_number_spec(q: Seq<char>) -> u64 {
    let h = index_of_from(q, '#', 0);
    let start = if h < 0 {
        0
    } else {
        h + 1
    };
    match parse_u64_spec(q.subrange(start, digit_run_end(q, start))) {
        Some(n) => n,
        None => 0,
    }
}

proof fn lemma_index_of_range(s: Seq<char>, c: char, i: int)
    requires
        0 <= i,
    ensures
        index_of_from(s, c, i) == -1 || i <= index_of_from(s, c, i) < s.len(),
    decreases s.len() - i,
{
    if i < s.len() && s[i] != c {
        lemma_index_of_range(s, c, i + 1);
    }
}

/// Reads the record number out of what the user typed.
pub fn parse_item_number(q: &str) -> (r: u64)
    ensures
        r == item_number_spec(q@),
{
    let cs = chars_of(q);
    let n = cs.len();
    let mut h: usize = 0;
    while h < n && cs[h] != '#'
        invariant
            n == cs@.len(),
            cs@ == q@,
            h <= n,
            index_of_from(q@, '#', 0) == index_of_from(q@, '#', h as int),
        decreases n - h,
    {
        h = h + 1;
    }
    proof {
        lemma_index_of_range(q@, '#', 0);
    }
    let start = if h < n {
        h + 1
    } else {
        0
    };
    let mut e: usize = start;
    let mut digits: Vec<char> = Vec::new();
    while e < n && '0' <= cs[e] && cs[e] <= '9'
        invariant
            n == cs@.len(),
            cs@ == q@,
            start <= e <= n,
            digits@ == q@.subrange(start as int, e as int),
            digit_run_end(q@, start as int) == digit_run_end(q@, e as int),
        decreases n - e,
    {
        digits.push(cs[e]);
        e = e + 1;
        assert(digits@ =~= q@.subrange(start as int, e as int));
    }
    match parse_u64(digits.as_slice()) {
        Some(v) => v,
        None => 0,
    }
}

/// Why a single-shot edit cannot start.
#[derive(PartialEq, Eq, Structural, Clone, Copy, Debug)]
pub enum PlanError {
    ProjectNotFound,
    FieldNotFound,
}

/// The project and field (by position in the snapshot) and the record number
/// that a single-shot edit targets.
#[derive(PartialEq, Eq, Structural, Clone, Copy, Debug)]
pub struct EditPlan {
    pub project_index: usize,
    pub field_index: usize,
    pub number: u64,
}

/// Resolves the project by title and the field by name (both ignoring ASCII
/// case) and reads the record number out of `item_query`.
pub fn plan_edit(snap: &Snapshot, title: &str, item_query: &str, field: &str) -> (r: Result<
    EditPlan,
    PlanError,
>)
    ensures
        ({
            let k = project_by_title_spec(snap@.projects, title@);
            match r {
                Err(PlanError::ProjectNotFound) => k == -1,
                Err(PlanError::FieldNotFound) => k >= 0 && field_by_name_spec(
                    snap@.projects[k].fields,
                    field@,
                ) == -1,
                Ok(plan) => k == plan.project_index && plan.project_index < snap@.projects.len()
                    && field_by_name_spec(snap@.projects[k].fields, field@) == plan.field_index
                    && plan.field_index < snap@.projects[k].fields.len() && plan.number
                    == item_number_spec(item_query@),
            }
        }),
{
    let k = match project_by_title(snap, title) {
        Some(k) => k,
        None => {
            return Err(PlanError::ProjectNotFound);
        },
    };
    let j = match field_by_name(&snap.projects[k], field) {
        Some(j) => j,
        None => {
            return Err(PlanError::FieldNotFound);
        },
    };
    Ok(EditPlan { project_index: k, field_index: j, number: parse_item_number(item_query) })
}

/// The field values of a record, as (field name, value) pairs: the value
/// shown for `field` is that of the last pair whose name matches ignoring
/// ASCII case, or `"Empty"`.
pub open spec fn current_value_spec(values: Seq<(String, String)>, field: Seq<char>) -> Seq<char>
    decreases values.len(),
{
    if values.len() == 0 {
        "Empty"@
    } else if eq_ignore_case(values.last().0@, field) {
        values.last().1@
    } else {
        current_value_spec(values.drop_last(), field)
    }
}

/// The current value of `field` among a record's field values.
pub fn current_value(values: &Vec<(String, String)>, field: &str) -> (r: String)
    ensures
        r@ == current_value_spec(values@, field@),
{
    let mut i: usize = values.len();
    assert(values@.take(i as int) =~= values@);
    while i > 0
        invariant
            i <= values@.len(),
            current_value_spec(values@, field@) == current_value_spec(
                values@.take(i as int),
                field@,
            ),
        decreases i,
    {
        assert(values@.take(i as int).drop_last() =~= values@.take(i - 1));
        if eq_ignore_ascii_case(values[i - 1].0.as_str(), field) {
            return values[i - 1].1.clone();
        }
        i = i - 1;
    }
    String::from_str("Empty")
}

pub open spec fn has_number(it: (String, i64), number: u64) -> bool {
    it.1 >= 0 && it.1 as int == number as int
}

/// The remote node of record `number` among a project's records, given as
/// (node id, record number) pairs: the first with that number, unless its
/// node id is empty.
pub open spec fn item_node_spec(items: Seq<(String, i64)>, number: u64) -> Option<Seq<char>> {
    let k = crate::resolve::first_from(items, |it: (String, i64)| has_number(it, number), 0);
    if k < 0 || items[k].0@.len() == 0 {
        None
    } else {
        Some(items[k].0@)
    }
}

/// Finds the remote node id of record `number`.
pub fn item_node(items: &Vec<(String, i64)>, number: u64) -> (r: Option<String>)
    ensures
        match r {
            Some(id) => item_node_spec(items@, number) == Some(id@),
            None => item_node_spec(items@, number) is None,
        },
{
    let mut i: usize = 0;
    while i < items.len()
        invariant
            i <= items@.len(),
            item_node_spec(items@, number) == ({
                let k = crate::resolve::first_from(
                    items@,
                    |it: (String, i64)| has_number(it, number),
                    i as int,
                );
                if k < 0 || items@[k].0@.len() == 0 {
                    None
                } else {
                    Some(items@[k].0@)
                }
            }),
        decreases items@.len() - i,
    {
        let n = items[i].1;
        if n >= 0 && n as u64 == number {
            if items[i].0.unicode_len() == 0 {
                return None;
            }
            return Some(items[i].0.clone());
        }
        i = i + 1;
    }
    None
}

} // verus!
