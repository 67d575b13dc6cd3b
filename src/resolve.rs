//! Pure lookups over a snapshot: what a user typed becomes suggestions,
//! canonical names and identifiers.

use crate::snapshot::{Snapshot, projects_view};
use crate::text::{
    contains_text, eq_ignore_ascii_case, eq_ignore_case, int_text, is_infix, lower_of,
    lowercase, push_signed_decimal,
};
use crate::types::{CachedField, CachedItem, CachedProject, FieldView, ProjectView};
use vstd::prelude::*;

verus! {

/// The characters of each string.
pub open spec fn views(v: Seq<String>) -> Seq<Seq<char>> {
    v.map_values(|s: String| s@)
}

/// `name` contains the already case-folded `folded_partial`, ignoring case.
pub open spec fn folded_match(name: Seq<char>, folded_partial: Seq<char>) -> bool {
    is_infix(folded_partial, lower_of(name))
}

/// The names that contain `folded_partial` ignoring case, in their order.
pub open spec fn matching_names(names: Seq<Seq<char>>, folded_partial: Seq<char>) -> Seq<Seq<char>>
    decreases names.len(),
{
    if names.len() == 0 {
        Seq::empty()
    } else {
        let r = matching_names(names.drop_last(), folded_partial);
        if folded_match(names.last(), folded_partial) {
            r.push(names.last())
        } else {
            r
        }
    }
}

/// At most the first `limit` elements of `s`.
pub open spec fn capped<T>(s: Seq<T>, limit: nat) -> Seq<T> {
    if s.len() <= limit {
        s
    } else {
        s.take(limit as int)
    }
}

proof fn lemma_matching_prefix(names: Seq<Seq<char>>, fp: Seq<char>, i: int)
    requires
        0 <= i <= names.len(),
    ensures
        matching_names(names.take(i), fp).len() <= matching_names(names, fp).len(),
        matching_names(names, fp).take(matching_names(names.take(i), fp).len() as int)
            == matching_names(names.take(i), fp),
    decreases names.len(),
{
    if i == names.len() {
        assert(names.take(i) =~= names);
        assert(matching_names(names, fp).take(matching_names(names, fp).len() as int)
            =~= matching_names(names, fp));
    } else {
        lemma_matching_prefix(names.drop_last(), fp, i);
        assert(names.drop_last().take(i) =~= names.take(i));
        let a = matching_names(names.take(i), fp);
        let b = matching_names(names.drop_last(), fp);
        assert(matching_names(names, fp).take(a.len() as int) =~= b.take(a.len() as int));
    }
}

/// The names that contain `partial` ignoring case, in their order, at most `limit` of them.
pub fn filter_names(names: &Vec<String>, partial: &str, limit: usize) -> (r: Vec<String>)
    ensures
        views(r@) == capped(matching_names(views(names@), lower_of(partial@)), limit as nat),
{
    let ghost nv = views(names@);
    let fp = lowercase(partial);
    let mut r: Vec<String> = Vec::new();
    let mut i: usize = 0;
    while i < names.len() && r.len() < limit
        invariant
            i <= names@.len(),
            r@.len() <= limit,
            fp@ == lower_of(partial@),
            nv == views(names@),
            views(r@) == matching_names(nv.take(i as int), fp@),
        decreases names@.len() - i,
    {
        assert(nv.take(i + 1).drop_last() =~= nv.take(i as int));
        assert(nv.take(i + 1).last() == names@[i as int]@);
        let ln = lowercase(names[i].as_str());
        if contains_text(ln.as_str(), fp.as_str()) {
            let ghost before = r@;
            r.push(names[i].clone());
            assert(views(r@) =~= views(before).push(names@[i as int]@));
        }
        i = i + 1;
    }
    proof {
        lemma_matching_prefix(nv, fp@, i as int);
        if i == names@.len() {
            assert(nv.take(i as int) =~= nv);
        }
    }
    r
}

pub open spec fn repo_names(s: Snapshot) -> Seq<String> {
    s.repos@.map_values(|r: crate::types::CachedRepo| r.name)
}

pub open spec fn project_titles(s: Snapshot) -> Seq<String> {
    s.projects@.map_values(|p: CachedProject| p.title)
}

pub open spec fn user_logins(s: Snapshot) -> Seq<String> {
    s.users@.map_values(|u: crate::types::CachedUser| u.login)
}

/// Repository names that contain `partial` ignoring case, at most `limit`.
pub fn find_repos(snap: &Snapshot, partial: &str, limit: usize) -> (r: Vec<String>)
    ensures
        views(r@) == capped(matching_names(views(repo_names(*snap)), lower_of(partial@)), limit as nat),
{
    let mut names: Vec<String> = Vec::new();
    let mut i: usize = 0;
    while i < snap.repos.len()
        invariant
            i <= snap.repos@.len(),
            names@ == repo_names(*snap).take(i as int),
        decreases snap.repos@.len() - i,
    {
        names.push(snap.repos[i].name.clone());
        i = i + 1;
        assert(names@ =~= repo_names(*snap).take(i as int));
    }
    assert(names@ =~= repo_names(*snap));
    filter_names(&names, partial, limit)
}

/// Project titles that contain `partial` ignoring case, at most `limit`.
pub fn find_projects(snap: &Snapshot, partial: &str, limit: usize) -> (r: Vec<String>)
    ensures
        views(r@) == capped(matching_names(views(project_titles(*snap)), lower_of(partial@)), limit as nat),
{
    let mut names: Vec<String> = Vec::new();
    let mut i: usize = 0;
    while i < snap.projects.len()
        invariant
            i <= snap.projects@.len(),
            names@ == project_titles(*snap).take(i as int),
        decreases snap.projects@.len() - i,
    {
        names.push(snap.projects[i].title.clone());
        i = i + 1;
        assert(names@ =~= project_titles(*snap).take(i as int));
    }
    assert(names@ =~= project_titles(*snap));
    filter_names(&names, partial, limit)
}

/// Logins that contain `partial` ignoring case, at most `limit`.
pub fn find_people(snap: &Snapshot, partial: &str, limit: usize) -> (r: Vec<String>)
    ensures
        views(r@) == capped(matching_names(views(user_logins(*snap)), lower_of(partial@)), limit as nat),
{
    let mut names: Vec<String> = Vec::new();
    let mut i: usize = 0;
    while i < snap.users.len()
        invariant
            i <= snap.users@.len(),
            names@ == user_logins(*snap).take(i as int),
        decreases snap.users@.len() - i,
    {
        names.push(snap.users[i].login.clone());
        i = i + 1;
        assert(names@ =~= user_logins(*snap).take(i as int));
    }
    assert(names@ =~= user_logins(*snap));
    filter_names(&names, partial, limit)
}

/// Every cached record of every project, paired with its project's title.
pub open spec fn flat_records(ps: Seq<ProjectView>) -> Seq<(CachedItem, String)>
    decreases ps.len(),
{
    if ps.len() == 0 {
        Seq::empty()
    } else {
        flat_records(ps.drop_last()) + ps.last().items.map_values(
            |it: CachedItem| (it, ps.last().title),
        )
    }
}

/// `"{container} #{number}"`.
pub open spec fn record_label(it: CachedItem) -> Seq<char> {
    it.repo_name@ + " #"@ + int_text(it.number as int)
}

/// The record matches by its label, its title or its bare number.
pub open spec fn record_matches(it: CachedItem, folded_partial: Seq<char>) -> bool {
    ||| is_infix(folded_partial, lower_of(record_label(it)))
    ||| is_infix(folded_partial, lower_of(it.title@))
    ||| is_infix(folded_partial, int_text(it.number as int))
}

/// A closed or merged record is offered no more.
pub open spec fn is_terminal_state(state: Seq<char>) -> bool {
    eq_ignore_case(state, "CLOSED"@) || eq_ignore_case(state, "MERGED"@)
}

/// The first `n` characters followed by `...` when `s` is longer than `n`.
pub open spec fn clip(s: Seq<char>, n: nat) -> Seq<char> {
    if s.len() > n {
        s.take(n as int) + "..."@
    } else {
        s
    }
}

/// `"{container} #{number}: {title} ({project})"`, title and project clipped.
pub open spec fn record_display(it: CachedItem, project_title: Seq<char>) -> Seq<char> {
    record_label(it) + ": "@ + clip(it.title@, 30) + " ("@ + clip(project_title, 15) + ")"@
}

/// The displays of the open records that match, in snapshot order.
pub open spec fn record_suggestions(flat: Seq<(CachedItem, String)>, folded_partial: Seq<char>) -> Seq<Seq<char>>
    decreases flat.len(),
{
    if flat.len() == 0 {
        Seq::empty()
    } else {
        let r = record_suggestions(flat.drop_last(), folded_partial);
        let (it, pt) = flat.last();
        if record_matches(it, folded_partial) && !is_terminal_state(it.state@) {
            r.push(record_display(it, pt@))
        } else {
            r
        }
    }
}

/// The suggestions for a record that the user is typing: at most
/// `max_results` matches, or the typed text itself when nothing matches.
pub open spec fn find_record_spec(ps: Seq<ProjectView>, partial: Seq<char>, max_results: nat) -> Seq<Seq<char>> {
    let s = capped(record_suggestions(flat_records(ps), lower_of(partial)), max_results);
    if s.len() == 0 {
        seq![partial]
    } else {
        s
    }
}

proof fn lemma_suggestions_prefix(flat: Seq<(CachedItem, String)>, fp: Seq<char>, i: int)
    requires
        0 <= i <= flat.len(),
    ensures
        record_suggestions(flat.take(i), fp).len() <= record_suggestions(flat, fp).len(),
        record_suggestions(flat, fp).take(record_suggestions(flat.take(i), fp).len() as int)
            == record_suggestions(flat.take(i), fp),
    decreases flat.len(),
{
    if i == flat.len() {
        assert(flat.take(i) =~= flat);
        assert(record_suggestions(flat, fp).take(record_suggestions(flat, fp).len() as int)
            =~= record_suggestions(flat, fp));
    } else {
        lemma_suggestions_prefix(flat.drop_last(), fp, i);
        assert(flat.drop_last().take(i) =~= flat.take(i));
        let a = record_suggestions(flat.take(i), fp);
        let b = record_suggestions(flat.drop_last(), fp);
        assert(record_suggestions(flat, fp).take(a.len() as int) =~= b.take(a.len() as int));
    }
}

fn collect_records(projects: &Vec<CachedProject>) -> (r: Vec<(CachedItem, String)>)
    ensures
        r@ == flat_records(projects_view(projects@)),
{
    let ghost pv = projects_view(projects@);
    let mut r: Vec<(CachedItem, String)> = Vec::new();
    let mut i: usize = 0;
    while i < projects.len()
        invariant
            i <= projects@.len(),
            pv == projects_view(projects@),
            r@ == flat_records(pv.take(i as int)),
        decreases projects@.len() - i,
    {
        let p = &projects[i];
        let ghost base = r@;
        let ghost its = p.items@.map_values(|it: CachedItem| (it, p.title));
        let mut j: usize = 0;
        while j < p.items.len()
            invariant
                j <= p.items@.len(),
                its == p.items@.map_values(|it: CachedItem| (it, p.title)),
                r@ == base + its.take(j as int),
            decreases p.items@.len() - j,
        {
            r.push((p.items[j].clone(), p.title.clone()));
            j = j + 1;
            assert(r@ =~= base + its.take(j as int));
        }
        assert(its.take(j as int) =~= its);
        assert(pv.take(i + 1).drop_last() =~= pv.take(i as int));
        assert(pv.take(i + 1).last() == p@);
        i = i + 1;
    }
    assert(pv.take(i as int) =~= pv);
    r
}

fn push_clipped(s: &mut String, t: &str, n: usize)
    ensures
        final(s)@ == old(s)@ + clip(t@, n as nat),
{
    proof {
        reveal_strlit("...");
    }
    let len = t.unicode_len();
    if len > n {
        s.append(t.substring_char(0, n));
        s.append("...");
        assert(final(s)@ =~= old(s)@ + clip(t@, n as nat)) by {
            assert(t@.subrange(0, n as int) =~= t@.take(n as int));
        }
    } else {
        s.append(t);
    }
}

fn record_label_of(it: &CachedItem) -> (r: String)
    ensures
        r@ == record_label(*it),
{
    proof {
        reveal_strlit(" #");
    }
    let mut s = it.repo_name.clone();
    s.append(" #");
    push_signed_decimal(&mut s, it.number);
    s
}

fn is_terminal(state: &str) -> (r: bool)
    ensures
        r == is_terminal_state(state@),
{
    eq_ignore_ascii_case(state, "CLOSED") || eq_ignore_ascii_case(state, "MERGED")
}

/// Whether a record matches what the user typed, given that text already case-folded.
pub fn record_matches_folded(it: &CachedItem, folded_partial: &str) -> (r: bool)
    ensures
        r == record_matches(*it, folded_partial@),
{
    let label = lowercase(record_label_of(it).as_str());
    if contains_text(label.as_str(), folded_partial) {
        return true;
    }
    let title = lowercase(it.title.as_str());
    if contains_text(title.as_str(), folded_partial) {
        return true;
    }
    let mut num = String::new();
    push_signed_decimal(&mut num, it.number);
    assert(num@ =~= int_text(it.number as int));
    contains_text(num.as_str(), folded_partial)
}

fn record_display_of(it: &CachedItem, project_title: &String) -> (r: String)
    ensures
        r@ == record_display(*it, project_title@),
{
    proof {
        reveal_strlit(": ");
        reveal_strlit(" (");
        reveal_strlit(")");
    }
    let mut s = record_label_of(it);
    s.append(": ");
    push_clipped(&mut s, it.title.as_str(), 30);
    s.append(" (");
    push_clipped(&mut s, project_title.as_str(), 15);
    s.append(")");
    s
}

/// Suggestions for a record: across all projects' cached records, the open
/// ones whose label, title or number contains `partial` ignoring case, at
/// most `max_results`; when there is none, `partial` itself.
pub fn find_record(snap: &Snapshot, partial: &str, max_results: usize) -> (r: Vec<String>)
    ensures
        views(r@) == find_record_spec(snap@.projects, partial@, max_results as nat),
{
    let flat = collect_records(&snap.projects);
    let fp = lowercase(partial);
    let mut r: Vec<String> = Vec::new();
    let mut i: usize = 0;
    while i < flat.len() && r.len() < max_results
        invariant
            i <= flat@.len(),
            r@.len() <= max_results,
            fp@ == lower_of(partial@),
            views(r@) == record_suggestions(flat@.take(i as int), fp@),
        decreases flat@.len() - i,
    {
        assert(flat@.take(i + 1).drop_last() =~= flat@.take(i as int));
        let entry = &flat[i];
        if record_matches_folded(&entry.0, fp.as_str()) && !is_terminal(entry.0.state.as_str()) {
            let d = record_display_of(&entry.0, &entry.1);
            r.push(d);
            assert(views(r@) =~= record_suggestions(flat@.take(i as int), fp@).push(d@));
        }
        i = i + 1;
    }
    proof {
        lemma_suggestions_prefix(flat@, fp@, i as int);
        if i == flat@.len() {
            assert(flat@.take(i as int) =~= flat@);
        }
    }
    if r.len() == 0 {
        let mut only: Vec<String> = Vec::new();
        only.push(String::from_str(partial));
        assert(views(only@) =~= seq![partial@]);
        return only;
    }
    r
}

/// Whatever is typed, the record suggestions are never empty; with no
/// match they are the typed text alone.
pub proof fn lemma_find_record_total(ps: Seq<ProjectView>, partial: Seq<char>, max_results: nat)
    ensures
        find_record_spec(ps, partial, max_results).len() > 0,
        capped(record_suggestions(flat_records(ps), lower_of(partial)), max_results).len() == 0
            ==> find_record_spec(ps, partial, max_results) == seq![partial],
{
}

/// The first index at or after `i` whose element satisfies `p`, or -1.
pub open spec fn first_from<T>(s: Seq<T>, p: spec_fn(T) -> bool, i: int) -> int
    decreases s.len() - i,
{
    if i < 0 || i >= s.len() {
        -1
    } else if p(s[i]) {
        i
    } else {
        first_from(s, p, i + 1)
    }
}

/// `r` reports position `k` of a sequence of length `len`, where -1 means none.
pub open spec fn reports_index(r: Option<usize>, k: int, len: int) -> bool {
    match r {
        Some(i) => i < len && i as int == k,
        None => k == -1,
    }
}

/// Position of the first project whose title equals `title` ignoring ASCII case.
pub open spec fn project_by_title_spec(ps: Seq<ProjectView>, title: Seq<char>) -> int {
    first_from(ps, |p: ProjectView| eq_ignore_case(p.title@, title), 0)
}

/// Position of the first project with this id.
pub open spec fn project_by_id_spec(ps: Seq<ProjectView>, id: Seq<char>) -> int {
    first_from(ps, |p: ProjectView| p.id@ == id, 0)
}

/// Position of the first field whose name equals `name` ignoring ASCII case.
pub open spec fn field_by_name_spec(fs: Seq<FieldView>, name: Seq<char>) -> int {
    first_from(fs, |f: FieldView| eq_ignore_case(f.name@, name), 0)
}

/// Position of the first field with this id.
pub open spec fn field_by_id_spec(fs: Seq<FieldView>, id: Seq<char>) -> int {
    first_from(fs, |f: FieldView| f.id@ == id, 0)
}

/// Position of the first option whose name equals `name` ignoring ASCII case.
pub open spec fn option_by_name_spec(opts: Seq<(String, String)>, name: Seq<char>) -> int {
    first_from(opts, |o: (String, String)| eq_ignore_case(o.0@, name), 0)
}

/// The project whose title equals `title` ignoring ASCII case (the first such).
pub fn project_by_title(snap: &Snapshot, title: &str) -> (r: Option<usize>)
    ensures
        reports_index(r, project_by_title_spec(snap@.projects, title@), snap@.projects.len() as int),
{
    let ghost pv = snap@.projects;
    let mut i: usize = 0;
    while i < snap.projects.len()
        invariant
            i <= snap.projects@.len(),
            pv == snap@.projects,
            project_by_title_spec(pv, title@) == first_from(
                pv,
                |p: ProjectView| eq_ignore_case(p.title@, title@),
                i as int,
            ),
        decreases snap.projects@.len() - i,
    {
        if eq_ignore_ascii_case(snap.projects[i].title.as_str(), title) {
            return Some(i);
        }
        i = i + 1;
    }
    None
}

/// The project with this id (the first such).
pub fn project_by_id(snap: &Snapshot, id: &str) -> (r: Option<usize>)
    ensures
        reports_index(r, project_by_id_spec(snap@.projects, id@), snap@.projects.len() as int),
{
    let ghost pv = snap@.projects;
    let mut i: usize = 0;
    while i < snap.projects.len()
        invariant
            i <= snap.projects@.len(),
            pv == snap@.projects,
            project_by_id_spec(pv, id@) == first_from(
                pv,
                |p: ProjectView| p.id@ == id@,
                i as int,
            ),
        decreases snap.projects@.len() - i,
    {
        if crate::text::text_eq(snap.projects[i].id.as_str(), id) {
            return Some(i);
        }
        i = i + 1;
    }
    None
}

/// The field of `p` whose name equals `name` ignoring ASCII case (the first such).
pub fn field_by_name(p: &CachedProject, name: &str) -> (r: Option<usize>)
    ensures
        reports_index(r, field_by_name_spec(p@.fields, name@), p@.fields.len() as int),
{
    let ghost fv = p@.fields;
    let mut i: usize = 0;
    while i < p.fields.len()
        invariant
            i <= p.fields@.len(),
            fv == p@.fields,
            field_by_name_spec(fv, name@) == first_from(
                fv,
                |f: FieldView| eq_ignore_case(f.name@, name@),
                i as int,
            ),
        decreases p.fields@.len() - i,
    {
        if eq_ignore_ascii_case(p.fields[i].name.as_str(), name) {
            return Some(i);
        }
        i = i + 1;
    }
    None
}

/// The field of `p` with this id (the first such).
pub fn field_by_id(p: &CachedProject, id: &str) -> (r: Option<usize>)
    ensures
        reports_index(r, field_by_id_spec(p@.fields, id@), p@.fields.len() as int),
{
    let ghost fv = p@.fields;
    let mut i: usize = 0;
    while i < p.fields.len()
        invariant
            i <= p.fields@.len(),
            fv == p@.fields,
            field_by_id_spec(fv, id@) == first_from(fv, |f: FieldView| f.id@ == id@, i as int),
        decreases p.fields@.len() - i,
    {
        if crate::text::text_eq(p.fields[i].id.as_str(), id) {
            return Some(i);
        }
        i = i + 1;
    }
    None
}

/// The option of `f` whose name equals `name` ignoring ASCII case (the first such).
pub fn option_by_name(f: &CachedField, name: &str) -> (r: Option<usize>)
    ensures
        reports_index(r, option_by_name_spec(f.options@, name@), f.options@.len() as int),
{
    let mut i: usize = 0;
    while i < f.options.len()
        invariant
            i <= f.options@.len(),
            option_by_name_spec(f.options@, name@) == first_from(
                f.options@,
                |o: (String, String)| eq_ignore_case(o.0@, name@),
                i as int,
            ),
        decreases f.options@.len() - i,
    {
        if eq_ignore_ascii_case(f.options[i].0.as_str(), name) {
            return Some(i);
        }
        i = i + 1;
    }
    None
}

/// Which input of the remote update a typed value becomes.
#[derive(PartialEq, Eq, Structural, Clone, Copy, Debug)]
pub enum PayloadKind {
    SingleSelectOption,
    Number,
    Date,
    Text,
}

/// The value of a remote field update: its kind and its text (an option id,
/// a number as typed, an ISO date, or free text).
pub struct MutationValue {
    pub kind: PayloadKind,
    pub value: String,
}

pub open spec fn payload_kind_spec(f: FieldView, value: Seq<char>) -> PayloadKind {
    if option_by_name_spec(f.options, value) >= 0 {
        PayloadKind::SingleSelectOption
    } else if f.data_type@ == "NUMBER"@ {
        PayloadKind::Number
    } else if f.data_type@ == "DATE"@ {
        PayloadKind::Date
    } else {
        PayloadKind::Text
    }
}

/// The typed value names the current date.
pub open spec fn is_today_placeholder(value: Seq<char>) -> bool {
    eq_ignore_case(value, "Today"@)
}

pub open spec fn payload_text_spec(f: FieldView, value: Seq<char>, today: Seq<char>) -> Seq<char> {
    let k = option_by_name_spec(f.options, value);
    if k >= 0 {
        f.options[k].1@
    } else if f.data_type@ == "NUMBER"@ {
        value
    } else if f.data_type@ == "DATE"@ && is_today_placeholder(value) {
        today
    } else {
        value
    }
}

/// Whether building the payload needs the current date.
pub open spec fn needs_today(f: FieldView, value: Seq<char>) -> bool {
    payload_kind_spec(f, value) == PayloadKind::Date && is_today_placeholder(value)
}

/// Turns a typed value into the update payload for field `f`: the id of an
/// option whose name matches ignoring ASCII case; else, by the field's data
/// type, the number text, a date (`today` for the "Today" placeholder) or text.
pub fn build_mutation_payload(f: &CachedField, value: &str, today: &str) -> (r: MutationValue)
    ensures
        r.kind == payload_kind_spec(f@, value@),
        r.value@ == payload_text_spec(f@, value@, today@),
{
    proof {
        reveal_strlit("NUMBER");
        reveal_strlit("DATE");
        reveal_strlit("Today");
    }
    match option_by_name(f, value) {
        Some(k) => {
            let v = f.options[k].1.clone();
            MutationValue { kind: PayloadKind::SingleSelectOption, value: v }
        },
        None => {
            if crate::text::text_eq(f.data_type.as_str(), "NUMBER") {
                MutationValue { kind: PayloadKind::Number, value: String::from_str(value) }
            } else if crate::text::text_eq(f.data_type.as_str(), "DATE") {
                if eq_ignore_ascii_case(value, "Today") {
                    MutationValue { kind: PayloadKind::Date, value: String::from_str(today) }
                } else {
                    MutationValue { kind: PayloadKind::Date, value: String::from_str(value) }
                }
            } else {
                MutationValue { kind: PayloadKind::Text, value: String::from_str(value) }
            }
        },
    }
}

/// Relies on `chrono::Utc::now` and its `%Y-%m-%d` formatting: the current
/// date; what it is depends on the clock.
#[verifier::external_body]
pub(crate) fn today_iso_date() -> String {
    chrono::Utc::now().format("%Y-%m-%d").to_string()
}

/// The update payload for a typed value, reading the clock only when the
/// value is the "Today" placeholder of a date field.
pub fn mutation_payload(f: &CachedField, value: &str) -> (r: MutationValue)
    ensures
        r.kind == payload_kind_spec(f@, value@),
        !needs_today(f@, value@) ==> r.value@ == payload_text_spec(f@, value@, Seq::empty()),
{
    proof {
        reveal_strlit("NUMBER");
        reveal_strlit("DATE");
        reveal_strlit("Today");
    }
    let today = if option_by_name(f, value).is_none() && crate::text::text_eq(
        f.data_type.as_str(),
        "DATE",
    ) && eq_ignore_ascii_case(value, "Today") {
        today_iso_date()
    } else {
        String::new()
    };
    build_mutation_payload(f, value, today.as_str())
}

} // verus!
