//! Suggestions for the field and the value of an edit.

use crate::resolve::{
    capped, filter_names, first_from, matching_names, project_by_id, project_by_id_spec, views,
};
use crate::snapshot::Snapshot;
use crate::text::{lower_of, lowercase, text_eq};
use crate::types::{CachedField, CachedProject, FieldView, ProjectView};
use crate::workflow::is_selection_type;
use vstd::prelude::*;

verus! {

/// `s` with each entry kept at its first occurrence only.
pub open spec fn dedup_views(s: Seq<Seq<char>>) -> Seq<Seq<char>>
    decreases s.len(),
{
    if s.len() == 0 {
        s
    } else {
        let d = dedup_views(s.drop_last());
        if d.contains(s.last()) {
            d
        } else {
            d.push(s.last())
        }
    }
}

pub open spec fn field_names(fs: Seq<FieldView>) -> Seq<Seq<char>> {
    fs.map_values(|f: FieldView| f.name@)
}

/// The names of all fields of all projects, in snapshot order.
pub open spec fn all_field_names(ps: Seq<ProjectView>) -> Seq<Seq<char>>
    decreases ps.len(),
{
    if ps.len() == 0 {
        Seq::empty()
    } else {
        all_field_names(ps.drop_last()) + field_names(ps.last().fields)
    }
}

/// The field names to suggest from: those of the named project when it is
/// known, else those of all projects.
pub open spec fn field_name_pool(ps: Seq<ProjectView>, project_id: Option<Seq<char>>) -> Seq<Seq<char>> {
    match project_id {
        Some(id) => {
            let k = project_by_id_spec(ps, id);
            if k >= 0 {
                field_names(ps[k].fields)
            } else {
                all_field_names(ps)
            }
        },
        None => all_field_names(ps),
    }
}

fn push_unique(v: &mut Vec<String>, s: &String)
    ensures
        views(final(v)@) == (if views(old(v)@).contains(s@) {
            views(old(v)@)
        } else {
            views(old(v)@).push(s@)
        }),
{
    let mut i: usize = 0;
    while i < v.len()
        invariant
            i <= v@.len(),
            forall|k: int| 0 <= k < i ==> (#[trigger] v@[k])@ != s@,
        decreases v@.len() - i,
    {
        if text_eq(v[i].as_str(), s.as_str()) {
            assert(views(v@)[i as int] == s@);
            return;
        }
        i = i + 1;
    }
    assert(!views(v@).contains(s@)) by {
        if views(v@).contains(s@) {
            let k = choose|k: int| 0 <= k < views(v@).len() && views(v@)[k] == s@;
            assert(v@[k]@ == s@);
        }
    }
    let ghost before = v@;
    v.push(s.clone());
    assert(views(v@) =~= views(before).push(s@));
}

fn add_field_names(v: &mut Vec<String>, fs: &Vec<CachedField>, ghost_all: Ghost<Seq<Seq<char>>>)
    requires
        views(old(v)@) == dedup_views(ghost_all@),
    ensures
        views(final(v)@) == dedup_views(
            ghost_all@ + fs@.map_values(|f: CachedField| f@.name@),
        ),
{
    let ghost add = fs@.map_values(|f: CachedField| f@.name@);
    let mut i: usize = 0;
    while i < fs.len()
        invariant
            i <= fs@.len(),
            add == fs@.map_values(|f: CachedField| f@.name@),
            views(v@) == dedup_views(ghost_all@ + add.take(i as int)),
        decreases fs@.len() - i,
    {
        assert((ghost_all@ + add.take(i + 1)).drop_last() =~= ghost_all@ + add.take(i as int));
        assert((ghost_all@ + add.take(i + 1)).last() == fs@[i as int].name@);
        push_unique(v, &fs[i].name);
        i = i + 1;
    }
    assert(add.take(i as int) =~= add);
}

/// Field names containing `partial` ignoring case, each once, at most
/// `limit`: from the project with id `project_id` when it is known, else
/// from all projects.
pub fn find_fields(snap: &Snapshot, project_id: Option<&str>, partial: &str, limit: usize) -> (r:
    Vec<String>)
    ensures
        views(r@) == capped(
            matching_names(
                dedup_views(
                    field_name_pool(
                        snap@.projects,
                        match project_id {
                            Some(id) => Some(id@),
                            None => None,
                        },
                    ),
                ),
                lower_of(partial@),
            ),
            limit as nat,
        ),
{
    let ghost ps = snap@.projects;
    let mut pool: Vec<String> = Vec::new();
    let known = match project_id {
        Some(id) => project_by_id(snap, id),
        None => None,
    };
    match known {
        Some(k) => {
            proof {
                assert(views(pool@) =~= dedup_views(Seq::<Seq<char>>::empty()));
                assert(Seq::<Seq<char>>::empty() + snap.projects@[k as int].fields@.map_values(
                    |f: CachedField| f@.name@,
                ) =~= field_names(ps[k as int].fields));
            }
            add_field_names(&mut pool, &snap.projects[k].fields, Ghost(Seq::empty()));
        },
        None => {
            assert(views(pool@) =~= dedup_views(all_field_names(ps.take(0))));
            let mut i: usize = 0;
            while i < snap.projects.len()
                invariant
                    i <= snap.projects@.len(),
                    ps == snap@.projects,
                    views(pool@) == dedup_views(all_field_names(ps.take(i as int))),
                decreases snap.projects@.len() - i,
            {
                let ghost before = all_field_names(ps.take(i as int));
                add_field_names(&mut pool, &snap.projects[i].fields, Ghost(before));
                assert(ps.take(i + 1).drop_last() =~= ps.take(i as int));
                assert(snap.projects@[i as int].fields@.map_values(|f: CachedField| f@.name@)
                    =~= field_names(ps.take(i + 1).last().fields));
                i = i + 1;
            }
            assert(ps.take(i as int) =~= ps);
        },
    }
    filter_names(&pool, partial, limit)
}

/// What a field offers as values: its option names for a selection type,
/// a "Today" placeholder and a format hint for a date, nothing otherwise.
pub open spec fn field_offers(f: FieldView) -> Seq<Seq<char>> {
    if is_selection_type(f.data_type@) {
        f.options.map_values(|o: (String, String)| o.0@)
    } else if f.data_type@ == "DATE"@ {
        seq!["Today"@, "YYYY-MM-DD"@]
    } else {
        Seq::empty()
    }
}

/// The first field of `p` whose name, case-folded, is `folded_name`.
pub open spec fn field_by_folded_name(p: ProjectView, folded_name: Seq<char>) -> int {
    first_from(p.fields, |f: FieldView| lower_of(f.name@) == folded_name, 0)
}

/// The values offered, project by project, by the field named `folded_name`.
pub open spec fn value_pool(ps: Seq<ProjectView>, folded_name: Seq<char>) -> Seq<Seq<char>>
    decreases ps.len(),
{
    if ps.len() == 0 {
        Seq::empty()
    } else {
        let p = ps.last();
        let j = field_by_folded_name(p, folded_name);
        value_pool(ps.drop_last(), folded_name) + if j < 0 {
            Seq::empty()
        } else {
            field_offers(p.fields[j])
        }
    }
}

/// Some entry of `s`, case-folded, is `lp`.
pub open spec fn has_folded_spec(s: Seq<Seq<char>>, lp: Seq<char>) -> bool {
    exists|i: int| 0 <= i < s.len() && lower_of(#[trigger] s[i]) == lp
}

/// At most this many offered values are suggested.
pub const VALUE_SUGGESTION_LIMIT: usize = 25;

/// Typed text longer than this is echoed back without a lookup.
pub const VALUE_INPUT_LIMIT: usize = 50;

/// Suggestions for the value of field `field` (when known) given the typed
/// `partial`: the offered values containing it ignoring case, each once, at
/// most 25, then the case-folded typed text when it is not empty and no
/// suggestion equals it ignoring case. Text over 50 characters is echoed.
pub open spec fn value_options_spec(
    ps: Seq<ProjectView>,
    field: Option<Seq<char>>,
    partial: Seq<char>,
) -> Seq<Seq<char>> {
    if partial.len() > VALUE_INPUT_LIMIT {
        seq![partial]
    } else {
        let pool = match field {
            Some(f) => dedup_views(value_pool(ps, lower_of(f))),
            None => Seq::empty(),
        };
        let lp = lower_of(partial);
        let s = capped(matching_names(pool, lp), VALUE_SUGGESTION_LIMIT as nat);
        if lp.len() > 0 && !has_folded_spec(s, lp) {
            s.push(lp)
        } else {
            s
        }
    }
}

fn folded_field_index(p: &CachedProject, folded_name: &str) -> (r: Option<usize>)
    ensures
        crate::resolve::reports_index(
            r,
            field_by_folded_name(p@, folded_name@),
            p@.fields.len() as int,
        ),
{
    let ghost fv = p@.fields;
    let mut i: usize = 0;
    while i < p.fields.len()
        invariant
            i <= p.fields@.len(),
            fv == p@.fields,
            field_by_folded_name(p@, folded_name@) == first_from(
                fv,
                |f: FieldView| lower_of(f.name@) == folded_name@,
                i as int,
            ),
        decreases p.fields@.len() - i,
    {
        let ln = lowercase(p.fields[i].name.as_str());
        if text_eq(ln.as_str(), folded_name) {
            return Some(i);
        }
        i = i + 1;
    }
    None
}

fn add_offers(v: &mut Vec<String>, f: &CachedField, ghost_all: Ghost<Seq<Seq<char>>>)
    requires
        views(old(v)@) == dedup_views(ghost_all@),
    ensures
        views(final(v)@) == dedup_views(ghost_all@ + field_offers(f@)),
{
    proof {
        reveal_strlit("DATE");
        reveal_strlit("SINGLE_SELECT");
        reveal_strlit("ITERATION");
        reveal_strlit("STATUS");
    }
    let ghost add = field_offers(f@);
    if crate::workflow::is_selection(f.data_type.as_str()) {
        let mut i: usize = 0;
        while i < f.options.len()
            invariant
                i <= f.options@.len(),
                add == f.options@.map_values(|o: (String, String)| o.0@),
                views(v@) == dedup_views(ghost_all@ + add.take(i as int)),
            decreases f.options@.len() - i,
        {
            assert((ghost_all@ + add.take(i + 1)).drop_last() =~= ghost_all@ + add.take(i as int));
            assert((ghost_all@ + add.take(i + 1)).last() == f.options@[i as int].0@);
            push_unique(v, &f.options[i].0);
            i = i + 1;
        }
        assert(add.take(i as int) =~= add);
    } else if text_eq(f.data_type.as_str(), "DATE") {
        let today = String::from_str("Today");
        let hint = String::from_str("YYYY-MM-DD");
        let ghost all = ghost_all@;
        push_unique(v, &today);
        assert((all + seq!["Today"@]).drop_last() =~= all);
        assert(views(v@) == dedup_views(all + seq!["Today"@]));
        push_unique(v, &hint);
        assert((all + seq!["Today"@, "YYYY-MM-DD"@]).drop_last() =~= all + seq!["Today"@]);
        assert(add =~= seq!["Today"@, "YYYY-MM-DD"@]);
    } else {
        assert(ghost_all@ + add =~= ghost_all@);
    }
}

fn has_folded(s: &Vec<String>, lp: &String) -> (r: bool)
    ensures
        r == has_folded_spec(views(s@), lp@),
{
    let mut i: usize = 0;
    while i < s.len()
        invariant
            i <= s@.len(),
            forall|k: int| 0 <= k < i ==> lower_of(#[trigger] views(s@)[k]) != lp@,
        decreases s@.len() - i,
    {
        let l = lowercase(s[i].as_str());
        if text_eq(l.as_str(), lp.as_str()) {
            assert(lower_of(views(s@)[i as int]) == lp@);
            return true;
        }
        i = i + 1;
    }
    false
}

/// Suggestions for the value of an edit of field `field`, given the typed `partial`.
pub fn value_options(snap: &Snapshot, field: Option<&str>, partial: &str) -> (r: Vec<String>)
    ensures
        views(r@) == value_options_spec(
            snap@.projects,
            match field {
                Some(f) => Some(f@),
                None => None,
            },
            partial@,
        ),
{
    if partial.unicode_len() > VALUE_INPUT_LIMIT {
        let mut only: Vec<String> = Vec::new();
        only.push(String::from_str(partial));
        assert(views(only@) =~= seq![partial@]);
        return only;
    }
    let ghost ps = snap@.projects;
    let mut pool: Vec<String> = Vec::new();
    match field {
        Some(name) => {
            let folded = lowercase(name);
            let mut i: usize = 0;
            assert(views(pool@) =~= dedup_views(value_pool(ps.take(0), folded@)));
            while i < snap.projects.len()
                invariant
                    i <= snap.projects@.len(),
                    ps == snap@.projects,
                    folded@ == lower_of(name@),
                    views(pool@) == dedup_views(value_pool(ps.take(i as int), folded@)),
                decreases snap.projects@.len() - i,
            {
                let p = &snap.projects[i];
                assert(ps.take(i + 1).drop_last() =~= ps.take(i as int));
                assert(ps.take(i + 1).last() == p@);
                let ghost before = value_pool(ps.take(i as int), folded@);
                match folded_field_index(p, folded.as_str()) {
                    Some(j) => {
                        add_offers(&mut pool, &p.fields[j], Ghost(before));
                    },
                    None => {
                        assert(before + Seq::<Seq<char>>::empty() =~= before);
                    },
                }
                i = i + 1;
            }
            assert(ps.take(i as int) =~= ps);
        },
        None => {},
    }
    let mut s = filter_names(&pool, partial, VALUE_SUGGESTION_LIMIT);
    let ghost sv = views(s@);
    let lp = lowercase(partial);
    let found = has_folded(&s, &lp);
    proof {
        let spool = match field {
            Some(f) => dedup_views(value_pool(ps, lower_of(f@))),
            None => Seq::<Seq<char>>::empty(),
        };
        assert(sv == capped(matching_names(spool, lower_of(partial@)), VALUE_SUGGESTION_LIMIT as nat));
    }
    if lp.unicode_len() > 0 && !found {
        s.push(lp);
        assert(views(s@) =~= sv.push(lower_of(partial@)));
    }
    s
}

} // verus!
