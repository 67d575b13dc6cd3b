//! Building cached projects from the records that a projects fetch
//! returned, with every member optional as the remote service sends it.

use crate::text::text_eq;
use crate::types::{CachedField, CachedItem, CachedProject};
use vstd::prelude::*;

verus! {

/// An option (or an iteration) of a field as fetched.
pub struct RawOption {
    pub id: Option<String>,
    pub name: Option<String>,
}

/// A field as fetched: selection options and iterations both become options.
pub struct RawField {
    pub id: Option<String>,
    pub name: Option<String>,
    pub data_type: Option<String>,
    pub options: Vec<RawOption>,
    pub iterations: Vec<RawOption>,
}

/// A record of a project as fetched.
pub struct RawItem {
    pub title: Option<String>,
    pub number: Option<i64>,
    pub repo_name: Option<String>,
    pub state: Option<String>,
}

/// A project as fetched.
pub struct RawProject {
    pub id: Option<String>,
    pub title: Option<String>,
    pub url: Option<String>,
    pub number: Option<i64>,
    pub fields: Vec<RawField>,
    pub items: Vec<RawItem>,
}

pub open spec fn str_or(o: Option<String>, d: Seq<char>) -> Seq<char> {
    match o {
        Some(s) => s@,
        None => d,
    }
}

/// Position of the option named `name`, or -1.
pub open spec fn option_pos(opts: Seq<(String, String)>, name: Seq<char>) -> int
    decreases opts.len(),
{
    if opts.len() == 0 {
        -1
    } else if opts.last().0@ == name {
        opts.len() - 1
    } else {
        option_pos(opts.drop_last(), name)
    }
}

/// The option list after setting `name` to `id`: in place when the name is
/// there, at the end otherwise.
pub open spec fn option_set(opts: Seq<(String, String)>, name: String, id: String) -> Seq<
    (String, String),
> {
    let k = option_pos(opts, name@);
    if k >= 0 {
        opts.update(k, (opts[k].0, id))
    } else {
        opts.push((name, id))
    }
}

/// The options after setting, in order, each raw entry that has both an id and a name.
pub open spec fn options_from(opts: Seq<(String, String)>, raw: Seq<RawOption>) -> Seq<
    (String, String),
>
    decreases raw.len(),
{
    if raw.len() == 0 {
        opts
    } else {
        let prev = options_from(opts, raw.drop_last());
        let o = raw.last();
        if o.id is Some && o.name is Some {
            option_set(prev, o.name->0, o.id->0)
        } else {
            prev
        }
    }
}

pub open spec fn names_unique(opts: Seq<(String, String)>) -> bool {
    forall|i: int, j: int|
        0 <= i < j < opts.len() ==> (#[trigger] opts[i]).0@ != (#[trigger] opts[j]).0@
}

proof fn lemma_option_pos(opts: Seq<(String, String)>, name: Seq<char>)
    ensures
        option_pos(opts, name) == -1 ==> forall|i: int| 0 <= i < opts.len() ==> opts[i].0@ != name,
        option_pos(opts, name) != -1 ==> 0 <= option_pos(opts, name) < opts.len() && opts[option_pos(
            opts,
            name,
        )].0@ == name,
    decreases opts.len(),
{
    if opts.len() > 0 {
        lemma_option_pos(opts.drop_last(), name);
        if option_pos(opts, name) == -1 {
            assert forall|i: int| 0 <= i < opts.len() implies opts[i].0@ != name by {
                if i < opts.len() - 1 {
                    assert(opts[i] == opts.drop_last()[i]);
                }
            }
        }
    }
}

proof fn lemma_option_set_unique(opts: Seq<(String, String)>, name: String, id: String)
    requires
        names_unique(opts),
    ensures
        names_unique(option_set(opts, name, id)),
{
    lemma_option_pos(opts, name@);
}

proof fn lemma_options_from_unique(opts: Seq<(String, String)>, raw: Seq<RawOption>)
    requires
        names_unique(opts),
    ensures
        names_unique(options_from(opts, raw)),
    decreases raw.len(),
{
    if raw.len() > 0 {
        lemma_options_from_unique(opts, raw.drop_last());
        let o = raw.last();
        if o.id is Some && o.name is Some {
            lemma_option_set_unique(options_from(opts, raw.drop_last()), o.name->0, o.id->0);
        }
    }
}

/// The options of a fetched field: its selection options, then its iterations.
pub open spec fn field_options_spec(f: RawField) -> Seq<(String, String)> {
    options_from(options_from(Seq::empty(), f.options@), f.iterations@)
}

fn set_option(opts: &mut Vec<(String, String)>, name: &String, id: &String)
    ensures
        final(opts)@ == option_set(old(opts)@, *name, *id),
{
    let ghost start = opts@;
    let mut i: usize = opts.len();
    assert(start.take(i as int) =~= start);
    let mut found = false;
    while i > 0 && !found
        invariant
            i <= start.len(),
            opts@ == start,
            found ==> i >= 1 && option_pos(start, name@) == i - 1,
            !found ==> option_pos(start, name@) == option_pos(start.take(i as int), name@),
        decreases i + (if found { 0int } else { 1int }),
    {
        assert(start.take(i as int).drop_last() =~= start.take(i - 1));
        assert(start.take(i as int).last() == start[i - 1]);
        if text_eq(opts[i - 1].0.as_str(), name.as_str()) {
            found = true;
        } else {
            i = i - 1;
        }
    }
    if found {
        let key = opts[i - 1].0.clone();
        opts.set(i - 1, (key, id.clone()));
    } else {
        opts.push((name.clone(), id.clone()));
    }
    assert(opts@ =~= option_set(start, *name, *id));
}

fn add_options(opts: &mut Vec<(String, String)>, raw: &Vec<RawOption>)
    ensures
        final(opts)@ == options_from(old(opts)@, raw@),
{
    let ghost start = opts@;
    let mut i: usize = 0;
    while i < raw.len()
        invariant
            i <= raw@.len(),
            opts@ == options_from(start, raw@.take(i as int)),
        decreases raw@.len() - i,
    {
        assert(raw@.take(i + 1).drop_last() =~= raw@.take(i as int));
        let o = &raw[i];
        match (&o.id, &o.name) {
            (Some(id), Some(name)) => {
                set_option(opts, name, id);
            },
            _ => {},
        }
        i = i + 1;
    }
    assert(raw@.take(i as int) =~= raw@);
}

/// The field cached for a fetched one: missing id and name read as empty,
/// a missing data type as `TEXT`.
pub open spec fn field_spec(f: RawField) -> (Seq<char>, Seq<char>, Seq<char>, Seq<(String, String)>) {
    (str_or(f.id, Seq::empty()), str_or(f.name, Seq::empty()), str_or(f.data_type, "TEXT"@), field_options_spec(f))
}

pub open spec fn field_matches(c: CachedField, f: RawField) -> bool {
    (c.id@, c.name@, c.data_type@, c.options@) == field_spec(f)
}

fn string_or(o: &Option<String>, d: &str) -> (r: String)
    ensures
        r@ == str_or(*o, d@),
{
    match o {
        Some(s) => s.clone(),
        None => String::from_str(d),
    }
}

/// Caches a fetched field; its option names are unique.
pub fn field_from_raw(f: &RawField) -> (r: CachedField)
    ensures
        field_matches(r, *f),
        r.wf(),
{
    proof {
        reveal_strlit("");
        assert(""@ =~= Seq::<char>::empty());
    }
    let mut options: Vec<(String, String)> = Vec::new();
    add_options(&mut options, &f.options);
    add_options(&mut options, &f.iterations);
    proof {
        lemma_options_from_unique(Seq::empty(), f.options@);
        lemma_options_from_unique(options_from(Seq::empty(), f.options@), f.iterations@);
    }
    CachedField {
        id: string_or(&f.id, ""),
        name: string_or(&f.name, ""),
        data_type: string_or(&f.data_type, "TEXT"),
        options,
    }
}

/// A fetched record is cached when it has a title, a number and a
/// repository; a missing state reads as `OPEN`.
pub open spec fn item_kept(it: RawItem) -> bool {
    it.title is Some && it.number is Some && it.repo_name is Some
}

pub open spec fn item_matches(c: CachedItem, it: RawItem) -> bool {
    &&& c.title@ == it.title->0@
    &&& c.number == it.number->0
    &&& c.repo_name@ == it.repo_name->0@
    &&& c.state@ == str_or(it.state, "OPEN"@)
}

/// The fetched records that are kept, in order.
pub open spec fn kept_items(items: Seq<RawItem>) -> Seq<RawItem>
    decreases items.len(),
{
    if items.len() == 0 {
        items
    } else if item_kept(items.last()) {
        kept_items(items.drop_last()).push(items.last())
    } else {
        kept_items(items.drop_last())
    }
}

/// A fetched project is cached when it has an id, a title, a url and a number.
pub open spec fn project_kept(p: RawProject) -> bool {
    p.id is Some && p.title is Some && p.url is Some && p.number is Some
}

/// `c` caches the fetched project `p`: the same id, title, url and number,
/// one field for each fetched field, one record for each kept one.
pub open spec fn project_matches(c: CachedProject, p: RawProject) -> bool {
    &&& c.id@ == p.id->0@
    &&& c.title@ == p.title->0@
    &&& c.url@ == p.url->0@
    &&& c.number == p.number->0
    &&& c.fields@.len() == p.fields@.len()
    &&& forall|i: int|
        0 <= i < c.fields@.len() ==> field_matches(#[trigger] c.fields@[i], p.fields@[i])
            && c.fields@[i].wf()
    &&& c.items@.len() == kept_items(p.items@).len()
    &&& forall|i: int|
        0 <= i < c.items@.len() ==> item_matches(#[trigger] c.items@[i], kept_items(p.items@)[i])
}

/// The fetched projects that are kept, in order.
pub open spec fn kept_projects(ps: Seq<RawProject>) -> Seq<RawProject>
    decreases ps.len(),
{
    if ps.len() == 0 {
        ps
    } else if project_kept(ps.last()) {
        kept_projects(ps.drop_last()).push(ps.last())
    } else {
        kept_projects(ps.drop_last())
    }
}

/// Caches a fetched project: `None` when it lacks an id, title, url or
/// number; otherwise all its fields, and the records that have a title,
/// number and repository.
pub fn project_from_raw(p: &RawProject) -> (r: Option<CachedProject>)
    ensures
        r is Some <==> project_kept(*p),
        r is Some ==> project_matches(r->0, *p),
{
    let (id, title, url, number) = match (&p.id, &p.title, &p.url, p.number) {
        (Some(id), Some(title), Some(url), Some(number)) => (id, title, url, number),
        _ => {
            return None;
        },
    };
    let mut fields: Vec<CachedField> = Vec::new();
    let mut i: usize = 0;
    while i < p.fields.len()
        invariant
            i <= p.fields@.len(),
            fields@.len() == i,
            forall|k: int| 0 <= k < i ==> field_matches(#[trigger] fields@[k], p.fields@[k])
                && fields@[k].wf(),
        decreases p.fields@.len() - i,
    {
        fields.push(field_from_raw(&p.fields[i]));
        i = i + 1;
    }
    let mut items: Vec<CachedItem> = Vec::new();
    let mut j: usize = 0;
    while j < p.items.len()
        invariant
            j <= p.items@.len(),
            items@.len() == kept_items(p.items@.take(j as int)).len(),
            forall|k: int| 0 <= k < items@.len() ==> item_matches(
                #[trigger] items@[k],
                kept_items(p.items@.take(j as int))[k],
            ),
        decreases p.items@.len() - j,
    {
        assert(p.items@.take(j + 1).drop_last() =~= p.items@.take(j as int));
        let it = &p.items[j];
        match (&it.title, it.number, &it.repo_name) {
            (Some(t), Some(n), Some(repo)) => {
                items.push(
                    CachedItem {
                        title: t.clone(),
                        number: n,
                        repo_name: repo.clone(),
                        state: string_or(&it.state, "OPEN"),
                    },
                );
            },
            _ => {},
        }
        j = j + 1;
    }
    assert(p.items@.take(j as int) =~= p.items@);
    Some(
        CachedProject {
            id: id.clone(),
            title: title.clone(),
            url: url.clone(),
            number,
            items,
            fields,
        },
    )
}

/// Caches the fetched projects that have an id, a title, a url and a number,
/// in order.
pub fn projects_from_raw(raw: &Vec<RawProject>) -> (r: Vec<CachedProject>)
    ensures
        r@.len() == kept_projects(raw@).len(),
        forall|i: int|
            0 <= i < r@.len() ==> project_matches(#[trigger] r@[i], kept_projects(raw@)[i]),
{
    let mut r: Vec<CachedProject> = Vec::new();
    let mut i: usize = 0;
    while i < raw.len()
        invariant
            i <= raw@.len(),
            r@.len() == kept_projects(raw@.take(i as int)).len(),
            forall|k: int|
                0 <= k < r@.len() ==> project_matches(
                    #[trigger] r@[k],
                    kept_projects(raw@.take(i as int))[k],
                ),
        decreases raw@.len() - i,
    {
        assert(raw@.take(i + 1).drop_last() =~= raw@.take(i as int));
        match project_from_raw(&raw[i]) {
            Some(p) => r.push(p),
            None => {},
        }
        i = i + 1;
    }
    assert(raw@.take(i as int) =~= raw@);
    r
}

} // verus!
