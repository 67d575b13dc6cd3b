//! The snapshot of the remote collections and how a refresh builds the next one.

use crate::text::text_eq;
use crate::types::{CachedProject, CachedRepo, CachedUser, ProjectView};
use vstd::prelude::*;

verus! {

/// A complete point-in-time copy of the cached collections. A refresh never
/// changes one in place: it builds the next snapshot beside it.
pub struct Snapshot {
    pub repos: Vec<CachedRepo>,
    pub users: Vec<CachedUser>,
    pub projects: Vec<CachedProject>,
}

pub struct SnapshotView {
    pub repos: Seq<CachedRepo>,
    pub users: Seq<CachedUser>,
    pub projects: Seq<ProjectView>,
}

pub open spec fn projects_view(ps: Seq<CachedProject>) -> Seq<ProjectView> {
    ps.map_values(|p: CachedProject| p@)
}

impl View for Snapshot {
    type V = SnapshotView;

    open spec fn view(&self) -> SnapshotView {
        SnapshotView {
            repos: self.repos@,
            users: self.users@,
            projects: projects_view(self.projects@),
        }
    }
}

/// What the sub-fetches of one refresh brought; `None` where one failed.
pub struct FetchOutcome {
    pub repos: Option<Vec<CachedRepo>>,
    pub members: Option<Vec<CachedUser>>,
    pub collaborators: Option<Vec<CachedUser>>,
    pub projects: Option<Vec<CachedProject>>,
}

/// Some entry of `us` has this login.
pub open spec fn has_login(us: Seq<CachedUser>, login: Seq<char>) -> bool {
    exists|i: int| 0 <= i < us.len() && (#[trigger] us[i]).login@ == login
}

/// `us` with each login kept at its first entry only.
pub open spec fn dedup_by_login(us: Seq<CachedUser>) -> Seq<CachedUser>
    decreases us.len(),
{
    if us.len() == 0 {
        us
    } else {
        let d = dedup_by_login(us.drop_last());
        if has_login(d, us.last().login@) {
            d
        } else {
            d.push(us.last())
        }
    }
}

/// Members and outside collaborators merged by login; a member entry wins.
pub open spec fn merge_people_spec(members: Seq<CachedUser>, collaborators: Seq<CachedUser>) -> Seq<
    CachedUser,
> {
    dedup_by_login(members + collaborators)
}

/// The users section of the next snapshot: fresh when the members fetch
/// succeeded (with the collaborators that could be fetched), else the old one.
pub open spec fn next_users(
    prev: Seq<CachedUser>,
    members: Option<Seq<CachedUser>>,
    collaborators: Option<Seq<CachedUser>>,
) -> Seq<CachedUser> {
    match members {
        Some(ms) => merge_people_spec(ms, or_empty(collaborators)),
        None => prev,
    }
}

pub open spec fn or_empty<T>(o: Option<Seq<T>>) -> Seq<T> {
    match o {
        Some(s) => s,
        None => Seq::empty(),
    }
}

pub open spec fn opt_view<T>(o: Option<Vec<T>>) -> Option<Seq<T>> {
    match o {
        Some(v) => Some(v@),
        None => None,
    }
}

/// The snapshot that a refresh installs after `prev`, given what it fetched.
pub open spec fn refreshed_spec(prev: SnapshotView, f: FetchOutcome) -> SnapshotView {
    SnapshotView {
        repos: match f.repos {
            Some(rs) => rs@,
            None => prev.repos,
        },
        users: next_users(prev.users, opt_view(f.members), opt_view(f.collaborators)),
        projects: match f.projects {
            Some(ps) => projects_view(ps@),
            None => prev.projects,
        },
    }
}

fn contains_login(us: &Vec<CachedUser>, login: &String) -> (r: bool)
    ensures
        r == has_login(us@, login@),
{
    let mut i: usize = 0;
    while i < us.len()
        invariant
            i <= us@.len(),
            forall|k: int| 0 <= k < i ==> (#[trigger] us@[k]).login@ != login@,
        decreases us@.len() - i,
    {
        if text_eq(us[i].login.as_str(), login.as_str()) {
            return true;
        }
        i = i + 1;
    }
    false
}

/// Merges members and outside collaborators by login; where both list a
/// login, the member entry is kept, and each login appears once.
pub fn merge_people(members: Vec<CachedUser>, collaborators: Vec<CachedUser>) -> (r: Vec<CachedUser>)
    ensures
        r@ == merge_people_spec(members@, collaborators@),
{
    let ghost all = members@ + collaborators@;
    let mut r: Vec<CachedUser> = Vec::new();
    let mut i: usize = 0;
    while i < members.len()
        invariant
            all == members@ + collaborators@,
            i <= members@.len(),
            r@ == dedup_by_login(all.subrange(0, i as int)),
        decreases members@.len() - i,
    {
        let u = members[i].clone();
        assert(all.subrange(0, i + 1).drop_last() =~= all.subrange(0, i as int));
        if !contains_login(&r, &u.login) {
            r.push(u);
        }
        i = i + 1;
    }
    let mut j: usize = 0;
    while j < collaborators.len()
        invariant
            all == members@ + collaborators@,
            j <= collaborators@.len(),
            r@ == dedup_by_login(all.subrange(0, members@.len() + j)),
        decreases collaborators@.len() - j,
    {
        let u = collaborators[j].clone();
        assert(all.subrange(0, members@.len() + j + 1).drop_last() =~= all.subrange(
            0,
            members@.len() + j,
        ));
        if !contains_login(&r, &u.login) {
            r.push(u);
        }
        j = j + 1;
    }
    assert(all.subrange(0, members@.len() + j) =~= all);
    r
}

fn clone_repos(v: &Vec<CachedRepo>) -> (r: Vec<CachedRepo>)
    ensures
        r@ == v@,
{
    let r = v.clone();
    assert(r@ =~= v@);
    r
}

fn clone_users(v: &Vec<CachedUser>) -> (r: Vec<CachedUser>)
    ensures
        r@ == v@,
{
    let r = v.clone();
    assert(r@ =~= v@);
    r
}

fn clone_projects(v: &Vec<CachedProject>) -> (r: Vec<CachedProject>)
    ensures
        projects_view(r@) == projects_view(v@),
{
    let mut r: Vec<CachedProject> = Vec::new();
    let mut i: usize = 0;
    while i < v.len()
        invariant
            i <= v@.len(),
            r@.len() == i,
            forall|k: int| 0 <= k < i ==> (#[trigger] r@[k])@ == v@[k]@,
        decreases v@.len() - i,
    {
        r.push(v[i].clone());
        i = i + 1;
    }
    assert(projects_view(r@) =~= projects_view(v@));
    r
}

impl Snapshot {
    /// A snapshot with every collection empty, as before the first refresh.
    pub fn empty() -> (r: Snapshot)
        ensures
            r@.repos.len() == 0,
            r@.users.len() == 0,
            r@.projects.len() == 0,
    {
        Snapshot { repos: Vec::new(), users: Vec::new(), projects: Vec::new() }
    }

    /// Builds the snapshot that follows `self` after a refresh that fetched `f`.
    /// Each collection is taken whole from the fetch, or, where its fetch
    /// failed, whole from `self`; `self` itself is left as it is.
    pub fn refreshed(&self, f: FetchOutcome) -> (r: Snapshot)
        ensures
            r@ == refreshed_spec(self@, f),
    {
        let repos = match f.repos {
            Some(rs) => rs,
            None => clone_repos(&self.repos),
        };
        let users = match f.members {
            Some(ms) => {
                let cs = match f.collaborators {
                    Some(cs) => cs,
                    None => Vec::new(),
                };
                merge_people(ms, cs)
            },
            None => clone_users(&self.users),
        };
        let projects = match f.projects {
            Some(ps) => ps,
            None => clone_projects(&self.projects),
        };
        Snapshot { repos, users, projects }
    }
}

/// A refresh never mixes old and new data within one collection: each
/// collection of the installed snapshot is, whole, either the previous
/// snapshot's or the one built from this refresh's fetch.
pub proof fn lemma_refresh_never_mixes(prev: Snapshot, f: FetchOutcome)
    ensures
        ({
            let next = refreshed_spec(prev@, f);
            &&& next.repos == prev@.repos || (f.repos is Some && next.repos == f.repos->0@)
            &&& next.users == prev@.users || (f.members is Some && next.users == merge_people_spec(
                f.members->0@,
                or_empty(opt_view(f.collaborators)),
            ))
            &&& next.projects == prev@.projects || (f.projects is Some && next.projects
                == projects_view(f.projects->0@))
        }),
{
}

/// When the members fetch fails and the projects fetch succeeds, the people
/// of the next snapshot are exactly the previous ones and its projects are
/// the fetched ones.
pub proof fn lemma_member_failure_keeps_people(prev: Snapshot, f: FetchOutcome)
    requires
        f.members is None,
        f.projects is Some,
    ensures
        refreshed_spec(prev@, f).users == prev@.users,
        refreshed_spec(prev@, f).projects == projects_view(f.projects->0@),
{
}

} // verus!
