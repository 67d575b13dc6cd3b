//! The cached records of the remote tracker and the identity link table.

use std::collections::HashMap;
use vstd::prelude::*;

verus! {

broadcast use vstd::std_specs::hash::group_hash_axioms;

/// A repository of the organization.
pub struct CachedRepo {
    pub name: String,
    pub full_name: String,
}

/// A member or outside collaborator of the organization.
pub struct CachedUser {
    pub login: String,
    pub avatar_url: String,
}

/// A record (issue or pull request) as cached for suggestions only.
pub struct CachedItem {
    pub title: String,
    pub number: i64,
    pub repo_name: String,
    pub state: String,
}

/// A field of a project. `options` maps an option name to its remote id,
/// in the order the remote service listed them.
pub struct CachedField {
    pub id: String,
    pub name: String,
    pub data_type: String,
    pub options: Vec<(String, String)>,
}

/// A project with its fields and the first page of its records.
pub struct CachedProject {
    pub id: String,
    pub title: String,
    pub url: String,
    pub number: i64,
    pub items: Vec<CachedItem>,
    pub fields: Vec<CachedField>,
}

impl Clone for CachedRepo {
    fn clone(&self) -> (r: Self)
        ensures
            r == *self,
    {
        CachedRepo { name: self.name.clone(), full_name: self.full_name.clone() }
    }
}

impl Clone for CachedUser {
    fn clone(&self) -> (r: Self)
        ensures
            r == *self,
    {
        CachedUser { login: self.login.clone(), avatar_url: self.avatar_url.clone() }
    }
}

impl Clone for CachedItem {
    fn clone(&self) -> (r: Self)
        ensures
            r == *self,
    {
        CachedItem {
            title: self.title.clone(),
            number: self.number,
            repo_name: self.repo_name.clone(),
            state: self.state.clone(),
        }
    }
}

/// The contents of a field, with its options as a sequence.
pub struct FieldView {
    pub id: String,
    pub name: String,
    pub data_type: String,
    pub options: Seq<(String, String)>,
}

/// The contents of a project, with its records and fields as sequences.
pub struct ProjectView {
    pub id: String,
    pub title: String,
    pub url: String,
    pub number: i64,
    pub items: Seq<CachedItem>,
    pub fields: Seq<FieldView>,
}

impl View for CachedField {
    type V = FieldView;

    open spec fn view(&self) -> FieldView {
        FieldView {
            id: self.id,
            name: self.name,
            data_type: self.data_type,
            options: self.options@,
        }
    }
}

impl View for CachedProject {
    type V = ProjectView;

    open spec fn view(&self) -> ProjectView {
        ProjectView {
            id: self.id,
            title: self.title,
            url: self.url,
            number: self.number,
            items: self.items@,
            fields: self.fields@.map_values(|f: CachedField| f@),
        }
    }
}

impl Clone for CachedField {
    fn clone(&self) -> (r: Self)
        ensures
            r@ == self@,
    {
        let mut options: Vec<(String, String)> = Vec::new();
        let mut i: usize = 0;
        while i < self.options.len()
            invariant
                i <= self.options@.len(),
                options@ == self.options@.subrange(0, i as int),
            decreases self.options@.len() - i,
        {
            let o = &self.options[i];
            options.push((o.0.clone(), o.1.clone()));
            i = i + 1;
            assert(options@ =~= self.options@.subrange(0, i as int));
        }
        assert(options@ =~= self.options@);
        CachedField {
            id: self.id.clone(),
            name: self.name.clone(),
            data_type: self.data_type.clone(),
            options,
        }
    }
}

impl Clone for CachedProject {
    fn clone(&self) -> (r: Self)
        ensures
            r@ == self@,
    {
        let items = self.items.clone();
        assert(items@ =~= self.items@);
        let mut fields: Vec<CachedField> = Vec::new();
        let mut i: usize = 0;
        while i < self.fields.len()
            invariant
                i <= self.fields@.len(),
                fields@.len() == i,
                forall|k: int| 0 <= k < i ==> (#[trigger] fields@[k])@ == self.fields@[k]@,
            decreases self.fields@.len() - i,
        {
            let f = self.fields[i].clone();
            fields.push(f);
            i = i + 1;
        }
        assert(fields@.map_values(|f: CachedField| f@) =~= self.fields@.map_values(
            |f: CachedField| f@,
        ));
        CachedProject {
            id: self.id.clone(),
            title: self.title.clone(),
            url: self.url.clone(),
            number: self.number,
            items,
            fields,
        }
    }
}

impl CachedField {
    /// No two options share a name.
    pub open spec fn wf(&self) -> bool {
        forall|i: int, j: int|
            0 <= i < j < self.options@.len() ==> (#[trigger] self.options@[i]).0@
                != (#[trigger] self.options@[j]).0@
    }
}

/// Links a chat identity to a login of the remote service.
pub struct UserMapping {
    pub map: HashMap<u64, String>,
}

impl UserMapping {
    /// The links as a map from chat id to the login's characters.
    pub open spec fn links(&self) -> Map<u64, String> {
        self.map@
    }

    /// An empty table.
    pub fn new() -> (r: Self)
        ensures
            r.links() == Map::<u64, String>::empty(),
    {
        UserMapping { map: HashMap::new() }
    }

    /// The login linked to `chat_id`, if any.
    pub fn login_of(&self, chat_id: u64) -> (r: Option<String>)
        ensures
            r == (if self.links().contains_key(chat_id) {
                Some(self.links()[chat_id])
            } else {
                None
            }),
    {
        match self.map.get(&chat_id) {
            Some(login) => Some(login.clone()),
            None => None,
        }
    }

    /// Records `login` for `chat_id`, replacing an earlier link.
    pub fn link(&mut self, chat_id: u64, login: String)
        ensures
            final(self).links() == old(self).links().insert(chat_id, login),
    {
        self.map.insert(chat_id, login);
    }

    /// Removes the link of `chat_id` and returns the login it had.
    pub fn unlink(&mut self, chat_id: u64) -> (r: Option<String>)
        ensures
            final(self).links() == old(self).links().remove(chat_id),
            r == (if old(self).links().contains_key(chat_id) {
                Some(old(self).links()[chat_id])
            } else {
                None
            }),
    {
        self.map.remove(&chat_id)
    }
}

impl Default for UserMapping {
    fn default() -> (r: Self)
        ensures
            r.links() == Map::<u64, String>::empty(),
    {
        UserMapping::new()
    }
}

} // verus!
