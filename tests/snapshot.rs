use project_bot::{CachedProject, CachedRepo, CachedUser, FetchOutcome, Snapshot, merge_people};

fn user(login: &str, avatar: &str) -> CachedUser {
    CachedUser { login: login.to_string(), avatar_url: avatar.to_string() }
}

fn repo(name: &str) -> CachedRepo {
    CachedRepo { name: name.to_string(), full_name: format!("org/{}", name) }
}

fn proj(id: &str) -> CachedProject {
    CachedProject {
        id: id.to_string(),
        title: id.to_string(),
        url: String::new(),
        number: 1,
        items: vec![],
        fields: vec![],
    }
}

fn logins(v: &[CachedUser]) -> Vec<(String, String)> {
    v.iter().map(|u| (u.login.clone(), u.avatar_url.clone())).collect()
}

fn previous() -> Snapshot {
    Snapshot {
        repos: vec![repo("old-repo")],
        users: vec![user("old-user", "x")],
        projects: vec![proj("OLD")],
    }
}

#[test]
fn members_win_over_collaborators() {
    let merged = merge_people(
        vec![user("ann", "member"), user("bo", "member"), user("ann", "dup")],
        vec![user("bo", "collab"), user("cy", "collab"), user("cy", "collab2")],
    );
    assert_eq!(
        logins(&merged),
        vec![
            ("ann".to_string(), "member".to_string()),
            ("bo".to_string(), "member".to_string()),
            ("cy".to_string(), "collab".to_string()),
        ]
    );
}

#[test]
fn failed_members_fetch_keeps_people() {
    let prev = previous();
    let next = prev.refreshed(FetchOutcome {
        repos: Some(vec![repo("new-repo")]),
        members: None,
        collaborators: Some(vec![user("cy", "c")]),
        projects: Some(vec![proj("NEW1"), proj("NEW2")]),
    });
    assert_eq!(logins(&next.users), logins(&prev.users));
    let ids: Vec<String> = next.projects.iter().map(|p| p.id.clone()).collect();
    assert_eq!(ids, vec!["NEW1".to_string(), "NEW2".to_string()]);
    assert_eq!(next.repos[0].name, "new-repo");
    // the previous snapshot is left as it was
    assert_eq!(prev.projects[0].id, "OLD");
}

#[test]
fn each_failed_collection_is_kept_whole() {
    let prev = previous();
    let next = prev.refreshed(FetchOutcome { repos: None, members: None, collaborators: None, projects: None });
    assert_eq!(next.repos[0].name, "old-repo");
    assert_eq!(logins(&next.users), logins(&prev.users));
    assert_eq!(next.projects[0].id, "OLD");

    let next = prev.refreshed(FetchOutcome {
        repos: Some(vec![]),
        members: Some(vec![user("ann", "m")]),
        collaborators: None,
        projects: None,
    });
    assert!(next.repos.is_empty());
    assert_eq!(logins(&next.users), vec![("ann".to_string(), "m".to_string())]);
    assert_eq!(next.projects.len(), 1);
    assert!(Snapshot::empty().projects.is_empty());
}
