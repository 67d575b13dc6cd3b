use project_bot::{
    CachedField, CachedItem, CachedProject, CachedRepo, CachedUser, PayloadKind, Snapshot,
    build_mutation_payload, field_by_id, field_by_name, find_fields, find_people, find_projects,
    find_record, find_repos, mutation_payload, option_by_name, project_by_id, project_by_title,
    value_options,
};

fn s(x: &str) -> String {
    x.to_string()
}

fn item(title: &str, number: i64, repo: &str, state: &str) -> CachedItem {
    CachedItem { title: s(title), number, repo_name: s(repo), state: s(state) }
}

fn field(id: &str, name: &str, data_type: &str, options: &[(&str, &str)]) -> CachedField {
    CachedField {
        id: s(id),
        name: s(name),
        data_type: s(data_type),
        options: options.iter().map(|(n, i)| (s(n), s(i))).collect(),
    }
}

fn project(id: &str, title: &str, items: Vec<CachedItem>, fields: Vec<CachedField>) -> CachedProject {
    CachedProject {
        id: s(id),
        title: s(title),
        url: format!("https://example.test/{}", id),
        number: 1,
        items,
        fields,
    }
}

fn snapshot() -> Snapshot {
    Snapshot {
        repos: vec![
            CachedRepo { name: s("Backend-Service"), full_name: s("org/Backend-Service") },
            CachedRepo { name: s("frontend"), full_name: s("org/frontend") },
            CachedRepo { name: s("docs"), full_name: s("org/docs") },
        ],
        users: vec![
            CachedUser { login: s("Alice"), avatar_url: s("a") },
            CachedUser { login: s("bob"), avatar_url: s("b") },
        ],
        projects: vec![
            project(
                "PVT_a",
                "Roadmap",
                vec![
                    item("Fix login bug", 42, "backend", "OPEN"),
                    item("Old thing", 7, "backend", "closed"),
                    item("Merged change", 8, "frontend", "MERGED"),
                ],
                vec![
                    field("F1", "Priority", "SINGLE_SELECT", &[("High", "o1"), ("Low", "o2")]),
                    field("F2", "Due", "DATE", &[]),
                    field("F3", "Title", "TITLE", &[]),
                ],
            ),
            project(
                "PVT_b",
                "A very long project title indeed",
                vec![item("An item with a rather long title that goes on", 1234, "docs", "OPEN")],
                vec![
                    field("G1", "Priority", "SINGLE_SELECT", &[("Urgent", "u1"), ("High", "h2")]),
                    field("G2", "Estimate", "NUMBER", &[]),
                ],
            ),
        ],
    }
}

#[test]
fn repos_match_ignoring_case() {
    let snap = snapshot();
    assert_eq!(find_repos(&snap, "END", 25), vec![s("Backend-Service"), s("frontend")]);
    assert_eq!(find_repos(&snap, "", 2), vec![s("Backend-Service"), s("frontend")]);
    assert_eq!(find_repos(&snap, "zzz", 25), Vec::<String>::new());
}

#[test]
fn projects_and_people_match_ignoring_case() {
    let snap = snapshot();
    assert_eq!(find_projects(&snap, "road", 25), vec![s("Roadmap")]);
    assert_eq!(find_people(&snap, "ALI", 25), vec![s("Alice")]);
    assert_eq!(find_people(&snap, "b", 0), Vec::<String>::new());
}

#[test]
fn record_suggestions_skip_closed_and_clip() {
    let snap = snapshot();
    assert_eq!(find_record(&snap, "42", 25), vec![s("backend #42: Fix login bug (Roadmap)")]);
    assert_eq!(find_record(&snap, "BACKEND #4", 25), vec![s("backend #42: Fix login bug (Roadmap)")]);
    assert_eq!(
        find_record(&snap, "rather", 25),
        vec![s("docs #1234: An item with a rather long tit... (A very long pro...)")]
    );
    // closed and merged records are not offered
    assert_eq!(find_record(&snap, "old thing", 25), vec![s("old thing")]);
    assert_eq!(find_record(&snap, "merged", 25), vec![s("merged")]);
}

#[test]
fn record_suggestions_fall_back_to_typed_text() {
    let snap = snapshot();
    assert_eq!(find_record(&snap, "", 0), vec![s("")]);
    assert_eq!(find_record(&snap, "nothing here", 25), vec![s("nothing here")]);
    assert_eq!(find_record(&Snapshot::empty(), "", 25), vec![s("")]);
    assert_eq!(find_record(&snap, "", 1).len(), 1);
    assert_eq!(find_record(&snap, "", 25).len(), 2);
}

#[test]
fn lookups_by_title_name_and_id() {
    let snap = snapshot();
    assert_eq!(project_by_title(&snap, "ROADMAP"), Some(0));
    assert_eq!(project_by_title(&snap, "Roadmap2"), None);
    assert_eq!(project_by_id(&snap, "PVT_b"), Some(1));
    assert_eq!(project_by_id(&snap, "pvt_b"), None);
    let p = &snap.projects[0];
    assert_eq!(field_by_name(p, "priority"), Some(0));
    assert_eq!(field_by_id(p, "F2"), Some(1));
    assert_eq!(field_by_id(p, "F9"), None);
    assert_eq!(option_by_name(&p.fields[0], "LOW"), Some(1));
    assert_eq!(option_by_name(&p.fields[0], "Medium"), None);
}

#[test]
fn option_name_maps_to_option_id() {
    let f = field("F", "Priority", "SINGLE_SELECT", &[("High", "id1"), ("Low", "id2")]);
    let r = build_mutation_payload(&f, "high", "2024-01-02");
    assert_eq!(r.kind, PayloadKind::SingleSelectOption);
    assert_eq!(r.value, s("id1"));
    let r = build_mutation_payload(&f, "LOW", "2024-01-02");
    assert_eq!(r.value, s("id2"));
}

#[test]
fn payload_dispatches_on_data_type() {
    let n = field("N", "Estimate", "NUMBER", &[]);
    let r = build_mutation_payload(&n, "abc", "2024-01-02");
    assert_eq!((r.kind, r.value), (PayloadKind::Number, s("abc")));
    let d = field("D", "Due", "DATE", &[]);
    let r = build_mutation_payload(&d, "today", "2024-01-02");
    assert_eq!((r.kind, r.value), (PayloadKind::Date, s("2024-01-02")));
    let r = build_mutation_payload(&d, "2025-12-31", "2024-01-02");
    assert_eq!((r.kind, r.value), (PayloadKind::Date, s("2025-12-31")));
    let t = field("T", "Notes", "TEXT", &[]);
    let r = build_mutation_payload(&t, "Today", "2024-01-02");
    assert_eq!((r.kind, r.value), (PayloadKind::Text, s("Today")));
}

#[test]
fn today_placeholder_reads_the_clock() {
    let d = field("D", "Due", "DATE", &[]);
    let r = mutation_payload(&d, "Today");
    assert_eq!(r.kind, PayloadKind::Date);
    assert_ne!(r.value, s("Today"));
    assert_eq!(r.value.len(), 10);
    assert_eq!(&r.value[4..5], "-");
    let r = mutation_payload(&d, "2020-02-02");
    assert_eq!(r.value, s("2020-02-02"));
}

#[test]
fn field_names_are_unique_and_scoped() {
    let snap = snapshot();
    assert_eq!(
        find_fields(&snap, None, "", 25),
        vec![s("Priority"), s("Due"), s("Title"), s("Estimate")]
    );
    assert_eq!(find_fields(&snap, Some("PVT_b"), "e", 25), vec![s("Estimate")]);
    assert_eq!(find_fields(&snap, Some("PVT_b"), "", 25), vec![s("Priority"), s("Estimate")]);
    assert_eq!(find_fields(&snap, Some("nope"), "EST", 25), vec![s("Estimate")]);
}

#[test]
fn value_suggestions_by_field_type() {
    let snap = snapshot();
    assert_eq!(
        value_options(&snap, Some("priority"), ""),
        vec![s("High"), s("Low"), s("Urgent")]
    );
    assert_eq!(value_options(&snap, Some("Priority"), "hi"), vec![s("High"), s("hi")]);
    assert_eq!(value_options(&snap, Some("Priority"), "HIGH"), vec![s("High")]);
    assert_eq!(value_options(&snap, Some("Priority"), "Med"), vec![s("med")]);
    assert_eq!(value_options(&snap, Some("Due"), "to"), vec![s("Today"), s("to")]);
    assert_eq!(value_options(&snap, Some("Due"), ""), vec![s("Today"), s("YYYY-MM-DD")]);
    assert_eq!(value_options(&snap, Some("Estimate"), "12"), vec![s("12")]);
    assert_eq!(value_options(&snap, None, ""), Vec::<String>::new());
    let long = "x".repeat(51);
    assert_eq!(value_options(&snap, Some("Priority"), &long), vec![long.clone()]);
}

#[test]
fn record_suggestions_stop_at_the_limit() {
    let items: Vec<CachedItem> = (1..=30).map(|n| item("Task", n, "repo", "OPEN")).collect();
    let snap = Snapshot {
        repos: vec![],
        users: vec![],
        projects: vec![project("PVT_c", "Board", items, vec![])],
    };
    let r = find_record(&snap, "task", 25);
    assert_eq!(r.len(), 25);
    assert_eq!(r[0], "repo #1: Task (Board)");
    assert_eq!(r[24], "repo #25: Task (Board)");
    let names: Vec<CachedRepo> =
        (0..30).map(|n| CachedRepo { name: format!("r{}", n), full_name: String::new() }).collect();
    let snap = Snapshot { repos: names, users: vec![], projects: vec![] };
    assert_eq!(find_repos(&snap, "R", 25).len(), 25);
}
