use project_bot::{
    CachedField, CachedItem, CachedProject, ConfirmAction, ConfirmEvent, ConfirmState,
    CorrelationToken, EditAction, EditEvent, PayloadKind, PlanError, Snapshot, current_value,
    edit_step, edit_step_now, field_choices_of, item_node, plan_edit,
};

fn s(x: &str) -> String {
    x.to_string()
}

fn roadmap() -> Snapshot {
    Snapshot {
        repos: vec![],
        users: vec![],
        projects: vec![CachedProject {
            id: s("PRJ"),
            title: s("Roadmap"),
            url: s("https://example.test/roadmap"),
            number: 3,
            items: vec![CachedItem {
                title: s("Ship it"),
                number: 42,
                repo_name: s("backend"),
                state: s("OPEN"),
            }],
            fields: vec![
                CachedField { id: s("F_TITLE"), name: s("Title"), data_type: s("TITLE"), options: vec![] },
                CachedField {
                    id: s("F_PRIO"),
                    name: s("Priority"),
                    data_type: s("SINGLE_SELECT"),
                    options: vec![(s("High"), s("o1")), (s("Low"), s("o2"))],
                },
                CachedField { id: s("F_EST"), name: s("Estimate"), data_type: s("NUMBER"), options: vec![] },
                CachedField { id: s("F_DUE"), name: s("Due"), data_type: s("DATE"), options: vec![] },
                CachedField { id: s("F_ITER"), name: s("Sprint"), data_type: s("ITERATION"), options: vec![] },
            ],
        }],
    }
}

#[test]
fn scenario_select_high_for_record_42() {
    let snap = roadmap();
    let today = "2024-05-06";
    let mut mutations = Vec::new();

    let start = CorrelationToken::EditItem { project_id: s("PRJ"), number: 42 }.encode();
    let field_token = match edit_step(&snap, &start, &EditEvent::Pressed, today) {
        EditAction::PresentFieldChoice { token, number, choices } => {
            assert_eq!(number, 42);
            assert_eq!(
                choices,
                vec![
                    (s("Priority (SINGLE_SELECT)"), s("F_PRIO")),
                    (s("Estimate (NUMBER)"), s("F_EST")),
                    (s("Due (DATE)"), s("F_DUE")),
                    (s("Sprint (ITERATION)"), s("F_ITER")),
                ]
            );
            token
        }
        _ => panic!("expected a field choice"),
    };
    assert_eq!(field_token, "field:sel:PRJ:42");

    let value_token = match edit_step(&snap, &field_token, &EditEvent::Selected(s("F_PRIO")), today) {
        EditAction::PresentOptionChoice { token, field_name, number, choices } => {
            assert_eq!(field_name, "Priority");
            assert_eq!(number, 42);
            assert_eq!(choices, vec![(s("High"), s("o1")), (s("Low"), s("o2"))]);
            token
        }
        _ => panic!("expected an option choice"),
    };
    assert_eq!(value_token, "val:sel:PRJ:42:F_PRIO");

    match edit_step(&snap, &value_token, &EditEvent::Selected(s("o1")), today) {
        EditAction::Mutate { project_id, number, field_id, kind, value } => {
            mutations.push((project_id, number, field_id, kind, value));
        }
        _ => panic!("expected the update"),
    }
    assert_eq!(mutations, vec![(s("PRJ"), 42, s("F_PRIO"), PayloadKind::SingleSelectOption, s("o1"))]);

    let nodes = vec![(s("NODE_7"), 7), (s("NODE_42"), 42)];
    assert_eq!(item_node(&nodes, 42), Some(s("NODE_42")));
}

#[test]
fn free_form_field_opens_text_prompt() {
    let snap = roadmap();
    let t = "field:sel:PRJ:42";
    match edit_step(&snap, t, &EditEvent::Selected(s("F_EST")), "2024-05-06") {
        EditAction::OpenTextPrompt { token, field_name, data_type, number } => {
            assert_eq!(token, "val:modal:PRJ:42:F_EST");
            assert_eq!(field_name, "Estimate");
            assert_eq!(data_type, "NUMBER");
            assert_eq!(number, 42);
        }
        _ => panic!("expected a text prompt"),
    }
    match edit_step(&snap, "val:modal:PRJ:42:F_EST", &EditEvent::Submitted(s("3.5")), "2024-05-06") {
        EditAction::Mutate { kind, value, field_id, .. } => {
            assert_eq!((kind, value, field_id), (PayloadKind::Number, s("3.5"), s("F_EST")));
        }
        _ => panic!("expected the update"),
    }
    match edit_step(&snap, "val:modal:PRJ:42:F_DUE", &EditEvent::Submitted(s("TODAY")), "2024-05-06") {
        EditAction::Mutate { kind, value, .. } => {
            assert_eq!((kind, value), (PayloadKind::Date, s("2024-05-06")));
        }
        _ => panic!("expected the update"),
    }
    match edit_step(&snap, "val:modal:GONE:42:F_DUE", &EditEvent::Submitted(s("today")), "2024-05-06") {
        EditAction::Mutate { kind, value, .. } => {
            assert_eq!((kind, value), (PayloadKind::Text, s("today")));
        }
        _ => panic!("expected the update"),
    }
    match edit_step_now(&snap, "val:modal:PRJ:42:F_DUE", &EditEvent::Submitted(s("today"))) {
        EditAction::Mutate { kind, value, .. } => {
            assert_eq!(kind, PayloadKind::Date);
            assert_eq!(value.len(), 10);
        }
        _ => panic!("expected the update"),
    }
}

#[test]
fn unmatched_events_are_stale_or_unknown() {
    let snap = roadmap();
    let today = "2024-05-06";
    assert!(matches!(edit_step(&snap, "edit_item_PRJ_42", &EditEvent::Pressed, today), EditAction::Stale));
    assert!(matches!(edit_step(&snap, "edit:item:PRJ:42", &EditEvent::Submitted(s("x")), today), EditAction::Stale));
    assert!(matches!(edit_step(&snap, "val:sel:PRJ:42:F", &EditEvent::Pressed, today), EditAction::Stale));
    assert!(matches!(edit_step(&snap, "edit:item:OTHER:42", &EditEvent::Pressed, today), EditAction::Unknown));
    assert!(matches!(edit_step(&snap, "field:sel:PRJ:42", &EditEvent::Selected(s("F_NONE")), today), EditAction::Unknown));
    assert!(matches!(edit_step(&snap, "field:sel:PRJ:42", &EditEvent::Selected(s("F_ITER")), today), EditAction::NoOptions));
    let only_fixed = Snapshot {
        repos: vec![],
        users: vec![],
        projects: vec![CachedProject {
            id: s("Q"),
            title: s("Q"),
            url: s("u"),
            number: 1,
            items: vec![],
            fields: vec![CachedField { id: s("T"), name: s("Title"), data_type: s("TITLE"), options: vec![] }],
        }],
    };
    assert!(matches!(edit_step(&only_fixed, "edit:item:Q:1", &EditEvent::Pressed, today), EditAction::NoEditableFields));
    assert!(field_choices_of(&only_fixed.projects[0]).is_empty());
}

#[test]
fn confirm_prompt_times_out_and_stays_timed_out() {
    let mut p = ConfirmState::prompt(77, 5);
    assert!(!p.is_terminal());
    assert_eq!(p.step(&ConfirmEvent::Timeout), ConfirmAction::ShowTimedOut);
    assert!(matches!(p, ConfirmState::TimedOut));
    let late = ConfirmEvent::Pressed { custom_id: s("edit_confirm_77"), author: 5 };
    assert_eq!(p.step(&late), ConfirmAction::Ignore);
    assert!(matches!(p, ConfirmState::TimedOut));
}

#[test]
fn confirm_prompt_accepts_only_its_author_and_controls() {
    let mut p = ConfirmState::prompt(77, 5);
    match &p {
        ConfirmState::Awaiting { confirm_id, cancel_id, author } => {
            assert_eq!(confirm_id, "edit_confirm_77");
            assert_eq!(cancel_id, "edit_cancel_77");
            assert_eq!(*author, 5);
        }
        _ => panic!("expected a waiting prompt"),
    }
    let other_user = ConfirmEvent::Pressed { custom_id: s("edit_confirm_77"), author: 6 };
    assert_eq!(p.step(&other_user), ConfirmAction::Ignore);
    let other_control = ConfirmEvent::Pressed { custom_id: s("edit_confirm_78"), author: 5 };
    assert_eq!(p.step(&other_control), ConfirmAction::Ignore);
    let confirm = ConfirmEvent::Pressed { custom_id: s("edit_confirm_77"), author: 5 };
    assert_eq!(p.step(&confirm), ConfirmAction::Proceed);
    assert!(p.is_terminal());
    assert_eq!(p.step(&confirm), ConfirmAction::Ignore);

    let mut q = ConfirmState::prompt(1, 2);
    let cancel = ConfirmEvent::Pressed { custom_id: s("edit_cancel_1"), author: 2 };
    assert_eq!(q.step(&cancel), ConfirmAction::ShowCancelled);
    assert!(matches!(q, ConfirmState::Cancelled));
}

#[test]
fn single_shot_edit_plan() {
    let snap = roadmap();
    let plan = plan_edit(&snap, "roadmap", "backend #42", "PRIORITY").expect("plan");
    assert_eq!((plan.project_index, plan.field_index, plan.number), (0, 1, 42));
    assert_eq!(plan_edit(&snap, "Nope", "42", "Priority"), Err(PlanError::ProjectNotFound));
    assert_eq!(plan_edit(&snap, "Roadmap", "42", "Nope"), Err(PlanError::FieldNotFound));
}

#[test]
fn current_value_and_item_node() {
    let values = vec![(s("Status"), s("Todo")), (s("priority"), s("Low")), (s("Priority"), s("High"))];
    assert_eq!(current_value(&values, "PRIORITY"), "High");
    assert_eq!(current_value(&values, "Due"), "Empty");
    let nodes = vec![(s(""), 3), (s("N4"), 4), (s("N4b"), 4), (s("NEG"), -1)];
    assert_eq!(item_node(&nodes, 3), None);
    assert_eq!(item_node(&nodes, 4), Some(s("N4")));
    assert_eq!(item_node(&nodes, 5), None);
}
