use project_bot::{CorrelationToken, contains_text, eq_ignore_ascii_case, parse_item_number, text_eq};

fn round_trip(t: CorrelationToken) -> (String, Option<CorrelationToken>) {
    let e = t.encode();
    let d = CorrelationToken::decode(&e);
    (e, d)
}

#[test]
fn tokens_encode_as_colon_fields() {
    let t = CorrelationToken::EditItem { project_id: "PVT_1".to_string(), number: 42 };
    assert_eq!(t.encode(), "edit:item:PVT_1:42");
    let t = CorrelationToken::FieldChoice { project_id: "PVT_1".to_string(), number: 0 };
    assert_eq!(t.encode(), "field:sel:PVT_1:0");
    let t = CorrelationToken::ValueChoice {
        project_id: "P".to_string(),
        number: 7,
        field_id: "F_x".to_string(),
    };
    assert_eq!(t.encode(), "val:sel:P:7:F_x");
    let t = CorrelationToken::ValueEntry {
        project_id: "P".to_string(),
        number: 18446744073709551615,
        field_id: "F".to_string(),
    };
    assert_eq!(t.encode(), "val:modal:P:18446744073709551615:F");
}

#[test]
fn tokens_decode_back_to_themselves() {
    let cases = vec![
        CorrelationToken::EditItem { project_id: "PVT_kwDO".to_string(), number: 42 },
        CorrelationToken::FieldChoice { project_id: "".to_string(), number: 1 },
        CorrelationToken::ValueChoice {
            project_id: "P".to_string(),
            number: 99,
            field_id: "PVTSSF_1".to_string(),
        },
        CorrelationToken::ValueEntry {
            project_id: "P".to_string(),
            number: 18446744073709551615,
            field_id: "F".to_string(),
        },
    ];
    for t in cases {
        let (e, d) = round_trip(t);
        let d = d.expect("decodes");
        assert_eq!(d.encode(), e);
    }
    match CorrelationToken::decode("edit:item:PVT_1:42") {
        Some(CorrelationToken::EditItem { project_id, number }) => {
            assert_eq!(project_id, "PVT_1");
            assert_eq!(number, 42);
        }
        _ => panic!("expected an edit token"),
    }
}

#[test]
fn malformed_tokens_are_stale() {
    for bad in [
        "",
        "edit:item:P",
        "edit:item:P:x",
        "edit:item:P:-1",
        "edit:item:P:18446744073709551616",
        "edit:item:P:1:extra:more",
        "field:sel:P:",
        "val:sel:P:1",
        "val:other:P:1:F",
        "edit_item_P_1",
        "proj_select_P",
    ] {
        assert!(CorrelationToken::decode(bad).is_none(), "{}", bad);
    }
}

#[test]
fn text_helpers() {
    assert!(contains_text("backend #42", "#4"));
    assert!(contains_text("abc", ""));
    assert!(!contains_text("", "a"));
    assert!(!contains_text("ab", "abc"));
    assert!(eq_ignore_ascii_case("Closed", "CLOSED"));
    assert!(!eq_ignore_ascii_case("Closed", "Close"));
    assert!(!eq_ignore_ascii_case("[", "{"));
    assert!(text_eq("DATE", "DATE"));
    assert!(!text_eq("DATE", "date"));
}

#[test]
fn item_numbers_from_typed_text() {
    assert_eq!(parse_item_number("123"), 123);
    assert_eq!(parse_item_number("backend-service #123"), 123);
    assert_eq!(parse_item_number("backend #12: Title (Proj)"), 12);
    assert_eq!(parse_item_number("42abc"), 42);
    assert_eq!(parse_item_number("repo #"), 0);
    assert_eq!(parse_item_number("abc"), 0);
    assert_eq!(parse_item_number(""), 0);
    assert_eq!(parse_item_number("99999999999999999999"), 0);
    assert_eq!(parse_item_number("a #1 #2"), 1);
}
