use project_bot::{AuthAction, AuthState, DeviceFlow, PollResponse, UserMapping, classify_poll};

fn s(x: &str) -> String {
    x.to_string()
}

/// Drives a flow through `answers` the way the bot's poll loop does.
fn drive(links: &mut UserMapping, chat_id: u64, answers: Vec<PollResponse>, login: &str) -> usize {
    let (mut flow, first) = DeviceFlow::start(links, chat_id);
    assert!(matches!(first, AuthAction::RequestCode));
    assert!(matches!(flow.code_issued(Some(5)), AuthAction::Wait(6)));
    let mut writes = 0;
    let mut elapsed = 0;
    for a in answers {
        elapsed += 6;
        let before = links.map.len();
        match flow.poll_answered(elapsed, a) {
            AuthAction::Wait(_) => continue,
            AuthAction::FetchIdentity(token) => {
                assert_eq!(token, "tok");
                match flow.identity_fetched(Some(s(login)), links) {
                    AuthAction::ReportLinked(l) => assert_eq!(l, login),
                    _ => panic!("expected a link"),
                }
                writes += links.map.len() - before;
                break;
            }
            _ => break,
        }
    }
    writes
}

#[test]
fn pending_three_times_then_success_links_once() {
    let mut links = UserMapping::new();
    let answers = vec![PollResponse::Pending, PollResponse::Pending, PollResponse::Pending, PollResponse::Success(s("tok"))];
    assert_eq!(drive(&mut links, 9, answers, "octo"), 1);
    assert_eq!(links.map.len(), 1);
    assert_eq!(links.login_of(9), Some(s("octo")));
}

#[test]
fn denied_on_second_poll_links_nothing() {
    let mut links = UserMapping::new();
    let answers = vec![PollResponse::Pending, PollResponse::Denied, PollResponse::Success(s("tok"))];
    assert_eq!(drive(&mut links, 9, answers, "octo"), 0);
    assert!(links.map.is_empty());
}

#[test]
fn linked_identity_is_not_asked_again() {
    let mut links = UserMapping::new();
    links.link(3, s("me"));
    let (_, a) = DeviceFlow::start(&links, 3);
    assert!(matches!(a, AuthAction::AlreadyLinked(ref l) if l == "me"));
    assert_eq!(links.unlink(3), Some(s("me")));
    assert_eq!(links.unlink(3), None);
    assert_eq!(links.login_of(3), None);
}

#[test]
fn polling_stops_at_the_ceiling_and_on_errors() {
    let links = UserMapping::new();
    let (mut flow, _) = DeviceFlow::start(&links, 1);
    assert!(matches!(flow.code_issued(None), AuthAction::Wait(6)));
    assert!(matches!(flow.poll_answered(900, PollResponse::Pending), AuthAction::Wait(6)));
    assert!(matches!(flow.poll_answered(901, PollResponse::Pending), AuthAction::ReportExpired));
    assert!(matches!(flow.state, AuthState::Expired));

    let (mut flow, _) = DeviceFlow::start(&links, 1);
    flow.code_issued(Some(1));
    assert!(matches!(flow.poll_answered(1, PollResponse::OtherError), AuthAction::ReportFailure));
    assert!(matches!(flow.state, AuthState::Failed));

    let (mut flow, _) = DeviceFlow::start(&links, 1);
    flow.code_issued(Some(1));
    assert!(matches!(flow.poll_answered(1, PollResponse::Expired), AuthAction::ReportExpired));

    let mut links = UserMapping::new();
    let (mut flow, _) = DeviceFlow::start(&links, 1);
    flow.code_issued(Some(1));
    flow.poll_answered(1, PollResponse::Success(s("t")));
    assert!(matches!(flow.identity_fetched(None, &mut links), AuthAction::ReportFailure));
    assert!(matches!(flow.state, AuthState::Failed));
    assert!(links.map.is_empty());
}

#[test]
fn poll_answers_are_classified() {
    assert!(matches!(classify_poll(Some(s("abc")), None), PollResponse::Success(ref t) if t == "abc"));
    assert!(matches!(classify_poll(None, Some(s("authorization_pending"))), PollResponse::Pending));
    assert!(matches!(classify_poll(None, Some(s("slow_down"))), PollResponse::Pending));
    assert!(matches!(classify_poll(None, Some(s("access_denied"))), PollResponse::Denied));
    assert!(matches!(classify_poll(None, Some(s("expired_token"))), PollResponse::Expired));
    assert!(matches!(classify_poll(None, Some(s("bad"))), PollResponse::OtherError));
    assert!(matches!(classify_poll(None, None), PollResponse::OtherError));
}
