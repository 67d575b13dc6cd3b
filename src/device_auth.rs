//! The device authorization flow that links a chat identity to a login of
//! the remote service: request a code, poll until the provider answers,
//! fetch the identity, write the link.

use crate::text::text_eq;
use crate::types::UserMapping;
use vstd::prelude::*;

verus! {

/// The longest the flow polls, whatever the provider's own expiry.
pub const POLL_CEILING_SECS: u64 = 900;

/// The poll interval when the provider names none.
pub const DEFAULT_INTERVAL_SECS: u64 = 5;

/// One answer of the provider to a token poll.
pub enum PollResponse {
    /// A token was issued.
    Success(String),
    /// The user has not finished yet: keep polling.
    Pending,
    /// The user refused.
    Denied,
    /// The provider's code expired.
    Expired,
    /// Any other answer.
    OtherError,
}

pub enum PollView {
    Success(Seq<char>),
    Pending,
    Denied,
    Expired,
    OtherError,
}

impl View for PollResponse {
    type V = PollView;

    open spec fn view(&self) -> PollView {
        match self {
            PollResponse::Success(t) => PollView::Success(t@),
            PollResponse::Pending => PollView::Pending,
            PollResponse::Denied => PollView::Denied,
            PollResponse::Expired => PollView::Expired,
            PollResponse::OtherError => PollView::OtherError,
        }
    }
}

/// How an answer with these `access_token` and `error` members reads.
pub open spec fn classify_spec(access_token: Option<Seq<char>>, error: Option<Seq<char>>) -> PollView {
    match access_token {
        Some(t) => PollView::Success(t),
        None => match error {
            Some(e) => if e == "authorization_pending"@ || e == "slow_down"@ {
                PollView::Pending
            } else if e == "access_denied"@ {
                PollView::Denied
            } else if e == "expired_token"@ {
                PollView::Expired
            } else {
                PollView::OtherError
            },
            None => PollView::OtherError,
        },
    }
}

pub open spec fn opt_str_view(o: Option<String>) -> Option<Seq<char>> {
    match o {
        Some(s) => Some(s@),
        None => None,
    }
}

/// Classifies a token-poll answer by its `access_token` and `error` members.
pub fn classify_poll(access_token: Option<String>, error: Option<String>) -> (r: PollResponse)
    ensures
        r@ == classify_spec(opt_str_view(access_token), opt_str_view(error)),
{
    match access_token {
        Some(t) => PollResponse::Success(t),
        None => match error {
            Some(e) => {
                if text_eq(e.as_str(), "authorization_pending") || text_eq(e.as_str(), "slow_down") {
                    PollResponse::Pending
                } else if text_eq(e.as_str(), "access_denied") {
                    PollResponse::Denied
                } else if text_eq(e.as_str(), "expired_token") {
                    PollResponse::Expired
                } else {
                    PollResponse::OtherError
                }
            },
            None => PollResponse::OtherError,
        },
    }
}

/// Where a flow stands.
pub enum AuthState {
    /// Nothing requested yet.
    Idle,
    /// Polling the provider every `interval_secs`.
    Polling { interval_secs: u64 },
    /// A token came; the identity is being fetched.
    FetchingIdentity,
    /// The link is written.
    Linked,
    Denied,
    Expired,
    Failed,
}

/// What the flow asks its driver to do next.
pub enum AuthAction {
    /// The identity is linked already: nothing to do.
    AlreadyLinked(String),
    /// Ask the provider for a device code.
    RequestCode,
    /// Wait this long, then poll.
    Wait(u64),
    /// Fetch the identity with this token.
    FetchIdentity(String),
    /// Tell the user the account is linked to this login.
    ReportLinked(String),
    ReportDenied,
    ReportExpired,
    ReportFailure,
}

/// One flow, for one chat identity.
pub struct DeviceFlow {
    pub chat_id: u64,
    pub state: AuthState,
}

pub open spec fn is_final(s: AuthState) -> bool {
    s is Linked || s is Denied || s is Expired || s is Failed
}

/// The flow's state after a poll answered `resp`, `elapsed` seconds in.
pub open spec fn after_poll(s: AuthState, elapsed: u64, resp: PollView) -> AuthState {
    match s {
        AuthState::Polling { interval_secs } => match resp {
            PollView::Success(_) => AuthState::FetchingIdentity,
            PollView::Pending => if elapsed > POLL_CEILING_SECS {
                AuthState::Expired
            } else {
                s
            },
            PollView::Denied => AuthState::Denied,
            PollView::Expired => AuthState::Expired,
            PollView::OtherError => AuthState::Failed,
        },
        _ => s,
    }
}

/// The wait before the next poll: one second more than the interval.
pub open spec fn wait_secs(interval_secs: u64) -> u64 {
    if interval_secs < u64::MAX {
        (interval_secs + 1) as u64
    } else {
        interval_secs
    }
}

impl DeviceFlow {
    /// Starts a flow for `chat_id`; an identity that is linked already is not
    /// asked again.
    pub fn start(links: &UserMapping, chat_id: u64) -> (r: (DeviceFlow, AuthAction))
        ensures
            r.0.chat_id == chat_id,
            r.0.state is Idle,
            links.links().contains_key(chat_id) ==> r.1 == AuthAction::AlreadyLinked(
                links.links()[chat_id],
            ),
            !links.links().contains_key(chat_id) ==> r.1 is RequestCode,
    {
        let action = match links.login_of(chat_id) {
            Some(login) => AuthAction::AlreadyLinked(login),
            None => AuthAction::RequestCode,
        };
        (DeviceFlow { chat_id, state: AuthState::Idle }, action)
    }

    /// The provider issued a device code, with the poll interval it named, if any.
    pub fn code_issued(&mut self, interval_secs: Option<u64>) -> (r: AuthAction)
        requires
            old(self).state is Idle,
        ensures
            final(self).chat_id == old(self).chat_id,
            ({
                let i = match interval_secs {
                    Some(i) => i,
                    None => DEFAULT_INTERVAL_SECS,
                };
                &&& final(self).state == AuthState::Polling { interval_secs: i }
                &&& r == AuthAction::Wait(wait_secs(i))
            }),
    {
        let i = match interval_secs {
            Some(i) => i,
            None => DEFAULT_INTERVAL_SECS,
        };
        self.state = AuthState::Polling { interval_secs: i };
        AuthAction::Wait(if i < u64::MAX {
            i + 1
        } else {
            i
        })
    }

    /// A poll, `elapsed_secs` after polling began, was answered with `resp`.
    /// Only a pending answer within the ceiling keeps the flow polling.
    pub fn poll_answered(&mut self, elapsed_secs: u64, resp: PollResponse) -> (r: AuthAction)
        requires
            old(self).state is Polling,
        ensures
            final(self).chat_id == old(self).chat_id,
            final(self).state == after_poll(old(self).state, elapsed_secs, resp@),
            match final(self).state {
                AuthState::Polling { interval_secs } => r == AuthAction::Wait(
                    wait_secs(interval_secs),
                ),
                AuthState::FetchingIdentity => resp is Success && r == AuthAction::FetchIdentity(
                    resp->Success_0,
                ),
                AuthState::Denied => r is ReportDenied,
                AuthState::Expired => r is ReportExpired,
                _ => r is ReportFailure,
            },
    {
        let interval = match self.state {
            AuthState::Polling { interval_secs } => interval_secs,
            _ => DEFAULT_INTERVAL_SECS,
        };
        match resp {
            PollResponse::Success(token) => {
                self.state = AuthState::FetchingIdentity;
                AuthAction::FetchIdentity(token)
            },
            PollResponse::Pending => {
                if elapsed_secs > POLL_CEILING_SECS {
                    self.state = AuthState::Expired;
                    AuthAction::ReportExpired
                } else {
                    AuthAction::Wait(if interval < u64::MAX {
                        interval + 1
                    } else {
                        interval
                    })
                }
            },
            PollResponse::Denied => {
                self.state = AuthState::Denied;
                AuthAction::ReportDenied
            },
            PollResponse::Expired => {
                self.state = AuthState::Expired;
                AuthAction::ReportExpired
            },
            PollResponse::OtherError => {
                self.state = AuthState::Failed;
                AuthAction::ReportFailure
            },
        }
    }

    /// The identity fetch after a token returned `login` (`None` when it
    /// failed). Only then, and only with a login, is the link written.
    pub fn identity_fetched(&mut self, login: Option<String>, links: &mut UserMapping) -> (r:
        AuthAction)
        ensures
            final(self).chat_id == old(self).chat_id,
            old(self).state is FetchingIdentity && login is Some ==> {
                &&& final(links).links() == old(links).links().insert(
                    old(self).chat_id,
                    login->0,
                )
                &&& final(self).state is Linked
                &&& r == AuthAction::ReportLinked(login->0)
            },
            !(old(self).state is FetchingIdentity && login is Some) ==> {
                &&& final(links).links() == old(links).links()
                &&& r is ReportFailure
                &&& (old(self).state is FetchingIdentity ==> final(self).state is Failed)
                &&& (!(old(self).state is FetchingIdentity) ==> final(self).state == old(
                    self,
                ).state)
            },
    {
        if !matches!(self.state, AuthState::FetchingIdentity) {
            return AuthAction::ReportFailure;
        }
        match login {
            Some(l) => {
                links.link(self.chat_id, l.clone());
                self.state = AuthState::Linked;
                AuthAction::ReportLinked(l)
            },
            None => {
                self.state = AuthState::Failed;
                AuthAction::ReportFailure
            },
        }
    }
}

/// A denied, expired or failed poll ends the flow: no later answer moves it.
pub proof fn lemma_final_states_stay(s: AuthState, elapsed: u64, resp: PollView)
    requires
        is_final(s),
    ensures
        after_poll(s, elapsed, resp) == s,
{
}

/// Polling ends at the ceiling: a pending answer past it expires the flow.
pub proof fn lemma_ceiling_expires(interval_secs: u64, elapsed: u64)
    requires
        elapsed > POLL_CEILING_SECS,
    ensures
        after_poll(AuthState::Polling { interval_secs }, elapsed, PollView::Pending)
            == AuthState::Expired,
{
}

} // verus!
