//! Provider access tokens and the decisions of their shared cache.
use vstd::prelude::*;

verus! {

/// Seconds taken off a token's lifetime, so that it is renewed before the
/// provider rejects it.
pub const EXPIRY_MARGIN: u64 = 5;

/// Relies on `std::time::SystemTime::now` and `duration_since(UNIX_EPOCH)`:
/// the seconds since the epoch, or none when the clock is set before it.
#[verifier::external_body]
fn epoch_seconds() -> (r: Option<u64>) {
    match std::time::SystemTime::now().duration_since(std::time::UNIX_EPOCH) {
        Ok(d) => Some(d.as_secs()),
        Err(_) => None,
    }
}

/// The absolute expiry of a token granted at `now` for `expires_in` seconds:
/// `now + expires_in - EXPIRY_MARGIN`, kept within `u64`.
pub open spec fn grant_expiry(now: u64, expires_in: u64) -> u64 {
    let e = now as int + expires_in as int - EXPIRY_MARGIN as int;
    if e < 0 {
        0
    } else if e > u64::MAX as int {
        u64::MAX
    } else {
        e as u64
    }
}

/// The state of an access token.
pub struct TokenState {
    pub token: Seq<char>,
    pub expiry: u64,
    pub endpoint: Seq<char>,
}

/// A bearer token of a provider with its expiry, in seconds since the epoch.
pub struct AccessToken {
    pub token: String,
    expiry: u64,
    auth_endpoint: String,
}

impl View for AccessToken {
    type V = TokenState;

    closed spec fn view(&self) -> TokenState {
        TokenState { token: self.token@, expiry: self.expiry, endpoint: self.auth_endpoint@ }
    }
}

/// Whether a token of the given state may be used at `now`.
pub open spec fn token_valid(s: TokenState, now: u64) -> bool {
    now < s.expiry
}

impl AccessToken {
    /// The token a grant made at `now` yields.
    pub fn from_grant(token: String, expires_in: u64, now: u64, auth_endpoint: &str) -> (r:
        AccessToken)
        ensures
            r@ == (TokenState {
                token: token@,
                expiry: grant_expiry(now, expires_in),
                endpoint: auth_endpoint@,
            }),
    {
        let total: u128 = now as u128 + expires_in as u128;
        let expiry: u64 = if total < EXPIRY_MARGIN as u128 {
            0
        } else if total - (EXPIRY_MARGIN as u128) > u64::MAX as u128 {
            u64::MAX
        } else {
            (total - EXPIRY_MARGIN as u128) as u64
        };
        AccessToken { token, expiry, auth_endpoint: String::from_str(auth_endpoint) }
    }

    /// The endpoint the token is requested from.
    pub fn auth_endpoint(&self) -> (r: String)
        ensures
            r@ == self@.endpoint,
    {
        self.auth_endpoint.clone()
    }

    /// The bearer token.
    pub fn bearer(&self) -> (r: String)
        ensures
            r@ == self@.token,
    {
        self.token.clone()
    }

    /// Whether the token has expired at `now`.
    pub fn is_expired_at(&self, now: u64) -> (r: bool)
        ensures
            r == !token_valid(self@, now),
    {
        !(now < self.expiry)
    }

    /// Whether the token has expired by the system clock. A clock set before
    /// the epoch counts as expired.
    pub fn is_expired(&self) -> (r: bool)
        ensures
            self@.expiry == 0 ==> r,
    {
        match epoch_seconds() {
            Some(now) => self.is_expired_at(now),
            None => true,
        }
    }

    /// Replaces token and expiry by those of a refreshed token; the endpoint
    /// stays.
    pub fn refresh(&mut self, refreshed: AccessToken)
        ensures
            final(self)@ == (TokenState {
                token: refreshed@.token,
                expiry: refreshed@.expiry,
                endpoint: old(self)@.endpoint,
            }),
    {
        self.token = refreshed.token;
        self.expiry = refreshed.expiry;
    }
}

/// What happened to a task that needs the token.
pub enum TokenEvent {
    /// The task holds the shared lock at time `now`.
    ReadLocked { now: u64 },
    /// The task holds the exclusive lock at time `now`.
    WriteLocked { now: u64 },
    /// The refresh returned a token valid for `expires_in` seconds from
    /// `now`.
    Refreshed { token: String, expires_in: u64, now: u64 },
    /// The refresh failed.
    RefreshFailed,
}

/// What the task holding the lock does next.
pub enum TokenAction {
    /// Use this bearer token and release the lock.
    Use(String),
    /// Release the shared lock and wait for the exclusive one.
    AcquireWrite,
    /// Keep the exclusive lock and request a new token.
    Refresh,
    /// Release the lock and fail with an authorization error.
    Fail,
}

pub enum EventModel {
    ReadLocked { now: u64 },
    WriteLocked { now: u64 },
    Refreshed { token: Seq<char>, expires_in: u64, now: u64 },
    RefreshFailed,
}

pub enum ActionModel {
    Use(Seq<char>),
    AcquireWrite,
    Refresh,
    Fail,
}

impl View for TokenEvent {
    type V = EventModel;

    open spec fn view(&self) -> EventModel {
        match self {
            TokenEvent::ReadLocked { now } => EventModel::ReadLocked { now: *now },
            TokenEvent::WriteLocked { now } => EventModel::WriteLocked { now: *now },
            TokenEvent::Refreshed { token, expires_in, now } => EventModel::Refreshed {
                token: token@,
                expires_in: *expires_in,
                now: *now,
            },
            TokenEvent::RefreshFailed => EventModel::RefreshFailed,
        }
    }
}

impl View for TokenAction {
    type V = ActionModel;

    open spec fn view(&self) -> ActionModel {
        match self {
            TokenAction::Use(t) => ActionModel::Use(t@),
            TokenAction::AcquireWrite => ActionModel::AcquireWrite,
            TokenAction::Refresh => ActionModel::Refresh,
            TokenAction::Fail => ActionModel::Fail,
        }
    }
}

/// The cache's next state and the action for one event. Readers use a valid
/// token and otherwise queue for the exclusive lock; a writer checks again
/// and refreshes only a token that is still invalid; a failed refresh keeps
/// the prior token.
pub open spec fn token_step(s: TokenState, e: EventModel) -> (TokenState, ActionModel) {
    match e {
        EventModel::ReadLocked { now } => if token_valid(s, now) {
            (s, ActionModel::Use(s.token))
        } else {
            (s, ActionModel::AcquireWrite)
        },
        EventModel::WriteLocked { now } => if token_valid(s, now) {
            (s, ActionModel::Use(s.token))
        } else {
            (s, ActionModel::Refresh)
        },
        EventModel::Refreshed { token, expires_in, now } => {
            let n = TokenState { token, expiry: grant_expiry(now, expires_in), endpoint: s.endpoint };
            (n, ActionModel::Use(token))
        },
        EventModel::RefreshFailed => (s, ActionModel::Fail),
    }
}

impl AccessToken {
    /// Advances the cache by one event and says what the task does next.
    pub fn step(&mut self, event: TokenEvent) -> (r: TokenAction)
        ensures
            (final(self)@, r@) == token_step(old(self)@, event@),
    {
        match event {
            TokenEvent::ReadLocked { now } => if self.is_expired_at(now) {
                TokenAction::AcquireWrite
            } else {
                TokenAction::Use(self.bearer())
            },
            TokenEvent::WriteLocked { now } => if self.is_expired_at(now) {
                TokenAction::Refresh
            } else {
                TokenAction::Use(self.bearer())
            },
            TokenEvent::Refreshed { token, expires_in, now } => {
                let endpoint = self.auth_endpoint();
                let t = token.clone();
                let refreshed = AccessToken::from_grant(token, expires_in, now, endpoint.as_str());
                self.refresh(refreshed);
                TokenAction::Use(t)
            },
            TokenEvent::RefreshFailed => TokenAction::Fail,
        }
    }
}

/// The actions for a run of events from state `s`.
pub open spec fn token_run(s: TokenState, events: Seq<EventModel>) -> Seq<ActionModel>
    decreases events.len(),
{
    if events.len() == 0 {
        Seq::empty()
    } else {
        let (n, a) = token_step(s, events[0]);
        seq![a] + token_run(n, events.drop_first())
    }
}

/// How many of `actions` are refreshes.
pub open spec fn refresh_count(actions: Seq<ActionModel>) -> nat
    decreases actions.len(),
{
    if actions.len() == 0 {
        0
    } else {
        refresh_count(actions.drop_first()) + if actions[0] is Refresh {
            1nat
        } else {
            0nat
        }
    }
}

/// Once a refresh has stored a token that outlives `later`, a writer that
/// checks again at `later` uses it instead of refreshing.
pub proof fn lemma_refreshed_token_is_reused(
    s: TokenState,
    token: Seq<char>,
    expires_in: u64,
    now: u64,
    later: u64,
)
    requires
        later < grant_expiry(now, expires_in),
    ensures
        ({
            let (n, _) = token_step(s, EventModel::Refreshed { token, expires_in, now });
            token_step(n, EventModel::WriteLocked { now: later }) == (n, ActionModel::Use(token))
        }),
{
}

/// Two tasks that read an expired token at the same time cause exactly one
/// refresh: both queue for the exclusive lock, the first refreshes, and the
/// second finds the new token valid.
pub proof fn lemma_racing_readers_refresh_once(
    s: TokenState,
    now: u64,
    token: Seq<char>,
    expires_in: u64,
)
    requires
        !token_valid(s, now),
        now < grant_expiry(now, expires_in),
    ensures
        ({
            let events = seq![
                EventModel::ReadLocked { now },
                EventModel::ReadLocked { now },
                EventModel::WriteLocked { now },
                EventModel::Refreshed { token, expires_in, now },
                EventModel::WriteLocked { now },
            ];
            let actions = token_run(s, events);
            &&& actions == seq![
                ActionModel::AcquireWrite,
                ActionModel::AcquireWrite,
                ActionModel::Refresh,
                ActionModel::Use(token),
                ActionModel::Use(token),
            ]
            &&& refresh_count(actions) == 1
        }),
{
    let events = seq![
        EventModel::ReadLocked { now },
        EventModel::ReadLocked { now },
        EventModel::WriteLocked { now },
        EventModel::Refreshed { token, expires_in, now },
        EventModel::WriteLocked { now },
    ];
    let n = TokenState { token, expiry: grant_expiry(now, expires_in), endpoint: s.endpoint };
    let e4 = events.drop_first().drop_first().drop_first().drop_first();
    assert(e4 =~= seq![EventModel::WriteLocked { now }]);
    assert(token_run(n, e4.drop_first()) == Seq::<ActionModel>::empty());
    assert(token_run(n, e4) =~= seq![ActionModel::Use(token)]);
    let e3 = events.drop_first().drop_first().drop_first();
    assert(e3.drop_first() =~= e4);
    assert(token_run(s, e3) =~= seq![ActionModel::Use(token), ActionModel::Use(token)]);
    let e2 = events.drop_first().drop_first();
    assert(e2.drop_first() =~= e3);
    assert(e2[0] == EventModel::WriteLocked { now });
    assert(token_run(s, e2) =~= seq![ActionModel::Refresh] + token_run(s, e3));
    let e1 = events.drop_first();
    assert(e1.drop_first() =~= e2);
    assert(e1[0] == EventModel::ReadLocked { now });
    assert(token_run(s, e1) =~= seq![ActionModel::AcquireWrite] + token_run(s, e2));
    assert(token_run(s, events) =~= seq![ActionModel::AcquireWrite] + token_run(s, e1));
    let actions = token_run(s, events);
    assert(actions =~= seq![
        ActionModel::AcquireWrite,
        ActionModel::AcquireWrite,
        ActionModel::Refresh,
        ActionModel::Use(token),
        ActionModel::Use(token),
    ]);
    let a1 = actions.drop_first();
    let a2 = a1.drop_first();
    let a3 = a2.drop_first();
    let a4 = a3.drop_first();
    let a5 = a4.drop_first();
    assert(a5.len() == 0);
    assert(refresh_count(a5) == 0);
    assert(a4[0] is Use);
    assert(refresh_count(a4) == 0);
    assert(a3[0] is Use);
    assert(refresh_count(a3) == 0);
    assert(a2[0] is Refresh);
    assert(refresh_count(a2) == 1);
    assert(refresh_count(a1) == 1);
}

} // verus!
