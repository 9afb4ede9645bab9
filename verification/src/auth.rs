//! Who is let in: shared secrets, the pre-auth cache and basic authentication.

use vstd::prelude::*;
use vstd::string::*;
use vstd::utf8::*;
use crate::protocol::{Frame, FrameView, Message, MessageView};
use crate::text::{lemma_encoding_injective, strip_text, stripped, text_from_utf8,
    trim_text, trimmed};
use crate::text_map::TextMap;

verus! {

/// A pre-authorization holds for this many seconds. The client must connect
/// within this window after the manager's notification.
pub const PRE_AUTH_TTL_SECS: u64 = 10;

/// Nanoseconds in a second.
pub const NANOS_PER_SEC: u64 = 1_000_000_000;

/// Whole seconds from `since` to `now`, both in nanoseconds of one clock. A
/// clock that stands before `since` counts as no time at all.
pub open spec fn secs_since(since: u64, now: u64) -> u64 {
    if now >= since {
        ((now - since) / NANOS_PER_SEC as int) as u64
    } else {
        0
    }
}

/// Whole seconds that have passed.
pub fn elapsed_secs(since: u64, now: u64) -> (r: u64)
    ensures
        r == secs_since(since, now),
{
    if now >= since {
        (now - since) / NANOS_PER_SEC
    } else {
        0
    }
}

/// Whether two byte strings are the same, in a time that depends on their
/// lengths alone.
pub fn constant_time_eq(expected: &[u8], provided: &[u8]) -> (r: bool)
    ensures
        r == (expected@ == provided@),
{
    if expected.len() != provided.len() {
        return false;
    }
    let mut acc: u8 = 0;
    let mut i: usize = 0;
    assert(expected@.take(0) =~= provided@.take(0));
    while i < expected.len()
        invariant
            expected@.len() == provided@.len(),
            i <= expected@.len(),
            acc == 0 <==> expected@.take(i as int) == provided@.take(i as int),
        decreases expected@.len() - i,
    {
        let a: u8 = expected[i];
        let b: u8 = provided[i];
        let before: u8 = acc;
        acc = acc | (a ^ b);
        proof {
            assert((before | (a ^ b)) == 0 <==> before == 0 && a == b) by (bit_vector);
            let x = expected@.take(i + 1);
            let y = provided@.take(i + 1);
            assert(x =~= expected@.take(i as int).push(a));
            assert(y =~= provided@.take(i as int).push(b));
            if x == y {
                assert(x.drop_last() =~= expected@.take(i as int));
                assert(y.drop_last() =~= provided@.take(i as int));
                assert(x.last() == a && y.last() == b);
            }
        }
        i += 1;
    }
    assert(expected@.take(i as int) =~= expected@);
    assert(provided@.take(i as int) =~= provided@);
    acc == 0
}

/// Whether a presented secret is the expected one.
pub fn secret_matches(expected: &str, provided: &str) -> (r: bool)
    ensures
        r == (expected@ == provided@),
{
    proof {
        if expected@ != provided@ {
            lemma_encoding_injective(expected@, provided@);
        }
    }
    constant_time_eq(expected.as_bytes(), provided.as_bytes())
}

/// Whether a configured secret is set: it holds more than white space.
pub fn secret_is_set(secret: &str) -> (r: bool)
    ensures
        r == (trimmed(secret@).len() > 0),
{
    !trim_text(secret).is_empty()
}

/// A request that carries `presented` holds the shared secret `expected`. An
/// empty secret lets nobody in.
pub open spec fn holds_secret(expected: Seq<char>, presented: Option<Seq<char>>) -> bool {
    expected.len() > 0 && presented == Some(expected)
}

/// Whether a management request with this `X-Mgmt-Secret` header is let in.
pub fn mgmt_request_allowed(mgmt_secret: &str, header: Option<&str>) -> (r: bool)
    ensures
        r == holds_secret(
            mgmt_secret@,
            match header {
                Some(h) => Some(h@),
                None => None,
            },
        ),
{
    let provided = match header {
        Some(h) => h,
        None => "",
    };
    proof {
        reveal_strlit("");
    }
    !mgmt_secret.is_empty() && secret_matches(mgmt_secret, provided)
}

/// What the standard base64 decoder gives for a text, where it gives anything.
pub uninterp spec fn base64_decoded(encoded: Seq<char>) -> Option<Seq<u8>>;

/// Calls `base64::engine::general_purpose::STANDARD.decode`, which depends on
/// its input alone. What it gives for which text is left to the crate.
#[verifier::external_body]
fn decode_base64(encoded: &str) -> (r: Option<Vec<u8>>)
    ensures
        match r {
            Some(b) => base64_decoded(encoded@) == Some(b@),
            None => base64_decoded(encoded@) is None,
        },
{
    base64::Engine::decode(&base64::engine::general_purpose::STANDARD, encoded).ok()
}

/// Whether decoded credentials are the expected ones.
pub fn credentials_accepted(expected: &str, decoded: Option<Vec<u8>>) -> (r: bool)
    ensures
        r == (decoded is Some && decoded->Some_0@ == encode_utf8(expected@)),
{
    match decoded {
        Some(bytes) => {
            let ghost raw = bytes@;
            proof {
                encode_utf8_valid_utf8(expected@);
                encode_utf8_decode_utf8(expected@);
            }
            match text_from_utf8(bytes) {
                Some(creds) => {
                    proof {
                        decode_utf8_encode_utf8(raw);
                    }
                    secret_matches(expected, creds.as_str())
                },
                None => false,
            }
        },
        None => false,
    }
}

/// A request with this `Authorization` header holds the credentials: it is
/// `Basic `, then text that decodes to exactly their bytes.
pub open spec fn holds_credentials(expected: Seq<char>, header: Option<Seq<char>>) -> bool {
    match header {
        Some(h) => match stripped(h, "Basic "@) {
            Some(encoded) => base64_decoded(encoded) == Some(encode_utf8(expected)),
            None => false,
        },
        None => false,
    }
}

/// Whether a request is let in: always where no credentials are configured.
pub fn basic_auth_allowed(credentials: Option<&str>, header: Option<&str>) -> (r: bool)
    ensures
        r == (credentials is Some ==> holds_credentials(
            credentials->Some_0@,
            match header {
                Some(h) => Some(h@),
                None => None,
            },
        )),
{
    match credentials {
        None => true,
        Some(expected) => match header {
            None => false,
            Some(h) => match strip_text(h, "Basic ") {
                None => false,
                Some(encoded) => credentials_accepted(expected, decode_base64(encoded)),
            },
        },
    }
}

/// The clients that the manager has announced, by UUID, with the time of the
/// announcement.
#[derive(Debug, Clone)]
pub struct PreAuthCache {
    entries: TextMap<u64>,
}

impl View for PreAuthCache {
    type V = Map<Seq<char>, u64>;

    closed spec fn view(&self) -> Map<Seq<char>, u64> {
        self.entries@
    }
}

/// An announcement at `granted_at` still counts at `now`.
pub open spec fn still_granted(granted_at: u64, now: u64) -> bool {
    secs_since(granted_at, now) < PRE_AUTH_TTL_SECS
}

impl PreAuthCache {
    /// Each UUID is announced once.
    pub closed spec fn wf(&self) -> bool {
        self.entries.wf()
    }

    /// Nobody is announced.
    pub fn new() -> (r: Self)
        ensures
            r.wf(),
            r@ == Map::<Seq<char>, u64>::empty(),
    {
        PreAuthCache { entries: TextMap::new() }
    }

    /// The manager announces a client.
    pub fn grant(&mut self, client_uuid: &str, now: u64)
        requires
            old(self).wf(),
        ensures
            final(self).wf(),
            final(self)@ == old(self)@.insert(client_uuid@, now),
    {
        self.entries.insert(client_uuid, now);
    }

    /// When a client was announced.
    pub fn granted_at(&self, client_uuid: &str) -> (r: Option<u64>)
        requires
            self.wf(),
        ensures
            match r {
                Some(t) => self@.contains_key(client_uuid@) && t == self@[client_uuid@],
                None => !self@.contains_key(client_uuid@),
            },
    {
        match self.entries.get(client_uuid) {
            Some(t) => Some(*t),
            None => None,
        }
    }

    /// Uses up an announcement.
    pub fn consume(&mut self, client_uuid: &str)
        requires
            old(self).wf(),
        ensures
            final(self).wf(),
            final(self)@ == old(self)@.remove(client_uuid@),
    {
        self.entries.remove(client_uuid);
    }

    /// Drops the announcements that have expired, and says how many went.
    pub fn cleanup(&mut self, now: u64) -> (removed: usize)
        requires
            old(self).wf(),
        ensures
            final(self).wf(),
            final(self)@ == kept_entries(old(self)@, now),
            old(self)@.dom().finite(),
            final(self)@.dom().finite(),
            removed == old(self)@.dom().len() - final(self)@.dom().len(),
    {
        let ghost before = *self;
        let total: usize = self.entries.len();
        let mut removed: usize = 0;
        let mut i: usize = 0;
        proof {
            self.entries.lemma_keys();
            lemma_dom_len(self.entries);
        }
        while i < self.entries.len()
            invariant
                before.wf(),
                self.wf(),
                i <= self.entries.keys().len(),
                removed + self.entries.keys().len() == total,
                total == before.entries.keys().len(),
                self@.submap_of(before@),
                forall|k: Seq<char>|
                    #![trigger self@.contains_key(k)]
                    before@.contains_key(k) && secs_since(before@[k], now) < PRE_AUTH_TTL_SECS
                        ==> self@.contains_key(k),
                forall|j: int|
                    0 <= j < i ==> secs_since(self@[#[trigger] self.entries.keys()[j]], now)
                        < PRE_AUTH_TTL_SECS,
            decreases self.entries.keys().len() - i,
        {
            proof {
                self.entries.lemma_keys();
                assert(self.entries.keys().contains(self.entries.keys()[i as int]));
                assert(self@.contains_key(self.entries.keys()[i as int]));
            }
            let granted: u64 = *self.entries.value_at(i);
            if elapsed_secs(granted, now) < PRE_AUTH_TTL_SECS {
                i += 1;
            } else {
                let ghost at = *self;
                self.entries.remove_at(i);
                removed += 1;
                proof {
                    self.entries.lemma_keys();
                    assert forall|j: int| 0 <= j < i implies secs_since(
                        self@[#[trigger] self.entries.keys()[j]],
                        now,
                    ) < PRE_AUTH_TTL_SECS by {
                        assert(self.entries.keys()[j] == at.entries.keys()[j]);
                        assert(self.entries.keys().contains(self.entries.keys()[j]));
                        assert(self@.contains_key(self.entries.keys()[j]));
                    }
                }
            }
        }
        proof {
            self.entries.lemma_keys();
            lemma_dom_len(self.entries);
            assert forall|k: Seq<char>| self@.contains_key(k) implies secs_since(before@[k], now)
                < PRE_AUTH_TTL_SECS by {
                assert(self.entries@.contains_key(k));
                let j = self.entries.keys().index_of(k);
                assert(self.entries.keys()[j] == k);
                assert(before@.contains_key(k) && before@[k] == self@[k]);
            }
            assert(self@ =~= kept_entries(before@, now));
        }
        removed
    }
}

proof fn lemma_dom_len(m: TextMap<u64>)
    requires
        m.wf(),
    ensures
        m@.dom().finite(),
        m@.dom().len() == m.keys().len(),
{
    m.lemma_keys();
    m.keys().unique_seq_to_set();
    assert(m@.dom() =~= m.keys().to_set());
}

/// What a cleanup leaves of a cache: the announcements that still count.
pub open spec fn kept_entries(m: Map<Seq<char>, u64>, now: u64) -> Map<Seq<char>, u64> {
    m.restrict(
        Set::new(|k: Seq<char>| m.contains_key(k) && still_granted(m[k], now)),
    )
}

/// What a server gets first from a new connection.
#[derive(Debug, Clone)]
pub enum FirstFrame {
    Frame(Frame),
    /// The bytes that came are no frame.
    Unreadable,
    /// Nothing came in time.
    TimedOut,
}

/// How a server answers a new connection.
#[derive(Debug, Clone, Copy, PartialEq, Eq, Structural)]
pub enum AuthVerdict {
    Accepted,
    InvalidSecret,
    PreAuthExpired,
    NotPreAuthorized,
    NotAuthFrame,
    Unreadable,
    TimedOut,
}

/// The verdict on a client UUID.
pub open spec fn uuid_verdict(
    cache: Map<Seq<char>, u64>,
    client_uuid: Option<Seq<char>>,
    now: u64,
) -> AuthVerdict {
    match client_uuid {
        None => AuthVerdict::Accepted,
        Some(u) => if !cache.contains_key(u) {
            AuthVerdict::NotPreAuthorized
        } else if still_granted(cache[u], now) {
            AuthVerdict::Accepted
        } else {
            AuthVerdict::PreAuthExpired
        },
    }
}

/// The verdict on a connection by what it sent first.
pub open spec fn auth_verdict(
    server_secret: Seq<char>,
    cache: Map<Seq<char>, u64>,
    first: FirstFrame,
    now: u64,
) -> AuthVerdict {
    match first {
        FirstFrame::TimedOut => AuthVerdict::TimedOut,
        FirstFrame::Unreadable => AuthVerdict::Unreadable,
        FirstFrame::Frame(f) => match f@ {
            FrameView::Control(MessageView::Auth { secret, client_uuid }) => if secret
                != server_secret {
                AuthVerdict::InvalidSecret
            } else {
                uuid_verdict(cache, client_uuid, now)
            },
            _ => AuthVerdict::NotAuthFrame,
        },
    }
}

/// What is left of the cache after a connection: the announcement of a client
/// that knows the secret is used up, whether or not it still counted.
pub open spec fn cache_after_auth(
    server_secret: Seq<char>,
    cache: Map<Seq<char>, u64>,
    first: FirstFrame,
) -> Map<Seq<char>, u64> {
    match first {
        FirstFrame::Frame(f) => match f@ {
            FrameView::Control(MessageView::Auth { secret, client_uuid: Some(u) }) => if secret
                == server_secret {
                cache.remove(u)
            } else {
                cache
            },
            _ => cache,
        },
        _ => cache,
    }
}

/// Decides on a new connection, and uses up its announcement.
pub fn authenticate(
    server_secret: &str,
    cache: &mut PreAuthCache,
    first: &FirstFrame,
    now: u64,
) -> (r: AuthVerdict)
    requires
        old(cache).wf(),
    ensures
        final(cache).wf(),
        r == auth_verdict(server_secret@, old(cache)@, *first, now),
        final(cache)@ == cache_after_auth(server_secret@, old(cache)@, *first),
{
    let frame = match first {
        FirstFrame::TimedOut => {
            return AuthVerdict::TimedOut;
        },
        FirstFrame::Unreadable => {
            return AuthVerdict::Unreadable;
        },
        FirstFrame::Frame(f) => f,
    };
    match frame {
        Frame::Control(Message::Auth { secret, client_uuid }) => {
            if !secret_matches(server_secret, secret.as_str()) {
                return AuthVerdict::InvalidSecret;
            }
            match client_uuid {
                None => AuthVerdict::Accepted,
                Some(uuid) => {
                    let found = cache.granted_at(uuid.as_str());
                    match found {
                        Some(granted) => {
                            cache.consume(uuid.as_str());
                            if elapsed_secs(granted, now) < PRE_AUTH_TTL_SECS {
                                AuthVerdict::Accepted
                            } else {
                                AuthVerdict::PreAuthExpired
                            }
                        },
                        None => {
                            assert(cache@.remove(uuid@) =~= cache@);
                            AuthVerdict::NotPreAuthorized
                        },
                    }
                },
            }
        },
        _ => AuthVerdict::NotAuthFrame,
    }
}

/// The answer that goes back to the client.
pub open spec fn auth_reply(v: AuthVerdict) -> Option<MessageView> {
    match v {
        AuthVerdict::Accepted => Some(MessageView::AuthOk),
        AuthVerdict::InvalidSecret => Some(
            MessageView::AuthFailed { reason: "invalid secret"@ },
        ),
        AuthVerdict::PreAuthExpired => Some(
            MessageView::AuthFailed { reason: "pre-auth expired"@ },
        ),
        AuthVerdict::NotPreAuthorized => Some(
            MessageView::AuthFailed { reason: "not pre-authorized by manager"@ },
        ),
        AuthVerdict::NotAuthFrame => Some(
            MessageView::AuthFailed { reason: "expected auth frame"@ },
        ),
        AuthVerdict::Unreadable => Some(
            MessageView::AuthFailed { reason: "malformed auth frame"@ },
        ),
        AuthVerdict::TimedOut => None,
    }
}

/// The error with which the session ends. An unreadable frame ends it with the
/// reader's own error.
pub open spec fn auth_error(v: AuthVerdict) -> Option<Seq<char>> {
    match v {
        AuthVerdict::Accepted => None,
        AuthVerdict::InvalidSecret => Some("authentication failed"@),
        AuthVerdict::PreAuthExpired => Some("pre-auth expired"@),
        AuthVerdict::NotPreAuthorized => Some("not pre-authorized"@),
        AuthVerdict::NotAuthFrame => Some("expected Auth frame"@),
        AuthVerdict::Unreadable => None,
        AuthVerdict::TimedOut => Some("authentication timeout"@),
    }
}

impl AuthVerdict {
    /// The answer that goes back to the client, where there is one.
    pub fn reply(&self) -> (r: Option<Message>)
        ensures
            match r {
                Some(m) => auth_reply(*self) == Some(m@),
                None => auth_reply(*self) is None,
            },
    {
        let reason = match self {
            AuthVerdict::Accepted => {
                return Some(Message::AuthOk);
            },
            AuthVerdict::InvalidSecret => "invalid secret",
            AuthVerdict::PreAuthExpired => "pre-auth expired",
            AuthVerdict::NotPreAuthorized => "not pre-authorized by manager",
            AuthVerdict::NotAuthFrame => "expected auth frame",
            AuthVerdict::Unreadable => "malformed auth frame",
            AuthVerdict::TimedOut => {
                return None;
            },
        };
        Some(Message::AuthFailed { reason: reason.to_string() })
    }

    /// The error with which the session ends, where the verdict names one.
    pub fn error(&self) -> (r: Option<&'static str>)
        ensures
            match r {
                Some(e) => auth_error(*self) == Some(e@),
                None => auth_error(*self) is None,
            },
    {
        match self {
            AuthVerdict::Accepted => None,
            AuthVerdict::InvalidSecret => Some("authentication failed"),
            AuthVerdict::PreAuthExpired => Some("pre-auth expired"),
            AuthVerdict::NotPreAuthorized => Some("not pre-authorized"),
            AuthVerdict::NotAuthFrame => Some("expected Auth frame"),
            AuthVerdict::Unreadable => None,
            AuthVerdict::TimedOut => Some("authentication timeout"),
        }
    }
}

/// How a client takes the answer to its `Auth`.
#[derive(Debug, Clone, PartialEq, Eq)]
pub enum AuthAnswer {
    Accepted,
    /// Refused, for this reason.
    Refused(String),
    /// Something else came.
    Unexpected,
}

/// What an answer means, by what came.
pub open spec fn auth_answer(f: FrameView) -> (bool, Option<Seq<char>>) {
    match f {
        FrameView::Control(MessageView::AuthOk) => (true, None),
        FrameView::Control(MessageView::AuthFailed { reason }) => (false, Some(reason)),
        _ => (false, None),
    }
}

/// Reads the server's answer to an `Auth`.
pub fn read_auth_answer(frame: &Frame) -> (r: AuthAnswer)
    ensures
        match r {
            AuthAnswer::Accepted => auth_answer(frame@) == (true, None::<Seq<char>>),
            AuthAnswer::Refused(reason) => auth_answer(frame@) == (false, Some(reason@)),
            AuthAnswer::Unexpected => auth_answer(frame@) == (false, None::<Seq<char>>),
        },
{
    match frame {
        Frame::Control(Message::AuthOk) => AuthAnswer::Accepted,
        Frame::Control(Message::AuthFailed { reason }) => AuthAnswer::Refused(reason.clone()),
        _ => AuthAnswer::Unexpected,
    }
}

/// An announcement lets one connection in: after the client has presented itself,
/// it is refused at any later time until the manager announces it again.
pub proof fn law_pre_auth_is_one_time(
    server_secret: Seq<char>,
    cache: Map<Seq<char>, u64>,
    first: FirstFrame,
    uuid: Seq<char>,
    later: u64,
)
    requires
        first matches FirstFrame::Frame(f) && f@ == FrameView::Control(
            MessageView::Auth { secret: server_secret, client_uuid: Some(uuid) },
        ),
    ensures
        auth_verdict(
            server_secret,
            cache_after_auth(server_secret, cache, first),
            first,
            later,
        ) == AuthVerdict::NotPreAuthorized,
{
}

/// A client that the manager announced, and that knows the secret, is accepted
/// within the window and refused after it.
pub proof fn law_pre_auth_window(
    server_secret: Seq<char>,
    cache: Map<Seq<char>, u64>,
    first: FirstFrame,
    uuid: Seq<char>,
    granted: u64,
    now: u64,
)
    requires
        first matches FirstFrame::Frame(f) && f@ == FrameView::Control(
            MessageView::Auth { secret: server_secret, client_uuid: Some(uuid) },
        ),
    ensures
        auth_verdict(server_secret, cache.insert(uuid, granted), first, now) == (if now < granted
            + PRE_AUTH_TTL_SECS * NANOS_PER_SEC {
            AuthVerdict::Accepted
        } else {
            AuthVerdict::PreAuthExpired
        }),
{
}

/// Whoever does not present the secret is not accepted, and uses nothing up.
pub proof fn law_wrong_secret_changes_nothing(
    server_secret: Seq<char>,
    cache: Map<Seq<char>, u64>,
    first: FirstFrame,
    now: u64,
)
    requires
        !(first matches FirstFrame::Frame(f) && f@ matches FrameView::Control(
            MessageView::Auth { secret, .. },
        ) && secret == server_secret),
    ensures
        auth_verdict(server_secret, cache, first, now) != AuthVerdict::Accepted,
        cache_after_auth(server_secret, cache, first) == cache,
{
}

/// A cleanup is never noticed by a client that would have been accepted: it
/// keeps every announcement that still counts.
pub proof fn law_cleanup_keeps_acceptance(
    server_secret: Seq<char>,
    cache: Map<Seq<char>, u64>,
    first: FirstFrame,
    cleaned_at: u64,
    now: u64,
)
    requires
        cleaned_at <= now,
    ensures
        auth_verdict(server_secret, kept_entries(cache, cleaned_at), first, now)
            == AuthVerdict::Accepted <==> auth_verdict(server_secret, cache, first, now)
            == AuthVerdict::Accepted,
{
    if let FirstFrame::Frame(f) = first {
        if let FrameView::Control(MessageView::Auth { secret, client_uuid: Some(u) }) = f@ {
            if cache.contains_key(u) && still_granted(cache[u], now) {
                assert(secs_since(cache[u], cleaned_at) < PRE_AUTH_TTL_SECS);
            }
        }
    }
}

/// A client refused by a server hears the reason; an accepted one hears that.
pub proof fn law_reply_tells_verdict(v: AuthVerdict)
    ensures
        v != AuthVerdict::TimedOut ==> auth_reply(v) is Some,
        auth_reply(v) == Some(MessageView::AuthOk) <==> v == AuthVerdict::Accepted,
        v != AuthVerdict::TimedOut && v != AuthVerdict::Accepted ==> auth_answer(
            FrameView::Control(auth_reply(v)->Some_0),
        ).1 is Some,
{
}

} // verus!
