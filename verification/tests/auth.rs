use game_tunnel::auth::{
    authenticate, basic_auth_allowed, constant_time_eq, credentials_accepted, elapsed_secs,
    mgmt_request_allowed, read_auth_answer, secret_is_set, secret_matches, AuthAnswer,
    AuthVerdict, FirstFrame, PreAuthCache, NANOS_PER_SEC,
};
use game_tunnel::protocol::{Frame, Message};

const SEC: u64 = NANOS_PER_SEC;

fn auth(secret: &str, uuid: Option<&str>) -> FirstFrame {
    FirstFrame::Frame(Frame::Control(Message::Auth {
        secret: secret.to_string(),
        client_uuid: uuid.map(|u| u.to_string()),
    }))
}

#[test]
fn bytes_compare_exactly() {
    assert!(constant_time_eq(b"", b""));
    assert!(constant_time_eq(b"abc", b"abc"));
    assert!(!constant_time_eq(b"abc", b"abd"));
    assert!(!constant_time_eq(b"abc", b"ab"));
    assert!(!constant_time_eq(&[0x80], &[0x00]));
    assert!(secret_matches("gr\u{fc}n", "gr\u{fc}n"));
    assert!(!secret_matches("a", "A"));
}

#[test]
fn blank_secrets_are_not_set() {
    assert!(!secret_is_set(""));
    assert!(!secret_is_set(" \t\n"));
    assert!(secret_is_set(" x "));
}

#[test]
fn management_requests_need_the_secret() {
    assert!(mgmt_request_allowed("key", Some("key")));
    assert!(!mgmt_request_allowed("key", Some("other")));
    assert!(!mgmt_request_allowed("key", Some("")));
    assert!(!mgmt_request_allowed("key", None));
    assert!(!mgmt_request_allowed("", Some("")));
    assert!(!mgmt_request_allowed("", None));
}

#[test]
fn basic_credentials_are_decoded() {
    // "admin:pass" in base64.
    let good = "Basic YWRtaW46cGFzcw==";
    assert!(basic_auth_allowed(Some("admin:pass"), Some(good)));
    assert!(!basic_auth_allowed(Some("admin:pass"), Some("Basic admin:pass")));
    assert!(!basic_auth_allowed(Some("admin:pass"), Some("basic YWRtaW46cGFzcw==")));
    assert!(!basic_auth_allowed(Some("admin:pass"), Some("Bearer YWRtaW46cGFzcw==")));
    assert!(!basic_auth_allowed(Some("admin:pass"), Some("Basic YWRtaW46cGFzcw")));
    assert!(!basic_auth_allowed(Some("admin:other"), Some(good)));
    assert!(!basic_auth_allowed(Some("admin:pass"), None));
    assert!(basic_auth_allowed(None, None));
    // Bytes that are no text.
    assert!(!basic_auth_allowed(Some("x"), Some("Basic /w==")));
}

#[test]
fn decoded_credentials_are_compared() {
    assert!(credentials_accepted("a:b", Some(b"a:b".to_vec())));
    assert!(!credentials_accepted("a:b", Some(b"a:c".to_vec())));
    assert!(!credentials_accepted("a:b", Some(vec![0xff])));
    assert!(!credentials_accepted("a:b", None));
}

#[test]
fn a_clock_that_runs_back_counts_as_no_time() {
    assert_eq!(elapsed_secs(5 * SEC, 3 * SEC), 0);
    assert_eq!(elapsed_secs(5 * SEC, 5 * SEC + SEC - 1), 0);
    assert_eq!(elapsed_secs(5 * SEC, 6 * SEC), 1);
}

#[test]
fn announced_client_is_accepted_once() {
    let mut cache = PreAuthCache::new();
    cache.grant("u1", 100 * SEC);
    let first = auth("key", Some("u1"));
    assert_eq!(authenticate("key", &mut cache, &first, 105 * SEC), AuthVerdict::Accepted);
    assert_eq!(
        authenticate("key", &mut cache, &first, 105 * SEC),
        AuthVerdict::NotPreAuthorized
    );
}

#[test]
fn announcement_ends_after_ten_seconds() {
    for (later, want) in [
        (10 * SEC - 1, AuthVerdict::Accepted),
        (10 * SEC, AuthVerdict::PreAuthExpired),
    ] {
        let mut cache = PreAuthCache::new();
        cache.grant("u1", 7 * SEC);
        let first = auth("key", Some("u1"));
        assert_eq!(authenticate("key", &mut cache, &first, 7 * SEC + later), want);
        assert_eq!(cache.granted_at("u1"), None);
    }
}

#[test]
fn wrong_secret_uses_nothing_up() {
    let mut cache = PreAuthCache::new();
    cache.grant("u1", 0);
    assert_eq!(
        authenticate("key", &mut cache, &auth("wrong", Some("u1")), 0),
        AuthVerdict::InvalidSecret
    );
    assert_eq!(cache.granted_at("u1"), Some(0));
    assert_eq!(
        authenticate("key", &mut cache, &auth("key", Some("u1")), 0),
        AuthVerdict::Accepted
    );
}

#[test]
fn client_without_uuid_needs_the_secret_alone() {
    let mut cache = PreAuthCache::new();
    assert_eq!(authenticate("key", &mut cache, &auth("key", None), 0), AuthVerdict::Accepted);
    assert_eq!(
        authenticate("key", &mut cache, &auth("", None), 0),
        AuthVerdict::InvalidSecret
    );
}

#[test]
fn anything_else_is_refused() {
    let mut cache = PreAuthCache::new();
    let ping = FirstFrame::Frame(Frame::Control(Message::Ping));
    assert_eq!(authenticate("key", &mut cache, &ping, 0), AuthVerdict::NotAuthFrame);
    let data = FirstFrame::Frame(Frame::Data { stream_id: 1, payload: vec![] });
    assert_eq!(authenticate("key", &mut cache, &data, 0), AuthVerdict::NotAuthFrame);
    assert_eq!(
        authenticate("key", &mut cache, &FirstFrame::Unreadable, 0),
        AuthVerdict::Unreadable
    );
    assert_eq!(
        authenticate("key", &mut cache, &FirstFrame::TimedOut, 0),
        AuthVerdict::TimedOut
    );
}

#[test]
fn verdicts_have_replies_and_errors() {
    let failed = |r: &str| Some(Message::AuthFailed { reason: r.to_string() });
    assert_eq!(AuthVerdict::Accepted.reply(), Some(Message::AuthOk));
    assert_eq!(AuthVerdict::InvalidSecret.reply(), failed("invalid secret"));
    assert_eq!(AuthVerdict::PreAuthExpired.reply(), failed("pre-auth expired"));
    assert_eq!(AuthVerdict::NotPreAuthorized.reply(), failed("not pre-authorized by manager"));
    assert_eq!(AuthVerdict::NotAuthFrame.reply(), failed("expected auth frame"));
    assert_eq!(AuthVerdict::Unreadable.reply(), failed("malformed auth frame"));
    assert_eq!(AuthVerdict::TimedOut.reply(), None);
    assert_eq!(AuthVerdict::Accepted.error(), None);
    assert_eq!(AuthVerdict::InvalidSecret.error(), Some("authentication failed"));
    assert_eq!(AuthVerdict::PreAuthExpired.error(), Some("pre-auth expired"));
    assert_eq!(AuthVerdict::NotPreAuthorized.error(), Some("not pre-authorized"));
    assert_eq!(AuthVerdict::NotAuthFrame.error(), Some("expected Auth frame"));
    assert_eq!(AuthVerdict::Unreadable.error(), None);
    assert_eq!(AuthVerdict::TimedOut.error(), Some("authentication timeout"));
}

#[test]
fn cleanup_keeps_what_still_counts() {
    let mut cache = PreAuthCache::new();
    cache.grant("old", 0);
    cache.grant("over", 10 * SEC);
    cache.grant("last", 10 * SEC + 1);
    cache.grant("new", 18 * SEC);
    assert_eq!(cache.cleanup(20 * SEC), 2);
    assert_eq!(cache.granted_at("old"), None);
    assert_eq!(cache.granted_at("over"), None);
    assert_eq!(cache.granted_at("last"), Some(10 * SEC + 1));
    assert_eq!(cache.granted_at("new"), Some(18 * SEC));
    assert_eq!(
        authenticate("key", &mut cache, &auth("key", Some("new")), 20 * SEC),
        AuthVerdict::Accepted
    );
    assert_eq!(cache.cleanup(21 * SEC), 1);
    assert_eq!(cache.cleanup(21 * SEC), 0);
}

#[test]
fn granting_again_starts_anew() {
    let mut cache = PreAuthCache::new();
    cache.grant("u", 0);
    cache.grant("u", 30 * SEC);
    assert_eq!(cache.granted_at("u"), Some(30 * SEC));
}

#[test]
fn clients_read_the_answer() {
    assert_eq!(read_auth_answer(&Frame::Control(Message::AuthOk)), AuthAnswer::Accepted);
    assert_eq!(
        read_auth_answer(&Frame::Control(Message::AuthFailed { reason: "no".to_string() })),
        AuthAnswer::Refused("no".to_string())
    );
    assert_eq!(read_auth_answer(&Frame::Control(Message::Pong)), AuthAnswer::Unexpected);
    assert_eq!(
        read_auth_answer(&Frame::StreamClose { stream_id: 1 }),
        AuthAnswer::Unexpected
    );
}
