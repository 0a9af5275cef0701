use commentor::decode::decode_submission;
use commentor::ident::{branch_name_for, data_file_path, make_comment_id, RANDOM_BOUND};
use rand::Rng;
use commentor::limit::{body_within_cap, RateLimiter, BODY_CAP_BYTES};
use commentor::respond::{
    cors_headers, preflight_response, response_for_error, success_response, Error,
};

#[test]
fn decode_preserves_fields_verbatim() {
    let body = br#"{"path":"/post/1","message":"hi","name":"Ann","url":"http://example.com"}"#;
    let post = decode_submission(body).expect("well-formed submission must decode");
    assert_eq!(post.path, "/post/1");
    assert_eq!(post.message, "hi");
    assert_eq!(post.name, "Ann");
    assert_eq!(post.url, "http://example.com");
}

#[test]
fn decode_rejects_malformed_syntax() {
    let err = decode_submission(b"{not json").unwrap_err();
    assert_eq!(err, Error::InvalidSubmission);
}

#[test]
fn decode_rejects_missing_field() {
    let body = br#"{"path":"/p","message":"m","name":"n"}"#;
    assert_eq!(decode_submission(body).unwrap_err(), Error::InvalidSubmission);
}

#[test]
fn decode_rejects_non_string_field() {
    let body = br#"{"path":"/p","message":5,"name":"n","url":"u"}"#;
    assert_eq!(decode_submission(body).unwrap_err(), Error::InvalidSubmission);
}

#[test]
fn decode_rejects_non_object() {
    assert_eq!(decode_submission(b"[1,2,3]").unwrap_err(), Error::InvalidSubmission);
    assert_eq!(decode_submission(b"\"hello\"").unwrap_err(), Error::InvalidSubmission);
}

fn epoch_seconds() -> u64 {
    std::time::SystemTime::now()
        .duration_since(std::time::SystemTime::UNIX_EPOCH)
        .map(|d| d.as_secs())
        .unwrap_or(0)
}

#[test]
fn comment_id_format() {
    // An identifier generated the way the server generates one: digits,
    // one underscore, one to nine digits, with the time prefix inside the
    // observed window.
    let before = epoch_seconds();
    let time = epoch_seconds();
    let rand = rand::thread_rng().gen_range(0..RANDOM_BOUND);
    let id = make_comment_id(time, rand);
    let after = epoch_seconds();
    assert!(rand < 999_999_999);
    let parts: Vec<&str> = id.split('_').collect();
    assert_eq!(parts.len(), 2);
    assert!(!parts[0].is_empty());
    assert!(parts[0].chars().all(|c| c.is_ascii_digit()));
    assert!((1..=9).contains(&parts[1].len()));
    assert!(parts[1].chars().all(|c| c.is_ascii_digit()));
    let prefix: u64 = parts[0].parse().expect("time prefix is a number");
    assert!(before <= prefix && prefix <= after);
}

#[test]
fn comment_id_concrete_value() {
    assert_eq!(make_comment_id(1234, 567), "1234_567");
    assert_eq!(make_comment_id(0, 0), "0_0");
    assert_eq!(make_comment_id(u64::MAX, 998_999_999), "18446744073709551615_998999999");
}

#[test]
fn branch_and_path_derivation() {
    assert_eq!(branch_name_for("1234_567"), "comments/1234_567");
    assert_eq!(data_file_path("/post/1"), "content/post/1comments.yaml");
}

#[test]
fn body_cap_is_100_kib() {
    assert_eq!(BODY_CAP_BYTES, 100 * 1024);
    assert!(body_within_cap(0));
    assert!(body_within_cap(BODY_CAP_BYTES));
    assert!(!body_within_cap(BODY_CAP_BYTES + 1));
}

#[test]
fn rate_limiter_admits_one_per_window() {
    let mut limiter = RateLimiter::new();
    assert!(limiter.try_admit(100));
    // A second submission inside the ten-second window is refused...
    assert!(!limiter.try_admit(105));
    assert!(!limiter.try_admit(109));
    // ...and one a full window later is admitted.
    assert!(limiter.try_admit(110));
    assert!(!limiter.try_admit(119));
}

#[test]
fn rate_limiter_refuses_backwards_clock() {
    let mut limiter = RateLimiter::new();
    assert!(limiter.try_admit(100));
    assert!(!limiter.try_admit(95));
}

#[test]
fn responses_carry_expected_statuses() {
    assert_eq!(response_for_error(Error::PayloadTooLarge).status, 400);
    assert_eq!(
        response_for_error(Error::PayloadTooLarge).body,
        "Comment size limit exceeded"
    );
    assert_eq!(response_for_error(Error::InvalidSubmission).status, 400);
    assert_eq!(response_for_error(Error::InvalidSubmission).body, "Invalid JSON");
    assert_eq!(response_for_error(Error::UpstreamUnavailable).status, 502);
    assert_eq!(response_for_error(Error::BranchCreateFailed).status, 502);
    assert_eq!(response_for_error(Error::WriteFailed).status, 502);
    assert_eq!(response_for_error(Error::PullRequestFailed).status, 502);
    assert_eq!(response_for_error(Error::RateLimited).status, 429);
    let ok = success_response();
    assert_eq!(ok.status, 201);
    assert_eq!(ok.body, "That worked, now goeth forth");
    let pre = preflight_response();
    assert_eq!(pre.status, 204);
    assert_eq!(pre.body, "");
}

#[test]
fn cors_headers_are_complete() {
    let h = cors_headers();
    assert_eq!(h.len(), 3);
    assert_eq!(h[0], ("Access-Control-Allow-Methods".to_string(), "OPTIONS, POST".to_string()));
    assert_eq!(h[1], ("Access-Control-Allow-Origin".to_string(), "*".to_string()));
    assert_eq!(h[2], ("Access-Control-Allow-Headers".to_string(), "content-type".to_string()));
}
