use commentor::codec::serialize_entry;
use commentor::decode::decode_submission;
use commentor::limit::{body_within_cap, RateLimiter};
use commentor::parse::parse_comments;
use commentor::pipeline::{base_branch, commit_author, Action, Phase, Pipeline};
use commentor::respond::{response_for_error, Error};

fn start_for(body: &[u8], time: u64, rand: u64) -> (Pipeline, Action) {
    let post = decode_submission(body).expect("submission decodes");
    Pipeline::start(post, time, rand)
}

const BODY_A: &[u8] =
    br#"{"path":"/post/1","message":"hi","name":"Ann","url":"http://example.com"}"#;

#[test]
fn scenario_new_file() {
    // No data file exists yet: the branch is created, the file is created
    // with one entry, the pull request is opened, and the client gets 201.
    let (mut p, a) = start_for(BODY_A, 1700000000, 42);
    match a {
        Action::GetBranchHead { branch } => assert_eq!(branch, "master"),
        _ => panic!("expected a branch-head lookup"),
    }
    assert_eq!(p.phase, Phase::ResolveBase);
    assert_eq!(p.branch, "comments/1700000000_42");
    assert_eq!(p.path, "content/post/1comments.yaml");

    let a = p.on_base_resolved(Some("abc123".to_string()));
    match a {
        Action::CreateBranch { branch, from_sha } => {
            assert_eq!(branch, "comments/1700000000_42");
            assert_eq!(from_sha, "abc123");
        },
        _ => panic!("expected a branch creation"),
    }

    let a = p.on_branch_created(true);
    match a {
        Action::GetFile { path, branch } => {
            assert_eq!(path, "content/post/1comments.yaml");
            assert_eq!(branch, "master");
        },
        _ => panic!("expected a file read"),
    }

    let a = p.on_file_fetched(None);
    match a {
        Action::CreateFile { path, content, branch, message } => {
            assert_eq!(path, "content/post/1comments.yaml");
            assert_eq!(branch, "comments/1700000000_42");
            assert_eq!(message, "Added comment from 'Ann'");
            let parsed = parse_comments(&content).expect("fresh file parses");
            assert_eq!(parsed.len(), 1);
            assert_eq!(parsed[0].id, "1700000000_42");
            assert_eq!(parsed[0].message, "hi");
            assert_eq!(parsed[0].name, "Ann");
            assert_eq!(parsed[0].url, "http://example.com");
            assert_eq!(parsed[0].date, 1700000000);
        },
        _ => panic!("expected a file creation"),
    }

    let a = p.on_file_written(true);
    match a {
        Action::OpenPullRequest { title, head, base } => {
            assert_eq!(title, "New comment from Ann");
            assert_eq!(head, "comments/1700000000_42");
            assert_eq!(base, "master");
        },
        _ => panic!("expected a pull request"),
    }

    let a = p.on_pr_opened(true);
    match a {
        Action::Respond { response } => {
            assert_eq!(response.status, 201);
            assert_eq!(response.body, "That worked, now goeth forth");
        },
        _ => panic!("expected a response"),
    }
    assert_eq!(p.phase, Phase::Completed);
}

#[test]
fn scenario_existing_file() {
    // A data file with one prior entry exists: it is updated, not
    // recreated, with the entries in original-then-new order.
    let prior_comment = commentor::codec::Comment {
        id: "1600000000_7".to_string(),
        message: "older".to_string(),
        name: "Bob".to_string(),
        url: "http://b".to_string(),
        date: 1600000000,
    };
    let prior = serialize_entry(&prior_comment);

    let (mut p, _) = start_for(BODY_A, 1700000000, 42);
    let _ = p.on_base_resolved(Some("abc123".to_string()));
    let _ = p.on_branch_created(true);
    let a = p.on_file_fetched(Some((prior.clone(), "filesha1".to_string())));
    match a {
        Action::UpdateFile { path, content, branch, version, message } => {
            assert_eq!(path, "content/post/1comments.yaml");
            assert_eq!(branch, "comments/1700000000_42");
            assert_eq!(version, "filesha1");
            assert_eq!(message, "Added comment from 'Ann'");
            assert!(content.starts_with(&prior));
            let parsed = parse_comments(&content).expect("merged file parses");
            assert_eq!(parsed.len(), 2);
            assert_eq!(parsed[0].id, "1600000000_7");
            assert_eq!(parsed[0].message, "older");
            assert_eq!(parsed[1].id, "1700000000_42");
            assert_eq!(parsed[1].message, "hi");
        },
        _ => panic!("expected a file update"),
    }
    let _ = p.on_file_written(true);
    let a = p.on_pr_opened(true);
    match a {
        Action::Respond { response } => assert_eq!(response.status, 201),
        _ => panic!("expected a response"),
    }
}

#[test]
fn scenario_oversized_body() {
    // A body over the cap never reaches decoding or the pipeline.
    let oversized_len: usize = 100 * 1024 + 1;
    assert!(!body_within_cap(oversized_len));
    let r = response_for_error(Error::PayloadTooLarge);
    assert_eq!(r.status, 400);
    assert_eq!(r.body, "Comment size limit exceeded");
}

#[test]
fn scenario_upstream_outage() {
    // The base branch cannot be resolved: the request fails with the
    // upstream-unavailable response, and no further action is asked for.
    let (mut p, _) = start_for(BODY_A, 1700000000, 42);
    let a = p.on_base_resolved(None);
    match a {
        Action::Respond { response } => {
            assert_eq!(response.status, 502);
            assert_eq!(response.body, "Could not get master ref");
        },
        _ => panic!("expected a response"),
    }
    assert_eq!(p.phase, Phase::Failed(Error::UpstreamUnavailable));
}

#[test]
fn branch_create_failure_is_fatal() {
    let (mut p, _) = start_for(BODY_A, 1700000000, 42);
    let _ = p.on_base_resolved(Some("abc".to_string()));
    let a = p.on_branch_created(false);
    match a {
        Action::Respond { response } => {
            assert_eq!(response.status, 502);
            assert_eq!(response.body, "Could not create branch");
        },
        _ => panic!("expected a response"),
    }
    assert_eq!(p.phase, Phase::Failed(Error::BranchCreateFailed));
}

#[test]
fn write_failure_is_fatal() {
    let (mut p, _) = start_for(BODY_A, 1700000000, 42);
    let _ = p.on_base_resolved(Some("abc".to_string()));
    let _ = p.on_branch_created(true);
    let _ = p.on_file_fetched(None);
    let a = p.on_file_written(false);
    match a {
        Action::Respond { response } => {
            assert_eq!(response.status, 502);
            assert_eq!(response.body, "Could not write comment file");
        },
        _ => panic!("expected a response"),
    }
    assert_eq!(p.phase, Phase::Failed(Error::WriteFailed));
}

#[test]
fn pull_request_failure_is_fatal() {
    let (mut p, _) = start_for(BODY_A, 1700000000, 42);
    let _ = p.on_base_resolved(Some("abc".to_string()));
    let _ = p.on_branch_created(true);
    let _ = p.on_file_fetched(None);
    let _ = p.on_file_written(true);
    let a = p.on_pr_opened(false);
    match a {
        Action::Respond { response } => {
            assert_eq!(response.status, 502);
            assert_eq!(response.body, "Could not create PR");
        },
        _ => panic!("expected a response"),
    }
    assert_eq!(p.phase, Phase::Failed(Error::PullRequestFailed));
}

#[test]
fn rate_limited_submissions_skip_the_pipeline() {
    // Only one pipeline execution per window: the second submission in the
    // window is answered without any workflow action.
    let mut limiter = RateLimiter::new();
    assert!(limiter.try_admit(1700000000));
    // First submission runs the pipeline.
    let (mut p, _) = start_for(BODY_A, 1700000000, 1);
    let _ = p.on_base_resolved(Some("abc".to_string()));
    // Second submission, three seconds later, is refused before the
    // pipeline starts.
    assert!(!limiter.try_admit(1700000003));
    let r = response_for_error(Error::RateLimited);
    assert_eq!(r.status, 429);
}

#[test]
fn commit_author_and_base_branch() {
    let (name, email) = commit_author();
    assert_eq!(name, "Comment0r");
    assert_eq!(email, "none@example.com");
    assert_eq!(base_branch(), "master");
}
