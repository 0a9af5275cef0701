use commentor::codec::{merge_entry, serialize_entry, Comment};
use commentor::parse::parse_comments;

fn sample_comment() -> Comment {
    Comment {
        id: "1700000000_42".to_string(),
        message: "hi".to_string(),
        name: "Ann".to_string(),
        url: "http://example.com".to_string(),
        date: 1700000000,
    }
}

#[test]
fn serialize_entry_exact_form() {
    let entry = serialize_entry(&sample_comment());
    assert_eq!(
        entry,
        "- id: \"1700000000_42\"\n  message: \"hi\"\n  name: \"Ann\"\n  url: \"http://example.com\"\n  date: 1700000000\n"
    );
}

#[test]
fn serialize_entry_escapes_special_characters() {
    let c = Comment {
        id: "1_1".to_string(),
        message: "a \"quoted\" line\nand a \\ backslash\r".to_string(),
        name: "N".to_string(),
        url: "u".to_string(),
        date: 7,
    };
    let entry = serialize_entry(&c);
    assert_eq!(
        entry,
        "- id: \"1_1\"\n  message: \"a \\\"quoted\\\" line\\nand a \\\\ backslash\\r\"\n  name: \"N\"\n  url: \"u\"\n  date: 7\n"
    );
}

#[test]
fn single_entry_round_trip() {
    let c = sample_comment();
    let merged = merge_entry("", &c);
    let parsed = parse_comments(&merged).expect("canonical content must parse");
    assert_eq!(parsed.len(), 1);
    assert_eq!(parsed[0].id, c.id);
    assert_eq!(parsed[0].message, c.message);
    assert_eq!(parsed[0].name, c.name);
    assert_eq!(parsed[0].url, c.url);
    assert_eq!(parsed[0].date, c.date);
}

#[test]
fn round_trip_with_escapes() {
    let c = Comment {
        id: "9_9".to_string(),
        message: "line one\nline \"two\" \\ \r end".to_string(),
        name: "A\nB".to_string(),
        url: "http://e/?q=\"x\"".to_string(),
        date: u64::MAX,
    };
    let entry = serialize_entry(&c);
    let parsed = parse_comments(&entry).expect("canonical content must parse");
    assert_eq!(parsed.len(), 1);
    assert_eq!(parsed[0].message, c.message);
    assert_eq!(parsed[0].name, c.name);
    assert_eq!(parsed[0].url, c.url);
    assert_eq!(parsed[0].date, c.date);
}

#[test]
fn append_preserves_prior_entries_byte_for_byte() {
    let first = Comment {
        id: "100_1".to_string(),
        message: "first".to_string(),
        name: "Ann".to_string(),
        url: "http://a".to_string(),
        date: 100,
    };
    let second = Comment {
        id: "200_2".to_string(),
        message: "second".to_string(),
        name: "Bob".to_string(),
        url: "http://b".to_string(),
        date: 200,
    };
    let baseline = serialize_entry(&first);
    let merged = merge_entry(&baseline, &second);
    // The merged content is the baseline, unchanged, with the new entry after it.
    assert!(merged.starts_with(&baseline));
    assert_eq!(merged, format!("{}{}", baseline, serialize_entry(&second)));
    // Reparsing yields the prior entry unchanged, then the new one.
    let parsed = parse_comments(&merged).expect("canonical content must parse");
    assert_eq!(parsed.len(), 2);
    assert_eq!(parsed[0].id, "100_1");
    assert_eq!(parsed[0].message, "first");
    assert_eq!(parsed[1].id, "200_2");
    assert_eq!(parsed[1].message, "second");
}

#[test]
fn empty_content_parses_to_no_entries() {
    let parsed = parse_comments("").expect("empty content is a valid file");
    assert_eq!(parsed.len(), 0);
}

#[test]
fn malformed_content_is_rejected() {
    assert!(parse_comments("- id: \"unterminated\n  date: 1\n").is_none());
    assert!(parse_comments("not an entry at all").is_none());
    assert!(parse_comments("- id: \"a\"\n  message: \"m\"\n").is_none());
}

#[test]
fn date_over_u64_is_rejected() {
    let content =
        "- id: \"1_1\"\n  message: \"m\"\n  name: \"n\"\n  url: \"u\"\n  date: 99999999999999999999999\n";
    assert!(parse_comments(content).is_none());
}

#[test]
fn entries_are_valid_yaml() {
    // A data file written by this crate is a plain YAML sequence: an
    // independent YAML parser reads the same records back.
    let first = Comment {
        id: "100_1".to_string(),
        message: "a \"quoted\" line\nwith a \\ backslash".to_string(),
        name: "Ann".to_string(),
        url: "http://a".to_string(),
        date: 100,
    };
    let second = Comment {
        id: "200_2".to_string(),
        message: "second".to_string(),
        name: "Bob".to_string(),
        url: "http://b".to_string(),
        date: 200,
    };
    let merged = merge_entry(&serialize_entry(&first), &second);
    let v: serde_yaml::Value = serde_yaml::from_str(&merged).expect("merged file is valid YAML");
    let entries = v.as_sequence().expect("a YAML sequence");
    assert_eq!(entries.len(), 2);
    assert_eq!(entries[0]["id"].as_str(), Some("100_1"));
    assert_eq!(
        entries[0]["message"].as_str(),
        Some("a \"quoted\" line\nwith a \\ backslash")
    );
    assert_eq!(entries[0]["name"].as_str(), Some("Ann"));
    assert_eq!(entries[0]["date"].as_u64(), Some(100));
    assert_eq!(entries[1]["id"].as_str(), Some("200_2"));
    assert_eq!(entries[1]["url"].as_str(), Some("http://b"));
    assert_eq!(entries[1]["date"].as_u64(), Some(200));
}
