//! JSON body framing and the form-urlencoded parser, including a round
//! trip between the URL encoder and the parser.

use timely_server::form::form_get;
use timely_server::form::parse_form;
use timely_server::query::QueryMap;
use timely_server::types::TimelogCreate;
use timely_server::types::TimelogPatch;
use timely_server::types::UserCreate;

#[test]
fn patch_with_only_finished_at_serializes_solely_that_key() {
    let p = TimelogPatch {
        title: None,
        description: None,
        finished_at: Some("2024-01-01T12:00:00Z".to_string()),
    };
    assert_eq!(p.to_json(), "{\"finished_at\":\"2024-01-01T12:00:00Z\"}");
}

#[test]
fn empty_patch_serializes_to_an_empty_object() {
    let p = TimelogPatch { title: None, description: None, finished_at: None };
    assert_eq!(p.to_json(), "{}");
}

#[test]
fn patch_writes_fields_in_order_and_escapes_values() {
    let p = TimelogPatch {
        title: Some("say \"hi\"\n".to_string()),
        description: Some("a\\b".to_string()),
        finished_at: None,
    };
    assert_eq!(p.to_json(), "{\"title\":\"say \\\"hi\\\"\\n\",\"description\":\"a\\\\b\"}");
}

#[test]
fn timelog_create_writes_every_field_with_null_description() {
    let c = TimelogCreate {
        user_id: 3,
        title: "work".to_string(),
        description: None,
        created_at: "2024-01-01T10:00:00Z".to_string(),
        started_at: "2024-01-01T10:00:00Z".to_string(),
    };
    assert_eq!(
        c.to_json(),
        "{\"user_id\":3,\"title\":\"work\",\"description\":null,\
         \"created_at\":\"2024-01-01T10:00:00Z\",\"started_at\":\"2024-01-01T10:00:00Z\"}"
    );
}

#[test]
fn user_create_writes_its_three_fields() {
    let c = UserCreate {
        username: "bob".to_string(),
        email: "b@c".to_string(),
        password_hash: "abc123".to_string(),
    };
    assert_eq!(
        c.to_json(),
        "{\"username\":\"bob\",\"email\":\"b@c\",\"password_hash\":\"abc123\"}"
    );
}

fn owned(pairs: Vec<(String, String)>) -> Vec<(String, String)> {
    pairs
}

#[test]
fn parse_form_decodes_plus_and_percent_escapes() {
    let pairs = owned(parse_form(b"title=Hello+World%21"));
    assert_eq!(pairs, vec![("title".to_string(), "Hello World!".to_string())]);
}

#[test]
fn parse_form_splits_on_amp_and_first_equals() {
    let pairs = owned(parse_form(b"user=bob&password=a%3Db=c"));
    assert_eq!(
        pairs,
        vec![
            ("user".to_string(), "bob".to_string()),
            ("password".to_string(), "a=b=c".to_string()),
        ]
    );
}

#[test]
fn parse_form_skips_empty_segments_and_handles_missing_values() {
    let pairs = owned(parse_form(b"a=1&&b&=x&"));
    assert_eq!(
        pairs,
        vec![
            ("a".to_string(), "1".to_string()),
            ("b".to_string(), "".to_string()),
            ("".to_string(), "x".to_string()),
        ]
    );
    assert_eq!(parse_form(b""), vec![]);
}

#[test]
fn parse_form_leaves_invalid_escapes_literal() {
    let pairs = owned(parse_form(b"a=%zz%2"));
    assert_eq!(pairs, vec![("a".to_string(), "%zz%2".to_string())]);
}

#[test]
fn form_get_finds_the_first_value() {
    let pairs = parse_form(b"user=bob&password=pw&user=alice");
    assert_eq!(form_get(&pairs, "user"), Some("bob".to_string()));
    assert_eq!(form_get(&pairs, "password"), Some("pw".to_string()));
    assert_eq!(form_get(&pairs, "email"), None);
}

#[test]
fn url_encoding_round_trips_through_the_form_parser() {
    let mut m = QueryMap::new();
    m.add("title", "a b&c=d%e");
    m.add("note", "plain");
    let encoded = m.to_query();
    let back = parse_form(encoded.as_bytes());
    assert_eq!(
        back,
        vec![
            ("title".to_string(), "a b&c=d%e".to_string()),
            ("note".to_string(), "plain".to_string()),
        ]
    );
}

#[test]
fn parse_form_replaces_invalid_utf8_bytes() {
    let pairs = parse_form(b"a=%FF");
    assert_eq!(pairs, vec![("a".to_string(), "\u{FFFD}".to_string())]);
}
