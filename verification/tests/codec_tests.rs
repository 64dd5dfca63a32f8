use edge_api::codec::{decode_story, encode_story, ids_from_json, ids_to_json};
use edge_api::story::Story;

fn assert_same(a: &Story, b: &Story) {
    assert_eq!(a.by, b.by);
    assert_eq!(a.id, b.id);
    assert_eq!(a.score, b.score);
    assert_eq!(a.time, b.time);
    assert_eq!(a.title, b.title);
    assert_eq!(a.story_type, b.story_type);
    assert_eq!(a.url, b.url);
}

#[test]
fn story_round_trip_full() {
    let s = Story {
        by: Some("dang".to_string()),
        id: 38_000_000,
        score: Some(421),
        time: 1_700_000_000,
        title: Some("A title with spaces, \"quotes\" and \u{00e9}\u{6f22}".to_string()),
        story_type: Some("story".to_string()),
        url: Some("https://example.com/a?b=c&d=%20".to_string()),
    };
    let blob = encode_story(&s);
    let back = decode_story(&blob).expect("own encoding decodes");
    assert_same(&s, &back);
}

#[test]
fn story_round_trip_absent_fields_and_extremes() {
    let s = Story {
        by: None,
        id: i32::MIN,
        score: Some(i32::MIN),
        time: i64::MIN,
        title: Some(String::new()),
        story_type: None,
        url: None,
    };
    let blob = encode_story(&s);
    let back = decode_story(&blob).expect("own encoding decodes");
    assert_same(&s, &back);

    let t = Story {
        by: Some(String::new()),
        id: i32::MAX,
        score: None,
        time: i64::MAX,
        title: None,
        story_type: Some("job".to_string()),
        url: Some(String::new()),
    };
    let blob = encode_story(&t);
    let back = decode_story(&blob).expect("own encoding decodes");
    assert_same(&t, &back);
}

#[test]
fn story_decode_rejects_garbage() {
    assert!(decode_story("").is_none());
    assert!(decode_story("garbage").is_none());
    assert!(decode_story("{\"id\":1}").is_none());
    // A valid blob with one trailing character is rejected too.
    let s = Story {
        by: None,
        id: 1,
        score: None,
        time: 0,
        title: None,
        story_type: None,
        url: None,
    };
    let mut blob = encode_story(&s);
    blob.push('x');
    assert!(decode_story(&blob).is_none());
}

#[test]
fn story_encoding_differs_from_its_input_strings() {
    let s = Story {
        by: Some("abc".to_string()),
        id: 1,
        score: None,
        time: 0,
        title: None,
        story_type: None,
        url: None,
    };
    let blob = encode_story(&s);
    assert_ne!(blob, "abc");
    assert!(blob.contains("abc"));
}

#[test]
fn ids_json_is_the_compact_rendering() {
    assert_eq!(ids_to_json(&vec![]), "[]");
    assert_eq!(ids_to_json(&vec![1, 2, 3]), "[1,2,3]");
    assert_eq!(ids_to_json(&vec![-5, 0, i32::MAX, i32::MIN]), "[-5,0,2147483647,-2147483648]");
}

#[test]
fn ids_json_round_trip() {
    let ids = vec![7, -3, 0, 42];
    let text = ids_to_json(&ids);
    assert_eq!(ids_from_json(&text), Some(ids));
}

#[test]
fn ids_from_json_rejects_non_arrays() {
    assert_eq!(ids_from_json(""), None);
    assert_eq!(ids_from_json("{\"a\":1}"), None);
    assert_eq!(ids_from_json("[1,\"x\"]"), None);
    assert_eq!(ids_from_json("[1,2"), None);
}

#[test]
fn ids_from_json_parses_real_json() {
    assert_eq!(ids_from_json("[10,20,30]"), Some(vec![10, 20, 30]));
    assert_eq!(ids_from_json("[]"), Some(vec![]));
}
