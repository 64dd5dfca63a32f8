use edge_api::ai::{rewrite_prompt, sanitize_code};
use edge_api::auth::{verify, verify_auth_header, AuthError};
use edge_api::cache::{Key, MemCache};
use edge_api::lc::{clamp_submissions_limit, profile_from_counts, username_is_valid, Slot};
use edge_api::resume::{file_url, latest_response_for, resume_action, ResumeFormatAction,
    ResumeRecord};
use edge_api::tensara::{tensara_input, tensara_profile_url};

#[test]
fn bearer_token_extraction() {
    assert_eq!(verify_auth_header(None).unwrap_err(), AuthError::MissingHeader);
    assert_eq!(verify_auth_header(Some("Basic abc")).unwrap_err(), AuthError::BadFormat);
    assert_eq!(verify_auth_header(Some("bearer x")).unwrap_err(), AuthError::BadFormat);
    assert_eq!(verify_auth_header(Some("Bear")).unwrap_err(), AuthError::BadFormat);
    assert_eq!(verify_auth_header(Some("Bearer ")).unwrap_err(), AuthError::EmptyToken);
    assert_eq!(verify_auth_header(Some("Bearer tok-123")).unwrap(), "tok-123");
    assert_eq!(verify_auth_header(Some("Bearer a b")).unwrap(), "a b");
}

#[test]
fn auth_errors_carry_their_messages() {
    assert_eq!(AuthError::MissingHeader.message(), "Missing Authorization header");
    assert_eq!(AuthError::BadFormat.message(), "Invalid Authorization header format");
    assert_eq!(AuthError::EmptyToken.message(), "Invalid token");
    assert_eq!(AuthError::MissingHeader.status(), 401);
}

#[test]
fn verify_accepts_only_nonempty_bearer_tokens() {
    assert!(verify(Some("Bearer t")).unwrap().valid);
    assert_eq!(verify(Some("Bearer ")).unwrap_err(), AuthError::EmptyToken);
    assert_eq!(verify(None).unwrap_err(), AuthError::MissingHeader);
}

#[test]
fn submissions_limit_is_clamped() {
    assert_eq!(clamp_submissions_limit(None), 0);
    assert_eq!(clamp_submissions_limit(Some(-5)), 0);
    assert_eq!(clamp_submissions_limit(Some(0)), 0);
    assert_eq!(clamp_submissions_limit(Some(7)), 7);
    assert_eq!(clamp_submissions_limit(Some(20)), 20);
    assert_eq!(clamp_submissions_limit(Some(50)), 20);
}

#[test]
fn blank_usernames_are_rejected() {
    assert!(!username_is_valid(""));
    assert!(!username_is_valid("   "));
    assert!(!username_is_valid(" \t\n"));
    assert!(!username_is_valid("\u{3000}"));
    assert!(username_is_valid(" a "));
    assert!(username_is_valid("ifkash"));
}

#[test]
fn profile_fold_buckets_by_difficulty() {
    let questions = vec![
        ("All".to_string(), 3584),
        ("Easy".to_string(), 886),
        ("Medium".to_string(), 1885),
        ("Hard".to_string(), 813),
        ("Bizarre".to_string(), 7),
    ];
    let solved = vec![
        ("All".to_string(), 451),
        ("Easy".to_string(), 210),
        ("Medium".to_string(), 211),
        ("Hard".to_string(), 30),
    ];
    let p = profile_from_counts(&questions, &solved);
    assert_eq!(p.total, Slot { complete: 451, total: 3584 });
    assert_eq!(p.easy, Slot { complete: 210, total: 886 });
    assert_eq!(p.medium, Slot { complete: 211, total: 1885 });
    assert_eq!(p.hard, Slot { complete: 30, total: 813 });
}

#[test]
fn profile_fold_lets_a_later_row_win_and_defaults_to_zero() {
    let questions = vec![("Easy".to_string(), 1), ("Easy".to_string(), 2)];
    let solved: Vec<(String, i32)> = vec![];
    let p = profile_from_counts(&questions, &solved);
    assert_eq!(p.easy.total, 2);
    assert_eq!(p.medium.total, 0);
    assert_eq!(p.total.complete, 0);
}

#[test]
fn resume_file_urls_follow_the_record_store_layout() {
    let url = file_url("https://pb.example.com", "col1", "rec9", "cv.pdf");
    assert_eq!(url, "https://pb.example.com/api/files/col1/rec9/cv.pdf");
}

#[test]
fn resume_record_maps_to_the_served_shape() {
    let rec = ResumeRecord {
        id: "rec9".to_string(),
        collection_id: "col1".to_string(),
        pdf_file: "cv.pdf".to_string(),
        typst_file: "cv.typ".to_string(),
        version: Some("v3".to_string()),
        notes: None,
        created: "2024-01-01".to_string(),
        updated: "2024-02-02".to_string(),
    };
    let r = latest_response_for("https://pb.example.com", &rec);
    assert_eq!(r.id, "rec9");
    assert_eq!(r.version, Some("v3".to_string()));
    assert_eq!(r.notes, None);
    assert_eq!(r.created, "2024-01-01");
    assert_eq!(r.updated, "2024-02-02");
    assert_eq!(r.pdf_url, "https://pb.example.com/api/files/col1/rec9/cv.pdf");
    assert_eq!(r.typst_url, "https://pb.example.com/api/files/col1/rec9/cv.typ");
    assert_eq!(r.pdf_filename, "Kashiful_Haque.pdf");
    assert_eq!(r.typst_filename, "cv.typ");
}

#[test]
fn resume_format_parameter_selects_the_action() {
    assert_eq!(resume_action(None), ResumeFormatAction::Pdf(false));
    assert_eq!(resume_action(Some("json")), ResumeFormatAction::Metadata);
    assert_eq!(resume_action(Some("url")), ResumeFormatAction::UrlOnly);
    assert_eq!(resume_action(Some("attachment")), ResumeFormatAction::Pdf(true));
    assert_eq!(resume_action(Some("download")), ResumeFormatAction::Pdf(true));
    assert_eq!(resume_action(Some("view")), ResumeFormatAction::Pdf(false));
    assert_eq!(resume_action(Some("JSON")), ResumeFormatAction::Pdf(false));
}

#[test]
fn code_fences_are_stripped_and_output_trimmed() {
    assert_eq!(sanitize_code("```typst\n#set page()\n```"), "#set page()");
    assert_eq!(sanitize_code("  plain code  "), "plain code");
    assert_eq!(sanitize_code("``` a ```"), "a");
    assert_eq!(sanitize_code("```typst```typst"), "");
    assert_eq!(sanitize_code("no fences"), "no fences");
}

#[test]
fn rewrite_prompt_embeds_jd_and_code() {
    let p = rewrite_prompt("build rockets", "#let x = 1");
    assert!(p.starts_with("You are an expert Resume Optimizer"));
    assert!(p.contains("JOB DESCRIPTION:\nbuild rockets"));
    assert!(p.ends_with("CURRENT TYPST CODE:\n#let x = 1"));
}

#[test]
fn tensara_input_is_the_raw_json_parameter() {
    assert_eq!(tensara_input("kashifulhaque"), "{\"json\":{\"username\":\"kashifulhaque\"}}");
}

#[test]
fn tensara_url_percent_encodes_the_input() {
    let url = tensara_profile_url("kashifulhaque");
    assert_eq!(
        url,
        "https://tensara.org/api/trpc/users.getByUsername?input=%7B%22json%22%3A%7B%22username%22%3A%22kashifulhaque%22%7D%7D"
    );
}

#[test]
fn cache_entries_live_exactly_their_ttl() {
    let mut kv = MemCache::new();
    let now = 1_000_000;
    kv.put(Key::Item(1), "blob".to_string(), 60, now);
    assert_eq!(kv.get(Key::Item(1), now), Some("blob".to_string()));
    assert_eq!(kv.get(Key::Item(1), now + 59), Some("blob".to_string()));
    assert_eq!(kv.get(Key::Item(1), now + 60), None, "expiry instant reads as absent");
    assert_eq!(kv.get(Key::Item(2), now), None);
    assert_eq!(kv.get(Key::TopStories, now), None);
}

#[test]
fn cache_put_overwrites_and_leaves_other_keys_alone() {
    let mut kv = MemCache::new();
    let now = 1_000_000;
    kv.put(Key::TopStories, "[1]".to_string(), 120, now);
    kv.put(Key::Item(1), "a".to_string(), 60, now);
    kv.put(Key::Item(1), "b".to_string(), 60, now + 10);
    assert_eq!(kv.get(Key::Item(1), now + 20), Some("b".to_string()));
    assert_eq!(kv.get(Key::TopStories, now + 20), Some("[1]".to_string()));
}
