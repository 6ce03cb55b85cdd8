use automated_deployments::event::parse_event;
use automated_deployments::notify::{recipient_list, split_list};
use automated_deployments::signature::{constant_time_eq, header_is_text, hex_encode, received_digest, verify_signature};
use automated_deployments::targets::TargetMapping;
use automated_deployments::error::WebhookError;

#[test]
fn hex_encoding_is_lower_case_two_digits_per_byte() {
    assert_eq!(hex_encode(&[0x00, 0xff, 0x1a, 0x9b]), b"00ff1a9b".to_vec());
    assert_eq!(hex_encode(&[]), Vec::<u8>::new());
}

#[test]
fn hmac_matches_published_vector() {
    let body = b"what do ya want for nothing?";
    let header = b"sha256=5bdcc146bf60754e6a042426089575c75a003f089d2739839dec58b964ec3843".to_vec();
    assert_eq!(verify_signature(&Some(b"Jefe".to_vec()), body, &Some(header)), Ok(()));
    let wrong = b"sha256=5bdcc146bf60754e6a042426089575c75a003f089d2739839dec58b964ec3844".to_vec();
    assert_eq!(
        verify_signature(&Some(b"Jefe".to_vec()), body, &Some(wrong)),
        Err(WebhookError::SignatureMismatch)
    );
    let header = b"sha256=5bdcc146bf60754e6a042426089575c75a003f089d2739839dec58b964ec3843".to_vec();
    assert_eq!(
        verify_signature(&Some(b"Jeff".to_vec()), body, &Some(header)),
        Err(WebhookError::SignatureMismatch)
    );
}

#[test]
fn received_digest_strips_marker_and_blanks() {
    assert_eq!(received_digest(b"  sha256=abc \t"), b"abc".to_vec());
    assert_eq!(received_digest(b"sha256=sha256=abc"), b"abc".to_vec());
    assert_eq!(received_digest(b"abc"), b"abc".to_vec());
    assert_eq!(received_digest(b""), Vec::<u8>::new());
    assert_eq!(received_digest(b"sha256"), b"sha256".to_vec());
}

#[test]
fn header_text_is_visible_ascii_or_tab() {
    assert!(header_is_text(b"sha256=ab\tcd ~"));
    assert!(!header_is_text(&[0x61, 0x7f]));
    assert!(!header_is_text(&[0x0a]));
}

#[test]
fn comparison_checks_every_byte() {
    assert!(constant_time_eq(b"abcd", b"abcd"));
    assert!(!constant_time_eq(b"abcd", b"abce"));
    assert!(!constant_time_eq(b"xbcd", b"abcd"));
    assert!(!constant_time_eq(b"abc", b"abcd"));
    assert!(constant_time_eq(b"", b""));
}

#[test]
fn lists_split_on_every_separator() {
    assert_eq!(split_list("", ','), vec![""]);
    assert_eq!(split_list("a", ','), vec!["a"]);
    assert_eq!(split_list("a,b", ','), vec!["a", "b"]);
    assert_eq!(split_list("a,,b,", ','), vec!["a", "", "b", ""]);
    assert_eq!(recipient_list("x@example.org,y@example.org"), vec!["x@example.org", "y@example.org"]);
}

#[test]
fn target_table_from_configuration() {
    let t = TargetMapping::from_config("org/app=app_tag,org/api=api_tag,").unwrap();
    assert_eq!(t.target_of(&"org/app".to_string()), Some(&"app_tag".to_string()));
    assert_eq!(t.target_of(&"org/api".to_string()), Some(&"api_tag".to_string()));
    assert_eq!(t.target_of(&"org/none".to_string()), None);
    let t = TargetMapping::from_config("org/app=one,org/app=two").unwrap();
    assert_eq!(t.resolve(&"org/app".to_string()), Ok("two".to_string()));
    assert!(TargetMapping::from_config("org/app").is_none());
    assert!(TargetMapping::from_config("a=b=c").is_none());
    let t = TargetMapping::from_config("").unwrap();
    assert_eq!(
        t.resolve(&"org/app".to_string()),
        Err(WebhookError::UnconfiguredRepository("org/app".to_string()))
    );
}

#[test]
fn target_table_insert_replaces() {
    let mut t = TargetMapping::new();
    t.insert("a".to_string(), "1".to_string());
    t.insert("b".to_string(), "2".to_string());
    t.insert("a".to_string(), "3".to_string());
    assert_eq!(t.resolve(&"a".to_string()), Ok("3".to_string()));
    assert_eq!(t.resolve(&"b".to_string()), Ok("2".to_string()));
}

#[test]
fn event_fields_are_read_from_json() {
    let ev = parse_event(
        b"{\"action\":\"closed\",\"number\":5,\"pull_request\":{\"merged\":true,\"id\":[1,2]},\"repository\":{\"full_name\":\"org/app\"}}",
    )
    .unwrap();
    assert_eq!(ev.action, "closed");
    assert_eq!(ev.repository, "org/app");
    assert_eq!(ev.merged, Some(true));
    assert!(ev.is_closed());
    assert!(ev.is_merged());
    let ev = parse_event(
        b"{\"action\":\"reopened\",\"pull_request\":{\"merged\":\"yes\"},\"repository\":{\"full_name\":\"o/r\"}}",
    )
    .unwrap();
    assert_eq!(ev.merged, None);
    assert!(!ev.is_closed());
    assert!(!ev.is_merged());
    assert_eq!(parse_event(b"[1,2]"), Err(WebhookError::MissingAction));
    assert_eq!(parse_event(b""), Err(WebhookError::MalformedJson));
}

