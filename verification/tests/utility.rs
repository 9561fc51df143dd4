use img_proxy::utility::{
    authorized, extension_for, first_match, frequency_label, host_or_default, parse_frequency, public_url,
    query_param, sort_names, strip_known_extension, valid_name,
};

#[test]
fn frequency_parsing() {
    assert_eq!(parse_frequency(Some("0".to_string())), 0);
    assert_eq!(parse_frequency(Some("1".to_string())), 1);
    assert_eq!(parse_frequency(Some("24".to_string())), 24);
    assert_eq!(parse_frequency(Some("168".to_string())), 168);
    assert_eq!(parse_frequency(Some("720".to_string())), 720);
    assert_eq!(parse_frequency(Some("4".to_string())), 4);
    assert_eq!(parse_frequency(Some("12".to_string())), 4);
    assert_eq!(parse_frequency(None), 4);
}

#[test]
fn frequency_labels() {
    assert_eq!(frequency_label(0), "never");
    assert_eq!(frequency_label(1), "hourly");
    assert_eq!(frequency_label(4), "4 hours");
    assert_eq!(frequency_label(24), "daily");
    assert_eq!(frequency_label(168), "weekly");
    assert_eq!(frequency_label(720), "monthly");
    assert_eq!(frequency_label(12), "12h");
}

#[test]
fn accepted_frequencies_have_word_labels() {
    for v in ["0", "1", "24", "168", "720", "junk"] {
        let label = frequency_label(parse_frequency(Some(v.to_string())));
        assert!(!label.ends_with('h') || label == "4 hours", "{label}");
    }
}

#[test]
fn name_rules() {
    assert!(valid_name("github-stats_2"));
    assert!(valid_name(&"a".repeat(64)));
    assert!(!valid_name(&"a".repeat(65)));
    assert!(!valid_name("refresh"));
    assert!(valid_name("Refresh"));
    assert!(!valid_name("has space"));
    assert!(!valid_name("dot.png"));
    assert!(!valid_name("é"));
    assert!(valid_name(""));
}

#[test]
fn query_parameters() {
    assert_eq!(query_param(Some("key=abc&x=1"), "key"), Some("abc".to_string()));
    assert_eq!(query_param(Some("x=1&key=a%20b+c"), "key"), Some("a b c".to_string()));
    assert_eq!(query_param(Some("key=first&key=second"), "key"), Some("first".to_string()));
    assert_eq!(query_param(Some("keys=1"), "key"), None);
    assert_eq!(query_param(Some("key"), "key"), Some(String::new()));
    assert_eq!(query_param(None, "key"), None);
    assert_eq!(query_param(Some(""), "key"), None);
}

#[test]
fn key_authorization() {
    assert!(authorized(Some("key=s3cret"), "s3cret"));
    assert!(!authorized(Some("key=wrong"), "s3cret"));
    assert!(!authorized(None, "s3cret"));
    assert!(!authorized(Some("other=s3cret"), "s3cret"));
}

#[test]
fn known_extensions_are_stripped() {
    assert_eq!(strip_known_extension("cat.png"), "cat");
    assert_eq!(strip_known_extension("cat.jpeg"), "cat");
    assert_eq!(strip_known_extension("cat.jpg"), "cat");
    assert_eq!(strip_known_extension("clip.webm"), "clip");
    assert_eq!(strip_known_extension("cat.png.gif"), "cat.png");
    assert_eq!(strip_known_extension("cat.txt"), "cat.txt");
    assert_eq!(strip_known_extension("cat"), "cat");
    assert_eq!(strip_known_extension(".png"), "");
}

#[test]
fn extensions_by_mime_type() {
    assert_eq!(extension_for("image/gif"), ".gif");
    assert_eq!(extension_for("image/png"), ".png");
    assert_eq!(extension_for("image/jpeg"), ".jpg");
    assert_eq!(extension_for("image/webp"), ".webp");
    assert_eq!(extension_for("image/svg+xml"), ".svg");
    assert_eq!(extension_for("video/webm"), ".webm");
    assert_eq!(extension_for("video/mp4"), ".mp4");
    assert_eq!(extension_for("image/avif"), ".avif");
    assert_eq!(extension_for("text/html"), "");
    assert_eq!(extension_for("image/svg+xml; charset=utf-8"), "");
}

#[test]
fn public_names_resolve_back() {
    for ct in ["image/png", "image/jpeg", "image/svg+xml", "video/mp4", "text/plain"] {
        let url_name = format!("badge{}", extension_for(ct));
        assert_eq!(strip_known_extension(&url_name), "badge");
    }
}

#[test]
fn hosts_and_urls() {
    assert_eq!(host_or_default(Some("example.org")), "example.org");
    assert_eq!(host_or_default(None), "images.zbee.codes");
    assert_eq!(public_url("h.io", "cat", ".png"), "https://h.io/cat.png");
}

#[test]
fn names_are_sorted() {
    let names: Vec<String> = ["b", "a", "c", "a", "B"].iter().map(|s| s.to_string()).collect();
    let mut expected = names.clone();
    expected.sort();
    assert_eq!(sort_names(&names), expected);
    assert_eq!(sort_names(&Vec::new()), Vec::<String>::new());
}

#[test]
fn first_matching_pair() {
    let pairs = vec![
        ("a".to_string(), "1".to_string()),
        ("key".to_string(), "x".to_string()),
        ("key".to_string(), "y".to_string()),
    ];
    assert_eq!(first_match(&pairs, "key"), Some("x".to_string()));
    assert_eq!(first_match(&pairs, "a"), Some("1".to_string()));
    assert_eq!(first_match(&pairs, "b"), None);
    assert_eq!(first_match(&Vec::new(), "key"), None);
}
