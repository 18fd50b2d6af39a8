use iaretis::filter::{blocklist_entry, Filter};

fn test_filter() -> Filter {
    Filter::new(vec![
        "ads.example.com".to_string(),
        "tracking.example.com".to_string(),
        "doubleclick.net".to_string(),
        "evil.org".to_string(),
    ])
}

#[test]
fn exact_match() {
    let f = test_filter();
    assert!(f.is_blocked("doubleclick.net"));
    assert!(f.is_blocked("ads.example.com"));
}

#[test]
fn subdomain_match() {
    let f = test_filter();
    assert!(f.is_blocked("sub.doubleclick.net"));
    assert!(f.is_blocked("deep.sub.doubleclick.net"));
    assert!(f.is_blocked("foo.ads.example.com"));
}

#[test]
fn no_false_positive_on_partial_label() {
    let f = test_filter();
    // "notdoubleclick.net" is not a subdomain of "doubleclick.net"
    assert!(!f.is_blocked("notdoubleclick.net"));
    assert!(!f.is_blocked("notevil.org"));
}

#[test]
fn non_blocked_domains() {
    let f = test_filter();
    assert!(!f.is_blocked("example.com"));
    assert!(!f.is_blocked("safe.example.com"));
    assert!(!f.is_blocked("google.com"));
}

#[test]
fn case_insensitive() {
    let f = test_filter();
    assert!(f.is_blocked("DoubleClick.Net"));
    assert!(f.is_blocked("ADS.EXAMPLE.COM"));
}

#[test]
fn empty_and_edge_cases() {
    let f = test_filter();
    assert!(!f.is_blocked(""));
    assert!(!f.is_blocked("com"));
    assert!(!f.is_blocked("net"));
}

#[test]
fn from_lines_parsing() {
    let text = "# comment\nads.example.com\n\ntracking.example.com\n  doubleclick.net  \n";
    let lines: Vec<String> = text.lines().map(|l| l.to_string()).collect();
    let f = Filter::from_lines(&lines);
    assert_eq!(f.len(), 3);
    assert!(f.is_blocked("ads.example.com"));
    assert!(f.is_blocked("sub.doubleclick.net"));
    assert!(!f.is_blocked("example.com"));
}

#[test]
fn from_lines_normalizes_case_and_trailing_dots() {
    let lines = vec!["  Tracker.EXAMPLE.org..  ".to_string(), "#blocked.net".to_string()];
    let f = Filter::from_lines(&lines);
    assert_eq!(f.len(), 1);
    assert!(f.is_blocked("tracker.example.org"));
    assert!(f.is_blocked("a.tracker.example.org"));
    assert!(!f.is_blocked("blocked.net"));
}

#[test]
fn duplicate_domains_count_once() {
    let f = Filter::new(vec!["a.com".to_string(), "a.com".to_string(), "b.com".to_string()]);
    assert_eq!(f.len(), 2);
    let empty = Filter::new(vec![]);
    assert_eq!(empty.len(), 0);
    assert!(!empty.is_blocked("a.com"));
}

#[test]
fn new_takes_domains_as_given() {
    // `new` does not lowercase its entries; queries are lowercased.
    let f = Filter::new(vec!["Upper.com".to_string()]);
    assert!(!f.is_blocked("upper.com"));
    assert!(!f.is_blocked("Upper.com"));
}

#[test]
fn trailing_dot_and_empty_labels() {
    let f = Filter::new(vec!["".to_string()]);
    assert!(f.is_blocked(""));
    assert!(f.is_blocked("com."));
    assert!(!f.is_blocked("com"));
    let g = test_filter();
    assert!(!g.is_blocked("doubleclick.net."));
}

#[test]
fn blocklist_entry_rules() {
    assert_eq!(blocklist_entry("  # note"), None);
    assert_eq!(blocklist_entry("   "), None);
    assert_eq!(blocklist_entry(""), None);
    assert_eq!(blocklist_entry("\tAds.Example.COM.\r"), Some("ads.example.com".to_string()));
    assert_eq!(blocklist_entry("x.y#z"), Some("x.y#z".to_string()));
    assert_eq!(blocklist_entry("..."), Some("".to_string()));
}

#[test]
fn unicode_lowercase_is_used() {
    let f = Filter::new(vec!["straße.de".to_string()]);
    assert!(f.is_blocked("STRAßE.DE"));
    assert!(f.is_blocked("www.Straße.de"));
}

#[test]
fn unicode_white_space_is_trimmed() {
    assert_eq!(blocklist_entry("\u{3000}abc.com\u{a0}\u{2029}"), Some("abc.com".to_string()));
    assert_eq!(blocklist_entry("\u{85}\u{1680}#x"), None);
    // U+200B is not white space.
    assert_eq!(blocklist_entry("\u{200b}abc.com"), Some("\u{200b}abc.com".to_string()));
}

#[test]
fn final_sigma_breaks_subdomain_rule_outside_ascii() {
    // Lowercasing maps a word-final capital sigma to 'ς', so a subdomain of a
    // blocked non-ASCII name need not be blocked.
    let f = Filter::new(vec!["σ".to_string()]);
    assert!(f.is_blocked("Σ"));
    assert!(!f.is_blocked("a.Σ"));
}
