use dark_crawler::address::{has_segment_end, is_on_network, strip_port};
use dark_crawler::text::chars_of;

#[test]
fn host_that_ends_with_the_label_is_on_the_network() {
    assert!(is_on_network("http://example.onion/x"));
    assert!(is_on_network("http://example.onion"));
    assert!(is_on_network("//example.onion/x"));
    assert!(is_on_network("ftp://example.onion/"));
    assert!(is_on_network("http://.onion/"));
}

#[test]
fn host_that_ends_otherwise_is_off_the_network() {
    assert!(!is_on_network("http://example.com/"));
    assert!(!is_on_network("http://example.com/a.onion.html"));
    assert!(!is_on_network("http://example.com/a.onion"));
    assert!(!is_on_network("http://example.com/a.onion/"));
    assert!(!is_on_network("http://example.onion.com/"));
    assert!(!is_on_network("http://example.onion.html"));
    assert!(!is_on_network("http://exampleonion/"));
    assert!(!is_on_network("http:///example.onion"));
    assert!(!is_on_network("http://"));
}

#[test]
fn port_is_taken_off_the_host() {
    assert!(is_on_network("http://example.onion:80/"));
    assert!(is_on_network("http://example.onion:8080"));
    assert!(is_on_network("http://example.onion:/"));
    assert!(!is_on_network("http://example.onion:80a/"));
    assert!(!is_on_network("http://example.onion:80:/x"));
    assert!(!is_on_network("http://example.com:80/.onion"));
    assert_eq!(strip_port(chars_of("example.onion:8080")), chars_of("example.onion"));
    assert_eq!(strip_port(chars_of("example.onion:")), chars_of("example.onion"));
    assert_eq!(strip_port(chars_of("example.onion")), chars_of("example.onion"));
    assert_eq!(strip_port(chars_of("example.onion8080")), chars_of("example.onion8080"));
    assert_eq!(strip_port(chars_of("a:b:80")), chars_of("a:b"));
    assert_eq!(strip_port(chars_of(":80")), chars_of(""));
    assert_eq!(strip_port(chars_of("80")), chars_of("80"));
    assert_eq!(strip_port(chars_of("")), chars_of(""));
}

#[test]
fn query_and_fragment_are_cut_off_first() {
    assert!(is_on_network("http://example.onion?next=http://example.com/"));
    assert!(is_on_network("http://example.onion#//example.com/"));
    assert!(!is_on_network("http://example.com/?next=.onion"));
    assert!(!is_on_network("http://example.com/?next=//example.onion"));
    assert!(!is_on_network("http://example.com#.onion"));
    assert!(!is_on_network("page?next=//example.onion/"));
    assert!(!is_on_network("?.onion"));
    assert!(!is_on_network("#.onion"));
}

#[test]
fn reference_without_host_is_judged_by_its_segments() {
    assert!(is_on_network("../b.onion/x"));
    assert!(is_on_network("../b.onion"));
    assert!(is_on_network("b.onion"));
    assert!(is_on_network(".onion"));
    assert!(is_on_network("a/b.onion/c.html"));
    assert!(is_on_network("b.onion?x"));
    assert!(!is_on_network("pages/mirror.onion.html"));
    assert!(!is_on_network("b.onion.html"));
    assert!(!is_on_network("b.onionx/"));
    assert!(!is_on_network("b.onio"));
    assert!(!is_on_network(""));
    assert!(!is_on_network("page.html"));
}

#[test]
fn segment_end_is_the_end_or_a_slash() {
    let label = chars_of(".onion");
    assert!(has_segment_end(&chars_of("a.onion"), &label));
    assert!(has_segment_end(&chars_of("a.onion/b"), &label));
    assert!(has_segment_end(&chars_of("a.onion.b/c.onion"), &label));
    assert!(!has_segment_end(&chars_of("a.onion.b"), &label));
    assert!(!has_segment_end(&chars_of("a.onion:80"), &label));
    assert!(!has_segment_end(&chars_of(""), &label));
    assert!(has_segment_end(&chars_of(""), &chars_of("")));
}
