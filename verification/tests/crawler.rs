use dark_crawler::crawler::{Crawler, Step};
use dark_crawler::fetch::FetchOutcome;
use dark_crawler::verdict::RejectReason;

/// What a pretended server does with a request.
enum Reply {
    Page(Vec<&'static str>),
    Status(u16),
    Unreachable,
    Binary,
}

fn page_linking_to(targets: &[&str]) -> String {
    let mut html = String::from("<html><body>");
    for target in targets {
        html.push_str(&format!("<a href=\"{}\">link</a>", target));
    }
    html.push_str("</body></html>");
    html
}

/// Crawls from `seed` to exhaustion against `web`, and returns the URLs
/// that were fetched and the rejections, each in order.
fn crawl_to_the_end(
    crawler: &mut Crawler,
    seed: &str,
    web: &dyn Fn(&str) -> Reply,
) -> (Vec<String>, Vec<(String, RejectReason, bool)>) {
    let mut fetched = Vec::new();
    let mut ignored = Vec::new();
    assert!(!crawler.is_fetching());
    let mut step = crawler.crawl(seed);
    loop {
        match step {
            Step::Fetch { url } => {
                assert!(crawler.is_fetching());
                fetched.push(url.clone());
                match web(&url) {
                    Reply::Page(targets) => {
                        assert!(crawler.answered(200));
                        crawler.parse(&FetchOutcome::Body(page_linking_to(&targets)));
                    }
                    Reply::Status(code) => {
                        assert!(!crawler.answered(code));
                    }
                    Reply::Unreachable => {
                        crawler.parse(&FetchOutcome::TransportError("refused".to_string()));
                    }
                    Reply::Binary => {
                        assert!(crawler.answered(200));
                        crawler.parse(&FetchOutcome::NonTextContent("not text".to_string()));
                    }
                }
                assert!(!crawler.is_fetching());
            }
            Step::Ignored { url, reason, warn } => ignored.push((url, reason, warn)),
            Step::Idle => break,
        }
        step = crawler.next();
    }
    (fetched, ignored)
}

const A: &str = "http://a.onion/";
const B: &str = "http://b.onion/";
const C: &str = "http://c.onion/";
const D: &str = "http://d.onion/";

fn owned(urls: &[&str]) -> Vec<String> {
    urls.iter().map(|url| url.to_string()).collect()
}

#[test]
fn new_crawler_has_nothing_to_do() {
    let mut crawler = Crawler::new();
    assert_eq!(crawler.stats(), (0, 0, 0));
    assert_eq!(crawler.pending(), 0);
    assert!(!crawler.is_fetching());
    assert!(crawler.is_done());
    assert_eq!(crawler.next(), Step::Idle);
    assert!(crawler.is_done());
    assert_eq!(crawler.stats(), (0, 0, 0));
}

#[test]
fn admitted_seed_is_handed_out() {
    let mut crawler = Crawler::new();
    assert_eq!(crawler.crawl(A), Step::Fetch { url: A.to_string() });
    assert!(crawler.is_fetching());
    assert!(!crawler.is_done());
    assert_eq!(crawler.stats(), (0, 0, 0));
}

#[test]
fn rejected_seed_is_counted_and_not_fetched() {
    let mut crawler = Crawler::new();
    assert_eq!(
        crawler.crawl("http://example.com/"),
        Step::Ignored {
            url: "http://example.com/".to_string(),
            reason: RejectReason::WrongNetworkClass,
            warn: false
        }
    );
    assert!(!crawler.is_fetching());
    assert!(crawler.is_done());
    assert_eq!(crawler.stats(), (0, 0, 1));
}

#[test]
fn cycle_of_two_pages_terminates() {
    let mut crawler = Crawler::new();
    let (fetched, ignored) = crawl_to_the_end(&mut crawler, A, &|url| match url {
        A => Reply::Page(vec![B]),
        B => Reply::Page(vec![A]),
        _ => Reply::Unreachable,
    });
    assert_eq!(fetched, owned(&[A, B]));
    assert_eq!(ignored, vec![(A.to_string(), RejectReason::AlreadyVisited, false)]);
    assert_eq!(crawler.list().success_urls, owned(&[A, B]));
    assert!(crawler.list().failed_urls.is_empty());
    assert_eq!(crawler.stats(), (2, 0, 1));
    assert!(crawler.is_done());
}

#[test]
fn page_that_links_to_itself_is_fetched_once() {
    let mut crawler = Crawler::new();
    let (fetched, ignored) = crawl_to_the_end(&mut crawler, A, &|_| Reply::Page(vec![A, A]));
    assert_eq!(fetched, owned(&[A]));
    assert_eq!(
        ignored,
        vec![
            (A.to_string(), RejectReason::AlreadyVisited, false),
            (A.to_string(), RejectReason::AlreadyVisited, false)
        ]
    );
    assert_eq!(crawler.stats(), (1, 0, 2));
}

#[test]
fn page_reachable_twice_is_fetched_once() {
    let mut crawler = Crawler::new();
    let (fetched, _) = crawl_to_the_end(&mut crawler, A, &|url| match url {
        A => Reply::Page(vec![B, C]),
        B => Reply::Page(vec![D]),
        C => Reply::Page(vec![D, B]),
        D => Reply::Page(vec![A]),
        _ => Reply::Unreachable,
    });
    assert_eq!(fetched, owned(&[A, B, D, C]));
    assert_eq!(crawler.list().success_urls, owned(&[A, B, D, C]));
    assert!(crawler.list().failed_urls.is_empty());
    assert_eq!(crawler.stats(), (4, 0, 3));
}

#[test]
fn failed_page_is_not_fetched_again() {
    let mut crawler = Crawler::new();
    let (fetched, ignored) = crawl_to_the_end(&mut crawler, A, &|url| match url {
        A => Reply::Page(vec![B, C]),
        B => Reply::Unreachable,
        C => Reply::Page(vec![B]),
        _ => Reply::Unreachable,
    });
    assert_eq!(fetched, owned(&[A, B, C]));
    assert_eq!(ignored, vec![(B.to_string(), RejectReason::PreviouslyFailed, true)]);
    assert_eq!(crawler.list().success_urls, owned(&[A, C]));
    assert_eq!(crawler.list().failed_urls, owned(&[B]));
    assert_eq!(crawler.stats(), (2, 1, 1));
}

#[test]
fn failed_child_leaves_its_siblings_to_be_fetched() {
    let mut crawler = Crawler::new();
    let (fetched, ignored) = crawl_to_the_end(&mut crawler, A, &|url| match url {
        A => Reply::Page(vec![B, C, D]),
        B => Reply::Unreachable,
        C => Reply::Binary,
        D => Reply::Page(vec![]),
        _ => Reply::Unreachable,
    });
    assert_eq!(fetched, owned(&[A, B, C, D]));
    assert!(ignored.is_empty());
    assert_eq!(crawler.list().success_urls, owned(&[A, D]));
    assert_eq!(crawler.list().failed_urls, owned(&[B, C]));
    assert_eq!(crawler.stats(), (2, 2, 0));
    assert!(crawler.is_done());
}

#[test]
fn links_are_followed_depth_first_in_document_order() {
    let mut crawler = Crawler::new();
    let (fetched, _) = crawl_to_the_end(&mut crawler, A, &|url| match url {
        A => Reply::Page(vec![B, D]),
        B => Reply::Page(vec![C]),
        _ => Reply::Page(vec![]),
    });
    assert_eq!(fetched, owned(&[A, B, C, D]));
}

#[test]
fn body_puts_its_links_on_the_frontier() {
    let mut crawler = Crawler::new();
    assert_eq!(crawler.crawl(A), Step::Fetch { url: A.to_string() });
    crawler.parse(&FetchOutcome::Body(page_linking_to(&[B, "../up", C])));
    assert!(!crawler.is_fetching());
    assert_eq!(crawler.pending(), 3);
    assert_eq!(crawler.stats(), (1, 0, 0));
    assert_eq!(crawler.next(), Step::Fetch { url: B.to_string() });
    assert_eq!(crawler.pending(), 2);
}

#[test]
fn every_rejection_raises_the_ignored_count_by_one() {
    let mut crawler = Crawler::new();
    let (fetched, ignored) = crawl_to_the_end(&mut crawler, A, &|url| match url {
        A => Reply::Page(vec![
            "http://example.com/",
            "../up.onion",
            "ftp://files.onion/",
            A,
            "page.html",
        ]),
        _ => Reply::Unreachable,
    });
    assert_eq!(fetched, owned(&[A]));
    assert_eq!(
        ignored,
        vec![
            ("http://example.com/".to_string(), RejectReason::WrongNetworkClass, false),
            ("../up.onion".to_string(), RejectReason::RelativeReference, true),
            ("ftp://files.onion/".to_string(), RejectReason::UnsupportedScheme, true),
            (A.to_string(), RejectReason::AlreadyVisited, false),
            ("page.html".to_string(), RejectReason::WrongNetworkClass, false),
        ]
    );
    assert_eq!(crawler.stats(), (1, 0, 5));
}

#[test]
fn ignored_count_never_falls() {
    let mut crawler = Crawler::new();
    let mut last = 0;
    for url in ["http://example.com/", A, "x", B, "../y.onion"] {
        let step = crawler.crawl(url);
        let now = crawler.stats().2;
        match step {
            Step::Ignored { .. } => assert_eq!(now, last + 1),
            Step::Fetch { .. } => {
                assert_eq!(now, last);
                crawler.parse(&FetchOutcome::Body(String::new()));
                assert_eq!(crawler.stats().2, last);
            }
            Step::Idle => unreachable!(),
        }
        last = now;
    }
    assert_eq!(last, 3);
}

#[test]
fn status_outside_the_success_class_records_nothing() {
    let mut crawler = Crawler::new();
    assert_eq!(crawler.crawl(A), Step::Fetch { url: A.to_string() });
    assert!(!crawler.answered(404));
    assert!(!crawler.is_fetching());
    assert!(crawler.is_done());
    assert_eq!(crawler.stats(), (0, 0, 0));
    assert_eq!(crawler.crawl(A), Step::Fetch { url: A.to_string() });
}

#[test]
fn success_status_keeps_the_fetch_under_way() {
    let mut crawler = Crawler::new();
    assert!(!crawler.answered(200));
    assert_eq!(crawler.crawl(A), Step::Fetch { url: A.to_string() });
    assert!(crawler.answered(200));
    assert!(crawler.is_fetching());
    assert!(crawler.answered(299));
    assert!(crawler.is_fetching());
    assert_eq!(crawler.stats(), (0, 0, 0));
}

#[test]
fn unanswered_page_is_fetched_again_when_met_again() {
    let mut crawler = Crawler::new();
    let (fetched, ignored) = crawl_to_the_end(&mut crawler, A, &|url| match url {
        A => Reply::Page(vec![B, B]),
        _ => Reply::Status(503),
    });
    assert_eq!(fetched, owned(&[A, B, B]));
    assert!(ignored.is_empty());
    assert_eq!(crawler.stats(), (1, 0, 0));
}

#[test]
fn undecodable_body_is_a_failure() {
    let mut crawler = Crawler::new();
    assert_eq!(crawler.crawl(A), Step::Fetch { url: A.to_string() });
    crawler.parse(&FetchOutcome::NonTextContent("invalid utf-8".to_string()));
    assert_eq!(crawler.list().failed_urls, owned(&[A]));
    assert!(crawler.list().success_urls.is_empty());
    assert_eq!(crawler.pending(), 0);
    assert!(crawler.is_done());
}

#[test]
fn transport_error_is_a_failure() {
    let mut crawler = Crawler::new();
    assert_eq!(crawler.crawl(A), Step::Fetch { url: A.to_string() });
    crawler.parse(&FetchOutcome::TransportError("timed out".to_string()));
    assert_eq!(crawler.list().failed_urls, owned(&[A]));
    assert_eq!(crawler.stats(), (0, 1, 0));
    assert_eq!(
        crawler.crawl(A),
        Step::Ignored { url: A.to_string(), reason: RejectReason::PreviouslyFailed, warn: true }
    );
    assert_eq!(crawler.stats(), (0, 1, 1));
}

#[test]
fn second_crawl_in_one_session_keeps_the_history() {
    let mut crawler = Crawler::new();
    let web = |url: &str| match url {
        A => Reply::Page(vec![B]),
        B => Reply::Page(vec![]),
        C => Reply::Page(vec![A, B, D]),
        _ => Reply::Unreachable,
    };
    let (first, _) = crawl_to_the_end(&mut crawler, A, &web);
    assert_eq!(first, owned(&[A, B]));
    let (second, ignored) = crawl_to_the_end(&mut crawler, C, &web);
    assert_eq!(second, owned(&[C, D]));
    assert_eq!(ignored.len(), 2);
    assert_eq!(crawler.list().success_urls, owned(&[A, B, C]));
    assert_eq!(crawler.list().failed_urls, owned(&[D]));
    assert_eq!(crawler.stats(), (3, 1, 2));
}

#[test]
fn clone_goes_its_own_way() {
    let mut crawler = Crawler::new();
    assert_eq!(crawler.crawl(A), Step::Fetch { url: A.to_string() });
    let mut copy = crawler.clone();
    crawler.parse(&FetchOutcome::Body(String::new()));
    assert!(copy.is_fetching());
    copy.parse(&FetchOutcome::TransportError("down".to_string()));
    assert_eq!(crawler.stats(), (1, 0, 0));
    assert_eq!(copy.stats(), (0, 1, 0));
}

#[test]
fn parse_reports_the_anchors_it_skipped() {
    let mut crawler = Crawler::new();
    assert_eq!(crawler.crawl(A), Step::Fetch { url: A.to_string() });
    let body = format!("<a>bare</a>{}<a name=\"x\">named</a>", page_linking_to(&[B]));
    assert_eq!(crawler.parse(&FetchOutcome::Body(body)), 2);
    assert_eq!(crawler.pending(), 1);
    assert_eq!(crawler.crawl(C), Step::Fetch { url: C.to_string() });
    assert_eq!(crawler.parse(&FetchOutcome::TransportError("<a>bare</a>".to_string())), 0);
    assert_eq!(crawler.crawl(D), Step::Fetch { url: D.to_string() });
    assert_eq!(crawler.parse(&FetchOutcome::NonTextContent("<a>bare</a>".to_string())), 0);
}

#[test]
fn clearnet_link_with_the_label_in_its_path_is_not_fetched() {
    let mut crawler = Crawler::new();
    let (fetched, ignored) = crawl_to_the_end(&mut crawler, A, &|url| match url {
        A => Reply::Page(vec!["http://example.com/a.onion.html", "http://example.com/?next=.onion", B]),
        _ => Reply::Page(vec![]),
    });
    assert_eq!(fetched, owned(&[A, B]));
    assert_eq!(
        ignored,
        vec![
            ("http://example.com/a.onion.html".to_string(), RejectReason::WrongNetworkClass, false),
            ("http://example.com/?next=.onion".to_string(), RejectReason::WrongNetworkClass, false),
        ]
    );
    assert_eq!(crawler.stats(), (2, 0, 2));
}
