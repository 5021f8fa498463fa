use indonesian_media_crawler::article::DetikArticle;
use indonesian_media_crawler::frontier::Frontier;
use indonesian_media_crawler::CrawlerResult;

fn new_store() -> Frontier<DetikArticle> {
    Frontier::new()
}

fn article_with_paragraphs(paragraphs: Vec<String>) -> DetikArticle {
    DetikArticle {
        title: Some("title".to_string()),
        published_date: None,
        description: None,
        thumbnail_url: None,
        author: None,
        keywords: vec![],
        paragraphs,
    }
}

fn strings(v: &[&str]) -> Vec<String> {
    v.iter().map(|s| s.to_string()).collect()
}

#[test]
fn recovery_moves_running_back_to_queued() {
    let mut p = new_store();
    p.queued_insert("z");
    p.running_insert("x");
    p.running_insert("y");

    p.startup_recover(&vec!["seed".to_string()]);

    assert_eq!(p.queued_get(), strings(&["z", "x", "y"]));
    assert_eq!(p.running_get(), Vec::<String>::new());
}

#[test]
fn recovery_seeds_empty_frontier() {
    let mut p = new_store();
    p.startup_recover(&strings(&["s1", "s2", "s1"]));
    assert_eq!(p.queued_get(), strings(&["s1", "s2"]));
    assert_eq!(p.running_get(), Vec::<String>::new());
}

#[test]
fn recovery_does_not_seed_nonempty_queue() {
    let mut p = new_store();
    p.queued_insert("kept");
    p.startup_recover(&strings(&["seed"]));
    assert_eq!(p.queued_get(), strings(&["kept"]));
}

#[test]
fn dispatch_respects_capacity() {
    let mut p = new_store();
    for u in ["1", "2", "3", "4", "5"] {
        p.queued_insert(u);
    }

    let batch = p.dispatch_batch(2);
    assert_eq!(batch, strings(&["1", "2"]));

    for url in &batch {
        assert!(p.claim(url));
        p.begin_processing(url);
        assert!(p.running_count() <= 2);
    }
    assert_eq!(p.running_count(), 2);
    assert_eq!(p.dispatch_batch(2), Vec::<String>::new());
}

#[test]
fn backpressure_holds_across_cycle() {
    // With a ceiling of 2 and 5 queued URLs, Running never exceeds 2 while
    // ticks and workers alternate.
    let mut p = new_store();
    for u in ["1", "2", "3", "4", "5"] {
        p.queued_insert(u);
    }
    let mut processed = 0;
    while p.queued_count() > 0 || p.running_count() > 0 {
        let batch = p.dispatch_batch(2);
        for url in &batch {
            if p.claim(url) {
                p.begin_processing(url);
            }
            assert!(p.running_count() <= 2);
        }
        for url in &batch {
            if p.running_is_exists(url) {
                p.finish_processing(url, CrawlerResult::Links(vec![]));
                processed += 1;
            }
            assert!(p.running_count() <= 2);
        }
    }
    assert_eq!(processed, 5);
    assert_eq!(p.visited_count(), 5);
}

#[test]
fn full_cycle_lands_in_exactly_one_terminal_set() {
    let mut p = new_store();
    let url = "https://www.detik.com/news/1";
    p.queued_insert(url);
    assert!(p.claim(url));
    p.begin_processing(url);
    assert!(p.running_is_exists(url));
    assert!(!p.queued_is_exists(url));

    let doc = article_with_paragraphs(strings(&["content"]));
    p.finish_processing(url, CrawlerResult::DocumentAndLinks(doc, vec![]));

    assert!(p.visited_is_exists(url));
    assert!(!p.warned_is_exists(url));
    assert!(!p.queued_is_exists(url));
    assert!(!p.running_is_exists(url));
    assert!(p.results_is_exists(url));
}

#[test]
fn empty_extraction_routes_to_warned() {
    let mut p = new_store();
    let url = "https://www.detik.com/news/empty";
    p.queued_insert(url);
    assert!(p.claim(url));
    p.begin_processing(url);

    let doc = article_with_paragraphs(vec![]);
    p.finish_processing(url, CrawlerResult::DocumentAndLinks(doc, vec![]));

    assert!(p.warned_is_exists(url));
    assert!(!p.visited_is_exists(url));
    assert!(!p.queued_is_exists(url));
    assert!(!p.running_is_exists(url));
    assert_eq!(p.results_count(), 0);
}

#[test]
fn links_only_page_marks_visited_and_enqueues_new_links() {
    let mut p = new_store();
    let url = "https://www.detik.com/hub";
    p.visited_insert("https://www.detik.com/old");
    p.queued_insert(url);
    assert!(p.claim(url));
    p.begin_processing(url);

    let links = strings(&[
        "https://www.detik.com/old",
        "https://www.detik.com/new",
        "https://www.detik.com/hub",
    ]);
    p.finish_processing(url, CrawlerResult::Links(links));

    assert!(p.visited_is_exists(url));
    // Only the genuinely new link is enqueued: the already visited one and
    // the page itself are skipped.
    assert_eq!(p.queued_get(), strings(&["https://www.detik.com/new"]));
}

#[test]
fn claim_drops_duplicate_dispatch() {
    let mut p = new_store();
    p.queued_insert("u");
    p.running_insert("u");
    assert!(!p.claim("u"));
    assert!(!p.queued_is_exists("u"));
    assert!(p.running_is_exists("u"));

    let mut q = new_store();
    q.queued_insert("v");
    q.visited_insert("v");
    assert!(!q.claim("v"));
    assert!(!q.queued_is_exists("v"));
    assert!(q.visited_is_exists("v"));
}

#[test]
fn failed_fetch_requeues() {
    let mut p = new_store();
    let url = "https://www.detik.com/slow";
    p.queued_insert(url);
    assert!(p.claim(url));
    p.begin_processing(url);

    p.requeue_after_failure(url);
    assert!(p.queued_is_exists(url));
    assert!(!p.running_is_exists(url));
}
