use indonesian_media_crawler::article::DetikArticle;
use indonesian_media_crawler::frontier::Frontier;

fn new_store() -> Frontier<DetikArticle> {
    Frontier::new()
}

fn article() -> DetikArticle {
    DetikArticle {
        title: Some("title".to_string()),
        published_date: None,
        description: Some("description".to_string()),
        thumbnail_url: None,
        author: Some("author".to_string()),
        keywords: vec!["k1".to_string(), "k2".to_string()],
        paragraphs: vec!["p1".to_string(), "p2".to_string()],
    }
}

fn strings(v: &[&str]) -> Vec<String> {
    v.iter().map(|s| s.to_string()).collect()
}

#[test]
fn create_and_delete_rows() {
    let mut p = new_store();

    assert_eq!(p.visited_count(), 0);
    assert!(!p.visited_is_exists("visited"));
    p.visited_insert("visited");
    assert_eq!(p.visited_count(), 1);
    assert!(p.visited_is_exists("visited"));
    p.visited_delete("visited");
    assert_eq!(p.visited_count(), 0);
    assert!(!p.visited_is_exists("visited"));

    assert_eq!(p.queued_count(), 0);
    assert!(!p.queued_is_exists("queued"));
    p.queued_insert("queued");
    assert_eq!(p.queued_count(), 1);
    assert!(p.queued_is_exists("queued"));
    p.queued_delete("queued");
    assert_eq!(p.queued_count(), 0);
    assert!(!p.queued_is_exists("queued"));

    assert_eq!(p.running_count(), 0);
    assert!(!p.running_is_exists("running"));
    p.running_insert("running");
    assert_eq!(p.running_count(), 1);
    assert!(p.running_is_exists("running"));
    p.running_delete("running");
    assert_eq!(p.running_count(), 0);
    assert!(!p.running_is_exists("running"));

    assert_eq!(p.warned_count(), 0);
    assert!(!p.warned_is_exists("warned"));
    p.warned_insert("warned");
    assert_eq!(p.warned_count(), 1);
    assert!(p.warned_is_exists("warned"));
    p.warned_delete("warned");
    assert_eq!(p.warned_count(), 0);
    assert!(!p.warned_is_exists("warned"));

    assert_eq!(p.results_count(), 0);
    assert!(!p.results_is_exists("results"));
    p.results_insert("results", article());
    assert_eq!(p.results_count(), 1);
    assert!(p.results_is_exists("results"));
    p.results_delete("results");
    assert_eq!(p.results_count(), 0);
    assert!(!p.results_is_exists("results"));
}

#[test]
fn get_queue() {
    let mut p = new_store();
    assert_eq!(p.queued_get(), Vec::<String>::new());

    p.queued_insert("1");
    p.queued_insert("2");
    p.queued_insert("3");
    assert_eq!(p.queued_count(), 3);
    assert_eq!(p.queued_get(), strings(&["1", "2", "3"]));

    p.queued_delete("2");
    assert_eq!(p.queued_get(), strings(&["1", "3"]));

    p.queued_delete("1");
    assert_eq!(p.queued_get(), strings(&["3"]));

    p.queued_insert("1");
    assert_eq!(p.queued_get(), strings(&["3", "1"]));

    p.queued_delete("3");
    assert_eq!(p.queued_get(), strings(&["1"]));

    p.queued_delete("2");
    assert_eq!(p.queued_get(), strings(&["1"]));

    p.queued_delete("1");
    assert_eq!(p.queued_get(), Vec::<String>::new());
}

#[test]
fn get_queue_n() {
    let mut p = new_store();
    p.queued_insert("1");
    p.queued_insert("2");
    p.queued_insert("3");
    p.queued_insert("4");
    p.queued_insert("5");

    assert_eq!(p.queued_get_n(2), strings(&["1", "2"]));
}

#[test]
fn queued_get_n() {
    let mut p = new_store();
    p.queued_insert("1");
    p.queued_insert("2");
    p.queued_insert("3");
    p.queued_insert("4");
    p.queued_insert("5");

    assert_eq!(p.queued_get_n(2), strings(&["1", "2"]));
    assert_eq!(p.queued_get_n(0), Vec::<String>::new());
    assert_eq!(p.queued_get_n(9), strings(&["1", "2", "3", "4", "5"]));
}

#[test]
fn get_running() {
    let mut p = new_store();
    assert_eq!(p.running_get(), Vec::<String>::new());

    p.running_insert("1");
    p.running_insert("2");
    p.running_insert("3");
    assert_eq!(p.running_count(), 3);
    assert_eq!(p.running_get(), strings(&["1", "2", "3"]));

    p.running_delete("2");
    assert_eq!(p.running_get(), strings(&["1", "3"]));

    p.running_delete("1");
    assert_eq!(p.running_get(), strings(&["3"]));

    p.running_insert("1");
    assert_eq!(p.running_get(), strings(&["3", "1"]));

    p.running_delete("3");
    assert_eq!(p.running_get(), strings(&["1"]));

    p.running_delete("2");
    assert_eq!(p.running_get(), strings(&["1"]));

    p.running_delete("1");
    assert_eq!(p.running_get(), Vec::<String>::new());
}

#[test]
fn merge_queue_and_running() {
    let mut p = new_store();
    p.queued_insert("1");
    p.queued_insert("2");
    p.queued_insert("3");
    p.running_insert("4");
    p.running_insert("5");

    p.merge_queue_and_running();

    assert_eq!(p.queued_get(), strings(&["1", "2", "3", "4", "5"]));
    assert_eq!(p.running_get(), Vec::<String>::new());
}

#[test]
fn idempotent_insert_keeps_cardinality() {
    let mut p = new_store();
    p.queued_insert("https://www.detik.com/a");
    p.queued_insert("https://www.detik.com/a");
    assert_eq!(p.queued_count(), 1);

    p.visited_insert("v");
    p.visited_insert("v");
    assert_eq!(p.visited_count(), 1);

    p.running_insert("r");
    p.running_insert("r");
    assert_eq!(p.running_count(), 1);

    p.warned_insert("w");
    p.warned_insert("w");
    assert_eq!(p.warned_count(), 1);

    p.results_insert("x", article());
    p.results_insert("x", article());
    assert_eq!(p.results_count(), 1);
}

#[test]
fn fifo_order_kept_across_delete_and_reinsert() {
    let mut p = new_store();
    p.queued_insert("a");
    p.queued_insert("b");
    p.queued_insert("c");
    assert_eq!(p.queued_get_n(2), strings(&["a", "b"]));

    p.queued_delete("b");
    p.queued_insert("b");
    assert_eq!(p.queued_get(), strings(&["a", "c", "b"]));
}

#[test]
fn results_first_writer_wins() {
    let mut p = new_store();
    let mut first = article();
    first.title = Some("first".to_string());
    let mut second = article();
    second.title = Some("second".to_string());

    p.results_insert("u", first.clone());
    p.results_insert("u", second);
    assert_eq!(p.results_count(), 1);
    assert_eq!(p.results_get("u"), Some(&first));
    assert_eq!(p.results_get("missing"), None);
}

#[test]
fn prune_queued_drops_done_urls() {
    let mut p = new_store();
    p.queued_insert("a");
    p.queued_insert("b");
    p.queued_insert("c");
    p.queued_insert("d");
    p.visited_insert("b");
    p.results_insert("d", article());

    let removed = p.prune_queued();
    assert_eq!(removed, 2);
    assert_eq!(p.queued_get(), strings(&["a", "c"]));
}
