use attia::config::Config;
use attia::convert::ExtractedDoc;
use attia::search::Search;

fn config() -> Config {
    Config::new("user".to_string(), "pass".to_string(), "/tmp/unused".to_string())
}

fn doc(title: &str, url: &str, content: &str) -> ExtractedDoc {
    ExtractedDoc {
        title: title.to_string(),
        url: url.to_string(),
        content: content.to_string(),
    }
}

#[test]
fn empty_update_keeps_watermark() {
    let mut search = Search::new_in_memory(config(), 42);
    search.update(&Vec::new(), 99).unwrap();
    assert_eq!(search.touch_mtime(), 42);
}

#[test]
fn nonempty_update_advances_watermark() {
    let mut search = Search::new_in_memory(config(), 42);
    let docs = vec![doc("Episode One", "https://example.com/a", "notes about zebras")];
    search.update(&docs, 99).unwrap();
    assert!(search.touch_mtime() > 42);
    assert_eq!(search.touch_mtime(), 99);
}

#[test]
fn committed_docs_are_queryable() {
    let mut search = Search::new_in_memory(config(), 0);
    let docs = vec![
        doc("Episode One", "https://example.com/a", "notes about quagga herds"),
        doc("Episode Two", "https://example.com/b", "notes about marmot burrows"),
    ];
    search.update(&docs, 7).unwrap();
    let hits = search.query("quagga").unwrap();
    assert_eq!(hits.len(), 1);
    assert!(hits[0].contains("https://example.com/a"));
    assert!(hits[0].contains("Episode One"));
}

#[test]
fn query_before_any_update_finds_nothing() {
    let search = Search::new_in_memory(config(), 0);
    let hits = search.query("anything").unwrap();
    assert!(hits.is_empty());
}

#[test]
fn query_returns_at_most_ten_hits() {
    let mut search = Search::new_in_memory(config(), 0);
    let mut docs = Vec::new();
    for i in 0..15 {
        docs.push(doc(
            &format!("Episode {i}"),
            &format!("https://example.com/{i}"),
            "notes about wombat diets",
        ));
    }
    search.update(&docs, 7).unwrap();
    let hits = search.query("wombat").unwrap();
    assert!(hits.len() <= 10);
    assert!(!hits.is_empty());
}
