use attia::cache::{PageCache, VERSION};
use attia::config::Config;
use attia::convert::html_to_tantivy;
use attia::download::{fetch_plan, store_response};
use attia::search::Search;

fn config() -> Config {
    Config::new("user".to_string(), "pass".to_string(), "/tmp/unused".to_string())
}

fn page_markup(title: &str, term: &str) -> String {
    format!(
        "<html><body>\
         <div class=\"header__title\"><h1 class=\"heading--page\">{title}</h1></div>\
         <div class=\"content--post\"><p>notes about {term}</p></div>\
         </body></html>"
    )
}

#[test]
fn end_to_end_crawl_extract_index_query() {
    let urls = ["https://example.com/a", "https://example.com/b"];
    let terms = ["quagga", "marmot"];
    let titles = ["Episode One", "Episode Two"];
    let mut cache = PageCache::new();

    // First run: both pages must be fetched and land in the cache.
    let mut fetches = 0;
    for i in 0..urls.len() {
        if fetch_plan(&mut cache, urls[i]) {
            fetches += 1;
            let body = page_markup(titles[i], terms[i]).into_bytes();
            store_response(&mut cache, urls[i], body, 10).unwrap();
        }
    }
    assert_eq!(fetches, 2);
    assert_eq!(cache.len(), 2);
    for url in urls {
        assert_eq!(cache.get(url).unwrap().version, VERSION);
    }

    // Cold start: the watermark is at the epoch, so everything is converted.
    let mut search = Search::new_in_memory(config(), 0);
    let docs = html_to_tantivy(&cache, search.touch_mtime()).unwrap();
    assert_eq!(docs.len(), 2);
    search.update(&docs, 11).unwrap();
    assert_eq!(search.touch_mtime(), 11);

    // A term unique to the first page returns that page as the only hit.
    let hits = search.query("quagga").unwrap();
    assert_eq!(hits.len(), 1);
    assert!(hits[0].contains("https://example.com/a"));

    // Second run with no site changes: zero fetches, an empty batch, and an
    // unchanged watermark.
    let mut refetches = 0;
    for url in urls {
        if fetch_plan(&mut cache, url) {
            refetches += 1;
        }
    }
    assert_eq!(refetches, 0);
    let docs2 = html_to_tantivy(&cache, search.touch_mtime()).unwrap();
    assert!(docs2.is_empty());
    search.update(&docs2, 12).unwrap();
    assert_eq!(search.touch_mtime(), 11);
}

#[test]
fn incremental_update_converts_only_new_pages() {
    let mut cache = PageCache::new();
    store_response(
        &mut cache,
        "https://example.com/a",
        page_markup("Episode One", "quagga").into_bytes(),
        10,
    )
    .unwrap();
    store_response(
        &mut cache,
        "https://example.com/b",
        page_markup("Episode Two", "marmot").into_bytes(),
        20,
    )
    .unwrap();
    // Only the page written at or after the watermark is converted.
    let docs = html_to_tantivy(&cache, 15).unwrap();
    assert_eq!(docs.len(), 1);
    assert_eq!(docs[0].url, "https://example.com/b");
    assert_eq!(docs[0].title, "Episode Two");
}

#[test]
fn corrupt_cache_slot_fails_conversion() {
    let mut cache = PageCache::new();
    let key = attia::cache::cache_key("https://example.com/bad");
    cache.insert_raw(key, b"damaged".to_vec(), 10);
    let err = html_to_tantivy(&cache, 0).unwrap_err();
    assert_eq!(err.message(), "corrupt cache entry");
}
