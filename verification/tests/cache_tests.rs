use attia::cache::{cache_file_stem, cache_key, decode, encode, HtmlFile, PageCache, VERSION};
use attia::download::{fetch_plan, store_response};

fn sample_page(url: &str) -> HtmlFile {
    HtmlFile {
        version: VERSION,
        url: url.to_string(),
        content: b"<html>hello</html>".to_vec(),
    }
}

#[test]
fn codec_round_trip() {
    let page = sample_page("https://example.com/a");
    let bytes = encode(&page);
    let back = decode(&bytes).expect("a well-formed entry decodes");
    assert_eq!(back.version, VERSION);
    assert_eq!(back.url, "https://example.com/a");
    assert_eq!(back.content, b"<html>hello</html>".to_vec());
}

#[test]
fn codec_round_trip_empty_url_and_content() {
    let page = HtmlFile { version: VERSION, url: String::new(), content: Vec::new() };
    let back = decode(&encode(&page)).expect("decodes");
    assert_eq!(back.url, "");
    assert_eq!(back.content, Vec::<u8>::new());
}

#[test]
fn decode_rejects_garbage() {
    assert!(decode(&b"not an entry".to_vec()).is_none());
    assert!(decode(&Vec::new()).is_none());
    assert!(decode(&vec![0u8; 19]).is_none());
}

#[test]
fn decode_rejects_truncated_and_padded_entries() {
    let bytes = encode(&sample_page("https://example.com/a"));
    let mut truncated = bytes.clone();
    truncated.pop();
    assert!(decode(&truncated).is_none());
    let mut padded = bytes.clone();
    padded.push(0);
    assert!(decode(&padded).is_none());
}

#[test]
fn cache_file_stem_is_known_digest() {
    // SHA-256 of the three bytes "abc", in lowercase hexadecimal.
    assert_eq!(
        cache_file_stem("abc"),
        "ba7816bf8f01cfea414140de5dae2223b00361a396177a9cb410ff61f20015ad"
    );
    assert_eq!(cache_file_stem("abc").len(), 64);
}

#[test]
fn get_returns_stored_page() {
    let mut cache = PageCache::new();
    let page = sample_page("https://example.com/a");
    cache.put(&page, 3);
    let got = cache.get("https://example.com/a").expect("stored page is found");
    assert_eq!(got.version, VERSION);
    assert_eq!(got.url, "https://example.com/a");
    assert_eq!(got.content, page.content);
    assert!(cache.get("https://example.com/other").is_none());
}

#[test]
fn version_invalidation_deletes_stale_slot() {
    let mut cache = PageCache::new();
    let url = "https://example.com/old";
    let stale = HtmlFile {
        version: VERSION - 1,
        url: url.to_string(),
        content: b"<html>old</html>".to_vec(),
    };
    cache.insert_raw(cache_key(url), encode(&stale), 7);
    let key = cache_key(url);
    assert!(cache.contains_key(&key));
    assert!(cache.get(url).is_none());
    assert!(!cache.contains_key(&key));
}

#[test]
fn corruption_invalidation_deletes_damaged_slot() {
    let mut cache = PageCache::new();
    let url = "https://example.com/corrupt";
    cache.insert_raw(cache_key(url), b"\xde\xad\xbe\xef junk".to_vec(), 7);
    let key = cache_key(url);
    assert!(cache.contains_key(&key));
    assert!(cache.get(url).is_none());
    assert!(!cache.contains_key(&key));
    assert!(!cache.exists_and_valid(url));
}

#[test]
fn fetch_plan_is_idempotent_after_store() {
    let mut cache = PageCache::new();
    let url = "https://example.com/ep1";
    assert!(fetch_plan(&mut cache, url));
    store_response(&mut cache, url, b"<html>body</html>".to_vec(), 5).unwrap();
    assert!(!fetch_plan(&mut cache, url));
    let first = cache.get(url).unwrap();
    let second = cache.get(url).unwrap();
    assert_eq!(encode(&first), encode(&second));
    assert_eq!(first.content, b"<html>body</html>".to_vec());
}

#[test]
fn fetch_plan_refetches_stale_version() {
    let mut cache = PageCache::new();
    let url = "https://example.com/old";
    let stale =
        HtmlFile { version: VERSION - 1, url: url.to_string(), content: b"x".to_vec() };
    cache.insert_raw(cache_key(url), encode(&stale), 7);
    assert!(fetch_plan(&mut cache, url));
    assert_eq!(cache.len(), 0);
}

#[test]
fn store_rejects_empty_response() {
    let mut cache = PageCache::new();
    let err = store_response(&mut cache, "https://example.com/x", Vec::new(), 1).unwrap_err();
    assert_eq!(err.message(), "page at https://example.com/x is empty?");
    assert_eq!(cache.len(), 0);
}

#[test]
fn put_overwrites_same_slot() {
    let mut cache = PageCache::new();
    let url = "https://example.com/a";
    cache.put(&sample_page(url), 1);
    let newer =
        HtmlFile { version: VERSION, url: url.to_string(), content: b"<html>v2</html>".to_vec() };
    cache.put(&newer, 2);
    assert_eq!(cache.len(), 1);
    assert_eq!(cache.get(url).unwrap().content, b"<html>v2</html>".to_vec());
}
