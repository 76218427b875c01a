use vstd::prelude::*;
use vstd::utf8::{encode_utf8, encode_utf8_decode_utf8};

use crate::cache::{
    bytes_eq, key_of, lemma_encode_decode, lemma_put_find, spec_cache_valid, spec_decode,
    spec_encode, spec_find, spec_put, spec_remove, EntryModel, HtmlFile, PageCache, PageModel,
    VERSION,
};
use crate::error::ProgramError;

verus! {

/// Where the crawl logs in.
pub const LOGIN_PAGE: &'static str = "https://peterattiamd.com/login/";

/// Where the crawl enumerates its targets.
pub const ARCHIVE_PAGE: &'static str = "https://peterattiamd.com/podcast/archive/";

/// Where a logged-in session must land.
pub const MEMBERS_PAGE: &'static str = "https://peterattiamd.com/members/";

/// The CSS selector of the listing anchors on the archive page.
pub const LINK_SELECTOR: &'static str = ".display-posts-listing a.title";

/// The CSS selector of the login form, and the names of its two fields.
pub const LOGIN_FORM: &'static str = "#mepr_loginform";

pub const LOGIN_USER_FIELD: &'static str = "log";

pub const LOGIN_PASSWORD_FIELD: &'static str = "pwd";

/// Compares two strings.
pub fn str_eq(a: &str, b: &str) -> (r: bool)
    ensures
        r == (a@ == b@),
{
    let r = bytes_eq(a.as_bytes(), b.as_bytes());
    proof {
        if encode_utf8(a@) == encode_utf8(b@) {
            encode_utf8_decode_utf8(a@);
            encode_utf8_decode_utf8(b@);
        }
    }
    r
}

/// Decides whether the session still has to log in: it does exactly when
/// navigating to the login page left it there.
pub fn needs_login(current: &str) -> (r: bool)
    ensures
        r == (current@ == LOGIN_PAGE@),
{
    str_eq(current, LOGIN_PAGE)
}

/// Demands that the session's location is the expected one; any other
/// location is a hard failure naming both.
pub fn expect_url(url: &str, expect: &str) -> (r: Result<(), ProgramError>)
    ensures
        url@ == expect@ <==> r is Ok,
        r is Err ==> ProgramError::spec_wrong_url(r.unwrap_err(), url@, expect@),
{
    if str_eq(url, expect) {
        Ok(())
    } else {
        Err(ProgramError::WrongUrl(url.to_owned(), expect.to_owned()))
    }
}

/// Keeps the enumerated target URLs in document order; an anchor lacking an
/// href breaks a structural assumption and fails the whole enumeration.
pub fn collect_links(hrefs: Vec<Option<String>>) -> (r: Result<Vec<String>, ProgramError>)
    ensures
        (forall|i: int| 0 <= i < hrefs@.len() ==> hrefs@[i] is Some) <==> r is Ok,
        r is Ok ==> r.unwrap()@.len() == hrefs@.len() && (forall|i: int|
            0 <= i < hrefs@.len() ==> r.unwrap()@[i]@ == hrefs@[i].unwrap()@),
        r is Err ==> ProgramError::spec_unexpected(
            r.unwrap_err(),
            "all links should have a href"@,
        ),
{
    let mut out: Vec<String> = Vec::new();
    let mut i: usize = 0;
    while i < hrefs.len()
        invariant
            0 <= i <= hrefs@.len(),
            out@.len() == i,
            forall|j: int| 0 <= j < i ==> hrefs@[j] is Some,
            forall|j: int| 0 <= j < i ==> out@[j]@ == hrefs@[j].unwrap()@,
        decreases hrefs@.len() - i,
    {
        match &hrefs[i] {
            Some(url) => {
                out.push(url.clone());
            },
            None => {
                return Err(ProgramError::Unexpected("all links should have a href".to_owned()));
            },
        }
        i += 1;
    }
    Ok(out)
}

/// Decides whether a URL must be fetched over the network: it must exactly
/// when its cache slot is absent, stale or damaged; an unusable slot is
/// deleted so that the fetch overwrites it.
pub fn fetch_plan(cache: &mut PageCache, url: &str) -> (r: bool)
    ensures
        r == !spec_cache_valid(old(cache)@, url@),
        spec_cache_valid(old(cache)@, url@) || spec_find(old(cache)@, key_of(url@)) is None
            ==> final(cache)@ == old(cache)@,
        !spec_cache_valid(old(cache)@, url@) && spec_find(old(cache)@, key_of(url@)) is Some
            ==> final(cache)@ == spec_remove(old(cache)@, key_of(url@)),
{
    !cache.exists_and_valid(url)
}

/// Accepts a fetched response: a zero-length payload is a hard error naming
/// the URL, anything else is wrapped with the current format version and
/// stored at the URL's slot.
pub fn store_response(cache: &mut PageCache, url: &str, body: Vec<u8>, now: u64) -> (r: Result<
    (),
    ProgramError,
>)
    ensures
        body@.len() == 0 ==> r is Err && ProgramError::spec_unexpected(
            r.unwrap_err(),
            "page at "@ + url@ + " is empty?"@,
        ) && final(cache)@ == old(cache)@,
        body@.len() > 0 ==> r is Ok && final(cache)@ == spec_put(
            old(cache)@,
            EntryModel {
                key: key_of(url@),
                data: spec_encode(PageModel { version: VERSION, url: url@, content: body@ }),
                written_at: now,
            },
        ),
{
    if body.len() == 0 {
        let mut m = "page at ".to_owned();
        m.append(url);
        m.append(" is empty?");
        return Err(ProgramError::Unexpected(m));
    }
    let page = HtmlFile { version: VERSION, url: url.to_owned(), content: body };
    cache.put(&page, now);
    Ok(())
}

/// Fetch idempotence: once a fetched page is stored, its URL's slot holds a
/// valid entry that decodes to exactly that page, so a second pass over the
/// same URL performs no network fetch and sees a byte-identical page.
pub proof fn lemma_fetch_idempotent(s: Seq<EntryModel>, url: Seq<char>, body: Seq<u8>, now: u64)
    requires
        0 < body.len() <= u64::MAX,
        encode_utf8(url).len() <= u64::MAX,
    ensures
        ({
            let p = PageModel { version: VERSION, url, content: body };
            let e = EntryModel { key: key_of(url), data: spec_encode(p), written_at: now };
            let s2 = spec_put(s, e);
            &&& spec_cache_valid(s2, url)
            &&& spec_find(s2, key_of(url)) == Some(e)
            &&& spec_decode(e.data) == Some(p)
        }),
{
    let p = PageModel { version: VERSION, url, content: body };
    let e = EntryModel { key: key_of(url), data: spec_encode(p), written_at: now };
    lemma_encode_decode(p);
    lemma_put_find(s, e, key_of(url));
}

} // verus!
