use vstd::prelude::*;
use vstd::slice::slice_to_vec;
use vstd::utf8::{decode_utf8, encode_utf8_decode_utf8, valid_utf8};

use crate::cache::{
    bytes_to_string, spec_decode, decode, EntryModel, HtmlFile, PageCache, PageModel,
};
use crate::error::ProgramError;

verus! {

/// The structural selector of a page's title region.
pub const TITLE_SELECTOR: &'static str = "div.header__title h1.heading--page";

/// The structural selector of a page's content region.
pub const CONTENT_SELECTOR: &'static str = "div.content--post";

/// Mathematical model of an extracted record.
pub ghost struct DocModel {
    pub title: Seq<char>,
    pub url: Seq<char>,
    pub content: Seq<char>,
}

/// A structured record extracted from a cached page: the title text, the
/// source URL, and the content region's markup.
#[derive(Debug)]
pub struct ExtractedDoc {
    pub title: String,
    pub url: String,
    pub content: String,
}

impl View for ExtractedDoc {
    type V = DocModel;

    open spec fn view(&self) -> DocModel {
        DocModel { title: self.title@, url: self.url@, content: self.content@ }
    }
}

/// The joined, trimmed text of the first node a selector matches in a
/// document, named: it is a fixed function of document and selector,
/// computed by an outside parser.
pub uninterp spec fn first_text_of(html: Seq<char>, selector: Seq<char>) -> Option<Seq<char>>;

/// The inner markup of the first node a selector matches in a document,
/// named, as `first_text_of` is.
pub uninterp spec fn first_inner_html_of(html: Seq<char>, selector: Seq<char>) -> Option<
    Seq<char>,
>;

/// Relies on `scraper::Html::parse_document` and `Selector::parse`: the
/// first match in document order, its text nodes joined with newlines and
/// the ends trimmed; the result depends on the two arguments alone.
#[verifier::external_body]
fn select_first_text(html: &str, selector: &str) -> (r: Option<String>)
    ensures
        match r {
            Some(t) => first_text_of(html@, selector@) == Some(t@),
            None => first_text_of(html@, selector@) is None,
        },
{
    let doc = scraper::Html::parse_document(html);
    let sel = match scraper::Selector::parse(selector) {
        Ok(s) => s,
        Err(_) => return None,
    };
    let first = doc.select(&sel).next()?;
    let parts: Vec<&str> = first.text().collect();
    Some(parts.join("\n").trim().to_string())
}

/// Relies on `scraper::Html::parse_document` and `Selector::parse`: the
/// inner markup of the first match in document order; the result depends on
/// the two arguments alone.
#[verifier::external_body]
fn select_first_inner_html(html: &str, selector: &str) -> (r: Option<String>)
    ensures
        match r {
            Some(t) => first_inner_html_of(html@, selector@) == Some(t@),
            None => first_inner_html_of(html@, selector@) is None,
        },
{
    let doc = scraper::Html::parse_document(html);
    let sel = match scraper::Selector::parse(selector) {
        Ok(s) => s,
        Err(_) => return None,
    };
    let first = doc.select(&sel).next()?;
    Some(first.inner_html())
}

/// What extraction yields on a page: the record when both regions are
/// present and non-empty, otherwise the text of the hard error naming the
/// page's URL.
pub open spec fn spec_extract(p: PageModel) -> Result<DocModel, Seq<char>> {
    if !valid_utf8(p.content) {
        Err("invalid utf-8 in "@ + p.url)
    } else {
        let h = decode_utf8(p.content);
        let t = first_text_of(h, TITLE_SELECTOR@);
        if t is None || t.unwrap().len() == 0 {
            Err("no title in "@ + p.url)
        } else {
            let c = first_inner_html_of(h, CONTENT_SELECTOR@);
            if c is None || c.unwrap().len() == 0 {
                Err("no content in "@ + p.url)
            } else {
                Ok(DocModel { title: t.unwrap(), url: p.url, content: c.unwrap() })
            }
        }
    }
}

/// Extraction completeness: on a page whose markup carries both regions
/// with text, the record with exactly those texts comes back; a page
/// missing either region is a hard error naming its URL, never a silent
/// skip.  Pure: no I/O, no mutation, safe to run over the cache repeatedly.
pub fn extract(page: &HtmlFile) -> (r: Result<ExtractedDoc, ProgramError>)
    ensures
        match r {
            Ok(d) => spec_extract(page@) == Ok::<DocModel, Seq<char>>(d@),
            Err(e) => spec_extract(page@) matches Err(m) && ProgramError::spec_unexpected(e, m),
        },
{
    let content_bytes = slice_to_vec(page.content.as_slice());
    let html = match bytes_to_string(content_bytes) {
        Some(h) => h,
        None => {
            let mut m = "invalid utf-8 in ".to_owned();
            m.append(page.url.as_str());
            return Err(ProgramError::Unexpected(m));
        },
    };
    proof {
        encode_utf8_decode_utf8(html@);
    }
    let title = match select_first_text(html.as_str(), TITLE_SELECTOR) {
        Some(t) => t,
        None => {
            let mut m = "no title in ".to_owned();
            m.append(page.url.as_str());
            return Err(ProgramError::Unexpected(m));
        },
    };
    if title.as_str().is_empty() {
        let mut m = "no title in ".to_owned();
        m.append(page.url.as_str());
        return Err(ProgramError::Unexpected(m));
    }
    let content = match select_first_inner_html(html.as_str(), CONTENT_SELECTOR) {
        Some(c) => c,
        None => {
            let mut m = "no content in ".to_owned();
            m.append(page.url.as_str());
            return Err(ProgramError::Unexpected(m));
        },
    };
    if content.as_str().is_empty() {
        let mut m = "no content in ".to_owned();
        m.append(page.url.as_str());
        return Err(ProgramError::Unexpected(m));
    }
    Ok(ExtractedDoc { title, url: page.url.clone(), content })
}

/// The models of a sequence of extracted records.
pub open spec fn views_of(v: Seq<ExtractedDoc>) -> Seq<DocModel> {
    v.map_values(|d: ExtractedDoc| d@)
}

/// What converting a run of cache slots yields: every slot written at or
/// after `since` is decoded and extracted, in slot order; a damaged slot or
/// a failed extraction fails the whole conversion with that error.
pub open spec fn spec_convert(s: Seq<EntryModel>, since: u64) -> Result<Seq<DocModel>, Seq<char>>
    decreases s.len(),
{
    if s.len() == 0 {
        Ok(Seq::empty())
    } else {
        let e = s.first();
        if e.written_at < since {
            spec_convert(s.drop_first(), since)
        } else {
            match spec_decode(e.data) {
                None => Err("corrupt cache entry"@),
                Some(p) => match spec_extract(p) {
                    Err(m) => Err(m),
                    Ok(d) => match spec_convert(s.drop_first(), since) {
                        Err(m) => Err(m),
                        Ok(ds) => Ok(seq![d] + ds),
                    },
                },
            }
        }
    }
}

/// Re-run: when every slot predates the watermark, an incremental
/// conversion yields no records, so the update that follows is given an
/// empty batch and leaves the watermark unchanged.
pub proof fn lemma_rerun_converts_nothing(s: Seq<EntryModel>, since: u64)
    requires
        forall|i: int| 0 <= i < s.len() ==> s[i].written_at < since,
    ensures
        spec_convert(s, since) == Ok::<Seq<DocModel>, Seq<char>>(Seq::empty()),
    decreases s.len(),
{
    if s.len() > 0 {
        assert(forall|i: int|
            0 <= i < s.drop_first().len() ==> s.drop_first()[i].written_at < since);
        lemma_rerun_converts_nothing(s.drop_first(), since);
    }
}

/// Converts every cache slot written at or after `since` into a record, in
/// slot order: the watermark-diffing step of an incremental re-index.  With
/// `since` at the epoch this converts the whole cache.
pub fn html_to_tantivy(cache: &PageCache, since: u64) -> (r: Result<
    Vec<ExtractedDoc>,
    ProgramError,
>)
    ensures
        match r {
            Ok(docs) => spec_convert(cache@, since) == Ok::<Seq<DocModel>, Seq<char>>(
                views_of(docs@),
            ),
            Err(e) => spec_convert(cache@, since) matches Err(m) && ProgramError::spec_unexpected(
                e,
                m,
            ),
        },
{
    let ghost s = cache@;
    let mut out: Vec<ExtractedDoc> = Vec::new();
    let mut i: usize = 0;
    proof {
        assert(s.skip(0) =~= s);
        assert(views_of(out@) =~= Seq::<DocModel>::empty());
        match spec_convert(s, since) {
            Ok(ds) => {
                assert(views_of(out@) + ds =~= ds);
            },
            Err(_) => {},
        }
    }
    while i < cache.len()
        invariant
            0 <= i <= s.len(),
            s == cache@,
            spec_convert(s, since) == match spec_convert(s.skip(i as int), since) {
                Ok(ds) => Ok::<Seq<DocModel>, Seq<char>>(views_of(out@) + ds),
                Err(m) => Err::<Seq<DocModel>, Seq<char>>(m),
            },
        decreases s.len() - i,
    {
        let ghost out0 = out@;
        let ghost e = s[i as int];
        proof {
            assert(s.skip(i as int).len() == s.len() - i);
            assert(s.skip(i as int).first() == e);
            assert(s.skip(i as int).drop_first() =~= s.skip(i as int + 1));
        }
        let written_at = cache.entry_written_at(i);
        if written_at >= since {
            let page = match decode(cache.entry_data(i)) {
                Some(p) => p,
                None => {
                    proof {
                        assert(spec_convert(s.skip(i as int), since) == Err::<
                            Seq<DocModel>,
                            Seq<char>,
                        >("corrupt cache entry"@));
                    }
                    return Err(ProgramError::Unexpected("corrupt cache entry".to_owned()));
                },
            };
            let doc = match extract(&page) {
                Ok(d) => d,
                Err(err) => {
                    return Err(err);
                },
            };
            out.push(doc);
            proof {
                assert(views_of(out@) =~= views_of(out0).push(doc@));
                match spec_convert(s.skip(i as int + 1), since) {
                    Ok(ds) => {
                        assert(views_of(out@) + ds =~= views_of(out0) + (seq![doc@] + ds));
                    },
                    Err(_) => {},
                }
            }
        } else {
            proof {
                assert(spec_convert(s.skip(i as int), since) == spec_convert(
                    s.skip(i as int + 1),
                    since,
                ));
            }
        }
        i += 1;
    }
    proof {
        assert(s.skip(s.len() as int) =~= Seq::<EntryModel>::empty());
        assert(views_of(out@) + Seq::<DocModel>::empty() =~= views_of(out@));
    }
    Ok(out)
}

} // verus!
