use vstd::prelude::*;

use tantivy::Document as _;

use crate::config::Config;
use crate::convert::ExtractedDoc;
use crate::error::ProgramError;

verus! {

/// Memory the index writer may use for one update batch, in bytes.
pub const MEMORY_BUDGET: usize = 50_000_000;

/// How many ranked hits a query returns at most.
pub const TOP_K: usize = 10;

#[verifier::external_type_specification]
#[verifier::external_body]
pub struct ExIndex(tantivy::Index);

#[verifier::external_type_specification]
#[verifier::external_body]
pub struct ExSchema(tantivy::schema::Schema);

#[verifier::external_type_specification]
#[verifier::external_body]
pub struct ExField(tantivy::schema::Field);

#[verifier::external_type_specification]
#[verifier::external_body]
pub struct ExSearcher(tantivy::Searcher);

#[verifier::external_type_specification]
#[verifier::external_body]
pub struct ExDocAddress(tantivy::DocAddress);

#[verifier::external_type_specification]
#[verifier::external_body]
pub struct ExTantivyDocument(tantivy::TantivyDocument);

/// Carries the engine's batch writer, which the verifier cannot see into:
/// its generic signature cannot be declared to the verifier, so the writer rides
/// in an opaque holder between the wrappers below.
#[verifier::external_body]
struct WriterHandle {
    inner: tantivy::IndexWriter<tantivy::TantivyDocument>,
}

/// Relies on tantivy's schema builder: three text fields, "title" and "url"
/// indexed and stored, "content" indexed only; returns the schema and the
/// three field handles in that order.
#[verifier::external_body]
fn build_schema() -> (r: (
    tantivy::schema::Schema,
    tantivy::schema::Field,
    tantivy::schema::Field,
    tantivy::schema::Field,
))
{
    let mut b = tantivy::schema::Schema::builder();
    let title = b.add_text_field("title", tantivy::schema::TEXT | tantivy::schema::STORED);
    let url = b.add_text_field("url", tantivy::schema::TEXT | tantivy::schema::STORED);
    let content = b.add_text_field("content", tantivy::schema::TEXT);
    (b.build(), title, url, content)
}

/// Relies on `tantivy::Index::open_or_create` over an `MmapDirectory`: opens
/// or creates a persistent index at `path`, which must be an existing
/// directory; any engine failure comes back as its message.
#[verifier::external_body]
fn open_index(path: &str, schema: &tantivy::schema::Schema) -> (r: Result<tantivy::Index, String>)
{
    let dir = match tantivy::directory::MmapDirectory::open(std::path::Path::new(path)) {
        Ok(d) => d,
        Err(e) => return Err(format!("{e}")),
    };
    match tantivy::Index::open_or_create(dir, schema.clone()) {
        Ok(i) => Ok(i),
        Err(e) => Err(format!("{e}")),
    }
}

/// Relies on `tantivy::Index::create_in_ram`: a fresh volatile index.
#[verifier::external_body]
fn open_index_ram(schema: &tantivy::schema::Schema) -> (r: tantivy::Index) {
    tantivy::Index::create_in_ram(schema.clone())
}

/// Relies on `tantivy::Index::writer`: a single writer holding the index
/// lock for the duration of one batch.
#[verifier::external_body]
fn index_writer(index: &tantivy::Index, memory_budget: usize) -> (r: Result<
    WriterHandle,
    String,
>)
{
    match index.writer(memory_budget) {
        Ok(w) => Ok(WriterHandle { inner: w }),
        Err(e) => Err(format!("{e}")),
    }
}

/// Relies on `tantivy::IndexWriter::add_document`: queues one record, its
/// three values under the given field handles, for the writer's next commit;
/// the record is not visible to any searcher before that commit.
#[verifier::external_body]
fn add_extracted(
    writer: &WriterHandle,
    title_field: &tantivy::schema::Field,
    url_field: &tantivy::schema::Field,
    content_field: &tantivy::schema::Field,
    doc: &ExtractedDoc,
) -> (r: Result<(), String>)
{
    let mut d = tantivy::TantivyDocument::new();
    d.add_text(*title_field, &doc.title);
    d.add_text(*url_field, &doc.url);
    d.add_text(*content_field, &doc.content);
    match writer.inner.add_document(d) {
        Ok(_) => Ok(()),
        Err(e) => Err(format!("{e}")),
    }
}

/// Relies on `tantivy::IndexWriter::commit`: publishes everything queued
/// since the previous commit as one atomic batch; on failure the index keeps
/// its previous committed state and none of the batch is visible.
#[verifier::external_body]
fn commit_writer(writer: &mut WriterHandle) -> (r: Result<
    u64,
    String,
>)
{
    match writer.inner.commit() {
        Ok(stamp) => Ok(stamp),
        Err(e) => Err(format!("{e}")),
    }
}

/// Relies on tantivy's index reader: a searcher over the most recent
/// committed state; it never observes a partial batch.
#[verifier::external_body]
fn searcher_for(index: &tantivy::Index) -> (r: Result<tantivy::Searcher, String>)
{
    let reader = match index.reader_builder().reload_policy(
        tantivy::ReloadPolicy::OnCommitWithDelay,
    ).try_into() {
        Ok(rd) => rd,
        Err(e) => return Err(format!("{e}")),
    };
    let reader: tantivy::IndexReader = reader;
    Ok(reader.searcher())
}

/// Relies on `tantivy::query::QueryParser` and `Searcher::search` with a
/// `TopDocs` collector: parses the text against the two given fields and
/// returns the addresses of at most `limit` hits, best score first.
#[verifier::external_body]
fn search_top(
    searcher: &tantivy::Searcher,
    index: &tantivy::Index,
    title_field: &tantivy::schema::Field,
    content_field: &tantivy::schema::Field,
    text: &str,
    limit: usize,
) -> (r: Result<Vec<tantivy::DocAddress>, String>)
    requires
        limit >= 1,
    ensures
        r matches Ok(hits) ==> hits@.len() <= limit,
{
    let parser = tantivy::query::QueryParser::for_index(index, vec![*title_field, *content_field]);
    let query = match parser.parse_query(text) {
        Ok(q) => q,
        Err(e) => return Err(format!("{e}")),
    };
    match searcher.search(&query, &tantivy::collector::TopDocs::with_limit(limit).order_by_score()) {
        Ok(hits) => Ok(hits.into_iter().map(|hit| hit.1).collect()),
        Err(e) => Err(format!("{e}")),
    }
}

/// Relies on `tantivy::Searcher::doc`: retrieves a hit's stored fields and
/// renders them as JSON text.
#[verifier::external_body]
fn retrieve_json(
    searcher: &tantivy::Searcher,
    schema: &tantivy::schema::Schema,
    addr: &tantivy::DocAddress,
) -> (r: Result<String, String>)
{
    let doc: tantivy::TantivyDocument = match searcher.doc(*addr) {
        Ok(d) => d,
        Err(e) => return Err(format!("{e}")),
    };
    Ok(doc.to_json(schema))
}

/// The incremental full-text index: an opaque engine driven through a fixed
/// call sequence, plus the watermark of the last point at which new records
/// were committed.  The watermark's persistent copy lives beside the index
/// outside the library; it is handed in when the store is opened and read
/// back through `touch_mtime` after updates.
pub struct Search {
    pub index: tantivy::Index,
    pub schema: tantivy::schema::Schema,
    pub title_field: tantivy::schema::Field,
    pub url_field: tantivy::schema::Field,
    pub content_field: tantivy::schema::Field,
    pub config: Config,
    pub last_indexed: u64,
}

impl Search {
    /// Opens or creates the persistent index under the data directory's
    /// `index` sub-path, which must already exist as a directory.
    /// `last_indexed` is the persisted watermark, the epoch when there is
    /// none.
    pub fn new(config: Config, last_indexed: u64) -> (r: Result<Search, ProgramError>)
        ensures
            match r {
                Ok(s) => s.last_indexed == last_indexed && s.config == config,
                Err(e) => e matches ProgramError::Engine(_),
            },
    {
        let (schema, title_field, url_field, content_field) = build_schema();
        let mut path = config.data_dir.clone();
        path.append("/index");
        match open_index(path.as_str(), &schema) {
            Ok(index) => Ok(
                Search { index, schema, title_field, url_field, content_field, config, last_indexed },
            ),
            Err(m) => Err(ProgramError::Engine(m)),
        }
    }

    /// A volatile store over an in-memory index, with the same contracts as
    /// a persistent one.
    pub fn new_in_memory(config: Config, last_indexed: u64) -> (r: Search)
        ensures
            r.last_indexed == last_indexed && r.config == config,
    {
        let (schema, title_field, url_field, content_field) = build_schema();
        let index = open_index_ram(&schema);
        Search { index, schema, title_field, url_field, content_field, config, last_indexed }
    }

    /// The watermark: the last time at which an update committed new
    /// records, the epoch if none ever has.  Records cached at or after
    /// this time are not yet indexed.
    pub fn touch_mtime(&self) -> (r: u64)
        ensures
            r == self.last_indexed,
    {
        self.last_indexed
    }

    /// Indexes a batch of records as one atomic commit and then, and only
    /// then, advances the watermark to `now`.  An empty batch does nothing:
    /// the watermark must not move when no record was added.  On any engine
    /// failure the watermark keeps its old value and the index keeps its
    /// previous committed state.
    pub fn update(&mut self, documents: &Vec<ExtractedDoc>, now: u64) -> (r: Result<
        (),
        ProgramError,
    >)
        ensures
            final(self).index == old(self).index,
            final(self).schema == old(self).schema,
            final(self).title_field == old(self).title_field,
            final(self).url_field == old(self).url_field,
            final(self).content_field == old(self).content_field,
            final(self).config == old(self).config,
            documents@.len() == 0 ==> r is Ok && final(self).last_indexed == old(
                self,
            ).last_indexed,
            documents@.len() > 0 && r is Ok ==> final(self).last_indexed == now,
            r is Err ==> final(self).last_indexed == old(self).last_indexed && (
            r.unwrap_err() matches ProgramError::Engine(_)),
    {
        if documents.len() == 0 {
            return Ok(());
        }
        let mut writer = match index_writer(&self.index, MEMORY_BUDGET) {
            Ok(w) => w,
            Err(m) => {
                return Err(ProgramError::Engine(m));
            },
        };
        let mut i: usize = 0;
        while i < documents.len()
            invariant
                i <= documents@.len(),
                *self == *old(self),
            decreases documents@.len() - i,
        {
            match add_extracted(
                &writer,
                &self.title_field,
                &self.url_field,
                &self.content_field,
                &documents[i],
            ) {
                Ok(_) => {},
                Err(m) => {
                    return Err(ProgramError::Engine(m));
                },
            }
            i += 1;
        }
        match commit_writer(&mut writer) {
            Ok(_) => {
                self.last_indexed = now;
                Ok(())
            },
            Err(m) => Err(ProgramError::Engine(m)),
        }
    }

    /// Parses the query text against the title and content fields with the
    /// engine's default grammar and returns the stored fields of at most
    /// `TOP_K` ranked hits, best first, rendered as JSON text.  Relevance
    /// order is the engine's.
    pub fn query(&self, text: &str) -> (r: Result<Vec<String>, ProgramError>)
        ensures
            match r {
                Ok(hits) => hits@.len() <= TOP_K,
                Err(e) => e matches ProgramError::Engine(_),
            },
    {
        let searcher = match searcher_for(&self.index) {
            Ok(s) => s,
            Err(m) => {
                return Err(ProgramError::Engine(m));
            },
        };
        let addrs = match search_top(
            &searcher,
            &self.index,
            &self.title_field,
            &self.content_field,
            text,
            TOP_K,
        ) {
            Ok(a) => a,
            Err(m) => {
                return Err(ProgramError::Engine(m));
            },
        };
        let mut out: Vec<String> = Vec::new();
        let mut i: usize = 0;
        while i < addrs.len()
            invariant
                i <= addrs@.len(),
                out@.len() == i,
                addrs@.len() <= TOP_K,
            decreases addrs@.len() - i,
        {
            match retrieve_json(&searcher, &self.schema, &addrs[i]) {
                Ok(j) => {
                    out.push(j);
                },
                Err(m) => {
                    return Err(ProgramError::Engine(m));
                },
            }
            i += 1;
        }
        Ok(out)
    }
}

} // verus!
