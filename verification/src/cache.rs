use vstd::prelude::*;
use vstd::bytes::{
    lemma_auto_spec_u32_to_from_le_bytes, lemma_auto_spec_u64_to_from_le_bytes,
    spec_u32_from_le_bytes, spec_u32_to_le_bytes, spec_u64_from_le_bytes, spec_u64_to_le_bytes,
    u32_from_le_bytes, u32_to_le_bytes, u64_from_le_bytes, u64_to_le_bytes,
};
use vstd::slice::{slice_subrange, slice_to_vec};
use vstd::utf8::{decode_utf8, encode_utf8, encode_utf8_decode_utf8, encode_utf8_valid_utf8,
    valid_utf8};

use sha2::Digest;

verus! {

/// Format tag of the cache entry encoding.  An entry is usable only when the
/// version recorded in it equals this value; anything else is stale.
pub const VERSION: u32 = 1;

/// Mathematical model of a cached page.
pub ghost struct PageModel {
    pub version: u32,
    pub url: Seq<char>,
    pub content: Seq<u8>,
}

/// A raw fetched page: the format tag, the canonical source URL, and the
/// response payload.
#[derive(Debug)]
pub struct HtmlFile {
    pub version: u32,
    pub url: String,
    pub content: Vec<u8>,
}

impl View for HtmlFile {
    type V = PageModel;

    open spec fn view(&self) -> PageModel {
        PageModel { version: self.version, url: self.url@, content: self.content@ }
    }
}

// ---------------------------------------------------------------------------
// Entry encoding: version, URL and payload, each length-prefixed, so that a
// damaged or truncated entry is recognised when it is read back.
// ---------------------------------------------------------------------------

/// The byte encoding of a cache entry: a little-endian version tag, the
/// URL's UTF-8 bytes behind their length, then the payload behind its length.
pub open spec fn spec_encode(p: PageModel) -> Seq<u8> {
    spec_u32_to_le_bytes(p.version) + spec_u64_to_le_bytes(encode_utf8(p.url).len() as u64)
        + encode_utf8(p.url) + spec_u64_to_le_bytes(p.content.len() as u64) + p.content
}

/// The unique page a byte string encodes, if it encodes one: every length
/// must be consistent, nothing may trail, and the URL must be valid UTF-8.
pub open spec fn spec_decode(b: Seq<u8>) -> Option<PageModel> {
    if b.len() < 12 {
        None
    } else {
        let version = spec_u32_from_le_bytes(b.subrange(0, 4));
        let ulen = spec_u64_from_le_bytes(b.subrange(4, 12)) as int;
        if b.len() < 20 + ulen {
            None
        } else {
            let ubytes = b.subrange(12, 12 + ulen);
            let clen = spec_u64_from_le_bytes(b.subrange(12 + ulen, 20 + ulen)) as int;
            if b.len() != 20 + ulen + clen {
                None
            } else if !valid_utf8(ubytes) {
                None
            } else {
                Some(
                    PageModel {
                        version,
                        url: decode_utf8(ubytes),
                        content: b.subrange(20 + ulen, b.len() as int),
                    },
                )
            }
        }
    }
}

/// Decoding inverts encoding: the cache never confuses a well-formed entry
/// with another page.
pub proof fn lemma_encode_decode(p: PageModel)
    requires
        encode_utf8(p.url).len() <= u64::MAX,
        p.content.len() <= u64::MAX,
    ensures
        spec_decode(spec_encode(p)) == Some(p),
{
    broadcast use encode_utf8_valid_utf8, encode_utf8_decode_utf8;

    lemma_auto_spec_u32_to_from_le_bytes();
    lemma_auto_spec_u64_to_from_le_bytes();
    let b = spec_encode(p);
    let ub = encode_utf8(p.url);
    let ulen = ub.len() as int;
    let clen = p.content.len() as int;
    assert(b.len() == 20 + ulen + clen);
    assert(b.subrange(0, 4) =~= spec_u32_to_le_bytes(p.version));
    assert(b.subrange(4, 12) =~= spec_u64_to_le_bytes(ub.len() as u64));
    assert(b.subrange(12, 12 + ulen) =~= ub);
    assert(b.subrange(12 + ulen, 20 + ulen) =~= spec_u64_to_le_bytes(p.content.len() as u64));
    assert(b.subrange(20 + ulen, b.len() as int) =~= p.content);
    assert(spec_decode(b) == Some(p));
}

/// Relies on `String::from_utf8`: it succeeds exactly on valid UTF-8 input
/// and returns the string those bytes encode.
#[verifier::external_body]
pub(crate) fn bytes_to_string(b: Vec<u8>) -> (r: Option<String>)
    ensures
        match r {
            Some(s) => valid_utf8(b@) && encode_utf8(s@) == b@,
            None => !valid_utf8(b@),
        },
{
    String::from_utf8(b).ok()
}

/// Serializes a page into the entry encoding.
pub fn encode(p: &HtmlFile) -> (r: Vec<u8>)
    ensures
        r@ == spec_encode(p@),
{
    let mut out = u32_to_le_bytes(p.version);
    let ub = p.url.as_str().as_bytes();
    let mut ulen = u64_to_le_bytes(ub.len() as u64);
    out.append(&mut ulen);
    out.extend_from_slice(ub);
    let mut clen = u64_to_le_bytes(p.content.len() as u64);
    out.append(&mut clen);
    out.extend_from_slice(p.content.as_slice());
    proof {
        assert(out@ =~= spec_encode(p@));
    }
    out
}

/// Deserializes an entry, telling a well-formed encoding from damage.
pub fn decode(b: &Vec<u8>) -> (r: Option<HtmlFile>)
    ensures
        match r {
            Some(p) => spec_decode(b@) == Some(p@),
            None => spec_decode(b@) is None,
        },
{
    if b.len() < 20 {
        return None;
    }
    let s = b.as_slice();
    let version = u32_from_le_bytes(slice_subrange(s, 0, 4));
    let ulen64 = u64_from_le_bytes(slice_subrange(s, 4, 12));
    if ulen64 > (b.len() - 20) as u64 {
        return None;
    }
    let ulen = ulen64 as usize;
    let clen64 = u64_from_le_bytes(slice_subrange(s, 12 + ulen, 20 + ulen));
    if clen64 != (b.len() - 20 - ulen) as u64 {
        return None;
    }
    let ubytes = slice_to_vec(slice_subrange(s, 12, 12 + ulen));
    let url = match bytes_to_string(ubytes) {
        Some(u) => u,
        None => {
            return None;
        },
    };
    let content = slice_to_vec(slice_subrange(s, 20 + ulen, b.len()));
    proof {
        encode_utf8_decode_utf8(url@);
    }
    Some(HtmlFile { version, url, content })
}

// ---------------------------------------------------------------------------
// Content addressing: an entry's slot is the digest of its URL.
// ---------------------------------------------------------------------------

/// The SHA-256 digest of a byte string, named: it is a fixed function of its
/// input, computed by an outside crate.
pub uninterp spec fn sha256_of(data: Seq<u8>) -> Seq<u8>;

/// Relies on `sha2::Sha256`: the digest is 32 bytes long and depends on the
/// input bytes alone.
#[verifier::external_body]
fn sha256(data: &[u8]) -> (r: Vec<u8>)
    ensures
        r@ == sha256_of(data@),
        r@.len() == 32,
{
    sha2::Sha256::digest(data).to_vec()
}

/// The slot a URL is stored under: the digest of its UTF-8 bytes.
pub open spec fn key_of(url: Seq<char>) -> Seq<u8> {
    sha256_of(encode_utf8(url))
}

/// Computes a URL's cache slot.
pub fn cache_key(url: &str) -> (r: Vec<u8>)
    ensures
        r@ == key_of(url@),
        r@.len() == 32,
{
    sha256(url.as_bytes())
}

/// The lowercase hexadecimal digit for a value below 16.
pub open spec fn hex_digit(n: u8) -> char
    recommends
        n < 16,
{
    if n < 10 {
        (n + 48) as char
    } else {
        (n + 87) as char
    }
}

/// Lowercase hexadecimal rendering of a byte string, two digits per byte.
pub open spec fn hex_of(b: Seq<u8>) -> Seq<char>
    decreases b.len(),
{
    if b.len() == 0 {
        Seq::empty()
    } else {
        seq![hex_digit(b.first() / 16), hex_digit(b.first() % 16)] + hex_of(b.drop_first())
    }
}

/// Relies on `base16ct::lower::encode_string`: two lowercase hexadecimal
/// digits per input byte, in input order.  The input must leave the doubled
/// length representable, which a digest always does.
#[verifier::external_body]
fn hex_lower(b: &[u8]) -> (r: String)
    requires
        b@.len() <= usize::MAX / 2,
    ensures
        r@ == hex_of(b@),
{
    base16ct::lower::encode_string(b)
}

/// The filename-safe stem under which a URL's entry is persisted: the
/// lowercase hexadecimal form of its slot digest.
pub fn cache_file_stem(url: &str) -> (r: String)
    ensures
        r@ == hex_of(key_of(url@)),
{
    let key = cache_key(url);
    hex_lower(key.as_slice())
}

// ---------------------------------------------------------------------------
// The cache itself: one slot per URL digest, holding the raw entry bytes and
// the time they were written.
// ---------------------------------------------------------------------------

/// Mathematical model of one cache slot.
pub ghost struct EntryModel {
    pub key: Seq<u8>,
    pub data: Seq<u8>,
    pub written_at: u64,
}

/// One stored entry: the URL digest it sits under, its raw encoded bytes,
/// and when it was written.
struct CacheEntry {
    key: Vec<u8>,
    data: Vec<u8>,
    written_at: u64,
}

impl View for CacheEntry {
    type V = EntryModel;

    closed spec fn view(&self) -> EntryModel {
        EntryModel { key: self.key@, data: self.data@, written_at: self.written_at }
    }
}

/// The position of the first slot under `k`, searching from position `i`.
pub open spec fn spec_find_idx(s: Seq<EntryModel>, k: Seq<u8>, i: int) -> Option<int>
    decreases s.len() - i,
{
    if i < 0 || i >= s.len() {
        None
    } else if s[i].key == k {
        Some(i)
    } else {
        spec_find_idx(s, k, i + 1)
    }
}

/// The slot stored under `k`, if any.
pub open spec fn spec_find(s: Seq<EntryModel>, k: Seq<u8>) -> Option<EntryModel> {
    match spec_find_idx(s, k, 0) {
        Some(i) => Some(s[i]),
        None => None,
    }
}

/// The slots after `e` is stored: its slot is overwritten if present,
/// created otherwise.
pub open spec fn spec_put(s: Seq<EntryModel>, e: EntryModel) -> Seq<EntryModel> {
    match spec_find_idx(s, e.key, 0) {
        Some(i) => s.update(i, e),
        None => s.push(e),
    }
}

/// The slots after the slot under `k`, if any, is deleted.
pub open spec fn spec_remove(s: Seq<EntryModel>, k: Seq<u8>) -> Seq<EntryModel> {
    match spec_find_idx(s, k, 0) {
        Some(i) => s.remove(i),
        None => s,
    }
}

/// Raw entry bytes are usable exactly when they decode and carry the current
/// format version.
pub open spec fn page_ok(data: Seq<u8>) -> bool {
    match spec_decode(data) {
        Some(p) => p.version == VERSION,
        None => false,
    }
}

/// A URL is cached and valid when its slot holds usable bytes.
pub open spec fn spec_cache_valid(s: Seq<EntryModel>, url: Seq<char>) -> bool {
    match spec_find(s, key_of(url)) {
        Some(e) => page_ok(e.data),
        None => false,
    }
}

proof fn lemma_find_idx_props(s: Seq<EntryModel>, k: Seq<u8>, i: int)
    requires
        0 <= i <= s.len(),
    ensures
        match spec_find_idx(s, k, i) {
            Some(j) => i <= j < s.len() && s[j].key == k && (forall|l: int|
                i <= l < j ==> s[l].key != k),
            None => forall|l: int| i <= l < s.len() ==> s[l].key != k,
        },
    decreases s.len() - i,
{
    if i < s.len() && s[i].key != k {
        lemma_find_idx_props(s, k, i + 1);
    }
}

proof fn lemma_find_idx_at(s: Seq<EntryModel>, k: Seq<u8>, i: int, j: int)
    requires
        0 <= i <= j <= s.len(),
        forall|l: int| i <= l < j ==> s[l].key != k,
        j < s.len() ==> s[j].key == k,
    ensures
        spec_find_idx(s, k, i) == if j < s.len() {
            Some(j)
        } else {
            None::<int>
        },
    decreases j - i,
{
    if i < j {
        lemma_find_idx_at(s, k, i + 1, j);
    }
}

/// Storing an entry makes it the one found under its key and leaves every
/// other key's slot as it was.
pub proof fn lemma_put_find(s: Seq<EntryModel>, e: EntryModel, k: Seq<u8>)
    ensures
        spec_find(spec_put(s, e), e.key) == Some(e),
        k != e.key ==> spec_find(spec_put(s, e), k) == spec_find(s, k),
{
    lemma_find_idx_props(s, e.key, 0);
    lemma_find_idx_props(s, k, 0);
    match spec_find_idx(s, e.key, 0) {
        Some(i) => {
            let t = s.update(i, e);
            lemma_find_idx_at(t, e.key, 0, i);
            match spec_find_idx(s, k, 0) {
                Some(j) => {
                    if k != e.key {
                        lemma_find_idx_at(t, k, 0, j);
                    }
                },
                None => {
                    if k != e.key {
                        lemma_find_idx_at(t, k, 0, t.len() as int);
                    }
                },
            }
        },
        None => {
            let t = s.push(e);
            lemma_find_idx_at(t, e.key, 0, s.len() as int);
            match spec_find_idx(s, k, 0) {
                Some(j) => {
                    if k != e.key {
                        lemma_find_idx_at(t, k, 0, j);
                    }
                },
                None => {
                    if k != e.key {
                        lemma_find_idx_at(t, k, 0, t.len() as int);
                    }
                },
            }
        },
    }
}

/// Version invalidation: a slot holding an entry written under another
/// format version is not valid, so lookups report it absent and delete it.
pub proof fn lemma_version_invalidation(s: Seq<EntryModel>, url: Seq<char>, p: PageModel)
    requires
        spec_find(s, key_of(url)) matches Some(e) && e.data == spec_encode(p),
        p.version != VERSION,
        encode_utf8(p.url).len() <= u64::MAX,
        p.content.len() <= u64::MAX,
    ensures
        !spec_cache_valid(s, url),
{
    lemma_encode_decode(p);
}

/// Corruption invalidation: a slot whose bytes decode to no entry is not
/// valid, so lookups report it absent and delete it.
pub proof fn lemma_corruption_invalidation(s: Seq<EntryModel>, url: Seq<char>)
    requires
        spec_find(s, key_of(url)) matches Some(e) && spec_decode(e.data) is None,
    ensures
        !spec_cache_valid(s, url),
{
}

/// Compares two byte strings.
pub fn bytes_eq(a: &[u8], b: &[u8]) -> (r: bool)
    ensures
        r == (a@ == b@),
{
    if a.len() != b.len() {
        return false;
    }
    let mut i: usize = 0;
    while i < a.len()
        invariant
            0 <= i <= a@.len(),
            a@.len() == b@.len(),
            forall|j: int| 0 <= j < i ==> a@[j] == b@[j],
        decreases a@.len() - i,
    {
        if a[i] != b[i] {
            return false;
        }
        i += 1;
    }
    proof {
        assert(a@ =~= b@);
    }
    true
}

/// The content-addressed, versioned page cache: one slot per URL digest.
/// The persistent copy of each slot lives outside the library; the cache is
/// loaded from it and mirrored back to it slot by slot.
pub struct PageCache {
    entries: Vec<CacheEntry>,
}

impl View for PageCache {
    type V = Seq<EntryModel>;

    closed spec fn view(&self) -> Seq<EntryModel> {
        self.entries@.map_values(|e: CacheEntry| e@)
    }
}

impl PageCache {
    /// An empty cache.
    pub fn new() -> (r: PageCache)
        ensures
            r@ == Seq::<EntryModel>::empty(),
    {
        let r = PageCache { entries: Vec::new() };
        proof {
            assert(r@ =~= Seq::<EntryModel>::empty());
        }
        r
    }

    pub fn len(&self) -> (r: usize)
        ensures
            r == self@.len(),
    {
        self.entries.len()
    }

    /// The digest a slot sits under.
    pub fn entry_key(&self, i: usize) -> (r: &Vec<u8>)
        requires
            i < self@.len(),
        ensures
            r@ == self@[i as int].key,
    {
        &self.entries[i].key
    }

    /// A slot's raw entry bytes.
    pub fn entry_data(&self, i: usize) -> (r: &Vec<u8>)
        requires
            i < self@.len(),
        ensures
            r@ == self@[i as int].data,
    {
        &self.entries[i].data
    }

    /// When a slot was written.
    pub fn entry_written_at(&self, i: usize) -> (r: u64)
        requires
            i < self@.len(),
        ensures
            r == self@[i as int].written_at,
    {
        self.entries[i].written_at
    }

    fn find_index(&self, key: &Vec<u8>) -> (r: Option<usize>)
        ensures
            match r {
                Some(i) => i < self@.len() && self@.len() == self.entries@.len()
                    && spec_find_idx(self@, key@, 0) == Some(i as int),
                None => spec_find_idx(self@, key@, 0) is None,
            },
    {
        let mut i: usize = 0;
        while i < self.entries.len()
            invariant
                0 <= i <= self@.len(),
                self@.len() == self.entries@.len(),
                forall|j: int| 0 <= j < self@.len() ==> self@[j] == self.entries@[j]@,
                spec_find_idx(self@, key@, 0) == spec_find_idx(self@, key@, i as int),
            decreases self@.len() - i,
        {
            if bytes_eq(self.entries[i].key.as_slice(), key.as_slice()) {
                return Some(i);
            }
            i += 1;
        }
        None
    }

    /// Whether some slot, usable or not, sits under this key.
    pub fn contains_key(&self, key: &Vec<u8>) -> (r: bool)
        ensures
            r == (spec_find(self@, key@) is Some),
    {
        self.find_index(key).is_some()
    }

    /// Stores raw entry bytes under a key, overwriting the slot if it
    /// exists.  The persistent copy of a slot is loaded through this.
    pub fn insert_raw(&mut self, key: Vec<u8>, data: Vec<u8>, written_at: u64)
        ensures
            final(self)@ == spec_put(
                old(self)@,
                EntryModel { key: key@, data: data@, written_at },
            ),
    {
        let entry = CacheEntry { key, data, written_at };
        match self.find_index(&entry.key) {
            Some(i) => {
                self.entries.remove(i);
                self.entries.insert(i, entry);
                proof {
                    assert(self@ =~= spec_put(old(self)@, entry@));
                }
            },
            None => {
                self.entries.push(entry);
                proof {
                    assert(self@ =~= spec_put(old(self)@, entry@));
                }
            },
        }
    }

    /// Serializes and stores a page at its URL's slot, overwriting any prior
    /// entry for the same URL; `now` records the write time.
    pub fn put(&mut self, page: &HtmlFile, now: u64)
        ensures
            final(self)@ == spec_put(
                old(self)@,
                EntryModel {
                    key: key_of(page.url@),
                    data: spec_encode(page@),
                    written_at: now,
                },
            ),
    {
        let key = cache_key(page.url.as_str());
        let data = encode(page);
        self.insert_raw(key, data, now);
    }

    /// Looks a URL up.  A slot whose bytes are damaged or carry an old
    /// format version is deleted and reported as absent, which forces a
    /// re-fetch; a caller never sees the difference between "never fetched"
    /// and "fetched but invalidated".
    pub fn get(&mut self, url: &str) -> (r: Option<HtmlFile>)
        ensures
            ({
                let k = key_of(url@);
                match spec_find(old(self)@, k) {
                    None => r is None && final(self)@ == old(self)@,
                    Some(e) => if page_ok(e.data) {
                        &&& r is Some
                        &&& spec_decode(e.data) == Some(r.unwrap()@)
                        &&& final(self)@ == old(self)@
                    } else {
                        r is None && final(self)@ == spec_remove(old(self)@, k)
                    },
                }
            }),
    {
        let key = cache_key(url);
        match self.find_index(&key) {
            None => None,
            Some(i) => {
                let page = decode(&self.entries[i].data);
                match page {
                    Some(p) => {
                        if p.version == VERSION {
                            Some(p)
                        } else {
                            self.entries.remove(i);
                            proof {
                                assert(self@ =~= old(self)@.remove(i as int));
                            }
                            None
                        }
                    },
                    None => {
                        self.entries.remove(i);
                        proof {
                            assert(self@ =~= old(self)@.remove(i as int));
                        }
                        None
                    },
                }
            },
        }
    }

    /// Reports whether a URL is cached and valid, without returning the
    /// payload; an unusable slot is deleted as a side effect, as in `get`.
    pub fn exists_and_valid(&mut self, url: &str) -> (r: bool)
        ensures
            r == spec_cache_valid(old(self)@, url@),
            ({
                let k = key_of(url@);
                if spec_cache_valid(old(self)@, url@) || spec_find(old(self)@, k) is None {
                    final(self)@ == old(self)@
                } else {
                    final(self)@ == spec_remove(old(self)@, k)
                }
            }),
    {
        self.get(url).is_some()
    }
}

} // verus!
