//! The state of the language server and its decisions: the open documents,
//! kept compressed; the diagnostics cached per document; the memory they take;
//! the rulesets and the reporter's path. Every operation takes the outcome of
//! the outside work it depends on as an argument and tells what to do next.

use vstd::prelude::*;
use vstd::utf8::*;
use vstd::string::*;
use vstd::hash_map::StringHashMap;
use vstd::wrapping::usize_specs;
use vstd::arithmetic::div_mod::{lemma_add_mod_noop, lemma_sub_mod_noop, lemma_small_mod, lemma_mod_add_multiples_vanish};
use crate::codec::{lz4_block, sha256, compress_prepend_size, decompress_size_prepended, sha256_digest, string_from_utf8};
use crate::text::{hex_lower, to_hex_lower, bytes_end_with, str_ends_with, lemma_hex_lower_len};
use crate::report::{Diagnostic, copy_diagnostics, extend_with_copies};
use crate::config::{select_config, is_first_present};
use crate::json::{JsonValue, field, at_key, string_of};

verus! {

broadcast use {encode_utf8_decode_utf8, encode_utf8_valid_utf8};

/// A document as the server keeps it: always one made from a text by
/// `compress_document`.
pub struct CompressedDocument {
    /// The UTF-8 bytes of the text, compressed as an LZ4 block that starts
    /// with the length of the text.
    compressed_data: Vec<u8>,
    /// The length in bytes of the text.
    original_size: usize,
    /// The SHA-256 digest of the text, in lower-case hexadecimal.
    checksum: String,
}

/// What a stored document holds.
pub struct DocumentView {
    pub compressed: Seq<u8>,
    pub original_size: usize,
    pub checksum: Seq<char>,
}

impl View for CompressedDocument {
    type V = DocumentView;

    closed spec fn view(&self) -> DocumentView {
        DocumentView {
            compressed: self.compressed_data@,
            original_size: self.original_size,
            checksum: self.checksum@,
        }
    }
}

impl CompressedDocument {
    /// Every stored document holds some text.
    #[verifier::type_invariant]
    closed spec fn holds_a_text(self) -> bool {
        exists|t: Seq<char>| #[trigger] stores(self, t)
    }

    /// The SHA-256 digest of the text, in lower-case hexadecimal.
    pub fn checksum(&self) -> (r: &str)
        ensures
            r@ == self@.checksum,
    {
        self.checksum.as_str()
    }

    /// The length in bytes of the text.
    pub fn original_size(&self) -> (r: usize)
        ensures
            r == self@.original_size,
    {
        self.original_size
    }

    /// The length in bytes of the compressed text.
    pub fn compressed_len(&self) -> (r: usize)
        ensures
            r == self@.compressed.len(),
    {
        self.compressed_data.len()
    }
}

/// The diagnostics last produced for a document.
pub struct CachedResults {
    pub diagnostics: Vec<Diagnostic>,
    /// The identifier handed to the editor with these diagnostics.
    pub result_id: String,
    /// The checksum of the document they were produced for.
    pub content_checksum: String,
}

/// Why a stored document could not be read back.
#[derive(Debug, Clone, Copy, PartialEq, Eq, Structural)]
pub enum DocumentError {
    Decompression,
    Utf8,
}

/// The settings the editor sends under `mago`.
#[derive(Debug, Clone, PartialEq, Eq)]
pub struct MagoSettings {
    pub rulesets: Option<String>,
}

/// The options the editor extension passes when the server starts.
#[derive(Debug, Clone, PartialEq, Eq)]
pub struct InitializationOptions {
    pub rulesets: Option<String>,
}

/// The answer to a request for a document's diagnostics.
pub enum DiagnosticReport {
    /// The editor already holds the current diagnostics.
    Unchanged { result_id: String },
    /// The diagnostics, with the identifier of this result where there is one.
    Full { result_id: Option<String>, items: Vec<Diagnostic> },
}

/// What the editor integration does next while answering a request for
/// diagnostics.
pub enum DiagnosticStep {
    /// Answer with this report.
    Done(DiagnosticReport),
    /// The document is not held: read it from the file at `path`.
    ReadFromDisk { path: String },
    /// Run the reporter's `lint` and `analyze` commands on `content`, the
    /// text of the file at `path`, whose checksum is `version_id`.
    Analyze { path: String, content: String, version_id: String },
}

/// How running the reporter on a document went.
pub enum AnalysisOutcome {
    /// The text could not be written to a temporary file.
    TempFileFailed,
    /// The `lint` and `analyze` runs finished; `None` for a run that failed.
    Finished { lint: Option<Vec<Diagnostic>>, analyze: Option<Vec<Diagnostic>> },
}

/// The abstract state of the server.
#[verifier::ext_equal]
pub struct ServerState {
    pub docs: Map<Seq<char>, CompressedDocument>,
    pub cache: Map<Seq<char>, CachedResults>,
    pub memory: usize,
    pub rulesets: Option<Seq<char>>,
    pub mago_path: Option<Seq<char>>,
}

/// The state of the language server.
pub struct MagoLanguageServer {
    open_docs: StringHashMap<CompressedDocument>,
    results_cache: StringHashMap<CachedResults>,
    total_memory_usage: usize,
    rulesets: Option<String>,
    mago_path: Option<String>,
}

/// The view of an optional string.
pub open spec fn opt_view(s: Option<String>) -> Option<Seq<char>> {
    match s {
        Some(x) => Some(x@),
        None => None,
    }
}

impl View for MagoLanguageServer {
    type V = ServerState;

    closed spec fn view(&self) -> ServerState {
        ServerState {
            docs: self.open_docs@,
            cache: self.results_cache@,
            memory: self.total_memory_usage,
            rulesets: opt_view(self.rulesets),
            mago_path: opt_view(self.mago_path),
        }
    }
}

/// The number of values a `usize` takes: memory counts wrap around it.
pub open spec fn usize_range() -> int {
    usize::MAX as int + 1
}

/// The total of the compressed sizes of the documents in `docs`.
pub open spec fn compressed_total(docs: Map<Seq<char>, CompressedDocument>) -> int
    decreases docs.dom().len(),
    when docs.dom().finite()
{
    if docs.dom().len() == 0 {
        0
    } else {
        let k = docs.dom().choose();
        docs[k]@.compressed.len() + compressed_total(docs.remove(k))
    }
}

/// The memory count is the total of the compressed sizes of the held
/// documents, wrapped to a `usize`.
pub open spec fn memory_accounted(s: ServerState) -> bool {
    &&& s.docs.dom().finite()
    &&& s.memory as int == compressed_total(s.docs) % usize_range()
}

/// Every cached result carries as its identifier the checksum of the text it
/// was cached for, unless it was cached while no document was held (its
/// checksum is then `unknown`).
pub open spec fn cache_ids_consistent(s: ServerState) -> bool {
    forall|u: Seq<char>| #[trigger] s.cache.contains_key(u) && s.cache[u].content_checksum@ != "unknown"@
        ==> s.cache[u].result_id@ == s.cache[u].content_checksum@
}

proof fn lemma_total_remove(docs: Map<Seq<char>, CompressedDocument>, k: Seq<char>)
    requires
        docs.dom().finite(),
        docs.dom().contains(k),
    ensures
        compressed_total(docs) == docs[k]@.compressed.len() + compressed_total(docs.remove(k)),
    decreases docs.dom().len(),
{
    assert(docs.dom().remove(k).len() == docs.dom().len() - 1);
    assert(docs.dom().len() != 0);
    let c = docs.dom().choose();
    assert(docs.dom().contains(c));
    if c != k {
        assert(docs.remove(c).dom() =~= docs.dom().remove(c));
        assert(docs.remove(k).dom() =~= docs.dom().remove(k));
        lemma_total_remove(docs.remove(c), k);
        lemma_total_remove(docs.remove(k), c);
        assert(docs.remove(c).remove(k) =~= docs.remove(k).remove(c));
    } else {
        assert(docs.remove(c) =~= docs.remove(k));
    }
}

proof fn lemma_total_insert(docs: Map<Seq<char>, CompressedDocument>, k: Seq<char>, v: CompressedDocument)
    requires
        docs.dom().finite(),
    ensures
        docs.insert(k, v).dom().finite(),
        compressed_total(docs.insert(k, v)) == v@.compressed.len() + compressed_total(docs.remove(k)),
{
    let m = docs.insert(k, v);
    assert(m.dom() =~= docs.dom().insert(k));
    lemma_total_remove(m, k);
    assert(m.remove(k) =~= docs.remove(k));
}

proof fn lemma_total_absent(docs: Map<Seq<char>, CompressedDocument>, k: Seq<char>)
    requires
        docs.dom().finite(),
        !docs.dom().contains(k),
    ensures
        docs.remove(k) == docs,
{
    assert(docs.remove(k) =~= docs);
}

proof fn lemma_insert_keeps_accounting(before: ServerState, after: ServerState, uri: Seq<char>, d: CompressedDocument)
    requires
        memory_accounted(before),
        d@.compressed.len() <= usize::MAX,
        before.docs.contains_key(uri) ==> before.docs[uri]@.compressed.len() <= usize::MAX,
        after.docs == before.docs.insert(uri, d),
        after.memory == usize_specs::wrapping_add(
            if before.docs.contains_key(uri) {
                usize_specs::wrapping_sub(before.memory, before.docs[uri]@.compressed.len() as usize)
            } else {
                before.memory
            },
            d@.compressed.len() as usize,
        ),
    ensures
        memory_accounted(after),
{
    lemma_total_insert(before.docs, uri, d);
    let t = compressed_total(before.docs);
    if before.docs.contains_key(uri) {
        lemma_total_remove(before.docs, uri);
        let n = before.docs[uri]@.compressed.len() as usize;
        lemma_wrap_sub(before.memory, n, t);
        lemma_wrap_add(usize_specs::wrapping_sub(before.memory, n), d@.compressed.len() as usize, t - n);
    } else {
        lemma_total_absent(before.docs, uri);
        lemma_wrap_add(before.memory, d@.compressed.len() as usize, t);
    }
}

proof fn lemma_remove_keeps_accounting(before: ServerState, after: ServerState, uri: Seq<char>)
    requires
        memory_accounted(before),
        before.docs.contains_key(uri) ==> before.docs[uri]@.compressed.len() <= usize::MAX,
        after.docs == before.docs.remove(uri),
        after.memory == if before.docs.contains_key(uri) {
            usize_specs::wrapping_sub(before.memory, before.docs[uri]@.compressed.len() as usize)
        } else {
            before.memory
        },
    ensures
        memory_accounted(after),
{
    assert(after.docs.dom() =~= before.docs.dom().remove(uri));
    if before.docs.contains_key(uri) {
        lemma_total_remove(before.docs, uri);
        lemma_wrap_sub(before.memory, before.docs[uri]@.compressed.len() as usize, compressed_total(before.docs));
    } else {
        lemma_total_absent(before.docs, uri);
    }
}

proof fn lemma_empty_accounted(s: ServerState)
    requires
        s.docs == Map::<Seq<char>, CompressedDocument>::empty(),
        s.memory == 0,
    ensures
        memory_accounted(s),
{
    assert(s.docs.dom() =~= Set::<Seq<char>>::empty());
    assert(compressed_total(s.docs) == 0);
}

proof fn lemma_wrap_add(a: usize, n: usize, t: int)
    requires
        a as int == t % usize_range(),
    ensures
        usize_specs::wrapping_add(a, n) as int == (t + n) % usize_range(),
{
    let m = usize_range();
    lemma_add_mod_noop(t, n as int, m);
    lemma_small_mod(n as nat, m as nat);
    if a + n < m {
        lemma_small_mod((a + n) as nat, m as nat);
    } else {
        lemma_mod_add_multiples_vanish(a + n - m, m);
        lemma_small_mod((a + n - m) as nat, m as nat);
    }
}

proof fn lemma_wrap_sub(a: usize, n: usize, t: int)
    requires
        a as int == t % usize_range(),
    ensures
        usize_specs::wrapping_sub(a, n) as int == (t - n) % usize_range(),
{
    let m = usize_range();
    lemma_sub_mod_noop(t, n as int, m);
    lemma_small_mod(n as nat, m as nat);
    if a - n >= 0 {
        lemma_small_mod((a - n) as nat, m as nat);
    } else {
        lemma_mod_add_multiples_vanish(a - n, m);
        lemma_small_mod((a - n + m) as nat, m as nat);
    }
}

/// A text that can be stored: its UTF-8 length fits in the `u32` the
/// compressed block starts with, and within the bound that the compressor
/// computes its output size from.
pub open spec fn storable(text: Seq<char>) -> bool {
    &&& encode_utf8(text).len() <= u32::MAX
    &&& encode_utf8(text).len() <= usize::MAX / 110
}

/// `doc` holds `text`: the compressed UTF-8 bytes of the text, their length
/// and their checksum.
pub open spec fn stores(doc: CompressedDocument, text: Seq<char>) -> bool {
    let bytes = encode_utf8(text);
    &&& storable(text)
    &&& doc@.compressed == lz4_block(bytes)
    &&& doc@.original_size == bytes.len()
    &&& doc@.checksum == hex_lower(sha256(bytes))
}

/// The report with no diagnostics and no identifier.
pub open spec fn is_empty_report(r: DiagnosticReport) -> bool {
    r matches DiagnosticReport::Full { result_id: None, items } && items@.len() == 0
}

/// The step that answers with the empty report.
pub open spec fn is_empty_step(s: DiagnosticStep) -> bool {
    s matches DiagnosticStep::Done(r) && is_empty_report(r)
}

/// What the server does with a stored document `doc` of the file at `path`:
/// answer with the empty report where its text is empty; otherwise analyze
/// its text under its checksum.
pub open spec fn document_step(doc: CompressedDocument, path: Seq<char>, step: DiagnosticStep) -> bool {
    forall|text: Seq<char>| #[trigger] stores(doc, text) ==> if text.len() == 0 {
        is_empty_step(step)
    } else {
        step matches DiagnosticStep::Analyze { path: p, content, version_id }
            && p@ == path && content@ == text && version_id@ == doc@.checksum
    }
}

/// The cached diagnostics of `uri` were produced for the document now held.
pub open spec fn cache_fresh(s: ServerState, uri: Seq<char>) -> bool {
    &&& s.cache.contains_key(uri)
    &&& s.docs.contains_key(uri)
    &&& s.cache[uri].content_checksum@ == s.docs[uri]@.checksum
}

/// The answer from cached results `c` to an editor that holds the result
/// `previous`: unchanged when it holds these results; otherwise the cached
/// diagnostics under their identifier.
pub open spec fn cached_step(c: CachedResults, previous: Option<String>, step: DiagnosticStep) -> bool {
    if previous matches Some(p) && p@ == c.result_id@ {
        step matches DiagnosticStep::Done(DiagnosticReport::Unchanged { result_id }) && result_id@ == c.result_id@
    } else {
        step matches DiagnosticStep::Done(DiagnosticReport::Full { result_id: Some(id), items })
            && id@ == c.result_id@ && items@ == c.diagnostics@
    }
}

/// `s` with the cached diagnostics of `uri` dropped.
pub open spec fn without_cache_entry(s: ServerState, uri: Seq<char>) -> ServerState {
    ServerState { cache: s.cache.remove(uri), ..s }
}

/// A ruleset value names a configuration file when it ends in `.toml`,
/// `.yaml` or `.json`.
pub open spec fn names_config_file(r: Seq<char>) -> bool {
    ||| bytes_end_with(encode_utf8(r), encode_utf8(".toml"@))
    ||| bytes_end_with(encode_utf8(r), encode_utf8(".yaml"@))
    ||| bytes_end_with(encode_utf8(r), encode_utf8(".json"@))
}

/// The arguments the reporter is run with for `command` on the file at
/// `file_path`: the configuration file first, where the rulesets name one,
/// then the command, JSON reporting and reading the text from standard input.
pub open spec fn reporter_args(rulesets: Option<Seq<char>>, command: Seq<char>, file_path: Seq<char>) -> Seq<Seq<char>> {
    let tail = seq![command, "--reporting-format"@, "json"@, "--stdin-input"@, file_path];
    match rulesets {
        Some(r) => if names_config_file(r) { seq!["--config"@, r] + tail } else { tail },
        None => tail,
    }
}

/// The rulesets after a change of settings: those under `mago`, where the
/// settings are an object with such an entry and it parses with rulesets; then
/// a string under `rulesets`, which takes precedence.
pub open spec fn configured_rulesets(current: Option<Seq<char>>, settings: JsonValue, mago_settings: Option<MagoSettings>) -> Option<Seq<char>> {
    match settings {
        JsonValue::Object(_) => {
            let after_mago = match mago_settings {
                Some(ms) => match ms.rulesets {
                    Some(r) => if field(settings, "mago"@) is Some { Some(r@) } else { current },
                    None => current,
                },
                None => current,
            };
            match string_of(at_key(settings, "rulesets"@)) {
                Some(r) => Some(r),
                None => after_mago,
            }
        },
        _ => current,
    }
}

/// Tells whether a ruleset value names a configuration file.
pub fn is_config_path(r: &str) -> (b: bool)
    ensures
        b == names_config_file(r@),
{
    str_ends_with(r, ".toml") || str_ends_with(r, ".yaml") || str_ends_with(r, ".json")
}

/// The report with no diagnostics and no identifier.
pub fn empty_report() -> (r: DiagnosticReport)
    ensures
        is_empty_report(r),
{
    DiagnosticReport::Full { result_id: None, items: Vec::new() }
}

impl MagoLanguageServer {
    /// A server with no documents, no cached diagnostics, default rulesets and
    /// the reporter's path not yet looked up.
    pub fn new() -> (s: Self)
        ensures
            s@.docs.is_empty(),
            s@.cache.is_empty(),
            s@.memory == 0,
            s@.rulesets is None,
            s@.mago_path is None,
            memory_accounted(s@),
            cache_ids_consistent(s@),
    {
        let s = MagoLanguageServer {
            open_docs: StringHashMap::with_capacity(100),
            results_cache: StringHashMap::with_capacity(100),
            total_memory_usage: 0,
            rulesets: None,
            mago_path: None,
        };
        proof {
            lemma_empty_accounted(s@);
        }
        s
    }

    /// The number of documents held.
    pub fn document_count(&self) -> (n: usize)
        ensures
            n == self@.docs.len(),
    {
        self.open_docs.len()
    }

    /// The number of documents with cached diagnostics.
    pub fn cached_count(&self) -> (n: usize)
        ensures
            n == self@.cache.len(),
    {
        self.results_cache.len()
    }

    /// The bytes the compressed documents are counted to take.
    pub fn memory_usage(&self) -> (n: usize)
        ensures
            n == self@.memory,
    {
        self.total_memory_usage
    }

    /// The rulesets in use, `None` for Mago's defaults.
    pub fn rulesets(&self) -> (r: Option<&str>)
        ensures
            match r {
                Some(x) => self@.rulesets == Some(x@),
                None => self@.rulesets is None,
            },
    {
        match &self.rulesets {
            Some(r) => Some(r.as_str()),
            None => None,
        }
    }

    /// Compresses `content`, computes its checksum, and counts the compressed
    /// bytes in the memory in use.
    pub fn compress_document(&mut self, content: &str) -> (doc: CompressedDocument)
        requires
            storable(content@),
        ensures
            stores(doc, content@),
            doc@.compressed.len() <= usize::MAX,
            final(self)@ == (ServerState {
                memory: usize_specs::wrapping_add(old(self)@.memory, doc@.compressed.len() as usize),
                ..old(self)@
            }),
    {
        let bytes = content.as_bytes();
        let compressed_data = compress_prepend_size(bytes);
        let compressed_size = compressed_data.len();
        let digest = sha256_digest(bytes);
        let checksum = to_hex_lower(digest.as_slice());
        self.total_memory_usage = self.total_memory_usage.wrapping_add(compressed_size);
        let original_size = bytes.len();
        assert(stores(CompressedDocument { compressed_data, original_size, checksum }, content@));
        CompressedDocument { compressed_data, original_size, checksum }
    }

    /// Reads a stored document back as text: the text it was made from. (The
    /// errors arise only for blocks that the compressor did not make, which
    /// no stored document holds.)
    pub fn decompress_document(&self, doc: &CompressedDocument) -> (r: Result<String, DocumentError>)
        ensures
            r matches Ok(s) && stores(*doc, s@),
            forall|t: Seq<char>| #[trigger] stores(*doc, t) ==> (r matches Ok(s) && s@ == t),
    {
        proof {
            use_type_invariant(doc);
        }
        let ghost text = choose|t: Seq<char>| stores(*doc, t);
        assert(lz4_block(encode_utf8(text)) == doc.compressed_data@ && encode_utf8(text).len() <= u32::MAX);
        match decompress_size_prepended(doc.compressed_data.as_slice()) {
            Err(_) => Err(DocumentError::Decompression),
            Ok(bytes) => {
                let ghost b = bytes@;
                proof {
                    assert forall|t: Seq<char>| #[trigger] stores(*doc, t) implies encode_utf8(t) == b by {
                        assert(lz4_block(encode_utf8(t)) == doc.compressed_data@);
                    }
                }
                match string_from_utf8(bytes) {
                    Some(s) => {
                        assert(decode_utf8(encode_utf8(s@)) == s@);
                        assert forall|t: Seq<char>| #[trigger] stores(*doc, t) implies s@ == t by {
                            assert(decode_utf8(encode_utf8(t)) == t);
                        }
                        Ok(s)
                    },
                    None => Err(DocumentError::Utf8),
                }
            },
        }
    }

    /// The step for a stored document `doc` of the file at `path`.
    fn step_from_document(&self, doc: &CompressedDocument, path: String) -> (step: DiagnosticStep)
        ensures
            document_step(*doc, path@, step),
    {
        match self.decompress_document(doc) {
            Err(_) => DiagnosticStep::Done(empty_report()),
            Ok(content) => {
                if content.as_str().is_empty() {
                    DiagnosticStep::Done(empty_report())
                } else {
                    DiagnosticStep::Analyze { path, content, version_id: doc.checksum.clone() }
                }
            },
        }
    }

    /// Starts answering a request for the diagnostics of `uri`, whose file
    /// path is `file_path` (`None` where the URI names no file, or the path is
    /// not valid Unicode), from an editor that holds the result
    /// `previous_result_id`. Cached diagnostics are served while they belong
    /// to the document held; stale ones are dropped. Otherwise the held
    /// document is read back and handed to the reporter, or the file is read
    /// from disk where the document is not held.
    pub fn diagnostic(&mut self, uri: &str, file_path: Option<String>, previous_result_id: Option<String>) -> (step: DiagnosticStep)
        ensures
            file_path is None ==> is_empty_step(step) && final(self)@ == old(self)@,
            file_path matches Some(path) ==> if cache_fresh(old(self)@, uri@) {
                &&& final(self)@ == old(self)@
                &&& cached_step(old(self)@.cache[uri@], previous_result_id, step)
            } else {
                &&& final(self)@ == without_cache_entry(old(self)@, uri@)
                &&& if old(self)@.docs.contains_key(uri@) {
                    document_step(old(self)@.docs[uri@], path@, step)
                } else {
                    step matches DiagnosticStep::ReadFromDisk { path: p } && p@ == path@
                }
            },
            memory_accounted(old(self)@) ==> memory_accounted(final(self)@),
            cache_ids_consistent(old(self)@) ==> cache_ids_consistent(final(self)@),
    {
        let path = match file_path {
            None => return DiagnosticStep::Done(empty_report()),
            Some(p) => p,
        };
        let current_checksum: Option<String> = match self.open_docs.get(uri) {
            Some(d) => Some(d.checksum.clone()),
            None => None,
        };
        let mut stale = false;
        match self.results_cache.get(uri) {
            Some(cached) => {
                match &current_checksum {
                    Some(c) => {
                        if cached.content_checksum == *c {
                            match &previous_result_id {
                                Some(prev) => {
                                    if *prev == cached.result_id {
                                        return DiagnosticStep::Done(
                                            DiagnosticReport::Unchanged { result_id: cached.result_id.clone() },
                                        );
                                    }
                                },
                                None => {},
                            }
                            return DiagnosticStep::Done(DiagnosticReport::Full {
                                result_id: Some(cached.result_id.clone()),
                                items: copy_diagnostics(&cached.diagnostics),
                            });
                        } else {
                            stale = true;
                        }
                    },
                    None => {
                        stale = true;
                    },
                }
            },
            None => {},
        }
        if stale {
            self.results_cache.remove(uri);
        } else {
            assert(self.results_cache@.remove(uri@) =~= self.results_cache@);
        }
        match self.open_docs.get(uri) {
            Some(doc) => self.step_from_document(doc, path),
            None => DiagnosticStep::ReadFromDisk { path },
        }
    }

    /// Continues after the file at `path` was read from disk for `uri`:
    /// `disk` is its text, or `None` where reading failed. A text that was
    /// read is stored as the document of `uri` and handled as a held one.
    pub fn diagnostic_with_disk_content(&mut self, uri: &str, path: String, disk: Option<String>) -> (step: DiagnosticStep)
        requires
            disk matches Some(t) ==> storable(t@),
        ensures
            disk is None ==> is_empty_step(step) && final(self)@ == old(self)@,
            disk matches Some(text) ==> {
                let doc = final(self)@.docs[uri@];
                &&& stores(doc, text@)
                &&& document_step(doc, path@, step)
                &&& final(self)@ == (ServerState {
                    docs: old(self)@.docs.insert(uri@, doc),
                    memory: usize_specs::wrapping_add(old(self)@.memory, doc@.compressed.len() as usize),
                    ..old(self)@
                })
            },
            memory_accounted(old(self)@) && !old(self)@.docs.contains_key(uri@) ==> memory_accounted(final(self)@),
            cache_ids_consistent(old(self)@) ==> cache_ids_consistent(final(self)@),
    {
        match disk {
            None => DiagnosticStep::Done(empty_report()),
            Some(text) => {
                let ghost before = self@;
                let doc = self.compress_document(text.as_str());
                let step = self.step_from_document(&doc, path);
                let ghost d = doc;
                self.open_docs.insert(uri.to_owned(), doc);
                proof {
                    if memory_accounted(before) && !before.docs.contains_key(uri@) {
                        lemma_insert_keeps_accounting(before, self@, uri@, d);
                    }
                }
                step
            },
        }
    }

    /// Finishes answering a request for the diagnostics of `uri` once the
    /// reporter ran on the text whose checksum is `version_id`. Where both
    /// runs succeeded, their diagnostics, `lint` first, are cached under
    /// `version_id` for the checksum of the document now held (`unknown` where
    /// none is) and returned. Otherwise the answer is the empty report. The
    /// second part of the result tells whether the temporary file is to be
    /// removed: so whenever it was written. Cached results keep carrying the
    /// checksums they were cached for where `version_id` is the checksum of
    /// the document held, as it is for the text the analysis step handed out
    /// while nothing changed since.
    pub fn diagnostic_finish(&mut self, uri: &str, version_id: String, outcome: AnalysisOutcome) -> (r: (DiagnosticReport, bool))
        ensures
            match outcome {
                AnalysisOutcome::TempFileFailed => is_empty_report(r.0) && !r.1 && final(self)@ == old(self)@,
                AnalysisOutcome::Finished { lint: Some(l), analyze: Some(a) } => {
                    let c = final(self)@.cache[uri@];
                    &&& r.1
                    &&& r.0 matches DiagnosticReport::Full { result_id: Some(id), items }
                    &&& id@ == version_id@
                    &&& items@ == l@ + a@
                    &&& c.diagnostics@ == l@ + a@
                    &&& c.result_id@ == version_id@
                    &&& c.content_checksum@ == if old(self)@.docs.contains_key(uri@) {
                        old(self)@.docs[uri@]@.checksum
                    } else {
                        "unknown"@
                    }
                    &&& final(self)@ == (ServerState { cache: old(self)@.cache.insert(uri@, c), ..old(self)@ })
                },
                _ => is_empty_report(r.0) && r.1 && final(self)@ == old(self)@,
            },
            memory_accounted(old(self)@) ==> memory_accounted(final(self)@),
            cache_ids_consistent(old(self)@)
                && (old(self)@.docs.contains_key(uri@) ==> version_id@ == old(self)@.docs[uri@]@.checksum)
                ==> cache_ids_consistent(final(self)@),
    {
        match outcome {
            AnalysisOutcome::TempFileFailed => (empty_report(), false),
            AnalysisOutcome::Finished { lint, analyze } => {
                match (lint, analyze) {
                    (Some(l), Some(a)) => {
                        let mut diagnostics = l;
                        extend_with_copies(&mut diagnostics, &a);
                        let content_checksum = match self.open_docs.get(uri) {
                            Some(d) => d.checksum.clone(),
                            None => String::from_str("unknown"),
                        };
                        let cached = CachedResults {
                            diagnostics: copy_diagnostics(&diagnostics),
                            result_id: version_id.clone(),
                            content_checksum,
                        };
                        self.results_cache.insert(uri.to_owned(), cached);
                        (DiagnosticReport::Full { result_id: Some(version_id), items: diagnostics }, true)
                    },
                    _ => (empty_report(), true),
                }
            },
        }
    }

    /// Stores the text of a document the editor opened, replacing what was
    /// held for `uri`, and drops its cached diagnostics. The compressed bytes
    /// are counted in the memory in use.
    pub fn did_open(&mut self, uri: &str, text: &str)
        requires
            storable(text@),
        ensures
            ({
                let doc = final(self)@.docs[uri@];
                &&& stores(doc, text@)
                &&& final(self)@ == (ServerState {
                    docs: old(self)@.docs.insert(uri@, doc),
                    cache: old(self)@.cache.remove(uri@),
                    memory: usize_specs::wrapping_add(old(self)@.memory, doc@.compressed.len() as usize),
                    ..old(self)@
                })
            }),
            memory_accounted(old(self)@) && !old(self)@.docs.contains_key(uri@) ==> memory_accounted(final(self)@),
            cache_ids_consistent(old(self)@) ==> cache_ids_consistent(final(self)@),
    {
        let ghost before = self@;
        let doc = self.compress_document(text);
        let ghost d = doc;
        self.open_docs.insert(uri.to_owned(), doc);
        self.results_cache.remove(uri);
        proof {
            if memory_accounted(before) && !before.docs.contains_key(uri@) {
                lemma_insert_keeps_accounting(before, self@, uri@, d);
            }
        }
    }

    /// Handles a change of a document, whose full new text is `text` (`None`
    /// where the editor sent no change, which changes nothing): the bytes of
    /// the text held before are no longer counted, the new text is stored and
    /// counted, and the cached diagnostics of `uri` are dropped.
    pub fn did_change(&mut self, uri: &str, text: Option<&str>)
        requires
            text matches Some(t) ==> storable(t@),
        ensures
            text is None ==> final(self)@ == old(self)@,
            text matches Some(t) ==> {
                let doc = final(self)@.docs[uri@];
                let released = if old(self)@.docs.contains_key(uri@) {
                    usize_specs::wrapping_sub(old(self)@.memory, old(self)@.docs[uri@]@.compressed.len() as usize)
                } else {
                    old(self)@.memory
                };
                &&& stores(doc, t@)
                &&& final(self)@ == (ServerState {
                    docs: old(self)@.docs.insert(uri@, doc),
                    cache: old(self)@.cache.remove(uri@),
                    memory: usize_specs::wrapping_add(released, doc@.compressed.len() as usize),
                    ..old(self)@
                })
            },
            memory_accounted(old(self)@) ==> memory_accounted(final(self)@),
            cache_ids_consistent(old(self)@) ==> cache_ids_consistent(final(self)@),
    {
        match text {
            None => {},
            Some(t) => {
                let ghost before = self@;
                let old_size = match self.open_docs.get(uri) {
                    Some(doc) => Some(doc.compressed_data.len()),
                    None => None,
                };
                match old_size {
                    Some(size) => {
                        self.total_memory_usage = self.total_memory_usage.wrapping_sub(size);
                    },
                    None => {},
                }
                let doc = self.compress_document(t);
                let ghost d = doc;
                self.open_docs.insert(uri.to_owned(), doc);
                self.results_cache.remove(uri);
                proof {
                    if memory_accounted(before) {
                        lemma_insert_keeps_accounting(before, self@, uri@, d);
                    }
                }
            },
        }
    }

    /// Forgets a document the editor closed and its cached diagnostics. The
    /// result is the number of compressed bytes freed, `None` where no
    /// document was held.
    pub fn did_close(&mut self, uri: &str) -> (freed: Option<usize>)
        ensures
            old(self)@.docs.contains_key(uri@) ==> freed == Some(old(self)@.docs[uri@]@.compressed.len() as usize),
            !old(self)@.docs.contains_key(uri@) ==> freed is None,
            final(self)@ == (ServerState {
                docs: old(self)@.docs.remove(uri@),
                cache: old(self)@.cache.remove(uri@),
                memory: match freed {
                    Some(n) => usize_specs::wrapping_sub(old(self)@.memory, n),
                    None => old(self)@.memory,
                },
                ..old(self)@
            }),
            memory_accounted(old(self)@) ==> memory_accounted(final(self)@),
            cache_ids_consistent(old(self)@) ==> cache_ids_consistent(final(self)@),
    {
        let ghost before = self@;
        let freed = match self.open_docs.get(uri) {
            Some(doc) => Some(doc.compressed_data.len()),
            None => None,
        };
        match freed {
            Some(n) => {
                self.open_docs.remove(uri);
                self.total_memory_usage = self.total_memory_usage.wrapping_sub(n);
            },
            None => {
                assert(self.open_docs@.remove(uri@) =~= self.open_docs@);
            },
        }
        self.results_cache.remove(uri);
        proof {
            if memory_accounted(before) {
                lemma_remove_keeps_accounting(before, self@, uri@);
            }
        }
        freed
    }

    /// Drops every document and every cached diagnostic, and counts no memory
    /// in use.
    pub fn shutdown(&mut self)
        ensures
            final(self)@ == (ServerState {
                docs: Map::empty(),
                cache: Map::empty(),
                memory: 0,
                ..old(self)@
            }),
            memory_accounted(old(self)@) ==> memory_accounted(final(self)@),
            cache_ids_consistent(old(self)@) ==> cache_ids_consistent(final(self)@),
    {
        self.open_docs.clear();
        self.results_cache.clear();
        self.total_memory_usage = 0;
        proof {
            lemma_empty_accounted(self@);
        }
    }

    /// After the workspace folders changed: the reporter's path is looked up
    /// again and all cached diagnostics are dropped.
    pub fn did_change_workspace_folders(&mut self)
        ensures
            final(self)@ == (ServerState { cache: Map::empty(), mago_path: None, ..old(self)@ }),
            memory_accounted(old(self)@) ==> memory_accounted(final(self)@),
            cache_ids_consistent(old(self)@) ==> cache_ids_consistent(final(self)@),
    {
        self.mago_path = None;
        self.results_cache.clear();
    }

    /// After the editor's settings changed. `settings` are the new settings;
    /// `mago_settings` is what parsing their `mago` entry as settings gave
    /// (`None` where there is no such entry or it does not parse). Rulesets
    /// given under `mago` are taken, then a string under `rulesets` takes
    /// precedence. The reporter's path is looked up again and all cached
    /// diagnostics are dropped.
    pub fn did_change_configuration(&mut self, settings: &JsonValue, mago_settings: Option<MagoSettings>)
        ensures
            final(self)@ == (ServerState {
                cache: Map::empty(),
                mago_path: None,
                rulesets: configured_rulesets(old(self)@.rulesets, *settings, mago_settings),
                ..old(self)@
            }),
            memory_accounted(old(self)@) ==> memory_accounted(final(self)@),
            cache_ids_consistent(old(self)@) ==> cache_ids_consistent(final(self)@),
    {
        self.mago_path = None;
        match settings {
            JsonValue::Object(_) => {
                if settings.get("mago").is_some() {
                    match mago_settings {
                        Some(ms) => {
                            match ms.rulesets {
                                Some(r) => {
                                    self.rulesets = Some(r);
                                },
                                None => {},
                            }
                        },
                        None => {},
                    }
                }
                match settings.at_key("rulesets").as_str() {
                    Some(r) => {
                        self.rulesets = Some(r.to_owned());
                    },
                    None => {},
                }
            },
            _ => {},
        }
        self.results_cache.clear();
    }

    /// Takes the options the extension passed at start-up: `options` is what
    /// parsing them gave (`None` where there were none or they do not parse).
    /// Rulesets given there are used; the result tells whether the rulesets
    /// are to be looked for in the workspace instead.
    pub fn initialize(&mut self, options: Option<InitializationOptions>) -> (discover: bool)
        ensures
            match options {
                Some(InitializationOptions { rulesets: Some(r) }) =>
                    !discover && final(self)@ == (ServerState { rulesets: Some(r@), ..old(self)@ }),
                _ => discover && final(self)@ == old(self)@,
            },
            memory_accounted(old(self)@) ==> memory_accounted(final(self)@),
            cache_ids_consistent(old(self)@) ==> cache_ids_consistent(final(self)@),
    {
        match options {
            Some(o) => match o.rulesets {
                Some(r) => {
                    self.rulesets = Some(r);
                    false
                },
                None => true,
            },
            None => true,
        }
    }

    /// Rulesets are looked for in the project before a run while none are
    /// set.
    pub fn needs_ruleset_discovery(&self) -> (b: bool)
        ensures
            b == (self@.rulesets is None),
    {
        self.rulesets.is_none()
    }

    /// Looks for a configuration file in a directory: `candidates` are, for
    /// each of Mago's configuration file names in order, the file's path where
    /// it exists and is valid Unicode (`None` altogether where there is no
    /// directory to look in). The first one found becomes the rulesets.
    pub fn discover_rulesets(&mut self, candidates: Option<&Vec<Option<String>>>)
        ensures
            match candidates {
                None => final(self)@ == old(self)@,
                Some(c) => exists|found: Option<String>| {
                    &&& is_first_present(c@, found)
                    &&& final(self)@ == match found {
                        Some(p) => ServerState { rulesets: Some(p@), ..old(self)@ },
                        None => old(self)@,
                    }
                },
            },
            memory_accounted(old(self)@) ==> memory_accounted(final(self)@),
            cache_ids_consistent(old(self)@) ==> cache_ids_consistent(final(self)@),
    {
        match candidates {
            None => {},
            Some(c) => {
                let found = select_config(c);
                match &found {
                    Some(p) => {
                        self.rulesets = Some(p.clone());
                    },
                    None => {},
                }
                assert(is_first_present(c@, found));
            },
        }
    }

    /// The arguments to run the reporter with for `command` on the file at
    /// `file_path`.
    pub fn mago_args(&self, command: &str, file_path: &str) -> (args: Vec<String>)
        ensures
            args@.map_values(|a: String| a@) == reporter_args(self@.rulesets, command@, file_path@),
    {
        let mut args: Vec<String> = Vec::new();
        match &self.rulesets {
            Some(r) => {
                if is_config_path(r.as_str()) {
                    args.push(String::from_str("--config"));
                    args.push(r.clone());
                }
            },
            None => {},
        }
        args.push(command.to_owned());
        args.push(String::from_str("--reporting-format"));
        args.push(String::from_str("json"));
        args.push(String::from_str("--stdin-input"));
        args.push(file_path.to_owned());
        assert(args@.map_values(|a: String| a@) =~= reporter_args(self@.rulesets, command@, file_path@));
        args
    }

    /// The reporter's path: the one looked up before, or `mago`, which is
    /// then kept.
    pub fn get_mago_path(&mut self) -> (p: String)
        ensures
            match old(self)@.mago_path {
                Some(q) => p@ == q && final(self)@ == old(self)@,
                None => p@ == "mago"@ && final(self)@ == (ServerState { mago_path: Some("mago"@), ..old(self)@ }),
            },
            memory_accounted(old(self)@) ==> memory_accounted(final(self)@),
            cache_ids_consistent(old(self)@) ==> cache_ids_consistent(final(self)@),
    {
        match &self.mago_path {
            Some(p) => p.clone(),
            None => {
                let p = String::from_str("mago");
                self.mago_path = Some(p.clone());
                p
            },
        }
    }
}

} // verus!

verus! {

/// A document opened with `text` is held under `uri` and holds `text`; by
/// the contract of `decompress_document`, reading it back gives `text`.
pub proof fn law_open_then_read_back(before: ServerState, after: ServerState, uri: Seq<char>, text: Seq<char>)
    requires
        stores(after.docs[uri], text),
        after.docs == before.docs.insert(uri, after.docs[uri]),
    ensures
        after.docs.contains_key(uri),
        stores(after.docs[uri], text),
{
}

/// Cached diagnostics that are served belong to the text held: when the
/// cache of `uri` is fresh and the document holds `text`, the cached results
/// were produced for the checksum of `text`.
pub proof fn law_fresh_cache_matches_text(s: ServerState, uri: Seq<char>, text: Seq<char>)
    requires
        cache_fresh(s, uri),
        stores(s.docs[uri], text),
    ensures
        s.cache[uri].content_checksum@ == hex_lower(sha256(encode_utf8(text))),
{
}

/// Storing a document's text, on opening or on change, leaves no cached
/// diagnostics for it: the next request is not answered from the cache.
pub proof fn law_store_invalidates_cache(before: ServerState, after: ServerState, uri: Seq<char>)
    requires
        after.cache == before.cache.remove(uri),
    ensures
        !cache_fresh(after, uri),
{
}

/// Opening a document that was not held and then closing it gives back the
/// state before, but for the cached diagnostics of that document, which are
/// dropped; in particular the memory count returns to what it was.
pub proof fn law_open_then_close(s0: ServerState, s1: ServerState, s2: ServerState, uri: Seq<char>, freed: Option<usize>)
    requires
        !s0.docs.contains_key(uri),
        s1 == (ServerState {
            docs: s0.docs.insert(uri, s1.docs[uri]),
            cache: s0.cache.remove(uri),
            memory: usize_specs::wrapping_add(s0.memory, s1.docs[uri]@.compressed.len() as usize),
            ..s0
        }),
        freed == Some(s1.docs[uri]@.compressed.len() as usize),
        s2 == (ServerState {
            docs: s1.docs.remove(uri),
            cache: s1.cache.remove(uri),
            memory: usize_specs::wrapping_sub(s1.memory, freed->0),
            ..s1
        }),
    ensures
        s2 == without_cache_entry(s0, uri),
{
    assert(s2.docs =~= s0.docs);
    assert(s2.cache =~= s0.cache.remove(uri));
}

/// An analysis whose two runs succeeded, for the document still held, is
/// answered from the cache on the next request while the document does not
/// change: unchanged for an editor that holds its result, in full otherwise.
pub proof fn law_finished_analysis_is_served(
    before: ServerState,
    after: ServerState,
    uri: Seq<char>,
    c: CachedResults,
    previous: Option<String>,
    step: DiagnosticStep,
)
    requires
        before.docs.contains_key(uri),
        c.content_checksum@ == before.docs[uri]@.checksum,
        after == (ServerState { cache: before.cache.insert(uri, c), ..before }),
        cached_step(after.cache[uri], previous, step),
    ensures
        cache_fresh(after, uri),
        previous matches Some(p) && p@ == c.result_id@ ==> step matches DiagnosticStep::Done(DiagnosticReport::Unchanged { .. }),
        !(previous matches Some(p) && p@ == c.result_id@) ==> (step matches DiagnosticStep::Done(DiagnosticReport::Full { items, .. }) && items@ == c.diagnostics@),
{
}

/// In a state whose cached results carry the checksums they were cached for,
/// fresh cached diagnostics of `uri` are served under the checksum of the
/// held text: a full answer names the SHA-256 digest of that text in
/// lower-case hexadecimal, and an unchanged answer goes only to an editor
/// that holds that very identifier.
pub proof fn law_served_identifier_is_text_checksum(
    s: ServerState,
    uri: Seq<char>,
    text: Seq<char>,
    previous: Option<String>,
    step: DiagnosticStep,
)
    requires
        cache_ids_consistent(s),
        cache_fresh(s, uri),
        stores(s.docs[uri], text),
        cached_step(s.cache[uri], previous, step),
    ensures
        step matches DiagnosticStep::Done(DiagnosticReport::Full { result_id: Some(r), .. })
            ==> r@ == hex_lower(sha256(encode_utf8(text))),
        step matches DiagnosticStep::Done(DiagnosticReport::Unchanged { result_id: r }) ==> {
            &&& previous matches Some(p) && p@ == r@
            &&& r@ == hex_lower(sha256(encode_utf8(text)))
        },
{
    reveal_strlit("unknown");
    lemma_hex_lower_len(sha256(encode_utf8(text)));
    assert(s.cache.contains_key(uri));
}

/// The UTF-8 bytes of `r` end in those of `.toml`, `.yaml` or `.json`.
pub open spec fn ends_in_config_extension(r: Seq<char>) -> bool {
    let b = encode_utf8(r);
    let toml = encode_utf8(".toml"@);
    let yaml = encode_utf8(".yaml"@);
    let json = encode_utf8(".json"@);
    ||| toml.len() <= b.len() && b.subrange(b.len() - toml.len(), b.len() as int) == toml
    ||| yaml.len() <= b.len() && b.subrange(b.len() - yaml.len(), b.len() as int) == yaml
    ||| json.len() <= b.len() && b.subrange(b.len() - json.len(), b.len() as int) == json
}

/// The reporter is handed `--config r` exactly when the rulesets `r` end in
/// `.toml`, `.yaml` or `.json`, and then ahead of everything else; the rest
/// is always `command --reporting-format json --stdin-input path`.
pub proof fn law_config_file_passed_exactly_for_config_extensions(
    rulesets: Option<Seq<char>>,
    command: Seq<char>,
    path: Seq<char>,
)
    ensures
        ({
            let tail = seq![command, "--reporting-format"@, "json"@, "--stdin-input"@, path];
            reporter_args(rulesets, command, path) == match rulesets {
                Some(r) => if ends_in_config_extension(r) { seq!["--config"@, r] + tail } else { tail },
                None => tail,
            }
        }),
{
}

/// A change of settings changes the rulesets only to a value the settings
/// carry: where neither a `mago` entry brings rulesets nor a string stands
/// under `rulesets`, they stay as they were; otherwise they become the string
/// under `rulesets` where there is one, and the `mago` entry's rulesets where
/// not.
pub proof fn law_rulesets_change_only_to_given_values(
    current: Option<Seq<char>>,
    settings: JsonValue,
    mago_settings: Option<MagoSettings>,
)
    ensures
        ({
            let after = configured_rulesets(current, settings, mago_settings);
            let direct = field(settings, "rulesets"@);
            let from_mago = field(settings, "mago"@) is Some && (mago_settings matches Some(m) && m.rulesets is Some);
            &&& (direct matches Some(JsonValue::String(r)) ==> after == Some(r@))
            &&& (!(direct matches Some(JsonValue::String(_))) && from_mago
                ==> after == Some(mago_settings->0.rulesets->0@))
            &&& (!(direct matches Some(JsonValue::String(_))) && !from_mago ==> after == current)
        }),
{
}

/// After shutting down, nothing is held, nothing is cached and no memory is
/// counted, whatever the state before.
pub proof fn law_shutdown_forgets_everything(before: ServerState, after: ServerState)
    requires
        after == (ServerState { docs: Map::empty(), cache: Map::empty(), memory: 0, ..before }),
    ensures
        after.docs.is_empty(),
        after.cache.is_empty(),
        after.memory == 0,
{
}

/// A string under `rulesets` in the settings always wins over rulesets given
/// under `mago` and over the rulesets in use.
pub proof fn law_direct_rulesets_win(current: Option<Seq<char>>, settings: JsonValue, mago_settings: Option<MagoSettings>, r: Seq<char>)
    requires
        settings is Object,
        string_of(at_key(settings, "rulesets"@)) == Some(r),
    ensures
        configured_rulesets(current, settings, mago_settings) == Some(r),
{
}

/// Settings that are not an object leave the rulesets as they are.
pub proof fn law_non_object_settings_keep_rulesets(current: Option<Seq<char>>, settings: JsonValue, mago_settings: Option<MagoSettings>)
    requires
        !(settings is Object),
    ensures
        configured_rulesets(current, settings, mago_settings) == current,
{
}

} // verus!
