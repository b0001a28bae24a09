//! The cursor-based pagination fetcher: a state machine that walks a
//! remote collection in fixed-size pages. The transport issues the
//! requests and hands every response back as a status code and a parsed
//! body; the machine makes every decision, including when the scan ends.

use vstd::prelude::*;
use crate::json::JVal;
use crate::json::JsonValue;
use crate::json::find_entry;
use crate::json::jval_of;
use crate::json::jvals_of;
use crate::json::lemma_jentries_of_index;
use crate::json::lemma_jentries_of_len;
use vstd::arithmetic::div_mod::lemma_basic_div;
use vstd::arithmetic::div_mod::lemma_div_plus_one;

verus! {

/// Phase of a collection scan.
#[derive(Clone, Copy, Debug, PartialEq, Eq, Structural)]
pub enum FetchPhase {
    /// Created, nothing asked yet.
    Init,
    /// Waiting for the collection metadata.
    Probing,
    /// Waiting for the next page of documents.
    Fetching,
    /// The last page has been processed.
    Done,
    /// A probe or page request failed; the scan is aborted.
    Failed,
}

/// Why the metadata probe failed. Absent fields are not an error — they
/// fall back to defaults — only transport and parse failures are.
#[derive(Debug)]
pub enum MetadataFetchError {
    /// The metadata request came back with a non-success status.
    BadStatus(u16),
    /// The metadata body was not valid JSON.
    UnparsableBody,
}

/// Why a page fetch failed, aborting the whole scan.
#[derive(Debug)]
pub enum PageFetchError {
    /// The page request came back with a non-success status.
    BadStatus(u16),
    /// The page body was not valid JSON.
    UnparsableBody,
    /// The page body held no array under the documents field.
    MissingDocs,
}

/// Scan state over one collection: where it lives, how far the scan
/// has come, and the cursor for the next page.
pub struct FetchDocument {
    pub db_host: String,
    pub table_name: String,
    pub phase: FetchPhase,
    pub is_partitioned: bool,
    pub doc_count: u64,
    pub bookmark: Option<String>,
    pub limit: usize,
    pub total_fetched: u64,
    pub pages_fetched: u64,
}

/// Whether the metadata body marks the collection partitioned; absent
/// or non-boolean fields mean `false`.
pub open spec fn metadata_partitioned(body: JVal) -> bool {
    match body.lookup("props"@) {
        Option::Some(props) => match props.lookup("partitioned"@) {
            Option::Some(p) => match p.to_bool() {
                Option::Some(b) => b,
                Option::None => false,
            },
            Option::None => false,
        },
        Option::None => false,
    }
}

/// The document count in the metadata body; absent or out-of-range
/// fields mean `0`.
pub open spec fn metadata_doc_count(body: JVal) -> u64 {
    match body.lookup("doc_count"@) {
        Option::Some(c) => match c.to_u64() {
            Option::Some(n) => n,
            Option::None => 0,
        },
        Option::None => 0,
    }
}

/// The documents array of a page body, when the body is an object with
/// an array under the documents field.
pub open spec fn page_docs(body: JVal) -> Option<Seq<JVal>> {
    match body.lookup("docs"@) {
        Option::Some(JVal::Arr(ds)) => Option::Some(ds),
        _ => Option::None,
    }
}

/// The continuation token of a page body; a missing or non-string
/// field means none.
pub open spec fn page_bookmark(body: JVal) -> Option<Seq<char>> {
    match body.lookup("bookmark"@) {
        Option::Some(JVal::Str(s)) => Option::Some(s),
        _ => Option::None,
    }
}

impl FetchDocument {
    /// A fresh scan over one collection: not partitioned, no documents
    /// counted, no cursor, nothing fetched.
    pub fn new(db_host: String, table_name: String, limit: usize) -> (fd: FetchDocument)
        ensures
            fd.db_host == db_host,
            fd.table_name == table_name,
            fd.limit == limit,
            fd.phase == FetchPhase::Init,
            fd.is_partitioned == false,
            fd.doc_count == 0,
            fd.bookmark is None,
            fd.total_fetched == 0,
            fd.pages_fetched == 0,
    {
        FetchDocument {
            db_host,
            table_name,
            phase: FetchPhase::Init,
            is_partitioned: false,
            doc_count: 0,
            bookmark: Option::None,
            limit,
            total_fetched: 0,
            pages_fetched: 0,
        }
    }

    /// Begins the scan: the next request owed is the metadata probe.
    pub fn start(&mut self)
        requires
            old(self).phase == FetchPhase::Init,
        ensures
            *final(self) == (FetchDocument { phase: FetchPhase::Probing, ..*old(self) }),
    {
        self.phase = FetchPhase::Probing;
    }

    /// Applies the metadata response: on success records the
    /// partitioning flag and the advisory document count, both falling
    /// back to defaults when absent, and moves on to page fetching; any
    /// transport or parse failure aborts the scan. `body` is the parsed
    /// response body, `None` when it was not valid JSON.
    pub fn on_metadata(&mut self, status: u16, body: Option<&JsonValue>) -> (r: Result<
        (),
        MetadataFetchError,
    >)
        requires
            old(self).phase == FetchPhase::Probing,
        ensures
            ({
                match r {
                    Result::Ok(()) => {
                        &&& status == 200
                        &&& body is Some
                        &&& *final(self) == (FetchDocument {
                            phase: FetchPhase::Fetching,
                            is_partitioned: metadata_partitioned(jval_of(*body.unwrap())),
                            doc_count: metadata_doc_count(jval_of(*body.unwrap())),
                            ..*old(self)
                        })
                    },
                    Result::Err(MetadataFetchError::BadStatus(s)) => {
                        &&& s == status
                        &&& status != 200
                        &&& *final(self) == (FetchDocument { phase: FetchPhase::Failed, ..*old(self) })
                    },
                    Result::Err(MetadataFetchError::UnparsableBody) => {
                        &&& status == 200
                        &&& body is None
                        &&& *final(self) == (FetchDocument { phase: FetchPhase::Failed, ..*old(self) })
                    },
                }
            }),
    {
        if status != 200 {
            self.phase = FetchPhase::Failed;
            return Result::Err(MetadataFetchError::BadStatus(status));
        }
        match body {
            Option::None => {
                self.phase = FetchPhase::Failed;
                Result::Err(MetadataFetchError::UnparsableBody)
            },
            Option::Some(b) => {
                let partitioned = match b.get(&"props".to_owned()) {
                    Option::Some(props) => match props.get(&"partitioned".to_owned()) {
                        Option::Some(p) => match p.as_bool() {
                            Option::Some(flag) => flag,
                            Option::None => false,
                        },
                        Option::None => false,
                    },
                    Option::None => false,
                };
                let count = match b.get(&"doc_count".to_owned()) {
                    Option::Some(c) => match c.as_u64() {
                        Option::Some(n) => n,
                        Option::None => 0,
                    },
                    Option::None => 0,
                };
                self.is_partitioned = partitioned;
                self.doc_count = count;
                self.phase = FetchPhase::Fetching;
                Result::Ok(())
            },
        }
    }

    /// Applies one page response. On success it hands the page's
    /// documents back in order, takes the returned cursor verbatim as
    /// the input of the next request, counts progress, and ends the
    /// scan when the page holds fewer documents than the page size —
    /// the short page is the end-of-stream signal. Any transport or
    /// parse failure aborts the scan.
    pub fn on_page(&mut self, status: u16, body: Option<JsonValue>) -> (r: Result<
        Vec<JsonValue>,
        PageFetchError,
    >)
        requires
            old(self).phase == FetchPhase::Fetching,
        ensures
            ({
                match r {
                    Result::Ok(docs) => {
                        &&& status == 200
                        &&& body is Some
                        &&& page_docs(jval_of(body.unwrap())) == Option::Some(jvals_of(docs@))
                        &&& (match final(self).bookmark {
                            Option::Some(s) => page_bookmark(jval_of(body.unwrap()))
                                == Option::Some(s@),
                            Option::None => page_bookmark(jval_of(body.unwrap())) is None,
                        })
                        &&& final(self).total_fetched == (if old(self).total_fetched + docs@.len()
                            <= u64::MAX {
                            (old(self).total_fetched + docs@.len()) as u64
                        } else {
                            u64::MAX
                        })
                        &&& final(self).pages_fetched == (if old(self).pages_fetched + 1
                            <= u64::MAX {
                            (old(self).pages_fetched + 1) as u64
                        } else {
                            u64::MAX
                        })
                        &&& final(self).phase == (if docs@.len() < old(self).limit {
                            FetchPhase::Done
                        } else {
                            FetchPhase::Fetching
                        })
                        &&& final(self).db_host == old(self).db_host
                        &&& final(self).table_name == old(self).table_name
                        &&& final(self).limit == old(self).limit
                        &&& final(self).is_partitioned == old(self).is_partitioned
                        &&& final(self).doc_count == old(self).doc_count
                    },
                    Result::Err(PageFetchError::BadStatus(s)) => {
                        &&& s == status
                        &&& status != 200
                        &&& *final(self) == (FetchDocument { phase: FetchPhase::Failed, ..*old(self) })
                    },
                    Result::Err(PageFetchError::UnparsableBody) => {
                        &&& status == 200
                        &&& body is None
                        &&& *final(self) == (FetchDocument { phase: FetchPhase::Failed, ..*old(self) })
                    },
                    Result::Err(PageFetchError::MissingDocs) => {
                        &&& status == 200
                        &&& body is Some
                        &&& page_docs(jval_of(body.unwrap())) is None
                        &&& *final(self) == (FetchDocument { phase: FetchPhase::Failed, ..*old(self) })
                    },
                }
            }),
    {
        if status != 200 {
            self.phase = FetchPhase::Failed;
            return Result::Err(PageFetchError::BadStatus(status));
        }
        let b = match body {
            Option::None => {
                self.phase = FetchPhase::Failed;
                return Result::Err(PageFetchError::UnparsableBody);
            },
            Option::Some(b) => b,
        };
        let bookmark: Option<String> = match b.get(&"bookmark".to_owned()) {
            Option::Some(v) => match v.as_text() {
                Option::Some(s) => Option::Some(s.clone()),
                Option::None => Option::None,
            },
            Option::None => Option::None,
        };
        let docs: Vec<JsonValue> = match b {
            JsonValue::Object(mut entries) => {
                let ghost es0 = entries@;
                match find_entry(&entries, &"docs".to_owned()) {
                    Option::Some(i) => {
                        proof {
                            lemma_jentries_of_len(es0);
                            lemma_jentries_of_index(es0, i as int);
                        }
                        let moved = entries.remove(i);
                        match moved.1 {
                            JsonValue::Array(ds) => ds,
                            _ => {
                                self.phase = FetchPhase::Failed;
                                return Result::Err(PageFetchError::MissingDocs);
                            },
                        }
                    },
                    Option::None => {
                        self.phase = FetchPhase::Failed;
                        return Result::Err(PageFetchError::MissingDocs);
                    },
                }
            },
            _ => {
                self.phase = FetchPhase::Failed;
                return Result::Err(PageFetchError::MissingDocs);
            },
        };
        self.bookmark = bookmark;
        let page_len: u64 = docs.len() as u64;
        self.total_fetched = if self.total_fetched <= u64::MAX - page_len {
            self.total_fetched + page_len
        } else {
            u64::MAX
        };
        self.pages_fetched = if self.pages_fetched < u64::MAX {
            self.pages_fetched + 1
        } else {
            u64::MAX
        };
        self.phase = if docs.len() < self.limit {
            FetchPhase::Done
        } else {
            FetchPhase::Fetching
        };
        Result::Ok(docs)
    }

    /// Whether the machine owes the store another page request.
    pub fn wants_page(&self) -> (r: bool)
        ensures
            r == (self.phase == FetchPhase::Fetching),
    {
        self.phase == FetchPhase::Fetching
    }
}

/// Number of page requests a scan issues against a store of `total`
/// documents that answers every request with the next
/// `min(limit, remaining)` documents.
pub open spec fn scan_requests(total: nat, limit: nat) -> nat
    recommends
        limit > 0,
    decreases total,
{
    if limit == 0 {
        0
    } else if total < limit {
        1
    } else {
        1 + scan_requests((total - limit) as nat, limit)
    }
}

/// Pagination terminates after exactly `total / limit + 1` requests:
/// every full page is followed by another request, and the first short
/// page — the end-of-stream signal — ends the scan.
pub proof fn lemma_scan_requests(total: nat, limit: nat)
    requires
        limit > 0,
    ensures
        scan_requests(total, limit) == total / limit + 1,
    decreases total,
{
    if total < limit {
        lemma_basic_div(total as int, limit as int);
    } else {
        lemma_scan_requests((total - limit) as nat, limit);
        lemma_div_plus_one((total - limit) as int, limit as int);
    }
}

} // verus!
