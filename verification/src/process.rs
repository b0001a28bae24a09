//! Per-document processing: the structural rename composed with the
//! update decision, for one document and for a whole fetched page.

use vstd::prelude::*;
use crate::args::dot_split;
use crate::json::JVal;
use crate::json::JsonValue;
use crate::json::jval_of;
use crate::rename::path_matches;
use crate::rename::rename_nested_field;
use crate::rename::rename_val;
use crate::update::UpdateError;
use crate::update::UpdateRequest;
use crate::update::doc_id;
use crate::update::doc_rev;
use crate::update::prepare_update;
use crate::update::url_encoded;

verus! {

/// What the run should do for one fetched document.
#[derive(Debug)]
pub enum DocDecision {
    /// The rename matched and the document is writable: send the
    /// conditional write the request describes.
    Update(UpdateRequest),
    /// The rename matched, but the document lacks a field the write
    /// needs; reported for this document, the run continues.
    UpdateInvalid(UpdateError),
    /// Dry-run: report that the document would have been updated, and
    /// write nothing.
    WouldUpdate,
    /// The old path matched nothing; reported, nothing written.
    FieldNotFound,
}

/// The identity a document shows in reports: its `_id` string, or a
/// placeholder when it carries none.
pub open spec fn display_id(doc: JVal) -> Seq<char> {
    match doc_id(doc) {
        Option::Some(s) => s,
        Option::None => "<unknown>"@,
    }
}

/// The identity of a document as reports show it.
pub fn display_doc_id(doc: &JsonValue) -> (id: String)
    ensures
        id@ == display_id(jval_of(*doc)),
{
    match doc.get(&"_id".to_owned()) {
        Option::Some(v) => match v.as_text() {
            Option::Some(s) => s.clone(),
            Option::None => "<unknown>".to_owned(),
        },
        Option::None => "<unknown>".to_owned(),
    }
}

/// Renames the field in one document, in place, and decides what to do
/// with it: write it back, report it, or leave it alone. In dry-run
/// mode no decision ever asks for a write.
pub fn process_document(
    doc: &mut JsonValue,
    old_field_path: &Vec<String>,
    new_field: &str,
    dry_run: bool,
) -> (d: DocDecision)
    ensures
        jval_of(*final(doc)) == rename_val(
            jval_of(*old(doc)),
            old_field_path.deep_view(),
            dot_split(new_field@).last(),
        ),
        ({
            let matched = path_matches(jval_of(*old(doc)), old_field_path.deep_view());
            match d {
                DocDecision::FieldNotFound => !matched,
                DocDecision::WouldUpdate => matched && dry_run,
                DocDecision::Update(u) => {
                    &&& matched
                    &&& !dry_run
                    &&& doc_id(jval_of(*final(doc))) == Option::Some(u.id@)
                    &&& u.encoded_id@ == url_encoded(u.id@)
                    &&& doc_rev(jval_of(*final(doc))) == Option::Some(u.rev@)
                },
                DocDecision::UpdateInvalid(e) => {
                    &&& matched
                    &&& !dry_run
                    &&& (match e {
                        UpdateError::MissingId => doc_id(jval_of(*final(doc))) is None,
                        UpdateError::MissingRev => doc_id(jval_of(*final(doc))) is Some && doc_rev(
                            jval_of(*final(doc)),
                        ) is None,
                        _ => false,
                    })
                },
            }
        }),
        dry_run ==> !(d is Update),
{
    let renamed = rename_nested_field(doc, old_field_path, new_field);
    if !renamed {
        DocDecision::FieldNotFound
    } else if dry_run {
        DocDecision::WouldUpdate
    } else {
        match prepare_update(doc) {
            Result::Ok(u) => DocDecision::Update(u),
            Result::Err(e) => DocDecision::UpdateInvalid(e),
        }
    }
}

/// Renames the field in every document of a fetched page, in order,
/// and decides each document independently: one document's missing
/// fields or later write failure cannot affect its siblings, and in
/// dry-run mode no decision asks for a write.
pub fn process_batch(
    docs: &mut Vec<JsonValue>,
    old_field_path: &Vec<String>,
    new_field: &str,
    dry_run: bool,
) -> (ds: Vec<DocDecision>)
    ensures
        ds@.len() == old(docs)@.len(),
        final(docs)@.len() == old(docs)@.len(),
        forall|i: int|
            0 <= i < old(docs)@.len() ==> jval_of(#[trigger] final(docs)@[i]) == rename_val(
                jval_of(old(docs)@[i]),
                old_field_path.deep_view(),
                dot_split(new_field@).last(),
            ),
        forall|i: int|
            0 <= i < old(docs)@.len() ==> ((#[trigger] ds@[i]) is FieldNotFound == !path_matches(
                jval_of(old(docs)@[i]),
                old_field_path.deep_view(),
            )),
        forall|i: int|
            0 <= i < old(docs)@.len() ==> ((#[trigger] ds@[i]) is WouldUpdate == (dry_run
                && path_matches(jval_of(old(docs)@[i]), old_field_path.deep_view()))),
        forall|i: int|
            0 <= i < old(docs)@.len() ==> (match #[trigger] ds@[i] {
                DocDecision::Update(u) => {
                    &&& !dry_run
                    &&& doc_id(jval_of(final(docs)@[i])) == Option::Some(u.id@)
                    &&& u.encoded_id@ == url_encoded(u.id@)
                    &&& doc_rev(jval_of(final(docs)@[i])) == Option::Some(u.rev@)
                },
                _ => true,
            }),
        dry_run ==> forall|i: int| 0 <= i < ds@.len() ==> !((#[trigger] ds@[i]) is Update),
{
    let ghost orig = docs@;
    let ghost path_view = old_field_path.deep_view();
    let ghost leaf = dot_split(new_field@).last();
    let mut ds: Vec<DocDecision> = Vec::new();
    let mut i: usize = 0;
    while i < docs.len()
        invariant
            0 <= i <= orig.len(),
            docs@.len() == orig.len(),
            ds@.len() == i,
            path_view == old_field_path.deep_view(),
            leaf == dot_split(new_field@).last(),
            forall|j: int| i <= j < orig.len() ==> docs@[j] == orig[j],
            forall|j: int|
                0 <= j < i ==> jval_of(#[trigger] docs@[j]) == rename_val(
                    jval_of(orig[j]),
                    path_view,
                    leaf,
                ),
            forall|j: int|
                0 <= j < i ==> ((#[trigger] ds@[j]) is FieldNotFound == !path_matches(
                    jval_of(orig[j]),
                    path_view,
                )),
            forall|j: int|
                0 <= j < i ==> ((#[trigger] ds@[j]) is WouldUpdate == (dry_run && path_matches(
                    jval_of(orig[j]),
                    path_view,
                ))),
            forall|j: int|
                0 <= j < i ==> (match #[trigger] ds@[j] {
                    DocDecision::Update(u) => {
                        &&& !dry_run
                        &&& doc_id(jval_of(docs@[j])) == Option::Some(u.id@)
                        &&& u.encoded_id@ == url_encoded(u.id@)
                        &&& doc_rev(jval_of(docs@[j])) == Option::Some(u.rev@)
                    },
                    _ => true,
                }),
        decreases orig.len() - i,
    {
        let slot = &mut docs[i];
        let d = process_document(slot, old_field_path, new_field, dry_run);
        ds.push(d);
        i += 1;
    }
    ds
}

} // verus!
