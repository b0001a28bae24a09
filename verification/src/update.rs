//! Optimistic-concurrency updates: what a conditional write needs from
//! a document, and how the store's answer to one is read.

use vstd::prelude::*;
use crate::json::JVal;
use crate::json::JsonValue;
use crate::json::jval_of;

verus! {

/// Why a single document's update failed. A failure here is reported
/// for that document and never stops the others.
#[derive(Debug)]
pub enum UpdateError {
    /// The document holds no string under the identity field.
    MissingId,
    /// The document holds no string under the revision field.
    MissingRev,
    /// The store holds a newer revision than the one the write named.
    Conflict,
    /// The store rejected the write with some other non-success status.
    Rejected(u16),
    /// The request produced no status at all.
    Transport(String),
}

/// What a conditional write needs: the document's identity, that
/// identity as it stands in a URL path, and the revision the write is
/// conditioned on.
#[derive(Debug)]
pub struct UpdateRequest {
    pub id: String,
    pub encoded_id: String,
    pub rev: String,
}

/// The identity a document carries: the string under `_id`.
pub open spec fn doc_id(doc: JVal) -> Option<Seq<char>> {
    match doc.lookup("_id"@) {
        Option::Some(JVal::Str(s)) => Option::Some(s),
        _ => Option::None,
    }
}

/// The revision a document carries: the string under `_rev`.
pub open spec fn doc_rev(doc: JVal) -> Option<Seq<char>> {
    match doc.lookup("_rev"@) {
        Option::Some(JVal::Str(s)) => Option::Some(s),
        _ => Option::None,
    }
}

/// The percent-encoding of a character sequence, as `urlencoding`
/// produces it.
pub uninterp spec fn url_encoded(s: Seq<char>) -> Seq<char>;

/// Relies on `urlencoding::encode`: the result depends on the input
/// text alone, and an empty input stays empty.
#[verifier::external_body]
fn encode_component(s: &str) -> (r: String)
    ensures
        r@ == url_encoded(s@),
        s@.len() == 0 ==> r@.len() == 0,
{
    urlencoding::encode(s).into_owned()
}

/// Extracts what a conditional write needs from a document: its
/// identity and revision, both required, and the identity in its
/// URL-path form.
pub fn prepare_update(doc: &JsonValue) -> (r: Result<UpdateRequest, UpdateError>)
    ensures
        ({
            let d = jval_of(*doc);
            match r {
                Result::Ok(u) => {
                    &&& doc_id(d) == Option::Some(u.id@)
                    &&& u.encoded_id@ == url_encoded(u.id@)
                    &&& doc_rev(d) == Option::Some(u.rev@)
                },
                Result::Err(UpdateError::MissingId) => doc_id(d) is None,
                Result::Err(UpdateError::MissingRev) => doc_id(d) is Some && doc_rev(d) is None,
                Result::Err(_) => false,
            }
        }),
{
    let id: String = match doc.get(&"_id".to_owned()) {
        Option::Some(v) => match v.as_text() {
            Option::Some(s) => s.clone(),
            Option::None => {
                return Result::Err(UpdateError::MissingId);
            },
        },
        Option::None => {
            return Result::Err(UpdateError::MissingId);
        },
    };
    let rev: String = match doc.get(&"_rev".to_owned()) {
        Option::Some(v) => match v.as_text() {
            Option::Some(s) => s.clone(),
            Option::None => {
                return Result::Err(UpdateError::MissingRev);
            },
        },
        Option::None => {
            return Result::Err(UpdateError::MissingRev);
        },
    };
    let encoded_id = encode_component(id.as_str());
    Result::Ok(UpdateRequest { id, encoded_id, rev })
}

/// Reads the store's answer to a conditional write: success statuses
/// accept the write, the conflict status means the revision was stale,
/// and anything else is a rejection.
pub fn update_outcome(status: u16) -> (r: Result<(), UpdateError>)
    ensures
        ({
            match r {
                Result::Ok(()) => status == 200 || status == 201,
                Result::Err(UpdateError::Conflict) => status == 409,
                Result::Err(UpdateError::Rejected(s)) => {
                    &&& s == status
                    &&& status != 200
                    &&& status != 201
                    &&& status != 409
                },
                Result::Err(_) => false,
            }
        }),
{
    if status == 200 || status == 201 {
        Result::Ok(())
    } else if status == 409 {
        Result::Err(UpdateError::Conflict)
    } else {
        Result::Err(UpdateError::Rejected(status))
    }
}

} // verus!
