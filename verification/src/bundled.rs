//! The bundled defaults: what is reported about the default model and the
//! global knowledge base, and how a bundled knowledge base is fed to the
//! vector store.

use crate::json::{
    find_number, members_view, number_member, parse_object, parsed_members, JsonMember,
    JsonMemberView,
};
use crate::text::{decimal, parse_unsigned, push_decimal, unsigned_value};
use vstd::prelude::*;

verus! {

/// How many documents go to the vector store in one call.
pub const KB_BATCH_SIZE: usize = 50;

/// Whether the default model and the global knowledge base are ready, and,
/// when no model was found in a packaged build, where to download one from
/// and where to save it.
#[derive(Debug, Clone, PartialEq, Eq)]
pub struct BundledDefaultsStatus {
    pub model_ready: bool,
    pub kb_ready: bool,
    pub default_model_download_url: Option<String>,
    pub default_model_output_path: Option<String>,
}

/// The number of documents that the statistics of a collection report:
/// their `document_count`, if it is a non-negative integer that fits.
pub open spec fn reported_count(members: Seq<JsonMemberView>) -> Option<u64> {
    match number_member(members, "document_count"@) {
        Some(printed) => match unsigned_value(printed) {
            Some(v) if v <= u64::MAX => Some(v as u64),
            _ => None,
        },
        None => None,
    }
}

/// The number of documents in a collection, as far as its statistics tell:
/// zero when they could not be had, are not JSON, or report no count.
pub open spec fn document_count_of(stats: Result<Seq<char>, Seq<char>>) -> u64 {
    match stats {
        Ok(answer) => match parsed_members(answer) {
            Ok(members) => match reported_count(members) {
                Some(count) => count,
                None => 0,
            },
            Err(_) => 0,
        },
        Err(_) => 0,
    }
}

/// The number of documents that the statistics of a collection report.
pub fn count_in(members: &Vec<JsonMember>) -> (count: Option<u64>)
    ensures
        count == reported_count(members_view(members@)),
{
    match find_number(members, "document_count") {
        Some(printed) => parse_unsigned(printed.as_str()),
        None => None,
    }
}

/// The number of documents in a collection, as far as its statistics tell.
pub fn document_count(stats: &Result<String, String>) -> (count: u64)
    ensures
        count == document_count_of(crate::json::text_result_view(*stats)),
{
    match stats {
        Ok(answer) => match parse_object(answer.as_str()) {
            Ok(members) => match count_in(&members) {
                Some(count) => count,
                None => 0,
            },
            Err(_) => 0,
        },
        Err(_) => 0,
    }
}

/// The status to report once model and knowledge base were looked after.
/// The knowledge base is ready when it holds a document. Where to download a
/// model is told only when none is ready.
pub fn bundled_status(
    model_ready: bool,
    document_count: u64,
    download: Option<(String, String)>,
) -> (status: BundledDefaultsStatus)
    ensures
        status.model_ready == model_ready,
        status.kb_ready == (document_count > 0),
        match download {
            Some((url, path)) if !model_ready => {
                &&& status.default_model_download_url == Some(url)
                &&& status.default_model_output_path == Some(path)
            },
            _ => {
                &&& status.default_model_download_url is None
                &&& status.default_model_output_path is None
            },
        },
{
    let (url, path) = match download {
        Some((url, path)) => {
            if model_ready {
                (None, None)
            } else {
                (Some(url), Some(path))
            }
        },
        None => (None, None),
    };
    BundledDefaultsStatus {
        model_ready,
        kb_ready: document_count > 0,
        default_model_download_url: url,
        default_model_output_path: path,
    }
}

/// The complaint about a bundled knowledge base whose documents and
/// embeddings differ in number.
pub open spec fn length_mismatch_message(documents: nat, embeddings: nat) -> Seq<char> {
    "Bundled KB: documents length "@ + decimal(documents) + " != embeddings length "@ + decimal(
        embeddings,
    )
}

/// Checks that a bundled knowledge base has one embedding per document.
pub fn check_kb_lengths(documents: usize, embeddings: usize) -> (outcome: Result<(), String>)
    ensures
        match outcome {
            Ok(()) => documents == embeddings,
            Err(reason) => documents != embeddings && reason@ == length_mismatch_message(
                documents as nat,
                embeddings as nat,
            ),
        },
{
    if documents == embeddings {
        return Ok(());
    }
    let mut message = String::from_str("Bundled KB: documents length ");
    push_decimal(&mut message, documents as u64);
    message.append(" != embeddings length ");
    push_decimal(&mut message, embeddings as u64);
    assert(message@ =~= length_mismatch_message(documents as nat, embeddings as nat));
    Err(message)
}

/// The batches in which `total` documents are fed: stretches of `size`
/// documents, the last one shorter if need be, that cover all of them in
/// order.
pub open spec fn is_batching(batches: Seq<(usize, usize)>, total: int, size: int) -> bool {
    &&& forall|k: int|
        0 <= k < batches.len() ==> (#[trigger] batches[k]).0 == k * size && batches[k].1 == if (k
            + 1) * size < total {
            (k + 1) * size
        } else {
            total
        }
    &&& batches.len() * size >= total
    &&& batches.len() > 0 ==> (batches.len() - 1) * size < total
}

/// The batches in which `total` documents are fed, `size` at a time.
pub fn batches(total: usize, size: usize) -> (bounds: Vec<(usize, usize)>)
    requires
        size > 0,
    ensures
        is_batching(bounds@, total as int, size as int),
{
    let mut bounds: Vec<(usize, usize)> = Vec::new();
    let mut start: usize = 0;
    assert(0 * size == 0) by (nonlinear_arith);
    while start < total
        invariant
            size > 0,
            start <= total,
            start < total ==> start == bounds.len() * size,
            start == total ==> bounds.len() * size >= total,
            forall|k: int|
                0 <= k < bounds.len() ==> (#[trigger] bounds[k]).0 == k * size && bounds[k].1
                    == if (k + 1) * size < total {
                    (k + 1) * size
                } else {
                    total as int
                },
            bounds.len() > 0 ==> (bounds.len() - 1) * size < total,
        decreases total - start,
    {
        let end: usize = if total - start > size {
            start + size
        } else {
            total
        };
        proof {
            let k = bounds.len() as int;
            assert((k + 1) * size == k * size + size) by (nonlinear_arith);
            assert((k + 1 - 1) * size == k * size) by (nonlinear_arith);
        }
        bounds.push((start, end));
        start = end;
    }
    bounds
}

} // verus!
