//! Snapshot encoding of a replicated document: the full document state as
//! one encoded update, paired with the encoded state vector that summarizes
//! it. The byte-level operation algebra is the CRDT primitive's own and is
//! not restated here: the calls into it stand behind trusted wrappers, and
//! what this module verifies is the assembly of their results.

use vstd::prelude::*;

use yrs::updates::encoder::Encode;
use yrs::{ReadTxn, Transact};

verus! {

#[verifier::external_type_specification]
#[verifier::external_body]
pub struct ExYrsDoc(yrs::Doc);

#[verifier::external_type_specification]
#[verifier::external_body]
pub struct ExYrsTransaction<'a>(yrs::Transaction<'a>);

#[verifier::external_type_specification]
#[verifier::external_body]
pub struct ExYrsStateVector(yrs::StateVector);

/// Which encoding carried an [`EncodedCollab`].
pub enum EncoderVersion {
    V1,
    V2,
}

/// A full encoded document: its causal summary and its state, as bytes, plus
/// the encoding they were produced with.
pub struct EncodedCollab {
    pub state_vector: Vec<u8>,
    pub doc_state: Vec<u8>,
    pub version: EncoderVersion,
}

impl EncodedCollab {
    /// Wrap bytes produced by the first encoding.
    pub fn new_v1(state_vector: Vec<u8>, doc_state: Vec<u8>) -> (r: Self)
        ensures
            r.state_vector@ == state_vector@,
            r.doc_state@ == doc_state@,
            r.version is V1,
    {
        EncodedCollab { state_vector, doc_state, version: EncoderVersion::V1 }
    }

    /// Wrap bytes produced by the second encoding.
    pub fn new_v2(state_vector: Vec<u8>, doc_state: Vec<u8>) -> (r: Self)
        ensures
            r.state_vector@ == state_vector@,
            r.doc_state@ == doc_state@,
            r.version is V2,
    {
        EncodedCollab { state_vector, doc_state, version: EncoderVersion::V2 }
    }
}

/// Relies on yrs::Doc::new: a fresh, empty replicated document.
#[verifier::external_body]
pub fn new_replicated_doc() -> yrs::Doc {
    yrs::Doc::new()
}

/// Relies on yrs's Transact::transact: a read transaction observing the
/// document's current state.
#[verifier::external_body]
fn doc_read_txn<'a>(doc: &'a yrs::Doc) -> yrs::Transaction<'a> {
    doc.transact()
}

/// Relies on yrs's ReadTxn::state_vector: the causal summary of everything
/// the transaction observes.
#[verifier::external_body]
fn txn_state_vector(txn: &yrs::Transaction<'_>) -> yrs::StateVector {
    txn.state_vector()
}

/// Relies on yrs's StateVector::default: the empty causal summary, so that a
/// diff against it is the whole document state.
#[verifier::external_body]
fn state_vector_empty() -> yrs::StateVector {
    yrs::StateVector::default()
}

/// Relies on yrs's Encode::encode_v1 on a state vector.
#[verifier::external_body]
fn state_vector_encode_v1(sv: &yrs::StateVector) -> Vec<u8> {
    sv.encode_v1()
}

/// Relies on yrs's Encode::encode_v2 on a state vector.
#[verifier::external_body]
fn state_vector_encode_v2(sv: &yrs::StateVector) -> Vec<u8> {
    sv.encode_v2()
}

/// Relies on yrs's ReadTxn::encode_state_as_update_v1: every operation the
/// transaction observes that the given summary has not, as one update.
#[verifier::external_body]
fn txn_encode_state_as_update_v1(txn: &yrs::Transaction<'_>, sv: &yrs::StateVector) -> Vec<u8> {
    txn.encode_state_as_update_v1(sv)
}

/// Relies on yrs's ReadTxn::encode_state_as_update_v2: as the first
/// encoding, in the second format.
#[verifier::external_body]
fn txn_encode_state_as_update_v2(txn: &yrs::Transaction<'_>, sv: &yrs::StateVector) -> Vec<u8> {
    txn.encode_state_as_update_v2(sv)
}

/// The whole document as one first-encoding snapshot: its state vector, and
/// its full state as a diff against the empty summary.
pub fn get_encoded_collab_v1(doc: &yrs::Doc) -> (r: EncodedCollab)
    ensures
        r.version is V1,
{
    let txn = doc_read_txn(doc);
    let sv = txn_state_vector(&txn);
    let empty = state_vector_empty();
    EncodedCollab::new_v1(
        state_vector_encode_v1(&sv),
        txn_encode_state_as_update_v1(&txn, &empty),
    )
}

/// The whole document as one second-encoding snapshot.
pub fn get_encoded_collab_v2(doc: &yrs::Doc) -> (r: EncodedCollab)
    ensures
        r.version is V2,
{
    let txn = doc_read_txn(doc);
    let sv = txn_state_vector(&txn);
    let empty = state_vector_empty();
    EncodedCollab::new_v2(
        state_vector_encode_v2(&sv),
        txn_encode_state_as_update_v2(&txn, &empty),
    )
}

} // verus!
