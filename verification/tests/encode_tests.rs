use collab_store::encode::{
    get_encoded_collab_v1, get_encoded_collab_v2, new_replicated_doc, EncodedCollab,
    EncoderVersion,
};
use yrs::updates::encoder::Encode;
use yrs::{ReadTxn, Transact};

#[test]
fn constructors_keep_the_given_bytes() {
    let enc = EncodedCollab::new_v1(vec![1, 2], vec![3, 4, 5]);
    assert_eq!(enc.state_vector, vec![1, 2]);
    assert_eq!(enc.doc_state, vec![3, 4, 5]);
    assert!(matches!(enc.version, EncoderVersion::V1));
    let enc = EncodedCollab::new_v2(vec![9], vec![]);
    assert_eq!(enc.state_vector, vec![9]);
    assert!(enc.doc_state.is_empty());
    assert!(matches!(enc.version, EncoderVersion::V2));
}

#[test]
fn encoded_collab_v1_matches_the_document_state() {
    let doc = new_replicated_doc();
    let map = doc.get_or_insert_map("data");
    {
        let mut txn = doc.transact_mut();
        yrs::Map::insert(&map, &mut txn, "greeting", "hello");
    }
    let enc = get_encoded_collab_v1(&doc);
    assert!(matches!(enc.version, EncoderVersion::V1));
    let txn = doc.transact();
    assert_eq!(enc.state_vector, txn.state_vector().encode_v1());
    assert_eq!(
        enc.doc_state,
        txn.encode_state_as_update_v1(&yrs::StateVector::default())
    );
    assert!(!enc.doc_state.is_empty());
}

#[test]
fn encoded_collab_v2_matches_the_document_state() {
    let doc = new_replicated_doc();
    let map = doc.get_or_insert_map("data");
    {
        let mut txn = doc.transact_mut();
        yrs::Map::insert(&map, &mut txn, "n", 7i64);
    }
    let enc = get_encoded_collab_v2(&doc);
    assert!(matches!(enc.version, EncoderVersion::V2));
    let txn = doc.transact();
    assert_eq!(enc.state_vector, txn.state_vector().encode_v2());
    assert_eq!(
        enc.doc_state,
        txn.encode_state_as_update_v2(&yrs::StateVector::default())
    );
}
