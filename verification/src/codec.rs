//! The binary form in which the identifier index is kept beside the file.
//!
//! The form is bincode's, with its default configuration: the entries as a
//! sequence of pairs, each an identifier and the sequence of its places.

use vstd::prelude::*;

verus! {

/// The entries of an identifier index as plain values: each identifier
/// with its places.
pub type EntriesModel = Seq<(Seq<char>, Seq<(Seq<char>, u64)>)>;

/// `bincode::ErrorKind`, what bincode reports when it fails; it is carried
/// through unread.
#[verifier::external_type_specification]
#[verifier::external_body]
pub struct ExBincodeErrorKind(bincode::ErrorKind);

/// The bytes that `bincode::serialize` gives for these entries.
pub uninterp spec fn encoded_entries(entries: Seq<(Seq<char>, Seq<(Seq<char>, u64)>)>) -> Seq<u8>;

/// The entries that `bincode::deserialize` reads from these bytes;
/// nothing where it reports an error.
pub uninterp spec fn decoded_entries(bytes: Seq<u8>) -> Option<Seq<(Seq<char>, Seq<(Seq<char>, u64)>)>>;

/// Calls `bincode::serialize` on the entries. It does not fail on them:
/// it sets no size limit, every sequence knows its length, and it writes
/// to memory. The bytes depend on the entries' content alone and are known
/// here only by name.
#[verifier::external_body]
pub(crate) fn encode_entries(entries: &Vec<(String, Vec<(String, u64)>)>) -> (outcome: Result<
    Vec<u8>,
    Box<bincode::ErrorKind>,
>)
    ensures
        match outcome {
            Ok(bytes) => bytes@ == encoded_entries(entries.deep_view()),
            Err(_) => false,
        },
{
    bincode::serialize(entries)
}

/// Calls `bincode::deserialize` on the bytes, for a sequence of entries.
/// What it returns depends on the bytes alone and is known here by name,
/// with one fact beside: bytes that `bincode::serialize` wrote for some
/// entries are read back as those entries.
#[verifier::external_body]
pub(crate) fn decode_entries(bytes: &[u8]) -> (outcome: Result<
    Vec<(String, Vec<(String, u64)>)>,
    Box<bincode::ErrorKind>,
>)
    ensures
        match outcome {
            Ok(entries) => decoded_entries(bytes@) == Some(entries.deep_view()),
            Err(_) => decoded_entries(bytes@) is None,
        },
        forall|written: Seq<(Seq<char>, Seq<(Seq<char>, u64)>)>|
            #[trigger] encoded_entries(written) == bytes@ ==> outcome is Ok
                && outcome.unwrap().deep_view() == written,
{
    bincode::deserialize(bytes)
}

} // verus!
