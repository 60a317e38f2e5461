//! The payloads the node publishes, their content-derived identifiers, how an
//! inbound payload is read, and the reply to an address query.
use vstd::prelude::*;
use vstd::std_specs::hash::DefaultHasherAdditionalSpecFns;
use vstd::utf8::{decode_utf8, encode_utf8, valid_utf8};
use std::hash::Hasher;
use crate::text::{decimal, decimal_text};

verus! {

/// The text of a relay message: its stamp in decimal, then the peer that the
/// node answers.
pub open spec fn relay_text(stamp: nat, peer: Seq<char>) -> Seq<char> {
    decimal(stamp) + " Subscriber "@ + peer
}

/// The identifier of a published payload: the decimal text of its hash,
/// so that byte-identical payloads share one identifier.
pub open spec fn content_id(data: Seq<u8>) -> Seq<char> {
    decimal(std::hash::DefaultHasher::spec_finish(seq![data]) as nat)
}

/// What `String::from_utf8_lossy` makes of a byte sequence.
pub uninterp spec fn lossy_text(data: Seq<u8>) -> Seq<char>;

/// Relies on `String::from_utf8_lossy`: the text depends on the bytes alone,
/// and bytes that are valid UTF-8 are decoded as they are.
#[verifier::external_body]
fn decode_lossy(data: &[u8]) -> (r: String)
    ensures
        r@ == lossy_text(data@),
        valid_utf8(data@) ==> r@ == decode_utf8(data@),
{
    String::from_utf8_lossy(data).into_owned()
}

/// Builds the message that the node publishes to answer `peer`; `stamp`
/// keeps successive messages distinct.
pub fn make_msg(stamp: u128, peer: &str) -> (r: String)
    ensures
        r@ == relay_text(stamp as nat, peer@),
{
    let head = decimal_text(stamp);
    let r = head.concat(" Subscriber ").concat(peer);
    r
}

/// The identifier under which a payload travels on the mesh.
pub fn message_id(data: &[u8]) -> (r: String)
    ensures
        r@ == content_id(data@),
{
    let mut hasher = std::hash::DefaultHasher::new();
    hasher.write(data);
    let h = hasher.finish();
    proof {
        assert(hasher@ =~= seq![data@]);
    }
    decimal_text(h as u128)
}

/// Publishing the same payload bytes twice yields the same message
/// identifier, so the mesh delivers that content at most once.
pub proof fn lemma_same_content_same_id(a: Seq<u8>, b: Seq<u8>)
    requires
        a == b,
    ensures
        content_id(a) == content_id(b),
{
}

/// Reads an inbound payload as text; invalid sequences become U+FFFD and are
/// never an error.
pub fn payload_text(data: &[u8]) -> (r: String)
    ensures
        r@ == lossy_text(data@),
        valid_utf8(data@) ==> r@ == decode_utf8(data@),
{
    decode_lossy(data)
}

/// The answer to an address query: the UTF-8 bytes of the dialable address.
#[derive(Clone, Debug, PartialEq, Eq)]
pub struct ServerResponse {
    pub address: Vec<u8>,
}

impl ServerResponse {
    pub fn new(address: &str) -> (r: ServerResponse)
        ensures
            r.address@ == encode_utf8(address@),
    {
        ServerResponse { address: address.as_bytes_vec() }
    }
}

} // verus!
