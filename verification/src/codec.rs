use vstd::prelude::*;
use crate::value::{has_prefix, GenericModel, GenericValue};
use crate::value::GenericValue as Gv;
use ciborium::Value as Cv;
use ciborium::Value::{Array, Bool, Bytes, Float, Integer, Null, Tag, Text};

verus! {

/// The permissive codec's dynamic value, opaque to the harness; the harness
/// reads it only through `generic_of_cbor`.
#[verifier::external_type_specification]
#[verifier::external_body]
pub struct ExCborValue(ciborium::Value);

/// The codec under test's own value, opaque to the harness; it is only
/// carried from its decoder onward.
#[verifier::external_type_specification]
#[verifier::external_body]
pub struct ExDrislValue(dasl::drisl::Value);

/// Whether the permissive general-purpose codec decodes these bytes.
/// It reads the bytes alone, so success is a function of them.
pub uninterp spec fn permissive_decodes(b: Seq<u8>) -> bool;

/// The value the permissive codec decodes these bytes to, as the harness
/// models it.  Meaningful when `permissive_decodes` holds of the bytes.
pub uninterp spec fn permissive_decoded(b: Seq<u8>) -> GenericModel;

/// Whether the codec under test decodes these bytes.  It reads the bytes
/// alone, so success is a function of them.
pub uninterp spec fn canonical_decodes(b: Seq<u8>) -> bool;

/// Whether, after the codec under test decodes these bytes, its encoder
/// accepts the decoded value.  Meaningful when `canonical_decodes` holds.
pub uninterp spec fn drisl_roundtrip_ok(b: Seq<u8>) -> bool;

/// The codec under test's re-encoding of the value it decodes these bytes
/// to.  Meaningful when `canonical_decodes` and `drisl_roundtrip_ok` hold.
pub uninterp spec fn drisl_reencoded(b: Seq<u8>) -> Seq<u8>;

/// Whether the codec under test's encoder accepts the value the permissive
/// codec decodes these bytes to.  Meaningful when `permissive_decodes`
/// holds.
pub uninterp spec fn drisl_generic_encodes(b: Seq<u8>) -> bool;

/// Relies on ciborium::de::from_reader and on the shape of ciborium::Value:
/// decodes a CBOR byte string, reading nothing but the bytes, and carries
/// the result over into the harness's own value model via
/// `generic_of_cbor`.  The error string always carries a prefix of its own.
#[verifier::external_body]
pub(crate) fn cbor_decode_generic(b: &[u8]) -> (r: Result<GenericValue, String>)
    ensures
        r is Ok <==> permissive_decodes(b@),
        r matches Ok(g) ==> g@ == permissive_decoded(b@),
        r matches Err(e) ==> e@.len() > 0,
{
    match ciborium::de::from_reader::<ciborium::Value, _>(b) {
        Ok(v) => Ok(generic_of_cbor(&v)),
        Err(e) => Err(format!("general CBOR decode error: {}", e)),
    }
}

/// Relies on the shape of ciborium::Value: each variant is carried over
/// one for one, with a float held as its bit pattern; any variant beyond
/// the known ones maps to `Other`.  Applied by `cbor_decode_generic` to its
/// decoded value.
#[verifier::external_body]
pub(crate) fn generic_of_cbor(v: &ciborium::Value) -> GenericValue {
    match v {
        Integer(i) => Gv::Integer((*i).into()),
        Bytes(b) => Gv::Bytes(b.clone()),
        Float(f) => Gv::Float(f.to_bits()),
        Text(s) => Gv::Text(s.clone()),
        Bool(b) => Gv::Bool(*b),
        Null => Gv::Null,
        Tag(t, x) => Gv::Tag(*t, Box::new(generic_of_cbor(x))),
        Array(a) => Gv::Array(a.iter().map(generic_of_cbor).collect()),
        Cv::Map(m) => Gv::Mapping(m.iter().map(|(k, w)| (generic_of_cbor(k), generic_of_cbor(w))).collect()),
        _ => Gv::Other,
    }
}

/// Relies on dasl::drisl::from_slice: decodes a DRISL byte string into the
/// codec's own value, reading nothing but the bytes; every refusal is an
/// error, and the error string always carries a prefix of its own.  The
/// decoder recurses without a depth limit, so a deeply nested payload can
/// exhaust the stack inside the codec; codec-internal resource failure is
/// outside the harness's concern.
#[verifier::external_body]
pub(crate) fn drisl_decode(b: &[u8]) -> (r: Result<dasl::drisl::Value, String>)
    ensures
        r is Ok <==> canonical_decodes(b@),
        r matches Err(e) ==> e@.len() > 0 && has_prefix(e@, "drisl decode error: "@),
{
    dasl::drisl::from_slice(b).map_err(|e| format!("drisl decode error: {}", e))
}

/// Relies on dasl::drisl::from_slice and dasl::drisl::to_vec: the
/// decode-then-re-encode composition reads the bytes alone, so its success
/// and its output are functions of them.  The depth caveat of
/// `drisl_decode` applies here too.
#[verifier::external_body]
pub(crate) fn drisl_roundtrip(b: &[u8]) -> (r: Result<Vec<u8>, String>)
    ensures
        r is Ok <==> (canonical_decodes(b@) && drisl_roundtrip_ok(b@)),
        r matches Ok(v) ==> v@ == drisl_reencoded(b@),
        r matches Err(e) ==> e@.len() > 0,
        (r is Err && !canonical_decodes(b@)) ==> has_prefix(
            r->Err_0@,
            "drisl decode error: "@,
        ),
        (r is Err && canonical_decodes(b@)) ==> has_prefix(r->Err_0@, "drisl encode error: "@),
{
    match dasl::drisl::from_slice::<dasl::drisl::Value>(b) {
        Ok(v) => dasl::drisl::to_vec(&v).map_err(|e| format!("drisl encode error: {}", e)),
        Err(e) => Err(format!("drisl decode error: {}", e)),
    }
}

/// Relies on ciborium::de::from_reader and dasl::drisl::to_vec with
/// ciborium::Value's Serialize: asks the codec under test to encode the
/// value the permissive codec decodes these bytes to.  Both steps read the
/// bytes alone, so the verdict is a function of them.
#[verifier::external_body]
pub(crate) fn drisl_encode_decoded(b: &[u8]) -> (r: Result<Vec<u8>, String>)
    requires
        permissive_decodes(b@),
    ensures
        r is Ok <==> drisl_generic_encodes(b@),
        r matches Err(e) ==> e@.len() > 0,
{
    match ciborium::de::from_reader::<ciborium::Value, _>(b) {
        Ok(v) => dasl::drisl::to_vec(&v).map_err(|e| format!("drisl encode error: {}", e)),
        Err(e) => Err(format!("general CBOR decode error: {}", e)),
    }
}

} // verus!
