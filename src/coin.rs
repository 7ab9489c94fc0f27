use vstd::prelude::*;
use crate::node::NodeId;
use threshold_crypto::{PublicKeySet, SecretKeyShare, Signature, SignatureShare};

verus! {

/// `threshold_crypto::PublicKeySet`, the public side of the coin's threshold keys; carried opaquely.
#[verifier::external_type_specification]
#[verifier::external_body]
pub struct ExPublicKeySet(threshold_crypto::PublicKeySet);

/// `threshold_crypto::SecretKeyShare`, our share of the coin's threshold key; carried opaquely.
#[verifier::external_type_specification]
#[verifier::external_body]
pub struct ExSecretKeyShare(threshold_crypto::SecretKeyShare);

/// `threshold_crypto::SignatureShare`, one node's share of a coin signature; carried opaquely.
#[verifier::external_type_specification]
#[verifier::external_body]
pub struct ExSignatureShare(threshold_crypto::SignatureShare);

/// `threshold_crypto::Signature`, a combined coin signature; carried opaquely.
#[verifier::external_type_specification]
#[verifier::external_body]
pub struct ExSignature(threshold_crypto::Signature);

/// `threshold_crypto::error::Error`, why shares could not be combined.
#[verifier::external_type_specification]
#[verifier::external_body]
pub struct ExCryptoError(threshold_crypto::error::Error);

/// `bincode::error::EncodeError`, why a value could not be serialised.
#[verifier::external_type_specification]
#[verifier::external_body]
pub struct ExEncodeError(bincode::error::EncodeError);

/// Relies on `threshold_crypto::SignatureShare`'s derived `Clone`, which
/// copies the share's curve point field for field: the copy is the same share.
pub assume_specification[ <threshold_crypto::SignatureShare as core::clone::Clone>::clone ](
    share: &threshold_crypto::SignatureShare,
) -> (r: threshold_crypto::SignatureShare)
    ensures
        r == *share,
;

/// Relies on `threshold_crypto::PublicKeySet`'s derived `Clone`, which
/// copies the key commitment coefficient for coefficient: the copy is the
/// same key set; each new round gets its own copy.
pub assume_specification[ <threshold_crypto::PublicKeySet as core::clone::Clone>::clone ](
    keys: &threshold_crypto::PublicKeySet,
) -> (r: threshold_crypto::PublicKeySet)
    ensures
        r == *keys,
;

/// Why no coin could be drawn from a set of signature shares.
#[derive(Clone, Copy, Debug, PartialEq, Eq, Structural)]
pub enum CoinError {
    /// The shares could not be combined: the key set is empty, or there are
    /// too few shares.
    CombineSignature,
    /// The combined signature could not be serialised.
    Encode,
}

/// The bytes signed for the coin of `round`: its little-endian encoding as
/// an unsigned 64-bit integer.
pub open spec fn le_bytes(round: u64) -> Seq<u8> {
    Seq::new(8, |i: int| (round >> (8 * i) as u64) as u8)
}

/// The digest that BLAKE3 gives for `data`.
pub uninterp spec fn blake3_of(data: Seq<u8>) -> Seq<u8>;

/// The signature share that `key` gives over `msg`.
pub uninterp spec fn share_of(key: SecretKeyShare, msg: Seq<u8>) -> SignatureShare;

/// Whether a key set's commitment has no coefficient at all (the key set of
/// the zero polynomial). Such a set has no threshold.
pub uninterp spec fn key_set_empty(keys: PublicKeySet) -> bool;

/// The threshold `t` of a key set: `t + 1` shares combine into a signature.
pub uninterp spec fn threshold_of(keys: PublicKeySet) -> nat;

/// The signature that `keys` interpolates from `shares` (each share indexed
/// by its signer's id), when there are more than `threshold_of(keys)`.
pub uninterp spec fn combined_of(keys: PublicKeySet, shares: Seq<(NodeId, SignatureShare)>) -> Signature;

/// The standard bincode serialisation of a signature, `None` if it fails.
pub uninterp spec fn encoding_of(sig: Signature) -> Option<Seq<u8>>;

/// The common coin drawn from `shares`: `None` when the key set is empty or
/// the shares are too few to combine or the combined signature cannot be serialised; otherwise whether
/// the last byte of the BLAKE3 digest of the serialised combined signature is
/// even.
pub open spec fn coin_of(keys: PublicKeySet, shares: Seq<(NodeId, SignatureShare)>) -> Option<bool> {
    if key_set_empty(keys) {
        None
    } else if shares.len() > threshold_of(keys) {
        match encoding_of(combined_of(keys, shares)) {
            Some(bytes) => Some(blake3_of(bytes)[31] % 2 == 0),
            None => None,
        }
    } else {
        None
    }
}

/// The message whose threshold signature is the common coin of `round`.
pub fn coin_message(round: u64) -> (r: Vec<u8>)
    ensures
        r@ == le_bytes(round),
{
    let mut r: Vec<u8> = Vec::new();
    let mut i: u64 = 0;
    while i < 8
        invariant
            0 <= i <= 8,
            r@.len() == i,
            forall|j: int| 0 <= j < i ==> r@[j] == (round >> (8 * j) as u64) as u8,
        decreases 8 - i,
    {
        r.push((round >> (8 * i)) as u8);
        i += 1;
    }
    assert(r@ =~= le_bytes(round));
    r
}

/// The coin bit of a digest: whether its last byte is even.
pub fn coin_of_digest(digest: &[u8; 32]) -> (r: bool)
    ensures
        r == (digest@[31] % 2 == 0),
{
    digest[31] % 2 == 0
}

/// Relies on `threshold_crypto::SecretKeyShare::sign`: our share of the
/// signature over `msg`, a deterministic BLS signature.
#[verifier::external_body]
pub(crate) fn sign_share(key: &SecretKeyShare, msg: &Vec<u8>) -> (r: SignatureShare)
    ensures
        r == share_of(*key, msg@),
{
    key.sign(msg)
}

/// Relies on the derived `PartialEq` of `threshold_crypto::PublicKeySet` and
/// `poly::Commitment` (equal coefficient vectors) and on `Poly::zero` having
/// no coefficient: whether `keys` is the key set of the zero polynomial, i.e.
/// whether its commitment is empty.
#[verifier::external_body]
pub(crate) fn is_empty_key_set(keys: &PublicKeySet) -> (r: bool)
    ensures
        r == key_set_empty(*keys),
{
    *keys == PublicKeySet::from(threshold_crypto::poly::Poly::zero().commitment())
}

/// Relies on `threshold_crypto::PublicKeySet::combine_signatures`: the
/// signature interpolated from the shares, each indexed by its signer's id.
/// Its `interpolate` takes the first `threshold + 1` shares and fails only
/// when there are not that many (`NotEnoughShares`): repeated indexes are
/// filtered out of the denominators, so `DuplicateEntry` cannot arise. On an
/// empty commitment its `degree` underflows, so such key sets are left out.
#[verifier::external_body]
pub(crate) fn combine_shares(
    keys: &PublicKeySet,
    shares: &Vec<(NodeId, SignatureShare)>,
) -> (r: Result<Signature, threshold_crypto::error::Error>)
    requires
        !key_set_empty(*keys),
    ensures
        r is Ok <==> shares@.len() > threshold_of(*keys),
        r matches Ok(sig) ==> sig == combined_of(*keys, shares@),
{
    keys.combine_signatures(shares.iter().map(|(node, share)| (node.0 as usize, share)))
}

/// Relies on `bincode::serde::encode_to_vec` with the standard configuration:
/// the serialised form of a combined signature, which depends on it alone.
#[verifier::external_body]
pub(crate) fn encode_signature(sig: &Signature) -> (r: Result<Vec<u8>, bincode::error::EncodeError>)
    ensures
        r is Ok <==> encoding_of(*sig) is Some,
        r matches Ok(bytes) ==> encoding_of(*sig) == Some(bytes@),
{
    bincode::serde::encode_to_vec(sig, bincode::config::standard())
}

/// Relies on `blake3::hash`: the 32-byte digest of `data`.
#[verifier::external_body]
pub(crate) fn hash_bytes(data: &Vec<u8>) -> (r: [u8; 32])
    ensures
        r@ == blake3_of(data@),
{
    *blake3::hash(data.as_slice()).as_bytes()
}

/// Draws the common coin from the signature shares over one round's coin
/// message: combine them, serialise the combined signature, hash it, and
/// take the parity of the digest's last byte.
pub fn flip_coin(
    keys: &PublicKeySet,
    shares: &Vec<(NodeId, SignatureShare)>,
) -> (r: Result<bool, CoinError>)
    ensures
        r is Ok <==> coin_of(*keys, shares@) is Some,
        r matches Ok(c) ==> coin_of(*keys, shares@) == Some(c),
        r == Err::<bool, CoinError>(CoinError::CombineSignature) <==> key_set_empty(*keys) || shares@.len()
            <= threshold_of(*keys),
{
    if is_empty_key_set(keys) {
        return Err(CoinError::CombineSignature);
    }
    let combined = match combine_shares(keys, shares) {
        Ok(sig) => sig,
        Err(_) => return Err(CoinError::CombineSignature),
    };
    let bytes = match encode_signature(&combined) {
        Ok(bytes) => bytes,
        Err(_) => return Err(CoinError::Encode),
    };
    let digest = hash_bytes(&bytes);
    Ok(coin_of_digest(&digest))
}

} // verus!
