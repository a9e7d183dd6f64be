//! Derivation of account addresses: a standard address is the SHA3-256 hash
//! of the ed25519 public key followed by a scheme identifier byte; a multisig
//! address is the SHA3-256 hash of a domain-separated seed built from the
//! creator's address and a creation sequence number.

use vstd::prelude::*;

use sha3::Digest;
use vstd::bytes::{lemma_auto_spec_u64_to_from_le_bytes, spec_u64_to_le_bytes, u64_to_le_bytes};
use vstd::string::{StrSliceExecFns, StringSliceAdditionalSpecFns};

verus! {

/// Multisig account generation is assumed to take place in first transaction of standard account.
pub const SEQUENCE_NUMBER_MULTISIG: u64 = 0;

/// Scheme identifier for ed25519, appended to the public key before hashing.
pub const ED25519_SCHEME: u8 = 0;

/// Scheme identifier appended to a multisig derivation seed before hashing.
pub const MULTISIG_SCHEME: u8 = 255;

/// What `sha3::Sha3_256` returns: a one-way hash, a function of the input
/// bytes alone.
pub uninterp spec fn sha3_256_digest(data: Seq<u8>) -> Seq<u8>;

/// What ed25519 public-key derivation returns for a 32-byte private key: a
/// function of the private key alone.
pub uninterp spec fn ed25519_public_key(private_key: Seq<u8>) -> Seq<u8>;

/// Relies on `sha3::Sha3_256` through the `digest` traits: a 32-byte digest
/// that depends on the input bytes alone.
#[verifier::external_body]
fn sha3_256(data: &Vec<u8>) -> (r: Vec<u8>)
    ensures
        r@ == sha3_256_digest(data@),
        r@.len() == 32,
{
    sha3::Sha3_256::digest(data.as_slice()).to_vec()
}

/// Relies on `ed25519_dalek::SigningKey::from_bytes` and
/// `SigningKey::verifying_key`: the 32-byte public key determined by the
/// 32-byte private key alone.
#[verifier::external_body]
fn public_key_bytes(private_key: &Vec<u8>) -> (r: Vec<u8>)
    requires
        private_key@.len() == 32,
    ensures
        r@ == ed25519_public_key(private_key@),
        r@.len() == 32,
{
    let mut secret = [0u8; 32];
    secret.copy_from_slice(private_key.as_slice());
    let signing_key = ed25519_dalek::SigningKey::from_bytes(&secret);
    signing_key.verifying_key().to_bytes().to_vec()
}

/// Relies on `ed25519_dalek::SigningKey::generate` with `rand`'s `OsRng`: a
/// fresh 32-byte private key drawn from the operating system's secure
/// generator.  The value is random; nothing is promised of it beyond its
/// length.
#[verifier::external_body]
pub(crate) fn generate_private_key() -> (r: Vec<u8>)
    ensures
        r@.len() == 32,
{
    let mut rng = rand::rngs::OsRng;
    ed25519_dalek::SigningKey::generate(&mut rng).to_bytes().to_vec()
}

/// The authentication key (standard account address): SHA3-256 of the public
/// key followed by the ed25519 scheme identifier.
pub open spec fn auth_key_spec(private_key: Seq<u8>) -> Seq<u8> {
    sha3_256_digest(ed25519_public_key(private_key).push(ED25519_SCHEME))
}

/// Derive authentication key bytes vector from a reference to a private key.
pub fn auth_key_bytes_vec(private_key_ref: &Vec<u8>) -> (r: Vec<u8>)
    requires
        private_key_ref@.len() == 32,
    ensures
        r@ == auth_key_spec(private_key_ref@),
        r@.len() == 32,
{
    let mut public = public_key_bytes(private_key_ref);
    public.push(ED25519_SCHEME);
    sha3_256(&public)
}

/// The domain-separation tag for multisig account derivation.
pub open spec fn multisig_domain_tag() -> Seq<u8> {
    "aptos_framework::multisig_account".spec_bytes()
}

/// The multisig derivation seed: creator address, domain tag, little-endian
/// sequence number, multisig scheme identifier.
pub open spec fn multisig_seed(creator: Seq<u8>, creator_nonce: u64) -> Seq<u8> {
    creator + multisig_domain_tag() + spec_u64_to_le_bytes(creator_nonce) + seq![MULTISIG_SCHEME]
}

/// The multisig account address derived from a creator address and a
/// creation sequence number.
pub open spec fn multisig_address_spec(creator: Seq<u8>, creator_nonce: u64) -> Seq<u8> {
    sha3_256_digest(multisig_seed(creator, creator_nonce))
}

/// Creates a multisig account address from the creator's account address and
/// the sequence number of the creating transaction.
pub fn create_multisig_account_address(creator: Vec<u8>, creator_nonce: u64) -> (r: Vec<u8>)
    ensures
        r@ == multisig_address_spec(creator@, creator_nonce),
        r@.len() == 32,
{
    let ghost orig = creator@;
    let mut seed = creator;
    let mut tag = "aptos_framework::multisig_account".as_bytes_vec();
    seed.append(&mut tag);
    let mut nonce_bytes = u64_to_le_bytes(creator_nonce);
    seed.append(&mut nonce_bytes);
    seed.push(MULTISIG_SCHEME);
    proof {
        assert(seed@ =~= multisig_seed(orig, creator_nonce));
    }
    sha3_256(&seed)
}

/// Address derivation is deterministic: equal private keys yield equal
/// authentication keys.
pub proof fn lemma_auth_key_deterministic(a: Seq<u8>, b: Seq<u8>)
    requires
        a == b,
    ensures
        auth_key_spec(a) == auth_key_spec(b),
{
}

/// Multisig derivation is deterministic: equal creator addresses and equal
/// sequence numbers yield equal multisig addresses.
pub proof fn lemma_multisig_deterministic(c1: Seq<u8>, n1: u64, c2: Seq<u8>, n2: u64)
    requires
        c1 == c2,
        n1 == n2,
    ensures
        multisig_address_spec(c1, n1) == multisig_address_spec(c2, n2),
{
}

/// Distinct (creator, sequence number) pairs build distinct derivation
/// seeds.  Injectivity of the derived address itself would need collision
/// freedom of the hash, which cannot be proved; this is the provable part.
pub proof fn lemma_multisig_seed_injective(c1: Seq<u8>, n1: u64, c2: Seq<u8>, n2: u64)
    requires
        multisig_seed(c1, n1) == multisig_seed(c2, n2),
    ensures
        c1 == c2,
        n1 == n2,
{
    lemma_auto_spec_u64_to_from_le_bytes();
    let s1 = multisig_seed(c1, n1);
    let s2 = multisig_seed(c2, n2);
    let t = multisig_domain_tag().len() as int;
    assert(s1.len() == c1.len() + t + 9);
    assert(s2.len() == c2.len() + t + 9);
    assert(c1.len() == c2.len());
    assert(c1 =~= c2) by {
        assert forall|i: int| 0 <= i < c1.len() implies c1[i] == c2[i] by {
            assert(s1[i] == c1[i]);
            assert(s2[i] == c2[i]);
        }
    }
    let off = c1.len() + t;
    assert(spec_u64_to_le_bytes(n1) =~= spec_u64_to_le_bytes(n2)) by {
        assert forall|j: int| 0 <= j < 8 implies spec_u64_to_le_bytes(n1)[j] == spec_u64_to_le_bytes(
            n2,
        )[j] by {
            assert(s1[off + j] == spec_u64_to_le_bytes(n1)[j]);
            assert(s2[off + j] == spec_u64_to_le_bytes(n2)[j]);
        }
    }
    assert(vstd::bytes::spec_u64_from_le_bytes(spec_u64_to_le_bytes(n1)) == n1);
    assert(vstd::bytes::spec_u64_from_le_bytes(spec_u64_to_le_bytes(n2)) == n2);
}

} // verus!
