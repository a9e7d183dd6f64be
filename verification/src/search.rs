//! The per-candidate work of a search worker: draw a keypair, derive the
//! address searched on, test it against the affix specification, and format
//! a match event for the coordinator.

use vstd::prelude::*;

use crate::affix::AffixSpec;
use crate::deriver::{
    auth_key_bytes_vec, auth_key_spec, create_multisig_account_address, generate_private_key,
    multisig_address_spec, SEQUENCE_NUMBER_MULTISIG,
};
use crate::hexbytes::{hex_encode_bytes, hex_of_bytes};

verus! {

/// A match reported by a worker to the coordinator: the standard account
/// address, the private key, and in multisig mode the multisig address, each
/// as lowercase hex without a leading `0x`.
#[derive(Debug, Clone, PartialEq, Eq)]
pub struct MatchEvent {
    pub address: String,
    pub private_key: String,
    pub multisig_address: Option<String>,
}

/// The bytes a candidate is searched on: in multisig mode the multisig
/// address derived from the standard address, otherwise the standard address.
pub open spec fn search_bytes_spec(private_key: Seq<u8>, multisig: bool) -> Seq<u8> {
    if multisig {
        multisig_address_spec(auth_key_spec(private_key), SEQUENCE_NUMBER_MULTISIG)
    } else {
        auth_key_spec(private_key)
    }
}

/// `ev` reports the candidate with the given private key faithfully for the
/// given mode.
pub open spec fn event_reports(ev: MatchEvent, private_key: Seq<u8>, multisig: bool) -> bool {
    &&& ev.private_key@ == hex_of_bytes(private_key)
    &&& ev.address@ == hex_of_bytes(auth_key_spec(private_key))
    &&& match ev.multisig_address {
        Some(m) => multisig && m@ == hex_of_bytes(search_bytes_spec(private_key, true)),
        None => !multisig,
    }
}

/// Derive the searched address for one candidate private key, test it, and
/// on a match format the event to report.
pub fn try_candidate(spec: &AffixSpec, multisig: bool, private_key: &Vec<u8>) -> (r: Option<
    MatchEvent,
>)
    requires
        spec.wf(),
        private_key@.len() == 32,
    ensures
        r is Some <==> spec.spec_accepts(search_bytes_spec(private_key@, multisig)),
        r matches Some(ev) ==> event_reports(ev, private_key@, multisig),
{
    let account_address_bytes = auth_key_bytes_vec(private_key);
    let search_bytes = if multisig {
        create_multisig_account_address(account_address_bytes, SEQUENCE_NUMBER_MULTISIG)
    } else {
        account_address_bytes
    };
    if !spec.accepts(&search_bytes) {
        return None;
    }
    let address_hex = hex_encode_bytes(&search_bytes);
    let private_key_hex = hex_encode_bytes(private_key);
    if multisig {
        let standard_address = auth_key_bytes_vec(private_key);
        Some(
            MatchEvent {
                address: hex_encode_bytes(&standard_address),
                private_key: private_key_hex,
                multisig_address: Some(address_hex),
            },
        )
    } else {
        Some(
            MatchEvent {
                address: address_hex,
                private_key: private_key_hex,
                multisig_address: None,
            },
        )
    }
}

/// One worker iteration: draw a fresh keypair and test it.  The key is
/// random, so all that holds of the outcome is that a reported event is a
/// faithful report of some 32-byte private key whose searched address
/// satisfies the affix specification.
pub fn search_step(spec: &AffixSpec, multisig: bool) -> (r: Option<MatchEvent>)
    requires
        spec.wf(),
    ensures
        r matches Some(ev) ==> exists|sk: Seq<u8>|
            {
                &&& sk.len() == 32
                &&& #[trigger] event_reports(ev, sk, multisig)
                &&& spec.spec_accepts(search_bytes_spec(sk, multisig))
            },
{
    let private_key = generate_private_key();
    let r = try_candidate(spec, multisig, &private_key);
    proof {
        if r is Some {
            assert(event_reports(r->Some_0, private_key@, multisig));
        }
    }
    r
}

} // verus!
