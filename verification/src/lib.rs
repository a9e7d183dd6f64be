//! Brute-force search engine for vanity blockchain account addresses.
//!
//! A candidate keypair is drawn at random, its account address is derived by
//! hashing the public key with a scheme identifier, and the address (or a
//! multisig address derived from it) is tested against a compiled hex
//! prefix/suffix specification with nibble precision.  A coordinator state
//! machine decides when enough matches have been collected and a rate window
//! projects the expected search time.

pub mod affix;
pub mod coordinator;
pub mod deriver;
pub mod estimator;
pub mod hexbytes;
pub mod search;
