//! The parameter digest used to guard persisted model rows against
//! tampering and staleness.

use vstd::prelude::*;
use crate::model::FeatureParams;

verus! {

/// The lower-case hex SHA-256 digest of the canonical text form of a
/// parameter set.  The digest is a function of the five field values
/// alone; nothing short states its value, so it stays a name.
pub uninterp spec fn params_digest(
    feature_size: int,
    fast_period: int,
    slow_period: int,
    signal_period: int,
    bb_period: int,
) -> Seq<char>;

/// Relies on sha2::Sha256 (update and finalize): the digest of the
/// canonical text form of `p`, printed as lower-case hex, two digits per
/// byte.  The text form is built from the five field values alone, so
/// equal parameters always give equal digests.
#[verifier::external_body]
pub fn params_hex_digest(p: &FeatureParams) -> (r: String)
    ensures
        r@ == params_digest(
            p.feature_size as int,
            p.fast_period as int,
            p.slow_period as int,
            p.signal_period as int,
            p.bb_period as int,
        ),
{
    let text = format!("{:?}", p);
    let mut hasher = <sha2::Sha256 as sha2::Digest>::new();
    sha2::Digest::update(&mut hasher, text.as_bytes());
    format!("{:02x}", sha2::Digest::finalize(hasher))
}

} // verus!
