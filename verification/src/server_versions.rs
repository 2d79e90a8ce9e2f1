//! The capability gate: which protocol version a feature needs.

use vstd::prelude::*;
use crate::errors::{Error, ErrorView};

verus! {

/// The lowest protocol version that answers head-timestamp requests.
pub const REQ_HEAD_TIMESTAMP: i32 = 103;

/// Whether a gateway that negotiated the version `negotiated` offers a
/// feature that needs the version `minimum`.
pub open spec fn can_use(minimum: int, negotiated: int) -> bool {
    minimum <= negotiated
}

/// Checks the negotiated version against the minimum that a feature needs.
///
/// Below the minimum the answer is `UnsupportedFeature`, with both versions
/// and the name of the feature.
pub fn check_version(negotiated: i32, minimum: i32, feature: &str) -> (outcome: Result<(), Error>)
    ensures
        match outcome {
            Ok(_) => can_use(minimum as int, negotiated as int),
            Err(e) => !can_use(minimum as int, negotiated as int) && e@
                == (ErrorView::UnsupportedFeature {
                required: minimum as int,
                negotiated: negotiated as int,
                feature: feature@,
            }),
        },
{
    if minimum <= negotiated {
        Ok(())
    } else {
        Err(
            Error::UnsupportedFeature {
                required: minimum,
                negotiated,
                feature: String::from_str(feature),
            },
        )
    }
}

} // verus!
