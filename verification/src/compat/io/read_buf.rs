//! Notes on `ReadBuf` bridging between the runtime and Tokio.

use vstd::prelude::*;

verus! {

/// Describes when `ReadBuf` bridging is available.
pub fn bridge_note() -> (r: &'static str)
    ensures
        r@ == "ReadBuf bridging is implemented when the tokio-io feature is enabled"@,
{
    "ReadBuf bridging is implemented when the tokio-io feature is enabled"
}

} // verus!
