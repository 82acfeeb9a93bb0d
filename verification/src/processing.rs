//! Frame analysis.
use vstd::prelude::*;

verus! {

/// Looks for faces in the current frame. The detector behind it is not
/// there yet: the call does nothing.
pub fn scan_facial_presence() {
}

} // verus!
