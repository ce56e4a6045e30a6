use vstd::prelude::*;

verus! {

/// The owner of a session's peer connections; peer selection is left to its
/// callers.
#[derive(Debug)]
pub struct PeerManager {}

} // verus!
