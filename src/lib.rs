//! Host-side supervision of the local data helper: the Linux renderer
//! environment policy, the consolidated secrets vault, and the helper's
//! start/stop decisions.
use vstd::prelude::*;

pub mod links;
pub mod policy;
pub mod store;
pub mod supervisor;
pub mod text;
pub mod vault;

verus! {

} // verus!
