//! Store selection.
//!
//! The persistence backends — an embedded database or the hosted API —
//! live with the caller; the choice between them is made here from the
//! configured store type.

use vstd::prelude::*;

verus! {

/// Which persistence backend a node uses.
pub enum StoreType {
    Sqlite,
    Hosted,
}

/// The backend a configured store type selects: `hosted` names the hosted
/// API, anything else falls back to the embedded database.
pub fn store_type_of(configured: &str) -> (r: StoreType)
    ensures
        configured@ == "hosted"@ ==> r is Hosted,
        configured@ != "hosted"@ ==> r is Sqlite,
{
    if crate::text::str_eq(configured, "hosted") {
        StoreType::Hosted
    } else {
        StoreType::Sqlite
    }
}

} // verus!
