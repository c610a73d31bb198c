use vstd::prelude::*;

verus! {

/// One selectable signing key: an identifier (such as a long key id), which
/// is never empty, and a human-readable label (such as the user id it belongs
/// to), which may be.
pub struct KeyRecord {
    pub identifier: String,
    pub label: String,
}

impl KeyRecord {
    /// A key with the given identifier and label.
    pub fn new(identifier: String, label: String) -> (r: KeyRecord)
        requires
            identifier@.len() > 0,
        ensures
            r.identifier@ == identifier@,
            r.label@ == label@,
    {
        KeyRecord { identifier, label }
    }
}

} // verus!
