use vstd::prelude::*;

verus! {

/// The store's own error, as the embedded database reports it.
#[verifier::external_type_specification]
#[verifier::external_body]
pub struct ExSledError(sled::Error);

/// Why an operation on the registry did not complete.
#[derive(Debug)]
pub enum RegistryError {
    /// The store could not be opened or created.
    StoreOpen(sled::Error),
    /// The store failed to read or write.
    StoreIo(sled::Error),
    /// The bytes kept under this key are not the record of any profile.
    Malformed { key: Vec<u8> },
}

} // verus!
