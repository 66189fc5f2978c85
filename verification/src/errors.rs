use vstd::prelude::*;

verus! {

/// The error kinds of the derivation pipeline. Every error is fatal for the
/// run: a failed stage is propagated upward, never skipped, so that no index
/// can be silently omitted from the output.
#[derive(Debug)]
pub enum Error {
    /// A supplied master key string is not a valid extended public key.
    KeyParse(String),
    /// A child-key derivation step failed (hardened step requested, or the
    /// curve arithmetic left the valid key space).
    Derivation(String),
    /// The descriptor policy invariants were violated (wrong key count or
    /// threshold), or the descriptor could not be encoded.
    Descriptor(String),
}

impl Error {
    /// The message the error carries.
    pub open spec fn spec_message(&self) -> Seq<char> {
        match self {
            Error::KeyParse(m) => m@,
            Error::Derivation(m) => m@,
            Error::Descriptor(m) => m@,
        }
    }

    /// A human-readable description of the error: the held message.
    pub fn describe(&self) -> (r: String)
        ensures
            r@ == self.spec_message(),
    {
        match self {
            Error::KeyParse(m) => m.clone(),
            Error::Derivation(m) => m.clone(),
            Error::Descriptor(m) => m.clone(),
        }
    }
}

} // verus!
