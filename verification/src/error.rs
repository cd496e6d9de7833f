//! Typed error values for the fallible boundaries of the crate: encoding,
//! decoding, transport hand-off, identity parsing and header field setting.
//!
//! Every error carries a short description so callers can log it; errors are
//! ordinary data, never control flow.

use vstd::prelude::*;

verus! {

/// Placeholder error for failures that carry no inner cause.
#[derive(Debug)]
pub struct DumbError;

/// A byte buffer could not be decoded into a message or identity.
#[derive(Debug)]
pub struct DeserializeError {
    pub describe: String,
}

impl DeserializeError {
    pub fn new(des: &str) -> (r: Self)
        ensures
            r.describe@ == des@,
    {
        Self { describe: des.to_owned() }
    }

    /// What went wrong, for logging.
    pub fn describe(&self) -> (r: String)
        ensures
            r@ == self.describe@,
    {
        self.describe.clone()
    }
}

/// A message could not be encoded, most often because it is over-length.
#[derive(Debug)]
pub struct SerializeError {
    pub describe: String,
}

impl SerializeError {
    pub fn new(des: &str) -> (r: Self)
        ensures
            r.describe@ == des@,
    {
        Self { describe: des.to_owned() }
    }

    /// What went wrong, for logging.
    pub fn describe(&self) -> (r: String)
        ensures
            r@ == self.describe@,
    {
        self.describe.clone()
    }
}

/// A stream-transport operation failed.
#[derive(Debug)]
pub struct TransportError {
    pub describe: String,
}

impl TransportError {
    pub fn new(des: &str) -> (r: Self)
        ensures
            r.describe@ == des@,
    {
        Self { describe: des.to_owned() }
    }

    /// What went wrong, for logging.
    pub fn describe(&self) -> (r: String)
        ensures
            r@ == self.describe@,
    {
        self.describe.clone()
    }
}

/// A byte slice had the wrong shape for the identity it should hold.
#[derive(Debug)]
pub struct TryfromSliceError {
    pub describe: String,
}

impl TryfromSliceError {
    pub fn new(des: &str) -> (r: Self)
        ensures
            r.describe@ == des@,
    {
        Self { describe: des.to_owned() }
    }

    /// What went wrong, for logging.
    pub fn describe(&self) -> (r: String)
        ensures
            r@ == self.describe@,
    {
        self.describe.clone()
    }
}

/// A header field was set to an out-of-range value, or read as one.
#[derive(Debug)]
pub struct BadFieldError {
    pub describe: String,
}

impl BadFieldError {
    pub fn new(des: &str) -> (r: Self)
        ensures
            r.describe@ == des@,
    {
        Self { describe: des.to_owned() }
    }

    /// What went wrong, for logging.
    pub fn describe(&self) -> (r: String)
        ensures
            r@ == self.describe@,
    {
        self.describe.clone()
    }
}

} // verus!
