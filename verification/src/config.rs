//! Where the proxy listens, as configured.

use vstd::prelude::*;

verus! {

/// The bind address as the operator gave it. Either part may be missing.
#[derive(Debug)]
pub struct Config {
    pub ip: Option<String>,
    pub port: Option<u16>,
}

} // verus!
