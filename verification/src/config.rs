//! The configuration that the programs share.

use vstd::prelude::*;
use vstd::string::StringExecFns;

verus! {

/// Two named settings.
#[derive(Debug)]
pub struct Config {
    pub a: String,
    pub b: String,
}

/// The configuration that every program starts from.
pub fn init_config() -> (r: Option<Config>)
    ensures
        r is Some,
        r->0.a@ == "A"@,
        r->0.b@ == "B"@,
{
    Some(Config { a: String::from_str("A"), b: String::from_str("B") })
}

} // verus!
