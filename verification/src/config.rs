//! Start-up settings of the relay: which security mode it runs in.

use vstd::prelude::*;

use crate::text::str_eq;

verus! {

/// What `str::to_lowercase` makes of a string.
pub uninterp spec fn lowercase(s: Seq<char>) -> Seq<char>;

/// `str::to_lowercase`: the Unicode lowercase mapping of the string.  The
/// result is named `lowercase`.
#[verifier::external_body]
fn to_lowercase(s: &str) -> (r: String)
    ensures
        r@ == lowercase(s@),
{
    s.to_lowercase()
}

/// Whether an environment flag's value turns the flag on: `1`, `true` or
/// `yes`, in any case.
pub open spec fn flag_value_on(value: Seq<char>) -> bool {
    lowercase(value) == "1"@ || lowercase(value) == "true"@ || lowercase(value) == "yes"@
}

/// Whether a flag is on, given its environment value (none when unset).
pub fn env_flag(value: Option<&str>) -> (r: bool)
    ensures
        r == match value {
            Some(v) => flag_value_on(v@),
            None => false,
        },
{
    match value {
        Some(v) => {
            let lower = to_lowercase(v);
            str_eq(lower.as_str(), "1") || str_eq(lower.as_str(), "true") || str_eq(
                lower.as_str(),
                "yes",
            )
        },
        None => false,
    }
}

/// How the relay authenticates client tunnels.
#[derive(Clone, Copy, PartialEq, Eq, Debug, Structural)]
pub enum SecurityMode {
    /// Client certificates must chain to the CA read from `WORMHOLE_CA_CERT`.
    Mtls,
    /// Local development: no client authentication.
    Unsecure,
}

/// Why the relay refuses to start.
#[derive(Clone, Copy, PartialEq, Eq, Debug, Structural)]
pub enum ConfigError {
    /// Neither a CA certificate nor development mode was configured.
    NoSecurityMode,
}

impl ConfigError {
    pub fn message(&self) -> (r: &'static str)
        ensures
            r@ == "WORMHOLE_CA_CERT is required for mTLS; set WORMHOLE_DEV=1 only for local unsecure development"@,
    {
        "WORMHOLE_CA_CERT is required for mTLS; set WORMHOLE_DEV=1 only for local unsecure development"
    }
}

/// The security mode: mTLS whenever a CA certificate path is set, else
/// unsecure mode when the development flag is on, else no mode at all.
pub fn security_mode(ca_cert_set: bool, dev_flag: Option<&str>) -> (r: Result<SecurityMode, ConfigError>)
    ensures
        ca_cert_set ==> r == Ok::<SecurityMode, ConfigError>(SecurityMode::Mtls),
        !ca_cert_set ==> r == if (match dev_flag {
            Some(v) => flag_value_on(v@),
            None => false,
        }) {
            Ok::<SecurityMode, ConfigError>(SecurityMode::Unsecure)
        } else {
            Err(ConfigError::NoSecurityMode)
        },
{
    if ca_cert_set {
        Ok(SecurityMode::Mtls)
    } else if env_flag(dev_flag) {
        Ok(SecurityMode::Unsecure)
    } else {
        Err(ConfigError::NoSecurityMode)
    }
}

} // verus!
