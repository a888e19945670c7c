use crate::error::{Fault, HostsError};
use crate::text::{same_chars, to_chars};
use vstd::prelude::*;

verus! {

/// The system hosts file.
pub const SYSTEM_HOSTS_PATH: &'static str = "/etc/hosts";

/// The file in which a document waits to be copied over the system hosts
/// file.
pub const STAGING_PATH: &'static str = "/tmp/hedit_hosts_update";

/// How the system hosts file is written.
#[derive(Debug, Clone, Copy, PartialEq, Eq)]
pub enum WriteMethod {
    /// The file is written as it is.
    Direct,
    /// The document is written to the staging file, which is copied over
    /// the system hosts file with raised rights and then removed.
    Elevated,
}

/// How the system hosts file is written on a platform, if at all: with
/// raised rights on `linux`, directly on `macos`, and not elsewhere.
pub open spec fn method_on(platform: Seq<char>) -> Option<WriteMethod> {
    if platform == "linux"@ {
        Some(WriteMethod::Elevated)
    } else if platform == "macos"@ {
        Some(WriteMethod::Direct)
    } else {
        None
    }
}

/// How the system hosts file is written on `platform`. On a platform other
/// than `linux` and `macos` nothing is written.
pub fn write_method(platform: &str) -> (r: Result<WriteMethod, HostsError>)
    ensures
        r matches Ok(m) ==> method_on(platform@) == Some(m),
        r matches Err(e) ==> method_on(platform@) is None && e@ == (Fault::UnsupportedPlatform {
            platform: platform@,
        }),
{
    let given = to_chars(platform);
    let linux = to_chars("linux");
    let macos = to_chars("macos");
    if same_chars(given.as_slice(), linux.as_slice()) {
        Ok(WriteMethod::Elevated)
    } else if same_chars(given.as_slice(), macos.as_slice()) {
        Ok(WriteMethod::Direct)
    } else {
        Err(HostsError::UnsupportedPlatform { platform: platform.to_owned() })
    }
}

/// What a write with raised rights comes to: it went well, or it failed
/// with what the helper complained of.
pub fn write_outcome(succeeded: bool, complaint: &str) -> (r: Result<(), HostsError>)
    ensures
        r is Ok <==> succeeded,
        r matches Err(e) ==> e@ == (Fault::PrivilegedWriteFailed { reason: complaint@ }),
{
    if succeeded {
        Ok(())
    } else {
        Err(HostsError::PrivilegedWriteFailed { reason: complaint.to_owned() })
    }
}

} // verus!
