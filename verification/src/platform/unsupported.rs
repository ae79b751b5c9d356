//! Operating systems without default-browser registration support.

use vstd::prelude::*;

use crate::check::{Check, Level, checks_view, mk_check};
use crate::platform::InstallReport;

verus! {

/// No browser can be detected here.
pub fn find_browser_impl(id: &str) -> (r: Option<String>)
    ensures
        r is None,
{
    None
}

/// The refusal of a registration on this operating system.
pub open spec fn unsupported_message() -> Seq<char> {
    "this operating system is not supported for default-browser registration"@
}

/// Registration is refused here.
pub fn install_registration(exe: &str) -> (r: Result<InstallReport, String>)
    ensures
        r matches Err(e) && e@ == unsupported_message(),
{
    Err(String::from_str("this operating system is not supported for default-browser registration"))
}

/// There is nothing to remove here.
pub fn uninstall_registration() -> (r: Result<(), String>)
    ensures
        r is Ok,
{
    Ok(())
}

/// The single failing registration check of this operating system.
pub fn registration_checks() -> (r: Vec<Check>)
    ensures
        checks_view(r@) == seq![
            mk_check(
                "os: registration"@,
                Level::Fail,
                "default-browser registration is not implemented for this OS"@,
            ),
        ],
{
    let mut r: Vec<Check> = Vec::new();
    r.push(
        Check::fail(
            String::from_str("os: registration"),
            String::from_str("default-browser registration is not implemented for this OS"),
        ),
    );
    assert(checks_view(r@) =~= seq![
        mk_check(
            "os: registration"@,
            Level::Fail,
            "default-browser registration is not implemented for this OS"@,
        ),
    ]);
    r
}

} // verus!
