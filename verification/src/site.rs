//! The site's fixed pages and start-up choices.
use vstd::prelude::*;

use crate::auth::AuthTokenGuard;
use crate::text::{chars_eq, str_chars};

verus! {

/// A page that only signed-in users reach; it answers "test".
pub fn test(_guard: AuthTokenGuard) -> (page: &'static str)
    ensures
        page@ == "test"@,
{
    "test"
}

/// A small fixed HTML page.
pub fn gethtml() -> (page: &'static str)
    ensures
        page@ == "<h1>bruh</h1>"@,
{
    "<h1>bruh</h1>"
}

/// The front page.
pub fn index() -> (page: &'static str)
    ensures
        page@ == "<h1>fantasypvp.uk</h1>"@,
{
    "<h1>fantasypvp.uk</h1>"
}

/// Where an unauthorized request is sent: the login page.
pub fn not_authorized_target() -> (target: &'static str)
    ensures
        target@ == "/login"@,
{
    "/login"
}

/// Whether the command-line arguments ask for the start-up self-checks: one
/// of them is "runtest".
pub fn wants_self_test(args: &Vec<String>) -> (wanted: bool)
    ensures
        wanted == exists|i: int| 0 <= i < args@.len() && (#[trigger] args@[i])@ == "runtest"@,
{
    let flag = str_chars("runtest");
    let mut i: usize = 0;
    while i < args.len()
        invariant
            i <= args@.len(),
            flag@ == "runtest"@,
            forall|j: int| 0 <= j < i ==> (#[trigger] args@[j])@ != "runtest"@,
        decreases args.len() - i,
    {
        let arg = str_chars(args[i].as_str());
        if chars_eq(&arg, &flag) {
            assert(args@[i as int]@ == "runtest"@);
            return true;
        }
        i = i + 1;
    }
    false
}

/// The background task that pushes new messages to the open live
/// connections.
pub struct RealTimeMessenger;

impl RealTimeMessenger {
    /// The name under which the background task is registered.
    pub fn name(&self) -> (name: &'static str)
        ensures
            name@ == "Database Polling for messenger"@,
    {
        "Database Polling for messenger"
    }
}

} // verus!
