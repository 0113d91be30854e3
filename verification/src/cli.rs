//! What the command line chooses.

use vstd::prelude::*;
use vstd::string::*;

verus! {

/// What is logged by default, by how often more was asked for.
pub fn log_filter(verbosity: u8) -> (filter: &'static str)
    ensures
        filter@ == (if verbosity == 0 {
            "warn,tuzminal=info"@
        } else if verbosity == 1 {
            "info,tuzminal=debug,tuz_config=debug"@
        } else {
            "debug,tuzminal=trace"@
        }),
{
    match verbosity {
        0 => "warn,tuzminal=info",
        1 => "info,tuzminal=debug,tuz_config=debug",
        _ => "debug,tuzminal=trace",
    }
}

} // verus!
