//! Runtime configuration: which backend to talk to and how chatty to be.
//! Parsing command-line text into these values happens outside the library.

use vstd::prelude::*;

verus! {

/// The daemon's configuration.
#[derive(Debug, Clone)]
pub struct Args {
    /// Address of the backend server.
    pub host: String,
    /// Port of the backend server.
    pub port: u32,
    /// Do not start the notification relay.
    pub no_notification: bool,
    /// Logging verbosity: 0 is informational, 1 debug, 2 trace.
    pub verbose: u8,
}

impl Args {
    /// The default configuration: the conventional local backend address.
    pub fn new() -> (r: Args)
        ensures
            r.host@ == "localhost"@,
            r.port == 6600,
            !r.no_notification,
            r.verbose == 0,
    {
        Args { host: "localhost".to_owned(), port: 6600, no_notification: false, verbose: 0 }
    }
}

} // verus!
