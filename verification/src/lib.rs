//! The native side of a bridge between compiled code and a JavaScript host.
//!
//! Only numbers cross the boundary between the two. Host values stay on the
//! host, in an object table, and native code holds counted handles to them;
//! text crosses as UTF-16 through shared memory. This crate is the logic of
//! that protocol: which call to make and when, what the bytes mean, and how
//! the host's support script is prepared. It makes no call itself: a function
//! that needs the host hands back the call, and the embedder makes it.
use vstd::prelude::*;

pub mod boundary;
pub mod object;
pub mod ownership;
pub mod preprocess;
pub mod strings;
pub mod table;

pub use boundary::BoundaryCall;
pub use object::JSObject;
pub use preprocess::LexError;

verus! {

/// The native side's record of the one-time setup of the host.
///
/// A bridge becomes ready when `init` hands out the installing script, and
/// stays ready. Wrappers that own a table slot, and the calls that store
/// something new, are to be had from a ready bridge only, so no call that
/// needs the host's helpers can come before the setup.
pub struct Bridge {
    installed: bool,
}

impl Bridge {
    /// The host's helpers are installed.
    pub closed spec fn ready(&self) -> bool {
        self.installed
    }

    /// The record of a host that has not been set up.
    pub fn new() -> (r: Bridge)
        ensures
            !r.ready(),
    {
        Bridge { installed: false }
    }

    /// Tells whether the host's helpers are installed.
    pub fn is_ready(&self) -> (r: bool)
        ensures
            r == self.ready(),
    {
        self.installed
    }
}

/// The inline script that installs `source`: `source` stripped, with a
/// terminating NUL.
pub open spec fn install_script(source: Seq<u8>) -> Result<Seq<u8>, LexError> {
    match preprocess::stripped(source) {
        Ok(text) => Ok(text.push(0u8)),
        Err(e) => Err(e),
    }
}

/// Sets the host up, once.
///
/// `source` is the host's support script, which defines the object table and
/// its helpers. The first call hands back the script to run on the host:
/// `source` stripped of comments and line breaks, as one NUL-terminated line.
/// Every later call hands back `None` and asks nothing of the host, so
/// calling again is harmless. A `source` that ends inside a block comment or
/// a literal is refused, and the setup is still to do.
///
/// The host reads a script up to its first NUL. Where `source` holds none,
/// the NUL at the end is the only one, and the host reads all of it.
pub fn init(bridge: &mut Bridge, source: &[u8]) -> (r: Result<Option<Vec<u8>>, LexError>)
    ensures
        old(bridge).ready() ==> r == Ok::<Option<Vec<u8>>, LexError>(None) && final(bridge).ready(),
        !old(bridge).ready() ==> match install_script(source@) {
            Ok(script) => {
                &&& final(bridge).ready()
                &&& r matches Ok(Some(out))
                &&& out@ == script
                &&& !source@.contains(0u8) ==> boundary::is_script(script)
            },
            Err(e) => !final(bridge).ready() && r == Err::<Option<Vec<u8>>, LexError>(e),
        },
{
    if bridge.installed {
        return Ok(None);
    }
    match preprocess::preprocess(source) {
        Ok(text) => {
            proof {
                preprocess::lemma_stripped_invents_nothing(source@);
            }
            let mut script: Vec<u8> = text;
            script.push(0u8);
            bridge.installed = true;
            Ok(Some(script))
        },
        Err(e) => Err(e),
    }
}

} // verus!
