//! Screen casting over PipeWire.
use vstd::prelude::*;

pub mod stream;

verus! {

/// The id of the PipeWire core object.
pub const PW_ID_CORE: u32 = 0;

/// The error code of a broken connection.
pub const BROKEN_PIPE: i32 = -32;

/// Messages from PipeWire to the compositor.
#[derive(Clone, Copy, Debug, PartialEq, Eq, Structural)]
pub enum PwToCompositor {
    /// The connection is lost, and PipeWire has to be set up anew.
    FatalError,
}

/// What an error of a PipeWire object means for the compositor: only a
/// broken connection of the core is fatal.
pub fn core_error(id: u32, res: i32) -> (r: Option<PwToCompositor>)
    ensures
        r is Some <==> id == PW_ID_CORE && res == BROKEN_PIPE,
{
    if id == PW_ID_CORE && res == BROKEN_PIPE {
        Some(PwToCompositor::FatalError)
    } else {
        None
    }
}

} // verus!
