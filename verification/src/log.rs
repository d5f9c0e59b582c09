//! Where messages go: in MCP mode standard output belongs to the protocol.

use vstd::prelude::*;

verus! {

/// How the program runs.
#[derive(Debug, Clone, Copy, PartialEq, Eq, Structural)]
pub struct LogMode {
    /// Whether it serves MCP over standard input and output.
    pub mcp: bool,
}

/// A stream that messages go to.
#[derive(Debug, Clone, Copy, PartialEq, Eq, Structural)]
pub enum Stream {
    Output,
    Errors,
}

/// Switch MCP mode on or off.
pub fn set_mcp_mode(mode: &mut LogMode, mcp: bool)
    ensures
        final(mode).mcp == mcp,
{
    mode.mcp = mcp;
}

/// Whether MCP mode is on.
pub fn is_mcp(mode: &LogMode) -> (r: bool)
    ensures
        r == mode.mcp,
{
    mode.mcp
}

/// Where progress is reported: never on standard output in MCP mode.
pub fn info_stream(mode: &LogMode) -> (r: Stream)
    ensures
        r == if mode.mcp {
            Stream::Errors
        } else {
            Stream::Output
        },
{
    if is_mcp(mode) {
        Stream::Errors
    } else {
        Stream::Output
    }
}

/// Where warnings are reported.
pub fn warn_stream() -> (r: Stream)
    ensures
        r == Stream::Errors,
{
    Stream::Errors
}

} // verus!
