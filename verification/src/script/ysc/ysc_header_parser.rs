use crate::parser::script_header::{
    header_matches, header_sizes_fit, name_bytes, pc_header_complete, ParseScriptHeaderError,
    ScriptHeader,
};
use vstd::prelude::*;

verus! {

/// The game build whose opcode numbering a script uses.
#[derive(Debug, Clone, Copy, PartialEq, Eq, Structural, PartialOrd, Ord)]
pub enum OpcodeVersion {
    B2628,
    B2699,
    B2802,
}

impl OpcodeVersion {
    /// The position of the build in release order.
    pub open spec fn rank_spec(self) -> u8 {
        match self {
            OpcodeVersion::B2628 => 0,
            OpcodeVersion::B2699 => 1,
            OpcodeVersion::B2802 => 2,
        }
    }

    /// The position of the build in release order, as the derived order
    /// compares builds.
    #[verifier::when_used_as_spec(rank_spec)]
    pub fn rank(self) -> (r: u8)
        ensures
            r == self.rank_spec(),
    {
        match self {
            OpcodeVersion::B2628 => 0,
            OpcodeVersion::B2699 => 1,
            OpcodeVersion::B2802 => 2,
        }
    }
}

/// Reads the header of a script of one platform and build.
pub trait YscHeaderParser {
    /// The opcode numbering of scripts this parser reads.
    spec fn version_spec(&self) -> OpcodeVersion;

    /// The opcode numbering of scripts this parser reads.
    fn opcode_version(&self) -> (r: OpcodeVersion)
        ensures
            r == self.version_spec(),
    ;

    /// Reads the header.
    fn parse(&self, bytes: &[u8]) -> (r: Result<ScriptHeader, ParseScriptHeaderError>)
        requires
            header_sizes_fit(bytes@),
        ensures
            r matches Err(ParseScriptHeaderError::InvalidBinaryFormat) <==> !pc_header_complete(
                bytes@,
            ),
            r matches Err(ParseScriptHeaderError::ScriptNameParseError) <==> pc_header_complete(
                bytes@,
            ) && !vstd::utf8::valid_utf8(name_bytes(bytes@)),
            r matches Ok(h) ==> header_matches(h, bytes@),
    ;
}

/// Reads PC script headers.
#[derive(Debug, Clone, Copy)]
pub struct PcYscHeaderParser {
    version: OpcodeVersion,
}

impl PcYscHeaderParser {
    /// A parser for PC scripts of build `version`.
    pub fn new(version: OpcodeVersion) -> (r: Self)
        ensures
            r.version_spec() == version,
    {
        PcYscHeaderParser { version }
    }
}

impl YscHeaderParser for PcYscHeaderParser {
    closed spec fn version_spec(&self) -> OpcodeVersion {
        self.version
    }

    fn opcode_version(&self) -> (r: OpcodeVersion) {
        self.version
    }

    fn parse(&self, bytes: &[u8]) -> (r: Result<ScriptHeader, ParseScriptHeaderError>) {
        ScriptHeader::read_pc_header(bytes)
    }
}

} // verus!
