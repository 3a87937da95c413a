use crate::common::le_bytes::{fits, le_value, read_u32};
use crate::parser::script_header::{header_start, RSC7_MAGIC};
use crate::script::ysc::ysc_header_parser::{OpcodeVersion, PcYscHeaderParser, YscHeaderParser};
use vstd::prelude::*;

verus! {

/// Picks the header parser that a script's magic calls for.
pub struct YscHeaderParserFactory;

/// The magic does not belong to a known build.
#[derive(Debug, Clone, Copy, PartialEq, Eq, Structural)]
pub struct UnknownMagicError {
    pub magic: u32,
}

/// The magic of a script: the first word of its header.
pub open spec fn script_magic(bytes: Seq<u8>) -> u32 {
    le_value(bytes, header_start(bytes), 4) as u32
}

/// The build that a magic belongs to, by its low 16 bits.
pub open spec fn version_for_magic(magic: u32) -> Option<OpcodeVersion> {
    let low = magic & 0xFFFF;
    if low == 0xB0B8 {
        Some(OpcodeVersion::B2628)
    } else if low == 0x2699 {
        Some(OpcodeVersion::B2699)
    } else if low == 0xB3A8 {
        Some(OpcodeVersion::B2802)
    } else {
        None
    }
}

/// The bytes hold the first word and, behind any resource container header,
/// the magic.
pub open spec fn magic_readable(bytes: Seq<u8>) -> bool {
    fits(bytes, 0, 4) && fits(bytes, header_start(bytes), 4)
}

impl YscHeaderParserFactory {
    /// The parser for the script in `bytes`, chosen by its magic.
    pub fn create(bytes: &[u8]) -> (r: Result<PcYscHeaderParser, UnknownMagicError>)
        requires
            magic_readable(bytes@),
        ensures
            match version_for_magic(script_magic(bytes@)) {
                Some(v) => r matches Ok(p) && p.version_spec() == v,
                None => r == Err::<PcYscHeaderParser, _>(
                    UnknownMagicError { magic: script_magic(bytes@) },
                ),
            },
    {
        let first = read_u32(bytes, 0).unwrap();
        let offset: usize = if first == RSC7_MAGIC {
            0x10
        } else {
            0
        };
        let magic = read_u32(bytes, offset).unwrap();
        let low = magic & 0xFFFF;
        if low == 0xB0B8 {
            Ok(PcYscHeaderParser::new(OpcodeVersion::B2628))
        } else if low == 0x2699 {
            Ok(PcYscHeaderParser::new(OpcodeVersion::B2699))
        } else if low == 0xB3A8 {
            Ok(PcYscHeaderParser::new(OpcodeVersion::B2802))
        } else {
            Err(UnknownMagicError { magic })
        }
    }
}

} // verus!
