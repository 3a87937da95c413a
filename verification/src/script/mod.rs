pub mod ysc;

use crate::common::utf8::str_from_utf8;
use vstd::prelude::*;

verus! {

/// What a script's header says about it.
#[derive(Debug)]
pub struct ScriptInfo {
    pub name: String,
    pub name_hash: u32,
    pub globals_version: u32,
    pub parameter_count: u32,
    pub static_count: u32,
}

/// A parsed script: its header, code, string table and native hashes.
#[derive(Debug)]
pub struct Script {
    pub header: ScriptInfo,
    pub code: Vec<u8>,
    pub strings: Vec<u8>,
    pub natives: Vec<u64>,
}

/// The first zero byte at or after `i`, or -1 if there is none.
pub open spec fn nul_position(bytes: Seq<u8>, i: int) -> int
    decreases bytes.len() - i,
{
    if i < 0 || i >= bytes.len() {
        -1
    } else if bytes[i] == 0 {
        i
    } else {
        nul_position(bytes, i + 1)
    }
}

/// The bytes of the zero-terminated string at `index`, if it is terminated.
pub open spec fn c_string_bytes(bytes: Seq<u8>, index: int) -> Seq<u8> {
    bytes.subrange(index, nul_position(bytes, index))
}

impl Script {
    /// The zero-terminated string at `index` of the string table, if it is
    /// terminated and valid UTF-8.
    pub fn get_string(&self, index: usize) -> (r: Option<&str>)
        requires
            index <= self.strings@.len(),
        ensures
            r is Some <==> nul_position(self.strings@, index as int) >= 0
                && vstd::utf8::valid_utf8(c_string_bytes(self.strings@, index as int)),
            r matches Some(s) ==> s@ == vstd::utf8::decode_utf8(
                c_string_bytes(self.strings@, index as int),
            ),
    {
        let strings = self.strings.as_slice();
        let mut i = index;
        while i < strings.len()
            invariant
                index <= i,
                strings@ == self.strings@,
                nul_position(strings@, index as int) == nul_position(strings@, i as int),
            decreases strings.len() - i,
        {
            if strings[i] == 0 {
                return str_from_utf8(&strings[index..i]);
            }
            i = i + 1;
        }
        None
    }
}

} // verus!
