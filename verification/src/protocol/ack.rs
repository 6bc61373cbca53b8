//! Interpretation of the lines boot1 prints in reply to `has-crc` and `uf2` commands.

use vstd::prelude::*;

use crate::text::{
    chars_equal, has_prefix, parse_u32, parse_u32_radix, split_words, starts_with, strip_prefix,
    trim, trim_chars, words,
};

verus! {

/// Acknowledgment format negotiated with boot1.
#[derive(Debug, Clone, Copy, PartialEq, Eq, Structural)]
pub enum Protocol {
    /// `Wrote <size> to 0x<address>`.
    Legacy,
    /// `Wrote <size> to 0x<address> crc <crc>`, requested by appending the CRC to each command.
    Crc,
}

/// What a reply line says about the `has-crc` probe: `Some(true)` for `true`, `Some(false)`
/// for `false`, `None` for any other line.
pub open spec fn probe_verdict(line: Seq<char>) -> Option<bool> {
    if trim(line) == "true"@ {
        Some(true)
    } else if trim(line) == "false"@ {
        Some(false)
    } else {
        None
    }
}

pub fn probe_reply(line: &Vec<char>) -> (r: Option<bool>)
    ensures
        r == probe_verdict(line@),
{
    let t = trim_chars(line);
    if chars_equal(&t, "true") {
        Some(true)
    } else if chars_equal(&t, "false") {
        Some(false)
    } else {
        None
    }
}

/// What a reply line says about a block command: `None` when the line is not an
/// acknowledgment of the expected shape (`Wrote <size> to 0x<address>`, plus `crc <crc>` under
/// [`Protocol::Crc`]), otherwise whether size, address and (under `Crc`) CRC all match.
pub open spec fn ack_verdict(
    line: Seq<char>,
    payload_size: u32,
    address: u32,
    protocol: Protocol,
    crc: u32,
) -> Option<bool> {
    let f = words(line);
    let expected_len: int = if protocol == Protocol::Crc {
        6
    } else {
        4
    };
    if f.len() != expected_len || f[0] != "Wrote"@ || f[2] != "to"@ {
        None
    } else {
        match parse_u32_radix(f[1], 10) {
            None => None,
            Some(size) => if !has_prefix(f[3], "0x"@) {
                None
            } else {
                match parse_u32_radix(f[3].skip(2), 16) {
                    None => None,
                    Some(addr) => {
                        let crc_matches = protocol == Protocol::Legacy || (f[4] == "crc"@
                            && parse_u32_radix(f[5], 16) == Some(crc));
                        Some(size == payload_size && addr == address && crc_matches)
                    },
                }
            },
        }
    }
}

/// Reads an acknowledgment line for a block of `payload_size` bytes at `address` whose CRC is
/// `crc`.
pub fn parse_ack(line: &Vec<char>, payload_size: u32, address: u32, protocol: Protocol, crc: u32) -> (r:
    Option<bool>)
    ensures
        r == ack_verdict(line@, payload_size, address, protocol, crc),
{
    let fields = split_words(line);
    proof {
        assert(fields@.map_values(|x: Vec<char>| x@).len() == fields@.len());
    }
    let ghost f = words(line@);
    assert(forall|i: int| 0 <= i < fields@.len() ==> #[trigger] fields@[i]@ == f[i]);
    let expected_len: usize = match protocol {
        Protocol::Crc => 6,
        Protocol::Legacy => 4,
    };
    if fields.len() != expected_len || !chars_equal(&fields[0], "Wrote") || !chars_equal(
        &fields[2],
        "to",
    ) {
        return None;
    }
    let size = match parse_u32(&fields[1], 10) {
        None => {
            return None;
        },
        Some(size) => size,
    };
    let digits = match strip_prefix(&fields[3], "0x") {
        None => {
            return None;
        },
        Some(digits) => digits,
    };
    proof {
        reveal_strlit("0x");
    }
    let addr = match parse_u32(&digits, 16) {
        None => {
            return None;
        },
        Some(addr) => addr,
    };
    let crc_matches = match protocol {
        Protocol::Legacy => true,
        Protocol::Crc => chars_equal(&fields[4], "crc") && match parse_u32(&fields[5], 16) {
            Some(v) => v == crc,
            None => false,
        },
    };
    Some(size == payload_size && addr == address && crc_matches)
}

/// A reply line decides the `has-crc` probe only when its trimmed text is `true` or
/// `false`: `true` gives CRC acknowledgments, `false` legacy ones, and any other line (an
/// echoed command, a prompt, an error) gives no verdict at all.
pub proof fn law_probe_verdict(line: Seq<char>)
    ensures
        probe_verdict(line) == Some(true) <==> trim(line) == "true"@,
        probe_verdict(line) == Some(false) <==> trim(line) == "false"@,
        probe_verdict(line) is None <==> (trim(line) != "true"@ && trim(line) != "false"@),
{
    reveal_strlit("true");
    reveal_strlit("false");
    assert("true"@.len() != "false"@.len());
}

} // verus!
