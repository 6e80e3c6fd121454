//! Round-trips a string and a byte array through the core, and says which
//! build of the emission path produced the answer.

use vstd::prelude::*;
use vstd::string::*;

use crate::error::ProbeError;
use crate::text::push_char;

verus! {

/// Result of a successful probe.
#[derive(Debug, Clone, PartialEq, Eq)]
pub struct ProbeReport {
    pub echoed: String,
    pub payload: Vec<u8>,
    /// The crate version, then the build of the emission path that
    /// produced this answer: `0.1.0+emit.1a2b3c4d`.
    pub core_version: String,
}

/// The lowercase hexadecimal digit for a nibble.
pub open spec fn hex_digit(nibble: u32) -> char {
    if nibble == 0 { '0' } else if nibble == 1 { '1' } else if nibble == 2 { '2' } else if nibble == 3 { '3' }
    else if nibble == 4 { '4' } else if nibble == 5 { '5' } else if nibble == 6 { '6' } else if nibble == 7 { '7' }
    else if nibble == 8 { '8' } else if nibble == 9 { '9' } else if nibble == 10 { 'a' } else if nibble == 11 { 'b' }
    else if nibble == 12 { 'c' } else if nibble == 13 { 'd' } else if nibble == 14 { 'e' } else { 'f' }
}

/// The `i`-th nibble of `value`, most significant first.
pub open spec fn nibble(value: u32, i: int) -> u32 {
    (value >> ((28 - 4 * i) as u32)) & 0xf
}

/// A 32-bit value as eight lowercase hexadecimal digits, zero-padded.
pub open spec fn hex8(value: u32) -> Seq<char> {
    Seq::new(8, |i: int| hex_digit(nibble(value, i)))
}

/// The version this crate reports.
pub open spec fn crate_version() -> Seq<char> {
    "0.1.0"@
}

/// The version string a probe reports for a build.
pub open spec fn core_version_for(emit_build: u32) -> Seq<char> {
    crate_version() + "+emit."@ + hex8(emit_build)
}

/// The digit for one nibble.
pub(crate) fn hex_char(nibble: u32) -> (c: char)
    ensures
        c == hex_digit(nibble),
{
    if nibble == 0 { '0' } else if nibble == 1 { '1' } else if nibble == 2 { '2' } else if nibble == 3 { '3' }
    else if nibble == 4 { '4' } else if nibble == 5 { '5' } else if nibble == 6 { '6' } else if nibble == 7 { '7' }
    else if nibble == 8 { '8' } else if nibble == 9 { '9' } else if nibble == 10 { 'a' } else if nibble == 11 { 'b' }
    else if nibble == 12 { 'c' } else if nibble == 13 { 'd' } else if nibble == 14 { 'e' } else { 'f' }
}

/// The version string: the crate version, `+emit.`, and the build as eight
/// lowercase hexadecimal digits.
pub fn core_version(emit_build: u32) -> (version: String)
    ensures
        version@ == core_version_for(emit_build),
{
    let mut version = String::from_str("0.1.0");
    version.append("+emit.");
    let ghost start = version@;
    let mut i: u32 = 0;
    while i < 8
        invariant
            i <= 8,
            version@ == start + hex8(emit_build).take(i as int),
        decreases 8 - i,
    {
        let shift: u32 = 28 - 4 * i;
        let nibble_value = (emit_build >> shift) & 0xf;
        proof {
            assert(shift == (28 - 4 * (i as int)) as u32);
            assert(nibble_value == nibble(emit_build, i as int));
        }
        push_char(&mut version, hex_char(nibble_value));
        proof {
            assert(hex8(emit_build).take((i + 1) as int) =~= hex8(emit_build).take(i as int).push(hex_digit(nibble(emit_build, i as int))));
        }
        i = i + 1;
    }
    proof {
        assert(hex8(emit_build).take(8) =~= hex8(emit_build));
    }
    version
}

/// The reason an empty input is rejected.
pub open spec fn empty_input_reason() -> Seq<char> {
    "input must not be empty"@
}

/// Round-trips `input` and `payload`: rejects an empty input, echoes a
/// non-empty one, and hands the payload back reversed, which shows its
/// bytes were read rather than passed through.
pub fn probe(input: String, payload: Vec<u8>, emit_build: u32) -> (r: Result<ProbeReport, ProbeError>)
    ensures
        input@.len() == 0 <==> r is Err,
        r is Err ==> (r->Err_0 matches ProbeError::Rejected { reason } && reason@ == empty_input_reason()),
        r is Ok ==> {
            &&& r->Ok_0.echoed@ == input@
            &&& r->Ok_0.payload@ == payload@.reverse()
            &&& r->Ok_0.core_version@ == core_version_for(emit_build)
        },
{
    if input.as_str().unicode_len() == 0 {
        return Err(ProbeError::Rejected { reason: String::from_str("input must not be empty") });
    }
    let n = payload.len();
    let mut reversed: Vec<u8> = Vec::new();
    let mut i: usize = 0;
    while i < n
        invariant
            n == payload@.len(),
            i <= n,
            reversed@ == payload@.reverse().take(i as int),
        decreases n - i,
    {
        reversed.push(payload[n - 1 - i]);
        proof {
            assert(reversed@ =~= payload@.reverse().take((i + 1) as int));
        }
        i = i + 1;
    }
    proof {
        assert(payload@.reverse().take(n as int) =~= payload@.reverse());
    }
    Ok(ProbeReport { echoed: input, payload: reversed, core_version: core_version(emit_build) })
}

} // verus!
