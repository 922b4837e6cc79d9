//! Card command/response protocol logic.
//!
//! Every response ends in a two-byte status word. `0x9000` is success,
//! `0x61XX` announces `XX` more bytes to fetch with a follow-up
//! "get remaining data" command; anything else is an application-protocol
//! error. Chained responses are reassembled by concatenating the data
//! parts, in order, until a terminal status arrives.

use vstd::prelude::*;

verus! {

/// Why a transaction failed.
#[derive(Debug, Clone, PartialEq, Eq, Structural)]
pub enum ApduError {
    /// A response shorter than the two status bytes.
    TooShort,
    /// The response sequence ended while more data was announced.
    Incomplete,
    /// A terminal non-success status word.
    Status(u8, u8),
}

/// What one response asks the engine to do next.
#[derive(Debug, Clone, PartialEq, Eq)]
pub enum ChainStep {
    /// Terminal success: the payload of this response.
    Done(Vec<u8>),
    /// More data available: the partial payload and the announced length.
    More(Vec<u8>, u8),
}

/// First status byte of a response.
pub open spec fn sw1_of(r: Seq<u8>) -> u8 {
    r[r.len() - 2]
}

/// Second status byte of a response.
pub open spec fn sw2_of(r: Seq<u8>) -> u8 {
    r[r.len() - 1]
}

/// The data part of a response: everything before the status word.
pub open spec fn data_of(r: Seq<u8>) -> Seq<u8> {
    r.take(r.len() - 2)
}

/// Classifies one raw response: too short, terminal success, more data
/// announced, or a terminal error status.
pub fn inspect_response(resp: &Vec<u8>) -> (r: Result<ChainStep, ApduError>)
    ensures
        resp@.len() < 2 ==> r == Err::<ChainStep, ApduError>(ApduError::TooShort),
        resp@.len() >= 2 && sw1_of(resp@) == 0x61 ==> (r matches Ok(ChainStep::More(d, n)) && d@
            == data_of(resp@) && n == sw2_of(resp@)),
        resp@.len() >= 2 && sw1_of(resp@) == 0x90 && sw2_of(resp@) == 0x00 ==> (r matches Ok(
            ChainStep::Done(d),
        ) && d@ == data_of(resp@)),
        resp@.len() >= 2 && sw1_of(resp@) != 0x61 && !(sw1_of(resp@) == 0x90 && sw2_of(resp@)
            == 0x00) ==> r == Err::<ChainStep, ApduError>(
            ApduError::Status(sw1_of(resp@), sw2_of(resp@)),
        ),
{
    let n = resp.len();
    if n < 2 {
        return Err(ApduError::TooShort);
    }
    let sw1 = resp[n - 2];
    let sw2 = resp[n - 1];
    let mut data: Vec<u8> = Vec::new();
    let mut i: usize = 0;
    while i < n - 2
        invariant
            i <= n - 2,
            n == resp@.len() && n >= 2,
            data@ == resp@.subrange(0, i as int),
        decreases n - 2 - i,
    {
        let b = resp[i];
        data.push(b);
        proof {
            assert(resp@.subrange(0, i + 1 as int) =~= resp@.subrange(0, i as int).push(b));
        }
        i += 1;
    }
    proof {
        assert(data@ =~= data_of(resp@));
    }
    if sw1 == 0x61 {
        Ok(ChainStep::More(data, sw2))
    } else if sw1 == 0x90 && sw2 == 0x00 {
        Ok(ChainStep::Done(data))
    } else {
        Err(ApduError::Status(sw1, sw2))
    }
}

/// The follow-up command that fetches `len` remaining bytes.
pub fn get_response_apdu(len: u8) -> (r: Vec<u8>)
    ensures
        r@ == seq![0x00u8, 0xC0u8, 0x00u8, 0x00u8, len],
{
    let mut r: Vec<u8> = Vec::new();
    r.push(0x00);
    r.push(0xC0);
    r.push(0x00);
    r.push(0x00);
    r.push(len);
    proof {
        assert(r@ =~= seq![0x00u8, 0xC0u8, 0x00u8, 0x00u8, len]);
    }
    r
}

/// The payload of a response chain, given the data already accumulated:
/// data parts are appended while `0x61XX` statuses arrive, `0x9000` ends
/// the chain, any other status fails it, and a chain that ends without a
/// terminal status is incomplete.
pub open spec fn chain_spec(rs: Seq<Seq<u8>>, acc: Seq<u8>) -> Result<Seq<u8>, ApduError>
    decreases rs.len(),
{
    if rs.len() == 0 {
        Err(ApduError::Incomplete)
    } else {
        let r0 = rs[0];
        if r0.len() < 2 {
            Err(ApduError::TooShort)
        } else if sw1_of(r0) == 0x61 {
            chain_spec(rs.drop_first(), acc + data_of(r0))
        } else if sw1_of(r0) == 0x90 && sw2_of(r0) == 0x00 {
            Ok(acc + data_of(r0))
        } else {
            Err(ApduError::Status(sw1_of(r0), sw2_of(r0)))
        }
    }
}

/// The views of a sequence of byte vectors.
pub open spec fn byte_views(rs: Seq<Vec<u8>>) -> Seq<Seq<u8>> {
    rs.map_values(|r: Vec<u8>| r@)
}

/// Reassembles a chained response sequence into the full payload:
/// exactly `chain_spec` on the responses, starting from an empty
/// accumulator.
pub fn reassemble_chain(responses: &Vec<Vec<u8>>) -> (r: Result<Vec<u8>, ApduError>)
    ensures
        match r {
            Ok(payload) => chain_spec(byte_views(responses@), Seq::empty()) == Ok::<
                Seq<u8>,
                ApduError,
            >(payload@),
            Err(e) => chain_spec(byte_views(responses@), Seq::empty()) == Err::<
                Seq<u8>,
                ApduError,
            >(e),
        },
{
    let n = responses.len();
    let mut acc: Vec<u8> = Vec::new();
    let mut i: usize = 0;
    proof {
        assert(byte_views(responses@).skip(0) =~= byte_views(responses@));
        assert(acc@ =~= Seq::<u8>::empty());
    }
    while i < n
        invariant
            i <= n,
            n == responses@.len(),
            chain_spec(byte_views(responses@), Seq::empty()) == chain_spec(
                byte_views(responses@).skip(i as int),
                acc@,
            ),
        decreases n - i,
    {
        let step = inspect_response(&responses[i]);
        proof {
            assert(byte_views(responses@).skip(i as int)[0] == responses@[i as int]@);
            assert(byte_views(responses@).skip(i as int).drop_first() =~= byte_views(
                responses@,
            ).skip(i + 1 as int));
        }
        match step {
            Ok(ChainStep::More(mut d, _len)) => {
                acc.append(&mut d);
                i += 1;
            },
            Ok(ChainStep::Done(mut d)) => {
                acc.append(&mut d);
                return Ok(acc);
            },
            Err(e) => {
                return Err(e);
            },
        }
    }
    Err(ApduError::Incomplete)
}

/// The diagnostic text for a status word, used only for logging.
pub open spec fn interpret_sw_spec(sw1: u8, sw2: u8) -> Seq<char> {
    if sw1 == 0x90 && sw2 == 0x00 {
        "Success"@
    } else if sw1 == 0x61 {
        "More data available"@
    } else if sw1 == 0x62 && sw2 == 0x00 {
        "No information given"@
    } else if sw1 == 0x62 && sw2 == 0x81 {
        "Part of returned data may be corrupted"@
    } else if sw1 == 0x62 && sw2 == 0x82 {
        "End of file reached before reading"@
    } else if sw1 == 0x63 && sw2 == 0x00 {
        "Verification failed"@
    } else if sw1 == 0x63 && 0xC0 <= sw2 && sw2 <= 0xCF {
        "Counter verification"@
    } else if sw1 == 0x64 && sw2 == 0x00 {
        "State of non-volatile memory unchanged"@
    } else if sw1 == 0x65 && sw2 == 0x00 {
        "State of non-volatile memory changed"@
    } else if sw1 == 0x65 && sw2 == 0x81 {
        "Memory failure"@
    } else if sw1 == 0x66 && sw2 == 0x00 {
        "Security-related issue"@
    } else if sw1 == 0x67 && sw2 == 0x00 {
        "Wrong length"@
    } else if sw1 == 0x68 && sw2 == 0x00 {
        "Functions in CLA not supported"@
    } else if sw1 == 0x68 && sw2 == 0x81 {
        "Logical channel not supported"@
    } else if sw1 == 0x68 && sw2 == 0x82 {
        "Secure messaging not supported"@
    } else if sw1 == 0x69 && sw2 == 0x82 {
        "Security status not satisfied"@
    } else if sw1 == 0x69 && sw2 == 0x83 {
        "Authentication method blocked"@
    } else if sw1 == 0x69 && sw2 == 0x84 {
        "Referenced data invalidated"@
    } else if sw1 == 0x69 && sw2 == 0x85 {
        "Conditions of use not satisfied"@
    } else if sw1 == 0x69 && sw2 == 0x86 {
        "Command not allowed (no EF selected)"@
    } else if sw1 == 0x6A && sw2 == 0x80 {
        "Incorrect parameters in command data field"@
    } else if sw1 == 0x6A && sw2 == 0x81 {
        "Function not supported"@
    } else if sw1 == 0x6A && sw2 == 0x82 {
        "File not found"@
    } else if sw1 == 0x6A && sw2 == 0x83 {
        "Record not found"@
    } else if sw1 == 0x6A && sw2 == 0x84 {
        "Not enough memory space"@
    } else if sw1 == 0x6A && sw2 == 0x86 {
        "Incorrect parameters P1-P2"@
    } else if sw1 == 0x6A && sw2 == 0x88 {
        "Referenced data not found"@
    } else if sw1 == 0x6B && sw2 == 0x00 {
        "Wrong parameters P1-P2"@
    } else if sw1 == 0x6C {
        "Wrong Le field"@
    } else if sw1 == 0x6D && sw2 == 0x00 {
        "Instruction code not supported"@
    } else if sw1 == 0x6E && sw2 == 0x00 {
        "Class not supported"@
    } else if sw1 == 0x6F && sw2 == 0x00 {
        "No precise diagnosis"@
    } else {
        "Unknown error"@
    }
}

/// The diagnostic text for a status word, used only for logging.
pub fn interpret_sw(sw1: u8, sw2: u8) -> (r: &'static str)
    ensures
        r@ == interpret_sw_spec(sw1, sw2),
{
    if sw1 == 0x90 && sw2 == 0x00 {
        "Success"
    } else if sw1 == 0x61 {
        "More data available"
    } else if sw1 == 0x62 && sw2 == 0x00 {
        "No information given"
    } else if sw1 == 0x62 && sw2 == 0x81 {
        "Part of returned data may be corrupted"
    } else if sw1 == 0x62 && sw2 == 0x82 {
        "End of file reached before reading"
    } else if sw1 == 0x63 && sw2 == 0x00 {
        "Verification failed"
    } else if sw1 == 0x63 && 0xC0 <= sw2 && sw2 <= 0xCF {
        "Counter verification"
    } else if sw1 == 0x64 && sw2 == 0x00 {
        "State of non-volatile memory unchanged"
    } else if sw1 == 0x65 && sw2 == 0x00 {
        "State of non-volatile memory changed"
    } else if sw1 == 0x65 && sw2 == 0x81 {
        "Memory failure"
    } else if sw1 == 0x66 && sw2 == 0x00 {
        "Security-related issue"
    } else if sw1 == 0x67 && sw2 == 0x00 {
        "Wrong length"
    } else if sw1 == 0x68 && sw2 == 0x00 {
        "Functions in CLA not supported"
    } else if sw1 == 0x68 && sw2 == 0x81 {
        "Logical channel not supported"
    } else if sw1 == 0x68 && sw2 == 0x82 {
        "Secure messaging not supported"
    } else if sw1 == 0x69 && sw2 == 0x82 {
        "Security status not satisfied"
    } else if sw1 == 0x69 && sw2 == 0x83 {
        "Authentication method blocked"
    } else if sw1 == 0x69 && sw2 == 0x84 {
        "Referenced data invalidated"
    } else if sw1 == 0x69 && sw2 == 0x85 {
        "Conditions of use not satisfied"
    } else if sw1 == 0x69 && sw2 == 0x86 {
        "Command not allowed (no EF selected)"
    } else if sw1 == 0x6A && sw2 == 0x80 {
        "Incorrect parameters in command data field"
    } else if sw1 == 0x6A && sw2 == 0x81 {
        "Function not supported"
    } else if sw1 == 0x6A && sw2 == 0x82 {
        "File not found"
    } else if sw1 == 0x6A && sw2 == 0x83 {
        "Record not found"
    } else if sw1 == 0x6A && sw2 == 0x84 {
        "Not enough memory space"
    } else if sw1 == 0x6A && sw2 == 0x86 {
        "Incorrect parameters P1-P2"
    } else if sw1 == 0x6A && sw2 == 0x88 {
        "Referenced data not found"
    } else if sw1 == 0x6B && sw2 == 0x00 {
        "Wrong parameters P1-P2"
    } else if sw1 == 0x6C {
        "Wrong Le field"
    } else if sw1 == 0x6D && sw2 == 0x00 {
        "Instruction code not supported"
    } else if sw1 == 0x6E && sw2 == 0x00 {
        "Class not supported"
    } else if sw1 == 0x6F && sw2 == 0x00 {
        "No precise diagnosis"
    } else {
        "Unknown error"
    }
}

} // verus!
