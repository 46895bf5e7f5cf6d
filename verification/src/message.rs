//! Building and parsing the one message of the protocol: a 4-byte big-endian
//! length prefix followed by that many payload bytes, where length `0` is the
//! "file not found" sentinel and carries no payload.

use crate::codec::{decode_len, encode_len, lemma_len_round_trip, spec_len_from_bytes,
    spec_len_to_bytes};
use vstd::prelude::*;

verus! {

/// Why a received byte sequence is not a complete message.
#[derive(Clone, Copy, Debug, PartialEq, Eq, Structural)]
pub enum ParseError {
    /// The connection delivered fewer than the 4 bytes of the length prefix.
    TruncatedHeader,
    /// The connection delivered fewer payload bytes than the prefix announced.
    TruncatedPayload,
}

/// The bytes the server sends for one connection: the payload length and the
/// payload itself when the file is present, the lone `0` sentinel when it is
/// absent.
pub open spec fn spec_server_message(content: Option<Seq<u8>>) -> Seq<u8>
    recommends
        content matches Some(f) ==> f.len() <= u32::MAX,
{
    match content {
        Some(f) => spec_len_to_bytes(f.len() as u32) + f,
        None => spec_len_to_bytes(0),
    }
}

/// What a client makes of the bytes one connection delivered: `Ok(None)` for
/// the not-found sentinel, `Ok(Some(payload))` for a complete transfer, and an
/// error when the connection ended before the announced bytes all arrived.
/// Bytes beyond the announced payload are ignored, as a client never reads them.
pub open spec fn spec_parse_message(wire: Seq<u8>) -> Result<Option<Seq<u8>>, ParseError> {
    if wire.len() < 4 {
        Err(ParseError::TruncatedHeader)
    } else {
        let n = spec_len_from_bytes(wire.subrange(0, 4)) as int;
        if n == 0 {
            Ok(None)
        } else if wire.len() < 4 + n {
            Err(ParseError::TruncatedPayload)
        } else {
            Ok(Some(wire.subrange(4, 4 + n)))
        }
    }
}

/// The parsed message seen through the views of its payload bytes.
pub open spec fn parse_result_view(r: Result<Option<Vec<u8>>, ParseError>) -> Result<
    Option<Seq<u8>>,
    ParseError,
> {
    match r {
        Ok(Some(p)) => Ok(Some(p@)),
        Ok(None) => Ok(None),
        Err(e) => Err(e),
    }
}

/// Builds the server's wire message for one connection: `Some(content)` when
/// the file was found, `None` when it was absent.
pub fn server_message(content: Option<&Vec<u8>>) -> (msg: Vec<u8>)
    requires
        content matches Some(f) ==> f@.len() <= u32::MAX,
    ensures
        content matches Some(f) ==> msg@ == spec_server_message(Some(f@)),
        content is None ==> msg@ == spec_server_message(None::<Seq<u8>>),
{
    match content {
        None => encode_len(0),
        Some(f) => {
            let n = f.len() as u32;
            let mut msg = encode_len(n);
            let mut i: usize = 0;
            proof {
                assert(msg@ =~= spec_len_to_bytes(n) + f@.subrange(0, 0));
            }
            while i < f.len()
                invariant
                    i <= f@.len(),
                    n == f@.len() as u32,
                    msg@ == spec_len_to_bytes(n) + f@.subrange(0, i as int),
                decreases f@.len() - i,
            {
                msg.push(f[i]);
                proof {
                    assert(f@.subrange(0, (i + 1) as int) =~= f@.subrange(0, i as int).push(
                        f@[i as int],
                    ));
                    assert(msg@ =~= spec_len_to_bytes(n) + f@.subrange(0, (i + 1) as int));
                }
                i = i + 1;
            }
            proof {
                assert(f@.subrange(0, f@.len() as int) =~= f@);
            }
            msg
        },
    }
}

/// Parses the bytes one connection delivered, exactly as `spec_parse_message`
/// reads them: the not-found sentinel gives `Ok(None)`, a complete transfer
/// gives the payload, and a short delivery gives an error rather than a
/// truncated payload.
pub fn parse_message(wire: &Vec<u8>) -> (r: Result<Option<Vec<u8>>, ParseError>)
    ensures
        parse_result_view(r) == spec_parse_message(wire@),
{
    if wire.len() < 4 {
        return Err(ParseError::TruncatedHeader);
    }
    let n = decode_len(wire[0], wire[1], wire[2], wire[3]);
    proof {
        assert(seq![wire@[0], wire@[1], wire@[2], wire@[3]] =~= wire@.subrange(0, 4));
    }
    if n == 0 {
        return Ok(None);
    }
    let count = n as usize;
    let wire_len = wire.len();
    if wire_len - 4 < count {
        return Err(ParseError::TruncatedPayload);
    }
    let mut payload: Vec<u8> = Vec::new();
    let mut i: usize = 0;
    proof {
        assert(payload@ =~= wire@.subrange(4, 4));
    }
    while i < count
        invariant
            i <= count,
            count == n as int,
            wire@.len() == wire_len,
            wire_len >= 4 + count,
            payload@ == wire@.subrange(4, 4 + i as int),
        decreases count - i,
    {
        payload.push(wire[4 + i]);
        proof {
            assert(wire@.subrange(4, 4 + (i + 1) as int) =~= wire@.subrange(4, 4 + i as int).push(
                wire@[4 + i as int],
            ));
        }
        i = i + 1;
    }
    Ok(Some(payload))
}

/// A present file crosses the wire intact: the message carries exactly
/// `4 + N` bytes for contents of size `N`, and parsing it back yields the
/// contents byte for byte. The one exception is the empty file, whose length
/// prefix coincides with the not-found sentinel, so a client reads it as
/// "file not found".
pub proof fn lemma_transfer_round_trip(f: Seq<u8>)
    requires
        f.len() <= u32::MAX,
    ensures
        spec_server_message(Some(f)).len() == 4 + f.len(),
        f.len() > 0 ==> spec_parse_message(spec_server_message(Some(f))) == Ok::<
            Option<Seq<u8>>,
            ParseError,
        >(Some(f)),
        f.len() == 0 ==> spec_parse_message(spec_server_message(Some(f))) == Ok::<
            Option<Seq<u8>>,
            ParseError,
        >(None),
{
    let msg = spec_server_message(Some(f));
    let n = f.len() as u32;
    assert(msg.subrange(0, 4) =~= spec_len_to_bytes(n));
    lemma_len_round_trip(n);
    if f.len() > 0 {
        assert(msg.subrange(4, 4 + f.len() as int) =~= f);
    }
}

/// An absent file sends exactly the 4-byte `0` sentinel, and a client parses
/// it as "file not found", so it creates no output file.
pub proof fn lemma_absent_file()
    ensures
        spec_server_message(None::<Seq<u8>>).len() == 4,
        spec_parse_message(spec_server_message(None::<Seq<u8>>)) == Ok::<
            Option<Seq<u8>>,
            ParseError,
        >(None),
{
    let msg = spec_server_message(None::<Seq<u8>>);
    assert(msg.subrange(0, 4) =~= spec_len_to_bytes(0));
    lemma_len_round_trip(0);
}

/// A connection that ends before the whole message arrived makes the client's
/// parse fail rather than yield a truncated payload: any strict prefix of a
/// present file's message is an error.
pub proof fn lemma_truncated_transfer(f: Seq<u8>, k: int)
    requires
        0 < f.len() <= u32::MAX,
        0 <= k < 4 + f.len(),
    ensures
        k < 4 ==> spec_parse_message(spec_server_message(Some(f)).take(k)) == Err::<
            Option<Seq<u8>>,
            ParseError,
        >(ParseError::TruncatedHeader),
        k >= 4 ==> spec_parse_message(spec_server_message(Some(f)).take(k)) == Err::<
            Option<Seq<u8>>,
            ParseError,
        >(ParseError::TruncatedPayload),
{
    let msg = spec_server_message(Some(f));
    let w = msg.take(k);
    if k >= 4 {
        assert(w.subrange(0, 4) =~= spec_len_to_bytes(f.len() as u32));
        lemma_len_round_trip(f.len() as u32);
    }
}

/// Each connection is served independently from the file contents current at
/// that connection: two sequential clients, seeing contents `f1` and then
/// `f2`, each receive a full, correct copy of their own connection's contents.
pub proof fn lemma_sequential_transfers(f1: Seq<u8>, f2: Seq<u8>)
    requires
        0 < f1.len() <= u32::MAX,
        0 < f2.len() <= u32::MAX,
    ensures
        spec_parse_message(spec_server_message(Some(f1))) == Ok::<
            Option<Seq<u8>>,
            ParseError,
        >(Some(f1)),
        spec_parse_message(spec_server_message(Some(f2))) == Ok::<
            Option<Seq<u8>>,
            ParseError,
        >(Some(f2)),
{
    lemma_transfer_round_trip(f1);
    lemma_transfer_round_trip(f2);
}

} // verus!
