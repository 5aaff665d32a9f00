//! Deterministic binary codec for the cross-chain transfer message.
//!
//! The wire layout is self-describing: a leading tag byte marks a transfer
//! message, so a decoder can tell it from an arbitrary or legacy payload.
//! Fixed-width fields are little-endian; variable-length fields carry a
//! length prefix.  Layout, in order:
//!
//! - one tag byte, [`WIRE_TAG`]
//! - `token_id`, 8 bytes little-endian
//! - `name`, `symbol`, `uri`: each a 4-byte little-endian length then the bytes
//! - `receiver`: one length byte (20 for a foreign address, 32 for a home
//!   identity) then the address bytes
//! - `source_chain_tag`, 8 bytes little-endian
//!
//! Decoding is pure and total: it either returns the one message whose
//! encoding the input is, or refuses, and it never accepts trailing bytes.

use vstd::prelude::*;
use vstd::bytes::*;
use vstd::slice::{slice_subrange, slice_to_vec};

verus! {

/// Tag byte that opens every encoded transfer message.
pub const WIRE_TAG: u8 = 1;

/// Byte length of a foreign-chain address.
pub const FOREIGN_ADDRESS_LEN: usize = 20;

/// Byte length of a home-ledger identity.
pub const HOME_ADDRESS_LEN: usize = 32;

/// The wire payload of one token transfer.  Display metadata is opaque to
/// the protocol and carried as raw bytes; the receiver is a foreign address
/// or a home identity, depending on the direction of travel.
pub struct CrossChainMessage {
    pub token_id: u64,
    pub name: Vec<u8>,
    pub symbol: Vec<u8>,
    pub uri: Vec<u8>,
    pub receiver: Vec<u8>,
    pub source_chain_tag: u64,
}

/// Mathematical model of a [`CrossChainMessage`].
pub ghost struct MessageModel {
    pub token_id: u64,
    pub name: Seq<u8>,
    pub symbol: Seq<u8>,
    pub uri: Seq<u8>,
    pub receiver: Seq<u8>,
    pub source_chain_tag: u64,
}

impl View for CrossChainMessage {
    type V = MessageModel;

    open spec fn view(&self) -> MessageModel {
        MessageModel {
            token_id: self.token_id,
            name: self.name@,
            symbol: self.symbol@,
            uri: self.uri@,
            receiver: self.receiver@,
            source_chain_tag: self.source_chain_tag,
        }
    }
}

/// A message the codec can carry: each variable-length field fits its 4-byte
/// length prefix, and the receiver has one of the two address widths.
pub open spec fn wf_message(m: MessageModel) -> bool {
    &&& m.name.len() <= 0xffff_ffff
    &&& m.symbol.len() <= 0xffff_ffff
    &&& m.uri.len() <= 0xffff_ffff
    &&& (m.receiver.len() == FOREIGN_ADDRESS_LEN || m.receiver.len() == HOME_ADDRESS_LEN)
}

/// A variable-length field on the wire: 4-byte little-endian length, then
/// the bytes themselves.
pub open spec fn len_prefixed(s: Seq<u8>) -> Seq<u8> {
    spec_u32_to_le_bytes(s.len() as u32) + s
}

/// The encoding of a message, as a byte sequence.
pub open spec fn encoded(m: MessageModel) -> Seq<u8> {
    seq![WIRE_TAG] + spec_u64_to_le_bytes(m.token_id) + len_prefixed(m.name) + len_prefixed(
        m.symbol,
    ) + len_prefixed(m.uri) + seq![m.receiver.len() as u8] + m.receiver + spec_u64_to_le_bytes(
        m.source_chain_tag,
    )
}

/// Reads one length-prefixed field at offset `off`; yields the field and the
/// offset just past it, or nothing if the input is too short.
pub open spec fn parse_field(s: Seq<u8>, off: int) -> Option<(Seq<u8>, int)> {
    if off + 4 <= s.len() {
        let n = spec_u32_from_le_bytes(s.subrange(off, off + 4)) as int;
        if off + 4 + n <= s.len() {
            Some((s.subrange(off + 4, off + 4 + n), off + 4 + n))
        } else {
            None
        }
    } else {
        None
    }
}

/// The message a byte sequence encodes, if it is exactly one well-formed
/// transfer message: right tag, every field complete, an address of one of
/// the two widths, and no trailing bytes.
pub open spec fn decoded(s: Seq<u8>) -> Option<MessageModel> {
    if s.len() < 9 || s[0] != WIRE_TAG {
        None
    } else {
        match parse_field(s, 9) {
            None => None,
            Some((name, o1)) => match parse_field(s, o1) {
                None => None,
                Some((symbol, o2)) => match parse_field(s, o2) {
                    None => None,
                    Some((uri, o3)) => {
                        if o3 < s.len() && (s[o3] == FOREIGN_ADDRESS_LEN as u8 || s[o3]
                            == HOME_ADDRESS_LEN as u8) && o3 + 1 + s[o3] + 8 == s.len() {
                            Some(
                                MessageModel {
                                    token_id: spec_u64_from_le_bytes(s.subrange(1, 9)),
                                    name,
                                    symbol,
                                    uri,
                                    receiver: s.subrange(o3 + 1, o3 + 1 + s[o3]),
                                    source_chain_tag: spec_u64_from_le_bytes(
                                        s.subrange(o3 + 1 + s[o3], s.len() as int),
                                    ),
                                },
                            )
                        } else {
                            None
                        }
                    },
                },
            },
        }
    }
}

/// Round trip: decoding an encoding gives back exactly the message encoded.
pub proof fn lemma_encode_decode(m: MessageModel)
    requires
        wf_message(m),
    ensures
        decoded(encoded(m)) == Some(m),
{
    lemma_auto_spec_u64_to_from_le_bytes();
    lemma_auto_spec_u32_to_from_le_bytes();
    let s = encoded(m);
    let n1 = m.name.len() as int;
    let n2 = m.symbol.len() as int;
    let n3 = m.uri.len() as int;
    let ar = m.receiver.len() as int;
    assert(spec_u64_to_le_bytes(m.token_id).len() == 8);
    assert(spec_u64_to_le_bytes(m.source_chain_tag).len() == 8);
    assert(spec_u32_to_le_bytes(m.name.len() as u32).len() == 4);
    assert(spec_u32_to_le_bytes(m.symbol.len() as u32).len() == 4);
    assert(spec_u32_to_le_bytes(m.uri.len() as u32).len() == 4);
    assert(len_prefixed(m.name).len() == 4 + n1);
    assert(len_prefixed(m.symbol).len() == 4 + n2);
    assert(len_prefixed(m.uri).len() == 4 + n3);
    assert(s.len() == 30 + n1 + n2 + n3 + ar);
    assert(s[0] == WIRE_TAG);
    assert(s.subrange(1, 9) =~= spec_u64_to_le_bytes(m.token_id));
    // the name field at offset 9
    assert(s.subrange(9, 13) =~= spec_u32_to_le_bytes(m.name.len() as u32));
    assert(s.subrange(13, 13 + n1) =~= m.name);
    assert(parse_field(s, 9) == Some((m.name, 13 + n1)));
    // the symbol field
    let o1 = 13 + n1;
    assert(s.subrange(o1, o1 + 4) =~= spec_u32_to_le_bytes(m.symbol.len() as u32));
    assert(s.subrange(o1 + 4, o1 + 4 + n2) =~= m.symbol);
    assert(parse_field(s, o1) == Some((m.symbol, o1 + 4 + n2)));
    // the uri field
    let o2 = o1 + 4 + n2;
    assert(s.subrange(o2, o2 + 4) =~= spec_u32_to_le_bytes(m.uri.len() as u32));
    assert(s.subrange(o2 + 4, o2 + 4 + n3) =~= m.uri);
    assert(parse_field(s, o2) == Some((m.uri, o2 + 4 + n3)));
    // the receiver and the trailing chain tag
    let o3 = o2 + 4 + n3;
    assert(s[o3] == m.receiver.len() as u8);
    assert(s.subrange(o3 + 1, o3 + 1 + ar) =~= m.receiver);
    assert(s.subrange(o3 + 1 + ar, s.len() as int) =~= spec_u64_to_le_bytes(m.source_chain_tag));
    assert(decoded(s) == Some(m));
}

/// Appends a copy of `src` to `dst`.
fn append_bytes(dst: &mut Vec<u8>, src: &Vec<u8>)
    ensures
        final(dst)@ == old(dst)@ + src@,
{
    let mut i: usize = 0;
    while i < src.len()
        invariant
            i <= src.len(),
            dst@ == old(dst)@ + src@.take(i as int),
        decreases src.len() - i,
    {
        dst.push(src[i]);
        i = i + 1;
        assert(dst@ =~= old(dst)@ + src@.take(i as int));
    }
    assert(dst@ =~= old(dst)@ + src@);
}

/// Appends a 4-byte little-endian length and then a copy of `src`.
fn append_len_prefixed(dst: &mut Vec<u8>, src: &Vec<u8>)
    requires
        src@.len() <= 0xffff_ffff,
    ensures
        final(dst)@ == old(dst)@ + len_prefixed(src@),
{
    let mut lenb = u32_to_le_bytes(src.len() as u32);
    dst.append(&mut lenb);
    append_bytes(dst, src);
    assert(dst@ =~= old(dst)@ + len_prefixed(src@));
}

/// Encodes a well-formed message.  Encoding cannot fail: the
/// well-formedness bound is exactly what the wire format can carry.
pub fn encode(m: &CrossChainMessage) -> (out: Vec<u8>)
    requires
        wf_message(m@),
    ensures
        out@ == encoded(m@),
{
    let mut out: Vec<u8> = Vec::new();
    out.push(WIRE_TAG);
    let mut tid = u64_to_le_bytes(m.token_id);
    out.append(&mut tid);
    append_len_prefixed(&mut out, &m.name);
    append_len_prefixed(&mut out, &m.symbol);
    append_len_prefixed(&mut out, &m.uri);
    out.push(m.receiver.len() as u8);
    append_bytes(&mut out, &m.receiver);
    let mut tag = u64_to_le_bytes(m.source_chain_tag);
    out.append(&mut tag);
    assert(out@ =~= encoded(m@));
    out
}

/// Why a payload was refused by [`decode`].
#[derive(Clone, Copy, Debug, PartialEq, Eq, Structural)]
pub enum DecodeError {
    /// The bytes are not exactly one well-formed transfer message.
    Malformed,
}

/// Reads the 8-byte little-endian word at `off`.
fn read_u64(bytes: &Vec<u8>, off: usize) -> (r: u64)
    requires
        off + 8 <= bytes@.len(),
    ensures
        r == spec_u64_from_le_bytes(bytes@.subrange(off as int, off as int + 8)),
{
    // the vector's length is a usize, so the offsets below cannot overflow
    let _len: usize = bytes.len();
    u64_from_le_bytes(slice_subrange(bytes.as_slice(), off, off + 8))
}

/// Reads one length-prefixed field at `off`, mirroring [`parse_field`].
fn read_field(bytes: &Vec<u8>, off: usize) -> (r: Option<(Vec<u8>, usize)>)
    requires
        off <= bytes@.len(),
    ensures
        match r {
            Some((field, o)) => {
                &&& parse_field(bytes@, off as int) == Some((field@, o as int))
                &&& o <= bytes@.len()
            },
            None => parse_field(bytes@, off as int) is None,
        },
{
    if bytes.len() - off < 4 {
        return None;
    }
    let n32 = u32_from_le_bytes(slice_subrange(bytes.as_slice(), off, off + 4));
    let n = n32 as usize;
    if bytes.len() - (off + 4) < n {
        return None;
    }
    let field = slice_to_vec(slice_subrange(bytes.as_slice(), off + 4, off + 4 + n));
    Some((field, off + 4 + n))
}

/// Decodes a payload, mirroring [`decoded`] exactly: it accepts precisely
/// the encodings of well-formed messages and refuses everything else, with
/// no partial result.
pub fn decode(bytes: &Vec<u8>) -> (r: Result<CrossChainMessage, DecodeError>)
    ensures
        match r {
            Ok(m) => decoded(bytes@) == Some(m@),
            Err(_) => decoded(bytes@) is None,
        },
{
    if bytes.len() < 9 {
        return Err(DecodeError::Malformed);
    }
    if bytes[0] != WIRE_TAG {
        return Err(DecodeError::Malformed);
    }
    let token_id = read_u64(bytes, 1);
    let (name, o1) = match read_field(bytes, 9) {
        Some(x) => x,
        None => {
            return Err(DecodeError::Malformed);
        },
    };
    let (symbol, o2) = match read_field(bytes, o1) {
        Some(x) => x,
        None => {
            return Err(DecodeError::Malformed);
        },
    };
    let (uri, o3) = match read_field(bytes, o2) {
        Some(x) => x,
        None => {
            return Err(DecodeError::Malformed);
        },
    };
    if o3 >= bytes.len() {
        return Err(DecodeError::Malformed);
    }
    let alen_byte = bytes[o3];
    if !(alen_byte == FOREIGN_ADDRESS_LEN as u8 || alen_byte == HOME_ADDRESS_LEN as u8) {
        return Err(DecodeError::Malformed);
    }
    let alen = alen_byte as usize;
    if bytes.len() - (o3 + 1) != alen + 8 {
        return Err(DecodeError::Malformed);
    }
    let receiver = slice_to_vec(slice_subrange(bytes.as_slice(), o3 + 1, o3 + 1 + alen));
    let source_chain_tag = read_u64(bytes, o3 + 1 + alen);
    let m = CrossChainMessage { token_id, name, symbol, uri, receiver, source_chain_tag };
    assert(decoded(bytes@) == Some(m@));
    Ok(m)
}

} // verus!
