//! Header compression: the HPACK encoder and decoder of a connection, which
//! come from the `hpack` crate, and the walk over a header block that tells
//! where its fields end.
//!
//! The decoder of the `hpack` crate stops the program where a header block
//! holds a table size update whose integer is malformed. The walk finds such
//! blocks, so that they are refused before the decoder sees them.

use vstd::prelude::*;
use crate::http::Header;

verus! {

/// `hpack::Encoder`: an HPACK encoder with its dynamic table.
#[verifier::external_type_specification]
#[verifier::external_body]
pub struct ExEncoder<'a>(hpack::Encoder<'a>);

/// `hpack::Decoder`: an HPACK decoder with its dynamic table.
#[verifier::external_type_specification]
#[verifier::external_body]
pub struct ExDecoder<'a>(hpack::Decoder<'a>);

/// `hpack::decoder::DecoderError`: why a decoder has refused a block.
#[verifier::external_type_specification]
#[verifier::external_body]
pub struct ExDecoderError(hpack::decoder::DecoderError);

/// The dynamic table of an encoder: the headers it has indexed, newest first.
pub uninterp spec fn encoder_table(encoder: hpack::Encoder<'static>) -> Seq<(Seq<u8>, Seq<u8>)>;

/// The dynamic table of a decoder: the headers it has indexed, newest first.
pub uninterp spec fn decoder_table(decoder: hpack::Decoder<'static>) -> Seq<(Seq<u8>, Seq<u8>)>;

/// The size to which the dynamic table of a decoder may grow.
pub uninterp spec fn decoder_max_size(decoder: hpack::Decoder<'static>) -> nat;

/// What encoding `headers` gives with an encoder whose dynamic table is
/// `table`: the header block, and the dynamic table afterwards.
pub uninterp spec fn hpack_encoded(
    table: Seq<(Seq<u8>, Seq<u8>)>,
    headers: Seq<(Seq<u8>, Seq<u8>)>,
) -> (Seq<u8>, Seq<(Seq<u8>, Seq<u8>)>);

/// What decoding `block` gives with a decoder whose dynamic table is `table`
/// and may grow to `max_size`: the headers, or `None` where the block is
/// refused, and the dynamic table and its limit afterwards.
pub uninterp spec fn hpack_decoded(
    table: Seq<(Seq<u8>, Seq<u8>)>,
    max_size: nat,
    block: Seq<u8>,
) -> (Option<Seq<(Seq<u8>, Seq<u8>)>>, Seq<(Seq<u8>, Seq<u8>)>, nat);

/// The value and the length in bytes of what follows the prefix of an HPACK
/// integer whose prefix bits are all set: up to `left` bytes from `at` on,
/// seven bits each, least significant first, the last one below 128. `None`
/// where the block ends first or no byte among them is the last.
pub open spec fn spec_int_tail(block: Seq<u8>, at: int, left: nat, scale: nat) -> Option<
    (nat, nat),
>
    decreases left,
{
    if left == 0 || at < 0 || at >= block.len() {
        None
    } else if block[at] < 128 {
        Some((block[at] as nat * scale, 1))
    } else {
        match spec_int_tail(block, at + 1, (left - 1) as nat, scale * 128) {
            Some((value, used)) => Some(((block[at] % 128) as nat * scale + value, used + 1)),
            None => None,
        }
    }
}

/// The value and the length in bytes of the HPACK integer at `at`, whose
/// prefix is the bits of `mask` in the first byte. An integer takes at most
/// five bytes. `None` where there is no such integer at `at`.
pub open spec fn spec_prefix_int(block: Seq<u8>, at: int, mask: u8) -> Option<(nat, nat)> {
    if at < 0 || at >= block.len() {
        None
    } else if block[at] % ((mask + 1) as u8) < mask {
        Some(((block[at] % ((mask + 1) as u8)) as nat, 1))
    } else {
        match spec_int_tail(block, at + 1, 4, 1) {
            Some((value, used)) => Some((mask as nat + value, used + 1)),
            None => None,
        }
    }
}

/// Where the string literal that starts at `at` ends: after its length, an
/// HPACK integer with a prefix of seven bits, and that many bytes. `None`
/// where the block does not hold all of it.
pub open spec fn spec_string_end(block: Seq<u8>, at: int) -> Option<int> {
    match spec_prefix_int(block, at, 127) {
        Some((len, used)) => if at + used + len <= block.len() {
            Some(at + used + len)
        } else {
            None
        },
        None => None,
    }
}

/// What a walk over a header block finds of one field.
#[derive(Clone, Copy, Debug, PartialEq, Eq, Structural)]
pub enum FieldScan {
    /// The field is whole, and the next one starts at this offset.
    Next(usize),
    /// The field is cut short: a decoder refuses the block here.
    Refused,
    /// The field is a table size update whose integer is malformed.
    BadSizeUpdate,
}

/// Where a literal field that starts at `at` ends: an index with the given
/// prefix, the name as a string where the index is zero, and the value as a
/// string.
pub open spec fn spec_literal_end(block: Seq<u8>, at: int, mask: u8) -> Option<int> {
    match spec_prefix_int(block, at, mask) {
        Some((index, used)) => {
            let after_name = if index == 0 {
                spec_string_end(block, at + used)
            } else {
                Some(at + used)
            };
            match after_name {
                Some(value_at) => spec_string_end(block, value_at),
                None => None,
            }
        },
        None => None,
    }
}

/// Where the field that starts at `at` ends, if it is whole. The first byte
/// tells the kind of the field: an indexed field from 128 on, a literal with
/// indexing from 64 on, a table size update from 32 on, and a literal
/// without indexing below.
pub open spec fn spec_field_scan(block: Seq<u8>, at: int) -> FieldScan {
    let first = block[at];
    if first >= 128 {
        match spec_prefix_int(block, at, 127) {
            Some((_, used)) => FieldScan::Next((at + used) as usize),
            None => FieldScan::Refused,
        }
    } else if first >= 64 {
        match spec_literal_end(block, at, 63) {
            Some(end) => FieldScan::Next(end as usize),
            None => FieldScan::Refused,
        }
    } else if first >= 32 {
        match spec_prefix_int(block, at, 31) {
            Some((_, used)) => FieldScan::Next((at + used) as usize),
            None => FieldScan::BadSizeUpdate,
        }
    } else {
        match spec_literal_end(block, at, 15) {
            Some(end) => FieldScan::Next(end as usize),
            None => FieldScan::Refused,
        }
    }
}

/// Whether a walk over the fields of the block from `at` on meets no table
/// size update with a malformed integer before the block ends or a field is
/// cut short.
pub open spec fn spec_block_safe(block: Seq<u8>, at: int) -> bool
    decreases block.len() - at,
{
    if at < 0 || at >= block.len() {
        true
    } else {
        match spec_field_scan(block, at) {
            FieldScan::Next(next) => if at < next <= block.len() {
                spec_block_safe(block, next as int)
            } else {
                true
            },
            FieldScan::Refused => true,
            FieldScan::BadSizeUpdate => false,
        }
    }
}

/// Reads what follows the prefix of an HPACK integer whose prefix bits are
/// all set.
fn int_tail(block: &[u8], at: usize) -> (r: Option<(u64, usize)>)
    requires
        at <= block@.len(),
    ensures
        match r {
            Some((value, used)) => spec_int_tail(block@, at as int, 4, 1) == Some(
                (value as nat, used as nat),
            ) && 1 <= used <= 4 && at + used <= block@.len() && value < 0x1000_0000,
            None => spec_int_tail(block@, at as int, 4, 1).is_none(),
        },
{
    let len: usize = block.len();
    let mut acc: u64 = 0;
    let mut scale: u64 = 1;
    let mut k: usize = 0;
    while k < 4
        invariant
            k <= 4,
            at + k <= block@.len(),
            block@.len() <= usize::MAX,
            acc < scale,
            (k == 0 && scale == 1) || (k == 1 && scale == 128) || (k == 2 && scale == 16384) || (k
                == 3 && scale == 2097152) || (k == 4 && scale == 268435456),
            spec_int_tail(block@, at as int, 4, 1) == (match spec_int_tail(
                block@,
                at + k,
                (4 - k) as nat,
                scale as nat,
            ) {
                Some((value, used)) => Some((acc as nat + value, k as nat + used)),
                None => None,
            }),
        decreases 4 - k,
    {
        if at + k >= block.len() {
            return None;
        }
        let b: u8 = block[at + k];
        if b < 128 {
            return Some((acc + b as u64 * scale, k + 1));
        }
        acc = acc + (b % 128) as u64 * scale;
        scale = scale * 128;
        k += 1;
    }
    None
}

/// Reads the HPACK integer at `at`, whose prefix is the bits of `mask` in
/// the first byte, and tells how many bytes it takes.
fn prefix_int(block: &[u8], at: usize, mask: u8) -> (r: Option<(u64, usize)>)
    requires
        mask == 15 || mask == 31 || mask == 63 || mask == 127,
    ensures
        match r {
            Some((value, used)) => spec_prefix_int(block@, at as int, mask) == Some(
                (value as nat, used as nat),
            ) && 1 <= used <= 5 && at + used <= block@.len() && value < 0x2000_0000,
            None => spec_prefix_int(block@, at as int, mask).is_none(),
        },
{
    if at >= block.len() {
        return None;
    }
    let first: u8 = block[at] % (mask + 1);
    if first < mask {
        return Some((first as u64, 1));
    }
    match int_tail(block, at + 1) {
        Some((value, used)) => Some((mask as u64 + value, used + 1)),
        None => None,
    }
}

/// Tells where the string literal that starts at `at` ends.
fn string_end(block: &[u8], at: usize) -> (r: Option<usize>)
    ensures
        match r {
            Some(end) => spec_string_end(block@, at as int) == Some(end as int) && at < end
                <= block@.len(),
            None => spec_string_end(block@, at as int).is_none(),
        },
{
    match prefix_int(block, at, 127) {
        Some((len, used)) => {
            let room: usize = block.len() - at - used;
            if len <= room as u64 {
                Some(at + used + len as usize)
            } else {
                None
            }
        },
        None => None,
    }
}

/// Tells where a literal field that starts at `at` ends.
fn literal_end(block: &[u8], at: usize, mask: u8) -> (r: Option<usize>)
    requires
        mask == 15 || mask == 63,
    ensures
        match r {
            Some(end) => spec_literal_end(block@, at as int, mask) == Some(end as int) && at < end
                <= block@.len(),
            None => spec_literal_end(block@, at as int, mask).is_none(),
        },
{
    let len: usize = block.len();
    match prefix_int(block, at, mask) {
        Some((index, used)) => {
            let value_at: usize = if index == 0 {
                match string_end(block, at + used) {
                    Some(end) => end,
                    None => {
                        return None;
                    },
                }
            } else {
                at + used
            };
            string_end(block, value_at)
        },
        None => None,
    }
}

/// Tells where the field that starts at `at` ends, if it is whole.
pub fn field_scan(block: &[u8], at: usize) -> (r: FieldScan)
    requires
        at < block@.len(),
    ensures
        r == spec_field_scan(block@, at as int),
        r matches FieldScan::Next(next) ==> at < next <= block@.len(),
{
    let first: u8 = block[at];
    if first >= 128 {
        match prefix_int(block, at, 127) {
            Some((_, used)) => FieldScan::Next(at + used),
            None => FieldScan::Refused,
        }
    } else if first >= 64 {
        match literal_end(block, at, 63) {
            Some(end) => FieldScan::Next(end),
            None => FieldScan::Refused,
        }
    } else if first >= 32 {
        match prefix_int(block, at, 31) {
            Some((_, used)) => FieldScan::Next(at + used),
            None => FieldScan::BadSizeUpdate,
        }
    } else {
        match literal_end(block, at, 15) {
            Some(end) => FieldScan::Next(end),
            None => FieldScan::Refused,
        }
    }
}

/// Walks over the fields of a header block and tells whether it is free of
/// reachable table size updates with a malformed integer.
pub fn block_is_safe(block: &[u8]) -> (r: bool)
    ensures
        r == spec_block_safe(block@, 0),
{
    let mut at: usize = 0;
    while at < block.len()
        invariant
            spec_block_safe(block@, 0) == spec_block_safe(block@, at as int),
        decreases block@.len() - at,
    {
        match field_scan(block, at) {
            FieldScan::Next(next) => {
                at = next;
            },
            FieldScan::Refused => {
                return true;
            },
            FieldScan::BadSizeUpdate => {
                return false;
            },
        }
    }
    true
}

/// `hpack::Encoder::new`: a new encoder has an empty dynamic table.
#[verifier::external_body]
pub(crate) fn new_encoder() -> (r: hpack::Encoder<'static>)
    ensures
        encoder_table(r) == Seq::<(Seq<u8>, Seq<u8>)>::empty(),
{
    hpack::Encoder::new()
}

/// `hpack::Decoder::new`: a new decoder has an empty dynamic table, which
/// may grow to 4096 bytes.
#[verifier::external_body]
pub(crate) fn new_decoder() -> (r: hpack::Decoder<'static>)
    ensures
        decoder_table(r) == Seq::<(Seq<u8>, Seq<u8>)>::empty(),
        decoder_max_size(r) == 4096,
{
    hpack::Decoder::new()
}

/// `hpack::Encoder::encode`: the header block and the encoder's dynamic
/// table afterwards are those that the headers and the dynamic table before
/// the call determine.
#[verifier::external_body]
pub(crate) fn encode_headers(encoder: &mut hpack::Encoder<'static>, headers: &Vec<Header>) -> (r:
    Vec<u8>)
    ensures
        r@ == hpack_encoded(encoder_table(*old(encoder)), headers.deep_view()).0,
        encoder_table(*final(encoder)) == hpack_encoded(
            encoder_table(*old(encoder)),
            headers.deep_view(),
        ).1,
{
    encoder.encode(headers.iter().map(|h| (&h.0[..], &h.1[..])))
}

/// `hpack::Decoder::decode`: the headers, or the refusal, and the decoder's
/// dynamic table and its limit afterwards are those that the block and the
/// decoder's state before the call determine. The decoder stops the program
/// on a table size update whose integer is malformed, so the block must be
/// free of those.
#[verifier::external_body]
pub(crate) fn decode_block(decoder: &mut hpack::Decoder<'static>, block: &[u8]) -> (r: Result<
    Vec<Header>,
    hpack::decoder::DecoderError,
>)
    requires
        spec_block_safe(block@, 0),
    ensures
        match r {
            Ok(headers) => hpack_decoded(
                decoder_table(*old(decoder)),
                decoder_max_size(*old(decoder)),
                block@,
            ).0 == Some(headers.deep_view()),
            Err(_) => hpack_decoded(
                decoder_table(*old(decoder)),
                decoder_max_size(*old(decoder)),
                block@,
            ).0.is_none(),
        },
        decoder_table(*final(decoder)) == hpack_decoded(
            decoder_table(*old(decoder)),
            decoder_max_size(*old(decoder)),
            block@,
        ).1,
        decoder_max_size(*final(decoder)) == hpack_decoded(
            decoder_table(*old(decoder)),
            decoder_max_size(*old(decoder)),
            block@,
        ).2,
{
    decoder.decode(block)
}

} // verus!
