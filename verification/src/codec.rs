//! Tokens: operation chains as URL-safe text.
//!
//! A token is the escaped form of a chain's binary layout. It holds only
//! ASCII letters, digits and `%`, so it can stand in a URL path segment as
//! it is.

use crate::escape::{
    ascii_text, escape, escaped, lemma_ascii_text_utf8, lemma_escape_round_trip,
    lemma_escaped_url_safe, unescape, unescaped, url_safe,
};
use crate::ops::{all_valid, Operation, OperationChain};
use crate::wire::{
    chain_bytes, from_bytes, lemma_parse_chain_bytes, lemma_truncated_rejected,
    lemma_unknown_tag_rejected, op_bytes, parse_chain, to_bytes, DecodeError, TAG_FILTER,
    TAG_RESIZE, TAG_WATERMARK,
};
use vstd::prelude::*;
use vstd::utf8::encode_utf8;

verus! {

/// The token of a chain.
pub open spec fn token_text(ops: Seq<Operation>) -> Seq<char> {
    ascii_text(escaped(chain_bytes(ops)))
}

/// The bytes that a token stands for.
pub open spec fn token_bytes(token: Seq<char>) -> Seq<u8> {
    unescaped(encode_utf8(token))
}

/// The chain that a token stands for, or why it stands for none.
pub open spec fn token_chain(token: Seq<char>) -> Result<Seq<Operation>, DecodeError> {
    parse_chain(token_bytes(token))
}

/// Writes `chain` as a token, which holds only ASCII letters, digits and
/// `%`.
pub fn encode(chain: &OperationChain) -> (token: String)
    ensures
        token@ == token_text(chain@),
        url_safe(encode_utf8(token@)),
{
    let bytes = to_bytes(chain);
    proof {
        lemma_token_url_safe(chain@);
    }
    escape(bytes.as_slice())
}

/// Reads a chain from a token.
///
/// Succeeds exactly when the token unescapes to the layout of a chain whose
/// operations are all valid. Otherwise the error is the first one met from
/// the left: `UnknownTag` for a tag byte that names no operation,
/// `Malformed` where the bytes end before an operation is complete,
/// `InvalidParameter` for a parameter out of range.
pub fn decode(token: &str) -> (r: Result<OperationChain, DecodeError>)
    ensures
        match token_chain(token@) {
            Ok(ops) => r is Ok && r.unwrap()@ == ops,
            Err(e) => r == Err::<OperationChain, DecodeError>(e),
        },
        r is Ok ==> all_valid(r.unwrap()@),
{
    let bytes = unescape(token);
    from_bytes(bytes.as_slice())
}

/// Round trip: the token of a valid chain decodes to that chain, with the
/// same operations in the same order.
pub proof fn lemma_decode_encode(ops: Seq<Operation>)
    requires
        all_valid(ops),
    ensures
        token_chain(token_text(ops)) == Ok::<Seq<Operation>, DecodeError>(ops),
{
    lemma_escape_round_trip(chain_bytes(ops));
    lemma_parse_chain_bytes(ops);
}

/// A token holds only ASCII letters, digits and `%`.
pub proof fn lemma_token_url_safe(ops: Seq<Operation>)
    ensures
        url_safe(encode_utf8(token_text(ops))),
        token_text(ops).len() == escaped(chain_bytes(ops)).len(),
{
    lemma_escaped_url_safe(chain_bytes(ops));
    lemma_escape_round_trip(chain_bytes(ops));
    lemma_ascii_text_utf8(escaped(chain_bytes(ops)));
}

/// Rejection of an unknown tag: a token that stands for the layout of
/// valid operations followed by a byte that is no tag, and then by
/// anything, decodes to `UnknownTag`.
pub proof fn lemma_decode_unknown_tag(token: Seq<char>, ops: Seq<Operation>, tag: u8, rest: Seq<u8>)
    requires
        all_valid(ops),
        tag != TAG_RESIZE,
        tag != TAG_WATERMARK,
        tag != TAG_FILTER,
        token_bytes(token) == chain_bytes(ops) + (seq![tag] + rest),
    ensures
        token_chain(token) == Err::<Seq<Operation>, DecodeError>(DecodeError::UnknownTag),
{
    lemma_unknown_tag_rejected(ops, tag, rest);
}

/// Rejection of a truncated layout: a token that stands for the layout of
/// valid operations followed by a proper, non-empty part of one more
/// decodes to `Malformed`.
pub proof fn lemma_decode_truncated(token: Seq<char>, ops: Seq<Operation>, op: Operation, cut: int)
    requires
        all_valid(ops),
        0 < cut < op_bytes(op).len(),
        token_bytes(token) == chain_bytes(ops) + op_bytes(op).take(cut),
    ensures
        token_chain(token) == Err::<Seq<Operation>, DecodeError>(DecodeError::Malformed),
{
    lemma_truncated_rejected(ops, op, cut);
}

/// Every byte sequence has a token that stands for it: its escaped form.
/// So the two rejections above speak of tokens that exist.
pub proof fn lemma_token_of_bytes(bytes: Seq<u8>)
    ensures
        token_bytes(ascii_text(escaped(bytes))) == bytes,
{
    lemma_escape_round_trip(bytes);
}

} // verus!
