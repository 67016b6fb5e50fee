//! The binary layout of an operation chain.
//!
//! Each operation is written as a one-byte tag followed by its parameters in
//! a fixed layout: numbers as four big-endian bytes, enumerated kinds as one
//! byte holding the ordinal. A chain is the concatenation of its operations.

use crate::ops::{all_valid, FilterKind, Operation, OperationChain, ResizeFilterKind};
use vstd::arithmetic::div_mod::lemma_fundamental_div_mod_converse;
use vstd::prelude::*;

verus! {

/// Tag byte of a resize.
pub const TAG_RESIZE: u8 = 1;

/// Tag byte of a watermark.
pub const TAG_WATERMARK: u8 = 2;

/// Tag byte of a filter.
pub const TAG_FILTER: u8 = 3;

/// Why a byte sequence is not the layout of a valid chain.
#[derive(Clone, Copy, Debug, PartialEq, Eq, Structural)]
pub enum DecodeError {
    /// The bytes end in the middle of an operation.
    Malformed,
    /// A tag byte names no operation.
    UnknownTag,
    /// A parameter lies outside the range its operation accepts.
    InvalidParameter,
}

/// The four big-endian bytes of `v`.
pub open spec fn u32_bytes(v: u32) -> Seq<u8> {
    seq![
        (v / 0x100_0000) as u8,
        (v / 0x1_0000 % 0x100) as u8,
        (v / 0x100 % 0x100) as u8,
        (v % 0x100) as u8,
    ]
}

/// The number whose big-endian bytes are `b0 b1 b2 b3`.
pub open spec fn u32_value(b0: u8, b1: u8, b2: u8, b3: u8) -> u32 {
    (b0 * 0x100_0000 + b1 * 0x1_0000 + b2 * 0x100 + b3) as u32
}

/// The number written at `bytes[at..at + 4]`.
pub open spec fn u32_at(bytes: Seq<u8>, at: int) -> u32 {
    u32_value(bytes[at], bytes[at + 1], bytes[at + 2], bytes[at + 3])
}

/// The layout of one operation.
pub open spec fn op_bytes(op: Operation) -> Seq<u8> {
    match op {
        Operation::Resize { width, height, filter } => seq![TAG_RESIZE] + u32_bytes(width)
            + u32_bytes(height) + seq![filter.spec_ordinal()],
        Operation::Watermark { x, y } => seq![TAG_WATERMARK] + u32_bytes(x) + u32_bytes(y),
        Operation::Filter { kind } => seq![TAG_FILTER, kind.spec_ordinal()],
    }
}

/// The layout of a chain: its operations' layouts in order.
pub open spec fn chain_bytes(ops: Seq<Operation>) -> Seq<u8>
    decreases ops.len(),
{
    if ops.len() == 0 {
        Seq::empty()
    } else {
        op_bytes(ops[0]) + chain_bytes(ops.skip(1))
    }
}

/// Number of bytes that an operation with tag `tag` occupies, tag included;
/// zero for a tag that names no operation.
pub open spec fn layout_len(tag: u8) -> nat {
    if tag == TAG_RESIZE {
        10
    } else if tag == TAG_WATERMARK {
        9
    } else if tag == TAG_FILTER {
        2
    } else {
        0
    }
}

/// The operation written at the start of `bytes`, which must not be empty.
///
/// The tag is checked first, then that all bytes of the operation are
/// present, then the parameters.
pub open spec fn parse_op(bytes: Seq<u8>) -> Result<Operation, DecodeError>
    recommends
        bytes.len() > 0,
{
    let tag = bytes[0];
    if layout_len(tag) == 0 {
        Err(DecodeError::UnknownTag)
    } else if bytes.len() < layout_len(tag) {
        Err(DecodeError::Malformed)
    } else if tag == TAG_RESIZE {
        let width = u32_at(bytes, 1);
        let height = u32_at(bytes, 5);
        match ResizeFilterKind::spec_from_ordinal(bytes[9]) {
            Some(filter) => if width > 0 && height > 0 {
                Ok(Operation::Resize { width, height, filter })
            } else {
                Err(DecodeError::InvalidParameter)
            },
            None => Err(DecodeError::InvalidParameter),
        }
    } else if tag == TAG_WATERMARK {
        Ok(Operation::Watermark { x: u32_at(bytes, 1), y: u32_at(bytes, 5) })
    } else {
        match FilterKind::spec_from_ordinal(bytes[1]) {
            Some(kind) => Ok(Operation::Filter { kind }),
            None => Err(DecodeError::InvalidParameter),
        }
    }
}

/// `ops` followed by what `rest` holds, or the error of `rest`.
pub open spec fn after(ops: Seq<Operation>, rest: Result<Seq<Operation>, DecodeError>) -> Result<
    Seq<Operation>,
    DecodeError,
> {
    match rest {
        Ok(more) => Ok(ops + more),
        Err(e) => Err(e),
    }
}

/// The chain that `bytes` lays out, or the first error met when reading the
/// operations from left to right.
pub open spec fn parse_chain(bytes: Seq<u8>) -> Result<Seq<Operation>, DecodeError>
    decreases bytes.len(),
{
    if bytes.len() == 0 {
        Ok(Seq::empty())
    } else {
        match parse_op(bytes) {
            Ok(op) => after(seq![op], parse_chain(bytes.skip(layout_len(bytes[0]) as int))),
            Err(e) => Err(e),
        }
    }
}

/// Reading back the bytes of a number gives the number.
pub proof fn lemma_u32_round_trip(v: u32)
    ensures
        u32_bytes(v).len() == 4,
        u32_at(u32_bytes(v), 0) == v,
{
}

/// Writing out the number read from four bytes gives the four bytes.
pub proof fn lemma_u32_bytes_of_value(b0: u8, b1: u8, b2: u8, b3: u8)
    ensures
        u32_bytes(u32_value(b0, b1, b2, b3)) == seq![b0, b1, b2, b3],
{
    let n: int = b0 * 0x100_0000 + b1 * 0x1_0000 + b2 * 0x100 + b3;
    let v = u32_value(b0, b1, b2, b3);
    assert(v == n);
    lemma_fundamental_div_mod_converse(n, 0x100_0000, b0 as int, b1 * 0x1_0000 + b2 * 0x100 + b3);
    lemma_fundamental_div_mod_converse(n, 0x1_0000, b0 * 0x100 + b1, b2 * 0x100 + b3);
    lemma_fundamental_div_mod_converse(b0 * 0x100 + b1, 0x100, b0 as int, b1 as int);
    lemma_fundamental_div_mod_converse(n, 0x100, b0 * 0x1_0000 + b1 * 0x100 + b2, b3 as int);
    lemma_fundamental_div_mod_converse(
        b0 * 0x1_0000 + b1 * 0x100 + b2,
        0x100,
        b0 * 0x100 + b1,
        b2 as int,
    );
    assert(u32_bytes(v) =~= seq![b0, b1, b2, b3]);
}

/// An operation's layout starts with its tag and has the length that the
/// tag announces.
pub proof fn lemma_op_bytes_shape(op: Operation)
    ensures
        op_bytes(op).len() == layout_len(op_bytes(op)[0]),
        op_bytes(op).len() > 0,
        op_bytes(op)[0] == TAG_RESIZE <==> op is Resize,
        op_bytes(op)[0] == TAG_WATERMARK <==> op is Watermark,
        op_bytes(op)[0] == TAG_FILTER <==> op is Filter,
{
}

/// A valid operation is read back from its layout, whatever follows it.
pub proof fn lemma_parse_op_bytes(op: Operation, rest: Seq<u8>)
    requires
        op.valid(),
    ensures
        parse_op(op_bytes(op) + rest) == Ok::<Operation, DecodeError>(op),
        (op_bytes(op) + rest).skip(layout_len((op_bytes(op) + rest)[0]) as int) == rest,
{
    let bytes = op_bytes(op) + rest;
    lemma_op_bytes_shape(op);
    assert(bytes.skip(op_bytes(op).len() as int) =~= rest);
    match op {
        Operation::Resize { width, height, filter } => {
            lemma_u32_round_trip(width);
            lemma_u32_round_trip(height);
            assert(u32_at(bytes, 1) == u32_at(u32_bytes(width), 0));
            assert(u32_at(bytes, 5) == u32_at(u32_bytes(height), 0));
            assert(bytes[9] == filter.spec_ordinal());
        },
        Operation::Watermark { x, y } => {
            lemma_u32_round_trip(x);
            lemma_u32_round_trip(y);
            assert(u32_at(bytes, 1) == u32_at(u32_bytes(x), 0));
            assert(u32_at(bytes, 5) == u32_at(u32_bytes(y), 0));
        },
        Operation::Filter { kind } => {
            assert(bytes[1] == kind.spec_ordinal());
        },
    }
}

/// The layout of a chain with one more operation at its end.
pub proof fn lemma_chain_bytes_push(ops: Seq<Operation>, op: Operation)
    ensures
        chain_bytes(ops.push(op)) == chain_bytes(ops) + op_bytes(op),
    decreases ops.len(),
{
    if ops.len() == 0 {
        assert(ops.push(op).skip(1) =~= Seq::<Operation>::empty());
        assert(chain_bytes(ops.push(op).skip(1)) =~= Seq::<u8>::empty());
        assert(chain_bytes(ops) =~= Seq::<u8>::empty());
        assert(chain_bytes(ops.push(op)) =~= chain_bytes(ops) + op_bytes(op));
    } else {
        assert(ops.push(op).skip(1) =~= ops.skip(1).push(op));
        lemma_chain_bytes_push(ops.skip(1), op);
        assert(chain_bytes(ops.push(op)) =~= chain_bytes(ops) + op_bytes(op));
    }
}

/// Reading the layout of a valid chain followed by `rest` gives the chain
/// followed by what `rest` reads as.
pub proof fn lemma_parse_chain_prefix(ops: Seq<Operation>, rest: Seq<u8>)
    requires
        all_valid(ops),
    ensures
        parse_chain(chain_bytes(ops) + rest) == after(ops, parse_chain(rest)),
    decreases ops.len(),
{
    if ops.len() == 0 {
        assert(chain_bytes(ops) + rest =~= rest);
        match parse_chain(rest) {
            Ok(more) => {
                assert(ops + more =~= more);
            },
            Err(e) => {},
        }
    } else {
        let op = ops[0];
        let tail = ops.skip(1);
        let bytes = chain_bytes(ops) + rest;
        assert(op.valid());
        assert(all_valid(tail)) by {
            assert forall|i: int| 0 <= i < tail.len() implies (#[trigger] tail[i]).valid() by {
                assert(tail[i] == ops[i + 1]);
            }
        }
        assert(bytes =~= op_bytes(op) + (chain_bytes(tail) + rest));
        lemma_op_bytes_shape(op);
        lemma_parse_op_bytes(op, chain_bytes(tail) + rest);
        lemma_parse_chain_prefix(tail, rest);
        match parse_chain(rest) {
            Ok(more) => {
                assert(seq![op] + (tail + more) =~= ops + more);
            },
            Err(e) => {},
        }
    }
}

/// Round trip on bytes: the layout of a valid chain reads back as the chain.
pub proof fn lemma_parse_chain_bytes(ops: Seq<Operation>)
    requires
        all_valid(ops),
    ensures
        parse_chain(chain_bytes(ops)) == Ok::<Seq<Operation>, DecodeError>(ops),
{
    lemma_parse_chain_prefix(ops, Seq::empty());
    assert(chain_bytes(ops) + Seq::<u8>::empty() =~= chain_bytes(ops));
    assert(ops + Seq::<Operation>::empty() =~= ops);
}

/// A tag outside the closed set is rejected as unknown wherever it stands
/// after valid operations, whatever follows it.
pub proof fn lemma_unknown_tag_rejected(ops: Seq<Operation>, tag: u8, rest: Seq<u8>)
    requires
        all_valid(ops),
        tag != TAG_RESIZE,
        tag != TAG_WATERMARK,
        tag != TAG_FILTER,
    ensures
        parse_chain(chain_bytes(ops) + (seq![tag] + rest)) == Err::<Seq<Operation>, DecodeError>(
            DecodeError::UnknownTag,
        ),
{
    lemma_parse_chain_prefix(ops, seq![tag] + rest);
    assert((seq![tag] + rest)[0] == tag);
}

/// A layout that ends in the middle of an operation is rejected as
/// malformed: valid operations followed by the first `cut` bytes of one
/// more, where `cut` is neither nothing nor the whole operation.
pub proof fn lemma_truncated_rejected(ops: Seq<Operation>, op: Operation, cut: int)
    requires
        all_valid(ops),
        0 < cut < op_bytes(op).len(),
    ensures
        parse_chain(chain_bytes(ops) + op_bytes(op).take(cut)) == Err::<
            Seq<Operation>,
            DecodeError,
        >(DecodeError::Malformed),
{
    let part = op_bytes(op).take(cut);
    lemma_parse_chain_prefix(ops, part);
    lemma_op_bytes_shape(op);
    assert(part[0] == op_bytes(op)[0]);
}

/// What reads as an operation is valid and is laid out exactly as read.
pub proof fn lemma_parse_op_sound(bytes: Seq<u8>)
    requires
        bytes.len() > 0,
        parse_op(bytes) is Ok,
    ensures
        parse_op(bytes).unwrap().valid(),
        layout_len(bytes[0]) <= bytes.len(),
        op_bytes(parse_op(bytes).unwrap()) == bytes.take(layout_len(bytes[0]) as int),
{
    let op = parse_op(bytes).unwrap();
    let n = layout_len(bytes[0]) as int;
    match op {
        Operation::Resize { width, height, filter } => {
            lemma_u32_bytes_of_value(bytes[1], bytes[2], bytes[3], bytes[4]);
            lemma_u32_bytes_of_value(bytes[5], bytes[6], bytes[7], bytes[8]);
            assert(op_bytes(op) =~= bytes.take(n));
        },
        Operation::Watermark { x, y } => {
            lemma_u32_bytes_of_value(bytes[1], bytes[2], bytes[3], bytes[4]);
            lemma_u32_bytes_of_value(bytes[5], bytes[6], bytes[7], bytes[8]);
            assert(op_bytes(op) =~= bytes.take(n));
        },
        Operation::Filter { kind } => {
            assert(op_bytes(op) =~= bytes.take(n));
        },
    }
}

/// What reads as a chain is a valid chain, and the bytes are its layout: no
/// two byte sequences read as the same chain.
pub proof fn lemma_parse_chain_sound(bytes: Seq<u8>)
    requires
        parse_chain(bytes) is Ok,
    ensures
        all_valid(parse_chain(bytes).unwrap()),
        chain_bytes(parse_chain(bytes).unwrap()) == bytes,
    decreases bytes.len(),
{
    if bytes.len() == 0 {
        assert(chain_bytes(Seq::<Operation>::empty()) =~= bytes);
    } else {
        let op = parse_op(bytes).unwrap();
        let n = layout_len(bytes[0]) as int;
        let rest = bytes.skip(n);
        lemma_parse_op_sound(bytes);
        lemma_parse_chain_sound(rest);
        let more = parse_chain(rest).unwrap();
        let ops = seq![op] + more;
        assert(parse_chain(bytes).unwrap() == ops);
        assert(ops[0] == op);
        assert(ops.skip(1) =~= more);
        assert(bytes.take(n) + rest =~= bytes);
        assert forall|i: int| 0 <= i < ops.len() implies (#[trigger] ops[i]).valid() by {
            if i > 0 {
                assert(ops[i] == more[i - 1]);
            }
        }
    }
}

/// Appends the four big-endian bytes of `v`.
fn push_u32(out: &mut Vec<u8>, v: u32)
    ensures
        final(out)@ == old(out)@ + u32_bytes(v),
{
    out.push((v / 0x100_0000) as u8);
    out.push((v / 0x1_0000 % 0x100) as u8);
    out.push((v / 0x100 % 0x100) as u8);
    out.push((v % 0x100) as u8);
    proof {
        assert(out@ =~= old(out)@ + u32_bytes(v));
    }
}

/// Appends the layout of `op`.
fn push_op(out: &mut Vec<u8>, op: Operation)
    ensures
        final(out)@ == old(out)@ + op_bytes(op),
{
    match op {
        Operation::Resize { width, height, filter } => {
            out.push(TAG_RESIZE);
            push_u32(out, width);
            push_u32(out, height);
            out.push(filter.ordinal());
        },
        Operation::Watermark { x, y } => {
            out.push(TAG_WATERMARK);
            push_u32(out, x);
            push_u32(out, y);
        },
        Operation::Filter { kind } => {
            out.push(TAG_FILTER);
            out.push(kind.ordinal());
        },
    }
    proof {
        assert(out@ =~= old(out)@ + op_bytes(op));
    }
}

/// Lays out `chain` as bytes.
pub fn to_bytes(chain: &OperationChain) -> (bytes: Vec<u8>)
    ensures
        bytes@ == chain_bytes(chain@),
{
    let ops = chain.operations();
    let mut bytes: Vec<u8> = Vec::new();
    let mut i: usize = 0;
    while i < ops.len()
        invariant
            i <= ops.len(),
            bytes@ == chain_bytes(ops@.take(i as int)),
        decreases ops.len() - i,
    {
        proof {
            lemma_chain_bytes_push(ops@.take(i as int), ops@[i as int]);
            assert(ops@.take(i + 1) =~= ops@.take(i as int).push(ops@[i as int]));
        }
        push_op(&mut bytes, ops[i]);
        i += 1;
    }
    proof {
        assert(ops@.take(i as int) =~= ops@);
    }
    bytes
}

/// Reads the number written at `bytes[at..at + 4]`.
fn read_u32(bytes: &[u8], at: usize) -> (v: u32)
    requires
        at + 4 <= bytes@.len(),
    ensures
        v == u32_at(bytes@, at as int),
{
    let b0: u32 = bytes[at] as u32;
    let b1: u32 = bytes[at + 1] as u32;
    let b2: u32 = bytes[at + 2] as u32;
    let b3: u32 = bytes[at + 3] as u32;
    b0 * 0x100_0000 + b1 * 0x1_0000 + b2 * 0x100 + b3
}

/// Reads the operation that starts at `bytes[at]`.
fn read_op(bytes: &[u8], at: usize) -> (r: Result<Operation, DecodeError>)
    requires
        at < bytes@.len(),
    ensures
        r == parse_op(bytes@.skip(at as int)),
{
    let ghost rest = bytes@.skip(at as int);
    let tag: u8 = bytes[at];
    let left: usize = bytes.len() - at;
    assert(rest[0] == tag);
    if tag == TAG_RESIZE {
        if left < 10 {
            return Err(DecodeError::Malformed);
        }
        let width: u32 = read_u32(bytes, at + 1);
        let height: u32 = read_u32(bytes, at + 5);
        proof {
            assert(u32_at(rest, 1) == u32_at(bytes@, at + 1));
            assert(u32_at(rest, 5) == u32_at(bytes@, at + 5));
            assert(rest[9] == bytes@[at + 9]);
        }
        match ResizeFilterKind::from_ordinal(bytes[at + 9]) {
            Some(filter) => {
                if width > 0 && height > 0 {
                    Ok(Operation::Resize { width, height, filter })
                } else {
                    Err(DecodeError::InvalidParameter)
                }
            },
            None => Err(DecodeError::InvalidParameter),
        }
    } else if tag == TAG_WATERMARK {
        if left < 9 {
            return Err(DecodeError::Malformed);
        }
        let x: u32 = read_u32(bytes, at + 1);
        let y: u32 = read_u32(bytes, at + 5);
        proof {
            assert(u32_at(rest, 1) == u32_at(bytes@, at + 1));
            assert(u32_at(rest, 5) == u32_at(bytes@, at + 5));
        }
        Ok(Operation::Watermark { x, y })
    } else if tag == TAG_FILTER {
        if left < 2 {
            return Err(DecodeError::Malformed);
        }
        proof {
            assert(rest[1] == bytes@[at + 1]);
        }
        match FilterKind::from_ordinal(bytes[at + 1]) {
            Some(kind) => Ok(Operation::Filter { kind }),
            None => Err(DecodeError::InvalidParameter),
        }
    } else {
        Err(DecodeError::UnknownTag)
    }
}

/// Number of bytes that an operation with tag `tag` occupies.
fn width_of(tag: u8) -> (n: usize)
    ensures
        n == layout_len(tag),
{
    if tag == TAG_RESIZE {
        10
    } else if tag == TAG_WATERMARK {
        9
    } else if tag == TAG_FILTER {
        2
    } else {
        0
    }
}

/// Reads a chain from its layout.
///
/// Succeeds exactly when `bytes` is the layout of a chain whose operations
/// are all valid; otherwise reports the first error from the left.
pub fn from_bytes(bytes: &[u8]) -> (r: Result<OperationChain, DecodeError>)
    ensures
        match parse_chain(bytes@) {
            Ok(ops) => r is Ok && r.unwrap()@ == ops,
            Err(e) => r == Err::<OperationChain, DecodeError>(e),
        },
        r is Ok ==> all_valid(r.unwrap()@) && chain_bytes(r.unwrap()@) == bytes@,
{
    let mut ops: Vec<Operation> = Vec::new();
    let mut at: usize = 0;
    proof {
        if parse_chain(bytes@) is Ok {
            lemma_parse_chain_sound(bytes@);
        }
        assert(bytes@.skip(0) =~= bytes@);
        match parse_chain(bytes@) {
            Ok(more) => {
                assert(ops@ + more =~= more);
            },
            Err(e) => {},
        }
    }
    while at < bytes.len()
        invariant
            at <= bytes@.len(),
            parse_chain(bytes@) == after(ops@, parse_chain(bytes@.skip(at as int))),
        decreases bytes@.len() - at,
    {
        let ghost rest = bytes@.skip(at as int);
        let ghost before = ops@;
        match read_op(bytes, at) {
            Ok(op) => {
                let step: usize = width_of(bytes[at]);
                proof {
                    assert(rest[0] == bytes@[at as int]);
                    assert(rest.skip(step as int) =~= bytes@.skip(at + step));
                    match parse_chain(bytes@.skip(at + step)) {
                        Ok(more) => {
                            assert(before + (seq![op] + more) =~= before.push(op) + more);
                        },
                        Err(e) => {},
                    }
                }
                ops.push(op);
                at = at + step;
            },
            Err(e) => {
                return Err(e);
            },
        }
    }
    proof {
        assert(bytes@.skip(at as int) =~= Seq::<u8>::empty());
        assert(ops@ + Seq::<Operation>::empty() =~= ops@);
    }
    Ok(OperationChain::new(ops))
}

} // verus!
