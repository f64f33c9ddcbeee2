use vstd::prelude::*;
use crate::decoder::{
    decode_at, encoded_len, in_dispatch_table, instruction_at, listing_from, listing_of,
    listing_text, DecodeError,
};
use crate::instruction::{hex_byte_text, line_text, Instruction, Line};

verus! {

/// An opcode of the dispatch table never decodes as unknown, and decodes
/// to an instruction when all the bytes its encoding needs are present.
pub proof fn lemma_known_opcode_decodes(s: Seq<u8>, p: int)
    requires
        0 <= p < s.len(),
        in_dispatch_table(s[p]),
    ensures
        !(decode_at(s, p) matches Err(DecodeError::UnknownOpcode { .. })),
        p + encoded_len(s, p) <= s.len() ==> decode_at(s, p) is Ok,
        s[p] != 0 && p + encoded_len(s, p) <= s.len() ==> listing_from(s, p).0[0] == Line::Instruction(
            instruction_at(s, p),
        ),
{
}

/// A nonzero byte outside the dispatch table gives exactly one diagnostic
/// line, which names the byte in two upper-case hexadecimal digits, and
/// decoding goes on at the very next byte.
pub proof fn lemma_unknown_opcode_one_diagnostic(s: Seq<u8>, p: int)
    requires
        0 <= p < s.len(),
        s[p] != 0,
        !in_dispatch_table(s[p]),
    ensures
        decode_at(s, p) == Err::<(Instruction, nat), DecodeError>(
            DecodeError::UnknownOpcode { opcode: s[p] },
        ),
        listing_from(s, p).0 == seq![Line::UnknownOpcode(s[p])] + listing_from(s, p + 1).0,
        listing_from(s, p).1 == listing_from(s, p + 1).1,
        line_text(Line::UnknownOpcode(s[p])) == "Unknown instruction: "@ + hex_byte_text(s[p]),
        hex_byte_text(s[p]).len() == 2,
{
    reveal_strlit("0");
    reveal_strlit("1");
    reveal_strlit("2");
    reveal_strlit("3");
    reveal_strlit("4");
    reveal_strlit("5");
    reveal_strlit("6");
    reveal_strlit("7");
    reveal_strlit("8");
    reveal_strlit("9");
    reveal_strlit("A");
    reveal_strlit("B");
    reveal_strlit("C");
    reveal_strlit("D");
    reveal_strlit("E");
    reveal_strlit("F");
}

/// Decoding depends on the bytes alone: equal buffers give equal lines,
/// equal text and the same error.
pub proof fn lemma_decoding_deterministic(a: Seq<u8>, b: Seq<u8>)
    requires
        a == b,
    ensures
        listing_of(a) == listing_of(b),
        listing_text(listing_of(a).0) == listing_text(listing_of(b).0),
{
}

/// A zero byte where an instruction would start is skipped: it gives no
/// line and decoding goes on at the next byte.
pub proof fn lemma_padding_skipped(s: Seq<u8>, p: int)
    requires
        0 <= p < s.len(),
        s[p] == 0,
    ensures
        listing_from(s, p) == listing_from(s, p + 1),
{
}

/// The instruction at `p` of `s` reads only bytes of `s` from `p` on, so
/// it is the same after any bytes are put in front of `s`.
proof fn lemma_decode_local(pre: Seq<u8>, s: Seq<u8>, p: int)
    requires
        0 <= p < s.len(),
    ensures
        (pre + s)[pre.len() + p] == s[p],
        encoded_len(pre + s, pre.len() + p) == encoded_len(s, p),
        in_dispatch_table(s[p]) && p + encoded_len(s, p) <= s.len() ==> instruction_at(
            pre + s,
            pre.len() + p,
        ) == instruction_at(s, p),
{
    let t = pre + s;
    let n = pre.len() as int;
    assert(forall|k: int| 0 <= k < s.len() ==> #[trigger] t[n + k] == s[k]);
    if p + 1 < s.len() {
        assert(t[n + p + 1] == s[p + 1]);
    }
    if p + 2 < s.len() {
        assert(t[n + p + 2] == s[p + 2]);
    }
    if p + 3 < s.len() {
        assert(t[n + p + 3] == s[p + 3]);
    }
}

/// Decoding `s` from `p` and decoding `pre + s` from the same byte give the
/// same lines, and both stop early or neither does.
pub proof fn lemma_listing_shift(pre: Seq<u8>, s: Seq<u8>, p: int)
    requires
        0 <= p <= s.len(),
    ensures
        listing_from(pre + s, pre.len() + p).0 == listing_from(s, p).0,
        listing_from(pre + s, pre.len() + p).1 is Some == listing_from(s, p).1 is Some,
    decreases s.len() - p,
{
    if p < s.len() {
        lemma_decode_local(pre, s, p);
        if s[p] == 0 || !in_dispatch_table(s[p]) {
            lemma_listing_shift(pre, s, p + 1);
        } else if p + encoded_len(s, p) <= s.len() {
            lemma_listing_shift(pre, s, p + encoded_len(s, p));
        }
    }
}

/// A run of zero bytes from `i` to `j` is skipped as a whole.
pub proof fn lemma_zero_run(t: Seq<u8>, i: int, j: int)
    requires
        0 <= i <= j <= t.len(),
        forall|k: int| i <= k < j ==> t[k] == 0,
    ensures
        listing_from(t, i) == listing_from(t, j),
    decreases j - i,
{
    if i < j {
        lemma_zero_run(t, i + 1, j);
    }
}

/// Zero bytes in front of a buffer are padding: they change none of its
/// lines, nor whether decoding stops early.
pub proof fn lemma_leading_padding(zeros: Seq<u8>, s: Seq<u8>)
    requires
        forall|k: int| 0 <= k < zeros.len() ==> zeros[k] == 0,
    ensures
        listing_of(zeros + s).0 == listing_of(s).0,
        listing_of(zeros + s).1 is Some == listing_of(s).1 is Some,
{
    let t = zeros + s;
    assert forall|k: int| 0 <= k < zeros.len() implies t[k] == 0 by {
        assert(t[k] == zeros[k]);
    }
    lemma_zero_run(t, 0, zeros.len() as int);
    lemma_listing_shift(zeros, s, 0);
}

/// An instruction that lies wholly within `a` decodes the same after any
/// bytes are put behind `a`.
proof fn lemma_decode_prefix(a: Seq<u8>, b: Seq<u8>, p: int)
    requires
        0 <= p < a.len(),
        in_dispatch_table(a[p]),
        p + encoded_len(a, p) <= a.len(),
    ensures
        (a + b)[p] == a[p],
        encoded_len(a + b, p) == encoded_len(a, p),
        instruction_at(a + b, p) == instruction_at(a, p),
{
    let t = a + b;
    assert(forall|k: int| 0 <= k < a.len() ==> #[trigger] t[k] == a[k]);
    assert(t[p + 1] == a[p + 1]);
    if p + 2 < a.len() {
        assert(t[p + 2] == a[p + 2]);
    }
    if p + 3 < a.len() {
        assert(t[p + 3] == a[p + 3]);
    }
}

/// Where decoding `a` from `p` runs to the end of `a` without stopping
/// early, decoding `a + b` from `p` gives those lines and then the lines of
/// `b`.
pub proof fn lemma_listing_concat(a: Seq<u8>, b: Seq<u8>, p: int)
    requires
        0 <= p <= a.len(),
        listing_from(a, p).1 is None,
    ensures
        listing_from(a + b, p).0 == listing_from(a, p).0 + listing_of(b).0,
        listing_from(a + b, p).1 is Some == listing_of(b).1 is Some,
    decreases a.len() - p,
{
    let t = a + b;
    if p == a.len() {
        lemma_listing_shift(a, b, 0);
        assert(listing_from(a, p).0 + listing_of(b).0 =~= listing_of(b).0);
    } else {
        assert(t[p] == a[p]);
        if a[p] == 0 {
            lemma_listing_concat(a, b, p + 1);
        } else if !in_dispatch_table(a[p]) {
            lemma_listing_concat(a, b, p + 1);
            assert(listing_from(t, p).0 =~= listing_from(a, p).0 + listing_of(b).0);
        } else {
            lemma_decode_prefix(a, b, p);
            lemma_listing_concat(a, b, p + encoded_len(a, p));
            assert(listing_from(t, p).0 =~= listing_from(a, p).0 + listing_of(b).0);
        }
    }
}

/// Zero bytes between two buffers are padding: where decoding `a` does not
/// stop early, `a`, then zeros, then `b` decodes to the lines of `a`
/// followed by the lines of `b`.
pub proof fn lemma_interspersed_padding(a: Seq<u8>, zeros: Seq<u8>, b: Seq<u8>)
    requires
        listing_of(a).1 is None,
        forall|k: int| 0 <= k < zeros.len() ==> zeros[k] == 0,
    ensures
        listing_of(a + zeros + b).0 == listing_of(a).0 + listing_of(b).0,
        listing_of(a + zeros + b).1 is Some == listing_of(b).1 is Some,
{
    assert(a + zeros + b =~= a + (zeros + b));
    lemma_listing_concat(a, zeros + b, 0);
    lemma_leading_padding(zeros, b);
}

} // verus!
