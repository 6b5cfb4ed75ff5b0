//! Whole-container assembly: the fixed signature, the header chunk, one
//! embedded data chunk, and the terminator, in that order — plus the
//! escalating retry policy around the embedding search.

use vstd::prelude::*;

use crate::bytes::{append_slice, contains_subrange};
use crate::chunk::{
    chunk_bytes, create_ihdr_chunk, create_iend_chunk, crc32_of, idat_tag, iend_tag, ihdr_data_bytes,
    ihdr_tag, lemma_chunk_round_trip, parse_chunk_at,
};
use crate::embed::{
    budget_exhausted, deflate_of, embeds_payload, find_valid_idat_chunk, is_embedding,
    is_framed_input,
};

verus! {

/// The container's fixed 8-byte signature.
pub open spec fn png_signature() -> Seq<u8> {
    seq![0x89u8, 0x50u8, 0x4eu8, 0x47u8, 0x0du8, 0x0au8, 0x1au8, 0x0au8]
}

/// Signature followed by the header chunk: everything of the container that
/// stands before the data chunk, and the whole of a build the operator
/// abandoned.
pub open spec fn png_prologue(width: u32, height: u32) -> Seq<u8> {
    png_signature() + chunk_bytes(ihdr_tag(), ihdr_data_bytes(width, height))
}

/// The byte layout of a completed container around the data field `inner`:
/// signature, header chunk, data chunk, terminator chunk.
pub open spec fn full_png_bytes(width: u32, height: u32, inner: Seq<u8>) -> Seq<u8> {
    png_prologue(width, height) + chunk_bytes(idat_tag(), inner) + chunk_bytes(
        iend_tag(),
        Seq::<u8>::empty(),
    )
}

/// Starts a container: the fixed signature followed by the header chunk for
/// the given dimensions.
pub fn initialize_png(width: u32, height: u32) -> (r: Vec<u8>)
    ensures
        r@ == png_prologue(width, height),
{
    let mut image: Vec<u8> = Vec::new();
    image.push(0x89);
    image.push(0x50);
    image.push(0x4e);
    image.push(0x47);
    image.push(0x0d);
    image.push(0x0a);
    image.push(0x1a);
    image.push(0x0a);
    assert(image@ =~= png_signature());
    let ihdr_chunk = create_ihdr_chunk(width, height);
    append_slice(&mut image, ihdr_chunk.as_slice());
    image
}

/// Concatenates signature, header chunk, the given data chunk, and the
/// terminator chunk, in the container format's fixed order.
pub fn assemble_png(width: u32, height: u32, data_chunk: &[u8]) -> (r: Vec<u8>)
    ensures
        r@ == png_prologue(width, height) + data_chunk@ + chunk_bytes(
            iend_tag(),
            Seq::<u8>::empty(),
        ),
{
    let mut image = initialize_png(width, height);
    append_slice(&mut image, data_chunk);
    let iend_chunk = create_iend_chunk();
    append_slice(&mut image, iend_chunk.as_slice());
    image
}

/// The attempt budget after `k` operator-granted escalations: it starts at 5
/// and squares on each continuation.
pub open spec fn budget_seq(k: nat) -> nat
    decreases k,
{
    if k == 0 {
        5
    } else {
        budget_seq((k - 1) as nat) * budget_seq((k - 1) as nat)
    }
}

/// The budget after `k` escalations as the machine runs it: `budget_seq(k)`
/// where that still fits a `usize`, and the `usize` ceiling once squaring
/// has overflowed it.
pub open spec fn capped_budget_seq(k: nat) -> nat {
    if budget_seq(k) <= usize::MAX as nat {
        budget_seq(k)
    } else {
        usize::MAX as nat
    }
}

/// Every escalation budget is at least the initial 5.
proof fn lemma_budget_seq_at_least(k: nat)
    ensures
        budget_seq(k) >= 5,
    decreases k,
{
    if k > 0 {
        lemma_budget_seq_at_least((k - 1) as nat);
        assert(budget_seq(k) == budget_seq((k - 1) as nat) * budget_seq((k - 1) as nat));
        assert(budget_seq((k - 1) as nat) * budget_seq((k - 1) as nat) >= 5) by (nonlinear_arith)
            requires
                budget_seq((k - 1) as nat) >= 5,
        ;
    }
}

/// Squaring the running budget, saturating at the `usize` ceiling, tracks
/// `capped_budget_seq` from one escalation to the next.
proof fn lemma_capped_budget_step(k: nat, budget: usize, next: usize)
    requires
        budget == capped_budget_seq(k),
        next == (if budget * budget > usize::MAX {
            usize::MAX as usize
        } else {
            (budget * budget) as usize
        }),
    ensures
        next == capped_budget_seq(k + 1),
{
    lemma_budget_seq_at_least(k);
    let bs = budget_seq(k);
    assert(budget_seq(k + 1) == bs * bs);
    if bs <= usize::MAX as nat {
        assert(budget == bs);
    } else {
        assert(budget == usize::MAX as nat);
        assert(bs * bs >= bs) by (nonlinear_arith)
            requires
                bs >= 1,
        ;
        assert(budget * budget > usize::MAX) by (nonlinear_arith)
            requires
                budget == usize::MAX,
                usize::MAX >= 2,
        ;
    }
}

/// The failure shape of an abandoned build: the first `m` continuation
/// decisions were `true`, the build stopped at entry `m` (a `false` entry,
/// or the end of the list), and every consulted budget — the initial 5 and
/// one squaring per granted continuation, saturating at the `usize` ceiling
/// — was searched in full and exhausted.
pub open spec fn exhaustion_prefix(payload: Seq<u8>, decisions: Seq<bool>, m: int) -> bool {
    0 <= m <= decisions.len() && (forall|t: int| 0 <= t < m ==> decisions[t]) && (m
        < decisions.len() ==> !decisions[m]) && (forall|t: int|
        0 <= t <= m ==> #[trigger] budget_exhausted(payload, capped_budget_seq(t as nat)))
}

/// Builds a container around the payload under an explicit continuation
/// policy: the embedding search runs with a budget of 5 attempts, and each
/// time a budget is exhausted the next entry of `decisions` says whether to
/// square the budget (saturating at the `usize` ceiling) and go on. A
/// `false` entry — or running out of entries — abandons the build, yielding
/// the truncated container of signature and header chunk alone, flagged
/// `false`; that happens only after every consulted budget was searched in
/// full without success. On success the completed container (signature,
/// header, one data chunk embedding the payload, terminator) comes back
/// flagged `true`.
pub fn build_png_with(payload: &[u8], width: u32, height: u32, decisions: &[bool]) -> (r: (
    Vec<u8>,
    bool,
))
    ensures
        !r.1 ==> r.0@ == png_prologue(width, height),
        !r.1 ==> exists|m: int| #[trigger] exhaustion_prefix(payload@, decisions@, m),
        r.1 ==> exists|inner: Seq<u8>|
            r.0@ == full_png_bytes(width, height, inner) && inner.len() <= u32::MAX
                && #[trigger] embeds_payload(inner, payload@),
        r.1 ==> contains_subrange(r.0@, payload@),
{
    let image = initialize_png(width, height);
    let mut budget: usize = 5;
    let mut k: usize = 0;
    loop
        invariant
            image@ == png_prologue(width, height),
            k <= decisions@.len(),
            budget == capped_budget_seq(k as nat),
            forall|t: int| 0 <= t < k ==> decisions@[t],
            forall|t: int|
                0 <= t < k ==> #[trigger] budget_exhausted(payload@, capped_budget_seq(t as nat)),
        decreases decisions@.len() - k,
    {
        match find_valid_idat_chunk(payload, budget) {
            Some(idat_chunk) => {
                let full = assemble_png(width, height, idat_chunk.as_slice());
                proof {
                    let (inner, pad): (Seq<u8>, nat) = choose|inner: Seq<u8>, pad: nat|
                        idat_chunk@ == chunk_bytes(idat_tag(), inner) && inner.len() <= u32::MAX
                            && #[trigger] is_embedding(inner, payload@, pad);
                    assert(full@ == full_png_bytes(width, height, inner));
                    assert(embeds_payload(inner, payload@));
                    lemma_completed_png_carries_payload(width, height, inner, payload@);
                }
                return (full, true);
            },
            None => {
                proof {
                    assert(budget_exhausted(payload@, capped_budget_seq(k as nat)));
                }
                if k == decisions.len() {
                    proof {
                        assert(exhaustion_prefix(payload@, decisions@, k as int));
                    }
                    return (image, false);
                }
                if !decisions[k] {
                    proof {
                        assert(exhaustion_prefix(payload@, decisions@, k as int));
                    }
                    return (image, false);
                }
                let next_budget = match budget.checked_mul(budget) {
                    Some(b) => b,
                    None => usize::MAX,
                };
                proof {
                    lemma_capped_budget_step(k as nat, budget, next_budget);
                }
                budget = next_budget;
                k = k + 1;
            },
        }
    }
}

/// The signature stands first, the header chunk is the first chunk after
/// it, and the terminator chunk — empty data field, fixed tag — stands last
/// in every completed container.
#[verifier::rlimit(60)]
pub proof fn lemma_full_png_layout(width: u32, height: u32, inner: Seq<u8>)
    requires
        inner.len() <= u32::MAX,
    ensures
        full_png_bytes(width, height, inner).len() == 57 + inner.len(),
        full_png_bytes(width, height, inner).subrange(0, 8) == png_signature(),
        parse_chunk_at(full_png_bytes(width, height, inner), 8) == Some(
            (13u32, ihdr_tag(), ihdr_data_bytes(width, height), crc32_of(
                ihdr_tag() + ihdr_data_bytes(width, height),
            )),
        ),
        parse_chunk_at(full_png_bytes(width, height, inner), 33) == Some(
            (inner.len() as u32, idat_tag(), inner, crc32_of(idat_tag() + inner)),
        ),
        parse_chunk_at(full_png_bytes(width, height, inner), 45 + inner.len() as int) == Some(
            (0u32, iend_tag(), Seq::<u8>::empty(), crc32_of(iend_tag() + Seq::<u8>::empty())),
        ),
        45 + inner.len() + 12 == full_png_bytes(width, height, inner).len(),
{
    let s = full_png_bytes(width, height, inner);
    let c1 = chunk_bytes(ihdr_tag(), ihdr_data_bytes(width, height));
    let c2 = chunk_bytes(idat_tag(), inner);
    let c3 = chunk_bytes(iend_tag(), Seq::<u8>::empty());
    assert(ihdr_data_bytes(width, height).len() == 13);
    assert(c1.len() == 25);
    assert(c2.len() == 12 + inner.len());
    assert(c3.len() == 12);
    assert(s.len() == 57 + inner.len());
    lemma_chunk_round_trip(ihdr_tag(), ihdr_data_bytes(width, height));
    lemma_chunk_round_trip(idat_tag(), inner);
    lemma_chunk_round_trip(iend_tag(), Seq::<u8>::empty());
    assert(s.subrange(0, 8) =~= png_signature());
    assert(s.subrange(8, 33) =~= c1);
    assert(s.subrange(33, 45 + inner.len() as int) =~= c2);
    assert(s.subrange(45 + inner.len() as int, 57 + inner.len() as int) =~= c3);
    lemma_parse_chunk_in_context(s, 8, c1);
    lemma_parse_chunk_in_context(s, 33, c2);
    lemma_parse_chunk_in_context(s, 45 + inner.len() as int, c3);
}

/// The point of the whole construction: a completed container built around
/// an embedding data field carries the payload verbatim and contiguous
/// among its raw file bytes.
pub proof fn lemma_completed_png_carries_payload(
    width: u32,
    height: u32,
    inner: Seq<u8>,
    payload: Seq<u8>,
)
    requires
        embeds_payload(inner, payload),
    ensures
        contains_subrange(full_png_bytes(width, height, inner), payload),
{
    let s = full_png_bytes(width, height, inner);
    let pad = choose|pad: nat| is_embedding(inner, payload, pad);
    let framed = choose|framed: Seq<u8>|
        #[trigger] is_framed_input(framed, payload, pad) && inner == deflate_of(framed)
            && contains_subrange(inner, payload);
    let i = choose|i: int|
        0 <= i && i + payload.len() <= inner.len() && #[trigger] inner.subrange(
            i,
            i + payload.len(),
        ) == payload;
    // the data field stands at offset 41 of the container: 8 signature
    // bytes, a 25-byte header chunk, then the data chunk's own length and
    // tag fields
    assert(s.subrange(41 + i, 41 + i + payload.len()) =~= inner.subrange(i, i + payload.len()));
}

/// Parsing at a position where a whole chunk's bytes stand yields the same
/// tuple as parsing that chunk alone.
proof fn lemma_parse_chunk_in_context(s: Seq<u8>, at: int, c: Seq<u8>)
    requires
        0 <= at,
        at + c.len() <= s.len(),
        s.subrange(at, at + c.len()) == c,
        parse_chunk_at(c, 0) is Some,
        c.len() == 12 + parse_chunk_at(c, 0)->Some_0.2.len(),
    ensures
        parse_chunk_at(s, at) == parse_chunk_at(c, 0),
{
    let dlen = parse_chunk_at(c, 0)->Some_0.2.len() as int;
    assert(s.subrange(at, at + 4) =~= c.subrange(0, 4));
    assert(s.subrange(at + 4, at + 8) =~= c.subrange(4, 8));
    assert(s.subrange(at + 8, at + 8 + dlen) =~= c.subrange(8, 8 + dlen));
    assert(s.subrange(at + 8 + dlen, at + 12 + dlen) =~= c.subrange(8 + dlen, 12 + dlen));
}

} // verus!
