//! The verbatim embedding search: draw random padding around the payload,
//! compress the framed input, and keep the compressed bytes once they carry
//! the payload as a contiguous literal run.

use vstd::prelude::*;

use crate::bytes::{append_slice, contains_subrange, contains_subslice};
use crate::chunk::{chunk_bytes, create_data_chunk, idat_tag};

use rand::RngExt;
use std::io::Write;

verus! {

/// The bytes that `flate2`'s deflate encoder emits for an input at maximum
/// compression effort: a function of the input bytes alone.
pub uninterp spec fn deflate_of(s: Seq<u8>) -> Seq<u8>;

/// Relies on `flate2::write::DeflateEncoder` at `Compression::best`: its
/// output is determined by the input bytes alone, and writing into an
/// in-memory vector cannot fail.
#[verifier::external_body]
fn deflate_best(data: &[u8]) -> (r: Vec<u8>)
    ensures
        r@ == deflate_of(data@),
{
    let mut encoder = flate2::write::DeflateEncoder::new(Vec::new(), flate2::Compression::best());
    encoder.write_all(data).unwrap();
    encoder.finish().unwrap()
}

/// Relies on `rand::rng` and `rand::RngExt::fill`: fills a buffer of length
/// `n` with bytes drawn independently and uniformly at random. Nothing holds
/// of the values beyond the length.
#[verifier::external_body]
fn random_bytes(n: usize) -> (r: Vec<u8>)
    ensures
        r@.len() == n,
{
    let mut buf = vec![0u8; n];
    rand::rng().fill(&mut buf[..]);
    buf
}

/// `framed` is the payload with `pad` bytes of filler on each side.
pub open spec fn is_framed_input(framed: Seq<u8>, payload: Seq<u8>, pad: nat) -> bool {
    framed.len() == payload.len() + 2 * pad && framed.subrange(
        pad as int,
        (pad + payload.len()) as int,
    ) == payload
}

/// `inner` is a compressor output for the payload framed by `pad` filler
/// bytes a side, and it carries the payload verbatim.
pub open spec fn is_embedding(inner: Seq<u8>, payload: Seq<u8>, pad: nat) -> bool {
    exists|framed: Seq<u8>|
        #[trigger] is_framed_input(framed, payload, pad) && inner == deflate_of(framed)
            && contains_subrange(inner, payload)
}

/// `inner` is a compressor output for the payload framed by some amount of
/// filler, and it carries the payload verbatim.
pub open spec fn embeds_payload(inner: Seq<u8>, payload: Seq<u8>) -> bool {
    exists|pad: nat| is_embedding(inner, payload, pad)
}

/// The attempt on this framed input failed: its compressor output is either
/// too long for a chunk's length field or does not carry the payload
/// verbatim.
pub open spec fn attempt_failed(framed: Seq<u8>, payload: Seq<u8>) -> bool {
    deflate_of(framed).len() > u32::MAX || !contains_subrange(deflate_of(framed), payload)
}

/// Attempts 1 through `trials.len()` all failed: the i-th entry is a framed
/// input with i filler bytes a side whose compressor output lacks the
/// payload (or overflows a chunk).
pub open spec fn search_exhausted(trials: Seq<Seq<u8>>, payload: Seq<u8>) -> bool {
    forall|i: int|
        0 <= i < trials.len() ==> is_framed_input(#[trigger] trials[i], payload, (i + 1) as nat)
            && attempt_failed(trials[i], payload)
}

/// A whole search budget was exhausted: for every attempt index up to
/// `budget` there is a framed input of the right shape whose compressor
/// output failed the containment test.
pub open spec fn budget_exhausted(payload: Seq<u8>, budget: nat) -> bool {
    exists|trials: Seq<Seq<u8>>| trials.len() == budget && #[trigger] search_exhausted(
        trials,
        payload,
    )
}

/// `s` is a data chunk whose data field is a compressed block that carries
/// the payload verbatim.
pub open spec fn is_embedded_idat_chunk(s: Seq<u8>, payload: Seq<u8>) -> bool {
    exists|inner: Seq<u8>, pad: nat|
        s == chunk_bytes(idat_tag(), inner) && inner.len() <= u32::MAX && #[trigger] is_embedding(
            inner,
            payload,
            pad,
        )
}

/// One embedding attempt: frame the payload with `attempt` fresh random
/// bytes on each side, compress at maximum effort, and wrap the compressed
/// bytes in a data chunk if they contain the payload verbatim. Whether an
/// attempt succeeds rests with the compressor; every success is a chunk
/// that embeds the payload, and every failure leaves behind a framed input
/// of the right shape whose compressor output genuinely failed the test.
pub fn create_idat_chunk(payload: &[u8], attempt: usize) -> (r: Option<Vec<u8>>)
    ensures
        r matches Some(c) ==> is_embedded_idat_chunk(c@, payload@),
        r matches Some(c) ==> exists|inner: Seq<u8>|
            c@ == chunk_bytes(idat_tag(), inner) && inner.len() <= u32::MAX
                && #[trigger] is_embedding(inner, payload@, attempt as nat),
        exists|framed: Seq<u8>|
            #[trigger] is_framed_input(framed, payload@, attempt as nat) && (r is None
                ==> attempt_failed(framed, payload@)),
{
    let lbytes = random_bytes(attempt);
    let rbytes = random_bytes(attempt);

    let mut idat_data: Vec<u8> = Vec::new();
    append_slice(&mut idat_data, lbytes.as_slice());
    append_slice(&mut idat_data, payload);
    append_slice(&mut idat_data, rbytes.as_slice());

    let compressed = deflate_best(idat_data.as_slice());
    proof {
        assert(idat_data@.subrange(attempt as int, attempt + payload@.len()) =~= payload@);
        assert(is_framed_input(idat_data@, payload@, attempt as nat));
    }
    if compressed.len() > 0xffff_ffff_usize {
        assert(attempt_failed(idat_data@, payload@));
        return None;
    }
    if contains_subslice(compressed.as_slice(), payload) {
        let chunk = create_data_chunk(compressed.as_slice());
        proof {
            assert(is_embedding(compressed@, payload@, attempt as nat));
            assert(is_embedded_idat_chunk(chunk@, payload@));
        }
        Some(chunk)
    } else {
        assert(attempt_failed(idat_data@, payload@));
        None
    }
}

/// Runs embedding attempts 1 through `max_attempts`, each with padding as
/// long as its attempt index, and returns the first chunk whose compressed
/// data carries the payload verbatim; `None` only once every attempt of the
/// budget was made and failed.
pub fn find_valid_idat_chunk(payload: &[u8], max_attempts: usize) -> (r: Option<Vec<u8>>)
    ensures
        r matches Some(c) ==> is_embedded_idat_chunk(c@, payload@),
        r matches Some(c) ==> exists|inner: Seq<u8>, pad: nat|
            1 <= pad <= max_attempts && c@ == chunk_bytes(idat_tag(), inner) && inner.len()
                <= u32::MAX && #[trigger] is_embedding(inner, payload@, pad),
        r is None ==> budget_exhausted(payload@, max_attempts as nat),
{
    let ghost mut trials: Seq<Seq<u8>> = Seq::empty();
    let mut done: usize = 0;
    while done < max_attempts
        invariant
            done <= max_attempts,
            trials.len() == done,
            search_exhausted(trials, payload@),
        decreases max_attempts - done,
    {
        done = done + 1;
        let outcome = create_idat_chunk(payload, done);
        if let Some(chunk) = outcome {
            return Some(chunk);
        }
        proof {
            let framed = choose|framed: Seq<u8>|
                #[trigger] is_framed_input(framed, payload@, done as nat) && (outcome is None
                    ==> attempt_failed(framed, payload@));
            trials = trials.push(framed);
            assert(search_exhausted(trials, payload@));
        }
    }
    proof {
        assert(budget_exhausted(payload@, max_attempts as nat));
    }
    None
}

} // verus!
