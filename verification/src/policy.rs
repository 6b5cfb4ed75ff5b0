//! The operator's continuation decision: a search that exhausted its budget
//! goes on unless the operator's response, once surrounding whitespace is
//! ignored, is a single case-insensitive `n`.

use vstd::prelude::*;

use vstd::string::StrSliceExecFns;

verus! {

/// Unicode whitespace, as `str::trim` removes it from both ends of a
/// console response: the characters with the White_Space property.
pub open spec fn is_trim_whitespace(c: char) -> bool {
    let u = c as u32;
    u == 0x09 || u == 0x0A || u == 0x0B || u == 0x0C || u == 0x0D || u == 0x20 || u == 0x85 || u
        == 0xA0 || u == 0x1680 || (0x2000 <= u && u <= 0x200A) || u == 0x2028 || u == 0x2029 || u
        == 0x202F || u == 0x205F || u == 0x3000
}

/// The response declines continuation: exactly one character is not
/// whitespace, and that character is `n` or `N`.
pub open spec fn declines(s: Seq<char>) -> bool {
    exists|i: int|
        0 <= i < s.len() && (#[trigger] s[i] == 'n' || s[i] == 'N') && (forall|j: int|
            0 <= j < s.len() && j != i ==> is_trim_whitespace(s[j]))
}

/// Whether one character is whitespace in the sense of `str::trim`.
fn is_whitespace_char(c: char) -> (r: bool)
    ensures
        r == is_trim_whitespace(c),
{
    let u = c as u32;
    u == 0x09 || u == 0x0A || u == 0x0B || u == 0x0C || u == 0x0D || u == 0x20 || u == 0x85 || u
        == 0xA0 || u == 0x1680 || (0x2000 <= u && u <= 0x200A) || u == 0x2028 || u == 0x2029 || u
        == 0x202F || u == 0x205F || u == 0x3000
}

/// The position of the first character of `s` at or after `from` that is
/// not whitespace, or the character length of `s` if whitespace runs to the
/// end.
fn first_non_whitespace(s: &str, from: usize) -> (r: usize)
    requires
        from <= s@.len(),
    ensures
        from <= r <= s@.len(),
        forall|k: int| from <= k < r ==> is_trim_whitespace(#[trigger] s@[k]),
        r < s@.len() ==> !is_trim_whitespace(s@[r as int]),
{
    let n = s.unicode_len();
    let mut i = from;
    while i < n
        invariant
            n == s@.len(),
            from <= i <= n,
            forall|k: int| from <= k < i ==> is_trim_whitespace(#[trigger] s@[k]),
        decreases n - i,
    {
        if !is_whitespace_char(s.get_char(i)) {
            return i;
        }
        i += 1;
    }
    i
}

/// Decides whether the search should go on after a budget was exhausted:
/// every response continues it except a lone `n` or `N` amid whitespace.
pub fn should_continue(response: &str) -> (r: bool)
    ensures
        r == !declines(response@),
{
    let n = response.unicode_len();
    let i = first_non_whitespace(response, 0);
    if i == n {
        return true;
    }
    let c = response.get_char(i);
    if c != 'n' && c != 'N' {
        proof {
            if declines(response@) {
                let w = choose|w: int|
                    0 <= w < response@.len() && (#[trigger] response@[w] == 'n' || response@[w]
                        == 'N') && (forall|j: int|
                        0 <= j < response@.len() && j != w ==> is_trim_whitespace(response@[j]));
                // the witness cannot be position i, whose character is
                // neither `n` nor `N`, nor any other position, since
                // position i is not whitespace
                assert(w != i);
                assert(is_trim_whitespace(response@[i as int]));
                assert(false);
            }
        }
        return true;
    }
    let j = first_non_whitespace(response, i + 1);
    if j < n {
        proof {
            if declines(response@) {
                let w = choose|w: int|
                    0 <= w < response@.len() && (#[trigger] response@[w] == 'n' || response@[w]
                        == 'N') && (forall|j: int|
                        0 <= j < response@.len() && j != w ==> is_trim_whitespace(response@[j]));
                // positions i and j both hold non-whitespace characters,
                // yet all positions other than the witness must hold
                // whitespace
                assert(w == i || is_trim_whitespace(response@[i as int]));
                assert(w == j || is_trim_whitespace(response@[j as int]));
                assert(false);
            }
        }
        return true;
    }
    proof {
        assert(0 <= i < response@.len() && (response@[i as int] == 'n' || response@[i as int]
            == 'N') && (forall|k: int|
            0 <= k < response@.len() && k != i ==> is_trim_whitespace(response@[k])));
        assert(declines(response@));
    }
    false
}

} // verus!
