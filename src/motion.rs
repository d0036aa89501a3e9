//! Character motions: the n-th occurrence of a character after or before a
//! position of a text, given as a sequence of characters.
use vstd::prelude::*;

use crate::to_int;

verus! {

/// The first index `j >= from` at which `text` holds `ch`.
pub open spec fn first_from(text: Seq<char>, ch: char, from: int) -> Option<int>
    decreases text.len() - from,
{
    if from < 0 || from >= text.len() {
        None
    } else if text[from] == ch {
        Some(from)
    } else {
        first_from(text, ch, from + 1)
    }
}

/// The last index `j < before` at which `text` holds `ch`.
pub open spec fn last_before(text: Seq<char>, ch: char, before: int) -> Option<int>
    decreases before,
{
    if before <= 0 || before > text.len() {
        None
    } else if text[before - 1] == ch {
        Some(before - 1)
    } else {
        last_before(text, ch, before - 1)
    }
}

/// The index of the n-th occurrence of `ch` strictly after `pos` (`pos` itself
/// when `n` is zero).
pub open spec fn nth_after(text: Seq<char>, ch: char, pos: int, n: nat) -> Option<int>
    decreases n,
{
    if n == 0 {
        Some(pos)
    } else {
        match nth_after(text, ch, pos, (n - 1) as nat) {
            Some(q) => first_from(text, ch, q + 1),
            None => None,
        }
    }
}

/// The index of the n-th occurrence of `ch` strictly before `pos` (`pos`
/// itself when `n` is zero).
pub open spec fn nth_before(text: Seq<char>, ch: char, pos: int, n: nat) -> Option<int>
    decreases n,
{
    if n == 0 {
        Some(pos)
    } else {
        match nth_before(text, ch, pos, (n - 1) as nat) {
            Some(q) => last_before(text, ch, q),
            None => None,
        }
    }
}

/// What `find_nth_next` returns.
pub open spec fn spec_find_nth_next(
    text: Seq<char>,
    ch: char,
    pos: int,
    n: nat,
    inclusive: bool,
) -> Option<int> {
    if pos < 0 || pos >= text.len() {
        None
    } else if n == 0 {
        Some(pos)
    } else {
        match nth_after(text, ch, pos, n) {
            Some(q) => Some(if inclusive { q } else { q - 1 }),
            None => None,
        }
    }
}

/// What `find_nth_prev` returns.
pub open spec fn spec_find_nth_prev(
    text: Seq<char>,
    ch: char,
    pos: int,
    n: nat,
    inclusive: bool,
) -> Option<int> {
    if n == 0 {
        Some(pos)
    } else {
        match nth_before(text, ch, pos, n) {
            Some(q) => Some(if inclusive { q } else { q + 1 }),
            None => None,
        }
    }
}

proof fn lemma_nth_after_none(text: Seq<char>, ch: char, pos: int, k: nat, m: nat)
    requires
        k <= m,
        nth_after(text, ch, pos, k) is None,
    ensures
        nth_after(text, ch, pos, m) is None,
    decreases m - k,
{
    if k < m {
        lemma_nth_after_none(text, ch, pos, k, (m - 1) as nat);
    }
}

proof fn lemma_nth_before_none(text: Seq<char>, ch: char, pos: int, k: nat, m: nat)
    requires
        k <= m,
        nth_before(text, ch, pos, k) is None,
    ensures
        nth_before(text, ch, pos, m) is None,
    decreases m - k,
{
    if k < m {
        lemma_nth_before_none(text, ch, pos, k, (m - 1) as nat);
    }
}

/// The index of the `n`-th occurrence of `ch` after `pos` in `text`, or the
/// index just before it when `inclusive` is false; `pos` itself when `n` is
/// zero. Absent when `pos` is not an index of `text` or when fewer than `n`
/// occurrences follow `pos`.
pub fn find_nth_next(text: &[char], ch: char, pos: usize, n: usize, inclusive: bool) -> (r: Option<
    usize,
>)
    ensures
        to_int(r) == spec_find_nth_next(text@, ch, pos as int, n as nat, inclusive),
{
    if pos >= text.len() {
        return None;
    }
    if n == 0 {
        return Some(pos);
    }
    let mut p: usize = pos;
    let mut k: usize = 0;
    while k < n
        invariant
            0 <= k <= n,
            pos <= p < text.len(),
            k > 0 ==> pos < p,
            nth_after(text@, ch, pos as int, k as nat) == Some(p as int),
        decreases n - k,
    {
        let mut j: usize = p + 1;
        while j < text.len() && text[j] != ch
            invariant
                p < j <= text.len(),
                first_from(text@, ch, (p + 1) as int) == first_from(text@, ch, j as int),
            decreases text.len() - j,
        {
            j = j + 1;
        }
        if j == text.len() {
            proof {
                lemma_nth_after_none(text@, ch, pos as int, (k + 1) as nat, n as nat);
            }
            return None;
        }
        p = j;
        k = k + 1;
    }
    if inclusive {
        Some(p)
    } else {
        Some(p - 1)
    }
}

/// The index of the `n`-th occurrence of `ch` before `pos` in `text`, or the
/// index just after it when `inclusive` is false; `pos` itself when `n` is
/// zero. Absent when fewer than `n` occurrences precede `pos`.
pub fn find_nth_prev(text: &[char], ch: char, pos: usize, n: usize, inclusive: bool) -> (r: Option<
    usize,
>)
    requires
        pos <= text.len(),
    ensures
        to_int(r) == spec_find_nth_prev(text@, ch, pos as int, n as nat, inclusive),
{
    if n == 0 {
        return Some(pos);
    }
    let mut p: usize = pos;
    let mut k: usize = 0;
    while k < n
        invariant
            0 <= k <= n,
            p <= pos <= text.len(),
            k > 0 ==> p < pos,
            nth_before(text@, ch, pos as int, k as nat) == Some(p as int),
        decreases n - k,
    {
        let mut j: usize = p;
        while j > 0 && text[j - 1] != ch
            invariant
                j <= p <= pos <= text.len(),
                last_before(text@, ch, p as int) == last_before(text@, ch, j as int),
            decreases j,
        {
            j = j - 1;
        }
        if j == 0 {
            proof {
                lemma_nth_before_none(text@, ch, pos as int, (k + 1) as nat, n as nat);
            }
            return None;
        }
        p = j - 1;
        k = k + 1;
    }
    if inclusive {
        Some(p)
    } else {
        Some(p + 1)
    }
}

/// Zero repetitions leave the position where it is, in both directions, for
/// any valid position: an index of the text forward, an index or the end of
/// the text backward.
pub proof fn lemma_zero_steps_identity(text: Seq<char>, ch: char, pos: int, inclusive: bool)
    requires
        0 <= pos <= text.len(),
    ensures
        pos < text.len() ==> spec_find_nth_next(text, ch, pos, 0, inclusive) == Some(pos),
        spec_find_nth_prev(text, ch, pos, 0, inclusive) == Some(pos),
{
}

/// Forward, the inclusive index is one past the exclusive one whenever both
/// exist and at least one occurrence is sought.
pub proof fn lemma_next_inclusive_one_further(text: Seq<char>, ch: char, pos: int, n: nat)
    requires
        n > 0,
        spec_find_nth_next(text, ch, pos, n, true) is Some,
        spec_find_nth_next(text, ch, pos, n, false) is Some,
    ensures
        spec_find_nth_next(text, ch, pos, n, true)->0 == spec_find_nth_next(
            text,
            ch,
            pos,
            n,
            false,
        )->0 + 1,
{
}

/// Backward, the exclusive index is one past the inclusive one whenever both
/// exist and at least one occurrence is sought.
pub proof fn lemma_prev_exclusive_one_further(text: Seq<char>, ch: char, pos: int, n: nat)
    requires
        n > 0,
        spec_find_nth_prev(text, ch, pos, n, true) is Some,
        spec_find_nth_prev(text, ch, pos, n, false) is Some,
    ensures
        spec_find_nth_prev(text, ch, pos, n, false)->0 == spec_find_nth_prev(
            text,
            ch,
            pos,
            n,
            true,
        )->0 + 1,
{
}

} // verus!
