//! Deterministic automata over bytes, and the two scans that drive them: one
//! reads a range of bytes front to back, the other back to front.
//!
//! An automaton is regex-automata's dense DFA. What the scans need of it is
//! modelled here by four names: its start state, its set of states, its set
//! of match states and its transition table. What the compiler builds from a
//! pattern and options is named likewise, as functions of those arguments.
//! The dead state is state 0, from which a scan stops.
use vstd::prelude::*;

use regex_automata::{dense, DenseDFA, DFA};

use crate::to_int;

verus! {

/// A compiled automaton: regex-automata's dense DFA, with `usize` state
/// identifiers. Verus sees it only through the names below.
#[verifier::external_body]
pub struct Automaton {
    dfa: DenseDFA<Vec<usize>, usize>,
}

/// The state in which every search with the automaton begins.
pub uninterp spec fn dfa_start(d: Automaton) -> usize;

/// The identifiers that denote states of the automaton.
pub uninterp spec fn dfa_states(d: Automaton) -> Set<usize>;

/// The states of the automaton that are match states.
pub uninterp spec fn dfa_match_states(d: Automaton) -> Set<usize>;

/// The transition table: the state reached from a state on a byte.
pub uninterp spec fn dfa_transitions(d: Automaton) -> Map<(usize, u8), usize>;

/// Relies on `DFA::start_state` of regex-automata's `DenseDFA`: the stored
/// start state, which is a state of the automaton.
#[verifier::external_body]
fn start_state(d: &Automaton) -> (r: usize)
    ensures
        r == dfa_start(*d),
        dfa_states(*d).contains(r),
{
    d.dfa.start_state()
}

/// Relies on `DFA::is_dead_state` of regex-automata's `DenseDFA`: a state is
/// dead exactly when it is the identifier 0 (`dead_id`).
#[verifier::external_body]
fn is_dead_state(d: &Automaton, s: usize) -> (r: bool)
    ensures
        r == (s == 0),
{
    d.dfa.is_dead_state(s)
}

/// Relies on `DFA::is_match_state` of regex-automata's `DenseDFA`: whether the
/// state is one of the automaton's match states.
#[verifier::external_body]
fn is_match_state(d: &Automaton, s: usize) -> (r: bool)
    ensures
        r == dfa_match_states(*d).contains(s),
{
    d.dfa.is_match_state(s)
}

/// Relies on `DFA::next_state` of regex-automata's `DenseDFA`: the entry of
/// the transition table for a state and a byte, itself a state. It indexes the
/// table, so the state must be one of the automaton's.
#[verifier::external_body]
fn next_state(d: &Automaton, s: usize, b: u8) -> (r: usize)
    requires
        dfa_states(*d).contains(s),
    ensures
        r == dfa_transitions(*d)[(s, b)],
        dfa_states(*d).contains(r),
{
    d.dfa.next_state(s, b)
}

/// The start state, or `None` when it is dead.
pub open spec fn live_start(d: Automaton) -> Option<usize> {
    if dfa_start(d) == 0 {
        None
    } else {
        Some(dfa_start(d))
    }
}

/// One step of a scan: `None` once the dead state has been reached.
pub open spec fn live_step(d: Automaton, q: Option<usize>, b: u8) -> Option<
    usize,
> {
    match q {
        Some(p) => {
            let t = dfa_transitions(d)[(p, b)];
            if t == 0 {
                None
            } else {
                Some(t)
            }
        },
        None => None,
    }
}

/// The state after reading the first `k` bytes of `s` in order, or `None` if
/// the scan has met the dead state.
pub open spec fn run_forward(d: Automaton, s: Seq<u8>, k: int) -> Option<usize>
    decreases k,
{
    if k <= 0 {
        live_start(d)
    } else {
        live_step(d, run_forward(d, s, k - 1), s[k - 1])
    }
}

/// The state after reading the bytes of `s` from its last down to index `j`,
/// or `None` if the scan has met the dead state.
pub open spec fn run_backward(d: Automaton, s: Seq<u8>, j: int) -> Option<usize>
    decreases s.len() - j,
{
    if j >= s.len() {
        live_start(d)
    } else {
        live_step(d, run_backward(d, s, j + 1), s[j])
    }
}

/// Whether a scan stands in a match state.
pub open spec fn accepting(d: Automaton, q: Option<usize>) -> bool {
    match q {
        Some(p) => dfa_match_states(d).contains(p),
        None => false,
    }
}

/// The largest `j <= k` such that the forward scan stands in a match state
/// after `j` bytes.
pub open spec fn last_forward_accept(d: Automaton, s: Seq<u8>, k: int) -> Option<
    int,
>
    decreases k + 1,
{
    if k < 0 {
        None
    } else if accepting(d, run_forward(d, s, k)) {
        Some(k)
    } else {
        last_forward_accept(d, s, k - 1)
    }
}

/// The smallest `i >= j` such that the backward scan stands in a match state
/// once it has read down to index `i`.
pub open spec fn first_backward_accept(d: Automaton, s: Seq<u8>, j: int) -> Option<
    int,
>
    decreases s.len() + 1 - j,
{
    if j > s.len() {
        None
    } else if accepting(d, run_backward(d, s, j)) {
        Some(j)
    } else {
        first_backward_accept(d, s, j + 1)
    }
}

/// What `find` returns on the bytes `s`: the farthest boundary at which the
/// forward scan matches before it dies.
pub open spec fn spec_find(d: Automaton, s: Seq<u8>) -> Option<int> {
    last_forward_accept(d, s, s.len() as int)
}

/// What `rfind` returns on the bytes `s`: the boundary nearest the front at
/// which the backward scan matches before it dies.
pub open spec fn spec_rfind(d: Automaton, s: Seq<u8>) -> Option<int> {
    first_backward_accept(d, s, 0)
}

/// A boundary found by the forward scan lies within the bytes read, and the
/// scan stood in a match state there.
pub proof fn lemma_forward_accept_bounds(d: Automaton, s: Seq<u8>, k: int)
    ensures
        last_forward_accept(d, s, k) matches Some(j) ==> 0 <= j <= k && accepting(
            d,
            run_forward(d, s, j),
        ),
    decreases k + 1,
{
    if k >= 0 && !accepting(d, run_forward(d, s, k)) {
        lemma_forward_accept_bounds(d, s, k - 1);
    }
}

/// A boundary found by the backward scan lies within the bytes, and the scan
/// stood in a match state there.
pub proof fn lemma_backward_accept_bounds(d: Automaton, s: Seq<u8>, j: int)
    ensures
        first_backward_accept(d, s, j) matches Some(i) ==> j <= i <= s.len() && accepting(
            d,
            run_backward(d, s, i),
        ),
    decreases s.len() + 1 - j,
{
    if j <= s.len() && !accepting(d, run_backward(d, s, j)) {
        lemma_backward_accept_bounds(d, s, j + 1);
    }
}

proof fn lemma_forward_dead(d: Automaton, s: Seq<u8>, j: int, k: int)
    requires
        0 <= j <= k,
        run_forward(d, s, j) is None,
    ensures
        run_forward(d, s, k) is None,
        last_forward_accept(d, s, k) == last_forward_accept(d, s, j - 1),
    decreases k - j,
{
    if j < k {
        lemma_forward_dead(d, s, j, k - 1);
    }
}

proof fn lemma_backward_dead(d: Automaton, s: Seq<u8>, k: int, j: int)
    requires
        k <= j <= s.len(),
        run_backward(d, s, j) is None,
    ensures
        run_backward(d, s, k) is None,
        first_backward_accept(d, s, k) == first_backward_accept(d, s, j + 1),
    decreases j - k,
{
    if k < j {
        lemma_backward_dead(d, s, k + 1, j);
    }
}

/// Scans `bytes[lo..hi]` front to back and returns, relative to `lo`, the
/// last boundary at which the automaton stood in a match state; the scan stops
/// at the dead state, from which no match can follow.
pub fn find(d: &Automaton, bytes: &[u8], lo: usize, hi: usize) -> (r: Option<usize>)
    requires
        lo <= hi <= bytes.len(),
    ensures
        to_int(r) == spec_find(*d, bytes@.subrange(lo as int, hi as int)),
{
    let ghost s = bytes@.subrange(lo as int, hi as int);
    let mut state = start_state(d);
    if is_dead_state(d, state) {
        proof {
            lemma_forward_dead(*d, s, 0, s.len() as int);
        }
        return None;
    }
    let mut last: Option<usize> = if is_match_state(d, state) {
        Some(0)
    } else {
        None
    };
    assert(run_forward(*d, s, 0) == live_start(*d));
    assert(last_forward_accept(*d, s, -1) is None);
    let mut i: usize = lo;
    while i < hi
        invariant
            lo <= i <= hi <= bytes.len(),
            s == bytes@.subrange(lo as int, hi as int),
            dfa_states(*d).contains(state),
            run_forward(*d, s, i - lo) == Some(state),
            to_int(last) == last_forward_accept(*d, s, i - lo),
        decreases hi - i,
    {
        assert(s[i - lo] == bytes@[i as int]);
        state = next_state(d, state, bytes[i]);
        i = i + 1;
        if is_dead_state(d, state) {
            proof {
                lemma_forward_dead(*d, s, i - lo, s.len() as int);
            }
            return last;
        }
        if is_match_state(d, state) {
            last = Some(i - lo);
        }
    }
    last
}

/// Scans `bytes[lo..hi]` back to front and returns, relative to `lo`, the
/// last boundary reached at which the automaton stood in a match state: the
/// index of the byte just read, or `hi - lo` if the start state matches. The
/// scan stops at the dead state.
pub fn rfind(d: &Automaton, bytes: &[u8], lo: usize, hi: usize) -> (r: Option<usize>)
    requires
        lo <= hi <= bytes.len(),
    ensures
        to_int(r) == spec_rfind(*d, bytes@.subrange(lo as int, hi as int)),
{
    let ghost s = bytes@.subrange(lo as int, hi as int);
    let mut state = start_state(d);
    if is_dead_state(d, state) {
        proof {
            lemma_backward_dead(*d, s, 0, s.len() as int);
        }
        return None;
    }
    let mut last: Option<usize> = if is_match_state(d, state) {
        Some(hi - lo)
    } else {
        None
    };
    assert(s.len() == hi - lo);
    assert(run_backward(*d, s, s.len() as int) == live_start(*d));
    assert(first_backward_accept(*d, s, s.len() + 1int) is None);
    let mut i: usize = hi;
    while i > lo
        invariant
            lo <= i <= hi <= bytes.len(),
            s == bytes@.subrange(lo as int, hi as int),
            dfa_states(*d).contains(state),
            run_backward(*d, s, i - lo) == Some(state),
            to_int(last) == first_backward_accept(*d, s, i - lo),
        decreases i - lo,
    {
        i = i - 1;
        assert(s[i - lo] == bytes@[i as int]);
        state = next_state(d, state, bytes[i]);
        if is_dead_state(d, state) {
            proof {
                lemma_backward_dead(*d, s, 0, i - lo);
            }
            return last;
        }
        if is_match_state(d, state) {
            last = Some(i - lo);
        }
    }
    last
}

#[verifier::external_type_specification]
#[verifier::external_body]
pub struct ExRegexError(regex_automata::Error);

/// Whether compiling the pattern with the options (case insensitive,
/// anchored, longest match, reversed) succeeds.
pub uninterp spec fn compiles(
    pattern: Seq<char>,
    case_insensitive: bool,
    anchored: bool,
    longest_match: bool,
    reverse: bool,
) -> bool;

/// The start state of the automaton compiled from the pattern with the
/// options.
pub uninterp spec fn compiled_start(
    pattern: Seq<char>,
    case_insensitive: bool,
    anchored: bool,
    longest_match: bool,
    reverse: bool,
) -> usize;

/// The states of the automaton compiled from the pattern with the options.
pub uninterp spec fn compiled_states(
    pattern: Seq<char>,
    case_insensitive: bool,
    anchored: bool,
    longest_match: bool,
    reverse: bool,
) -> Set<usize>;

/// The match states of the automaton compiled from the pattern with the
/// options.
pub uninterp spec fn compiled_match_states(
    pattern: Seq<char>,
    case_insensitive: bool,
    anchored: bool,
    longest_match: bool,
    reverse: bool,
) -> Set<usize>;

/// The transition table of the automaton compiled from the pattern with the
/// options.
pub uninterp spec fn compiled_transitions(
    pattern: Seq<char>,
    case_insensitive: bool,
    anchored: bool,
    longest_match: bool,
    reverse: bool,
) -> Map<(usize, u8), usize>;

/// Whether `a` is the automaton compiled from the pattern with the options.
pub open spec fn is_compiled(
    a: Automaton,
    pattern: Seq<char>,
    case_insensitive: bool,
    anchored: bool,
    longest_match: bool,
    reverse: bool,
) -> bool {
    &&& dfa_start(a) == compiled_start(pattern, case_insensitive, anchored, longest_match, reverse)
    &&& dfa_states(a) == compiled_states(pattern, case_insensitive, anchored, longest_match, reverse)
    &&& dfa_match_states(a) == compiled_match_states(
        pattern,
        case_insensitive,
        anchored,
        longest_match,
        reverse,
    )
    &&& dfa_transitions(a) == compiled_transitions(
        pattern,
        case_insensitive,
        anchored,
        longest_match,
        reverse,
    )
}

/// Relies on regex-automata's `dense::Builder::build`, configured with
/// `case_insensitive`, `anchored`, `longest_match` and `reverse`. Whether it
/// succeeds, and the automaton it builds, depend on the pattern and the
/// options alone: the builder is deterministic. It fails when the pattern is
/// malformed or unsupported, or the automaton too large.
#[verifier::external_body]
pub(crate) fn compile(
    pattern: &str,
    case_insensitive: bool,
    anchored: bool,
    longest_match: bool,
    reverse: bool,
) -> (r: Result<Automaton, regex_automata::Error>)
    ensures
        r is Ok <==> compiles(pattern@, case_insensitive, anchored, longest_match, reverse),
        r matches Ok(a) ==> dfa_start(a) == compiled_start(
            pattern@,
            case_insensitive,
            anchored,
            longest_match,
            reverse,
        ),
        r matches Ok(a) ==> dfa_states(a) == compiled_states(
            pattern@,
            case_insensitive,
            anchored,
            longest_match,
            reverse,
        ),
        r matches Ok(a) ==> dfa_match_states(a) == compiled_match_states(
            pattern@,
            case_insensitive,
            anchored,
            longest_match,
            reverse,
        ),
        r matches Ok(a) ==> dfa_transitions(a) == compiled_transitions(
            pattern@,
            case_insensitive,
            anchored,
            longest_match,
            reverse,
        ),
{
    let mut builder = dense::Builder::new();
    builder.case_insensitive(case_insensitive).anchored(anchored).longest_match(
        longest_match,
    ).reverse(reverse);
    match builder.build(pattern) {
        Ok(dfa) => Ok(Automaton { dfa }),
        Err(e) => Err(e),
    }
}

/// Relies on the `Display` impl of regex-automata's `Error`: a description
/// of what went wrong.
#[verifier::external_body]
pub(crate) fn error_message(e: &regex_automata::Error) -> (r: String) {
    e.to_string()
}

} // verus!
