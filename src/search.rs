//! Regular-expression search in both directions over the bytes of a text.
//!
//! A `Searcher` holds four automata compiled from one pattern. Searching
//! forward, one unanchored scan finds where the next match ends and one
//! anchored, longest-match scan of the reversed pattern, run back from that
//! end, finds where it starts. Searching backward is the mirror image.
use vstd::prelude::*;

use std::ops::Range;
use vstd::std_specs::iter::IteratorSpec;
use vstd::string::StringSliceAdditionalSpecFns;

use crate::automaton::{
    accepting, compile, compiles, error_message, find, lemma_backward_accept_bounds,
    lemma_forward_accept_bounds, is_compiled, live_start, rfind, spec_find, spec_rfind, Automaton,
};

verus! {

/// Whether a character has the Unicode `Uppercase` property.
pub uninterp spec fn upper_case(c: char) -> bool;

/// Relies on `char::is_uppercase`: whether the character has the Unicode
/// `Uppercase` property, which depends on the character alone.
#[verifier::external_body]
fn is_uppercase(c: char) -> (r: bool)
    ensures
        r == upper_case(c),
{
    c.is_uppercase()
}

/// Smart case: a pattern is matched without regard to case unless it holds an
/// uppercase letter.
pub open spec fn smart_case_insensitive(pattern: Seq<char>) -> bool {
    !exists|i: int| 0 <= i < pattern.len() && upper_case(#[trigger] pattern[i])
}

/// Why a pattern could not be compiled.
#[derive(Debug)]
pub struct CompileError {
    pub message: String,
}

/// The four automata of one pattern.
pub struct Searcher {
    /// Finds where the next match ends, searching right.
    pub right_fdfa: Automaton,
    /// Finds where that match starts, reading back from its end.
    pub right_rdfa: Automaton,
    /// Finds where the previous match starts, searching left.
    pub left_fdfa: Automaton,
    /// Finds where that match ends, reading on from its start.
    pub left_rdfa: Automaton,
}

/// A byte range as a pair of integers.
pub open spec fn range_of(r: Option<Range<usize>>) -> Option<(int, int)> {
    match r {
        Some(r) => Some((r.start as int, r.end as int)),
        None => None,
    }
}

/// The bytes of a text.
pub open spec fn bytes_of(text: &str) -> Seq<u8> {
    text.spec_bytes()
}

impl Searcher {
    /// Whether all four automata of `pattern` can be compiled under smart case.
    pub open spec fn pattern_compiles(pattern: Seq<char>) -> bool {
        let ci = smart_case_insensitive(pattern);
        &&& compiles(pattern, ci, false, false, false)
        &&& compiles(pattern, ci, true, true, true)
        &&& compiles(pattern, ci, false, false, true)
        &&& compiles(pattern, ci, true, true, false)
    }

    /// Whether the four automata are those of `pattern` under smart case.
    pub open spec fn compiled_from(&self, pattern: Seq<char>) -> bool {
        let ci = smart_case_insensitive(pattern);
        &&& is_compiled(self.right_fdfa, pattern, ci, false, false, false)
        &&& is_compiled(self.right_rdfa, pattern, ci, true, true, true)
        &&& is_compiled(self.left_fdfa, pattern, ci, false, false, true)
        &&& is_compiled(self.left_rdfa, pattern, ci, true, true, false)
    }

    /// The first match at or after byte `offset` of `bytes`: its end is where
    /// the unanchored forward scan of `bytes[offset..]` last matched, and its
    /// start where the reversed scan back from that end last matched.
    pub open spec fn next_match(&self, bytes: Seq<u8>, offset: int) -> Option<(int, int)> {
        let domain = bytes.subrange(offset, bytes.len() as int);
        match spec_find(self.right_fdfa, domain) {
            Some(end) => match spec_rfind(self.right_rdfa, domain.subrange(0, end)) {
                Some(start) => Some((offset + start, offset + end)),
                None => None,
            },
            None => None,
        }
    }

    /// The last match before byte `offset` of `bytes`: its start is where the
    /// unanchored backward scan of `bytes[..offset]` last matched, and its end
    /// where the anchored forward scan from that start last matched.
    pub open spec fn prev_match(&self, bytes: Seq<u8>, offset: int) -> Option<(int, int)> {
        let domain = bytes.subrange(0, offset);
        match spec_rfind(self.left_fdfa, domain) {
            Some(start) => match spec_find(self.left_rdfa, domain.subrange(start, offset)) {
                Some(len) => Some((start, start + len)),
                None => None,
            },
            None => None,
        }
    }

    /// Compiles the four automata of `pattern`, matching case insensitively
    /// unless the pattern holds an uppercase letter. Fails exactly when one
    /// of them cannot be compiled: the pattern is malformed or unsupported, or
    /// an automaton too large.
    pub fn new(pattern: &str) -> (r: Result<Searcher, CompileError>)
        ensures
            r is Ok <==> Searcher::pattern_compiles(pattern@),
            r matches Ok(s) ==> s.compiled_from(pattern@),
    {
        let mut has_uppercase = false;
        for c in it: pattern.chars()
            invariant
                it.seq() == pattern@,
                has_uppercase == exists|j: int|
                    0 <= j < it.index() && upper_case(#[trigger] pattern@[j]),
        {
            if is_uppercase(c) {
                has_uppercase = true;
            }
        }
        let ci = !has_uppercase;
        let left_fdfa = match compile(pattern, ci, false, false, true) {
            Ok(a) => a,
            Err(e) => {
                return Err(CompileError { message: error_message(&e) });
            },
        };
        let left_rdfa = match compile(pattern, ci, true, true, false) {
            Ok(a) => a,
            Err(e) => {
                return Err(CompileError { message: error_message(&e) });
            },
        };
        let right_fdfa = match compile(pattern, ci, false, false, false) {
            Ok(a) => a,
            Err(e) => {
                return Err(CompileError { message: error_message(&e) });
            },
        };
        let right_rdfa = match compile(pattern, ci, true, true, true) {
            Ok(a) => a,
            Err(e) => {
                return Err(CompileError { message: error_message(&e) });
            },
        };
        Ok(Searcher { right_fdfa, right_rdfa, left_fdfa, left_rdfa })
    }

    /// The match that ends last before byte `offset` of `text`, as a byte
    /// range; absent when there is none.
    pub fn search_prev(&self, text: &str, offset: usize) -> (r: Option<Range<usize>>)
        requires
            offset <= text.len(),
        ensures
            range_of(r) == self.prev_match(bytes_of(text), offset as int),
            r matches Some(m) ==> m.start <= m.end <= offset,
    {
        let bytes = text.as_bytes();
        let ghost domain = bytes@.subrange(0, offset as int);
        let start = match rfind(&self.left_fdfa, bytes, 0, offset) {
            Some(start) => start,
            None => {
                return None;
            },
        };
        proof {
            lemma_backward_accept_bounds(self.left_fdfa, domain, 0);
            assert(bytes@.subrange(start as int, offset as int) =~= domain.subrange(
                start as int,
                offset as int,
            ));
        }
        let len = match find(&self.left_rdfa, bytes, start, offset) {
            Some(len) => len,
            None => {
                return None;
            },
        };
        proof {
            lemma_forward_accept_bounds(
                self.left_rdfa,
                domain.subrange(start as int, offset as int),
                offset - start,
            );
        }
        Some(Range { start, end: start + len })
    }

    /// The first match that starts at or after byte `offset` of `text`, as a
    /// byte range; absent when there is none.
    pub fn search_next(&self, text: &str, offset: usize) -> (r: Option<Range<usize>>)
        requires
            offset <= text.len(),
        ensures
            range_of(r) == self.next_match(bytes_of(text), offset as int),
            r matches Some(m) ==> offset <= m.start <= m.end <= text.len(),
    {
        let bytes = text.as_bytes();
        let ghost domain = bytes@.subrange(offset as int, bytes@.len() as int);
        let end = match find(&self.right_fdfa, bytes, offset, bytes.len()) {
            Some(end) => end,
            None => {
                return None;
            },
        };
        proof {
            lemma_forward_accept_bounds(self.right_fdfa, domain, domain.len() as int);
            assert(bytes@.subrange(offset as int, offset + end) =~= domain.subrange(0, end as int));
        }
        let start = match rfind(&self.right_rdfa, bytes, offset, offset + end) {
            Some(start) => start,
            None => {
                return None;
            },
        };
        proof {
            lemma_backward_accept_bounds(self.right_rdfa, domain.subrange(0, end as int), 0);
        }
        Some(Range { start: offset + start, end: offset + end })
    }
}

proof fn lemma_next_match_bounds(s: &Searcher, bytes: Seq<u8>, offset: int)
    requires
        0 <= offset <= bytes.len(),
    ensures
        s.next_match(bytes, offset) matches Some((a, b)) ==> offset <= a <= b <= bytes.len(),
{
    let domain = bytes.subrange(offset, bytes.len() as int);
    lemma_forward_accept_bounds(s.right_fdfa, domain, domain.len() as int);
    if let Some(end) = spec_find(s.right_fdfa, domain) {
        lemma_backward_accept_bounds(s.right_rdfa, domain.subrange(0, end), 0);
    }
}

proof fn lemma_prev_match_bounds(s: &Searcher, bytes: Seq<u8>, offset: int)
    requires
        0 <= offset <= bytes.len(),
    ensures
        s.prev_match(bytes, offset) matches Some((a, b)) ==> 0 <= a <= b <= offset && (a < offset
            || accepting(s.left_fdfa, live_start(s.left_fdfa))),
{
    let domain = bytes.subrange(0, offset);
    lemma_backward_accept_bounds(s.left_fdfa, domain, 0);
    if let Some(start) = spec_rfind(s.left_fdfa, domain) {
        lemma_forward_accept_bounds(
            s.left_rdfa,
            domain.subrange(start, offset),
            offset - start,
        );
    }
}

/// Searching forward again from the end of a match finds nothing, or a match
/// that starts at or after that end: the two never overlap.
pub proof fn lemma_search_next_progress(s: &Searcher, text: &str, offset: int)
    requires
        0 <= offset <= bytes_of(text).len(),
        s.next_match(bytes_of(text), offset) is Some,
    ensures
        ({
            let (a, b) = s.next_match(bytes_of(text), offset)->0;
            &&& offset <= a <= b <= bytes_of(text).len()
            &&& s.next_match(bytes_of(text), b) matches Some((c, d)) ==> b <= c <= d
        }),
{
    lemma_next_match_bounds(s, bytes_of(text), offset);
    let (a, b) = s.next_match(bytes_of(text), offset)->0;
    lemma_next_match_bounds(s, bytes_of(text), b);
}

/// Searching backward again from the start of a match finds nothing, or a
/// match that ends at or before that start: the two never overlap. It starts
/// strictly closer to the front unless the pattern matches the empty string
/// where the backward scan begins.
pub proof fn lemma_search_prev_progress(s: &Searcher, text: &str, offset: int)
    requires
        0 <= offset <= bytes_of(text).len(),
        s.prev_match(bytes_of(text), offset) is Some,
    ensures
        ({
            let (a, b) = s.prev_match(bytes_of(text), offset)->0;
            &&& 0 <= a <= b <= offset
            &&& s.prev_match(bytes_of(text), a) matches Some((c, d)) ==> c <= d <= a && (c < a
                || accepting(s.left_fdfa, live_start(s.left_fdfa)))
        }),
{
    lemma_prev_match_bounds(s, bytes_of(text), offset);
    let (a, b) = s.prev_match(bytes_of(text), offset)->0;
    lemma_prev_match_bounds(s, bytes_of(text), a);
}

} // verus!
