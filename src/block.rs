//! Numbered listings of a text, the form in which file contents and
//! selections are handed to the assistant.
use vstd::prelude::*;
use vstd::std_specs::iter::IteratorSpec;
use vstd::string::StringSliceAdditionalSpecFns;

verus! {

broadcast use vstd::string::axiom_spec_iter, vstd::string::next_postcondition;

/// Relies on `String::push`: the character is appended at the end.
#[verifier::external_body]
fn push_char(s: &mut String, c: char)
    ensures
        final(s)@ == old(s)@.push(c),
{
    s.push(c)
}

/// The character of a decimal digit.
pub open spec fn digit_char(d: nat) -> char {
    if d == 0 {
        '0'
    } else if d == 1 {
        '1'
    } else if d == 2 {
        '2'
    } else if d == 3 {
        '3'
    } else if d == 4 {
        '4'
    } else if d == 5 {
        '5'
    } else if d == 6 {
        '6'
    } else if d == 7 {
        '7'
    } else if d == 8 {
        '8'
    } else {
        '9'
    }
}

/// `n` written in decimal, without sign or leading zeros.
pub open spec fn decimal(n: nat) -> Seq<char>
    decreases n,
{
    if n < 10 {
        seq![digit_char(n)]
    } else {
        decimal(n / 10).push(digit_char(n % 10))
    }
}

fn digit(d: usize) -> (c: char)
    requires
        d < 10,
    ensures
        c == digit_char(d as nat),
{
    if d == 0 {
        '0'
    } else if d == 1 {
        '1'
    } else if d == 2 {
        '2'
    } else if d == 3 {
        '3'
    } else if d == 4 {
        '4'
    } else if d == 5 {
        '5'
    } else if d == 6 {
        '6'
    } else if d == 7 {
        '7'
    } else if d == 8 {
        '8'
    } else {
        '9'
    }
}

fn push_decimal(out: &mut String, n: usize)
    ensures
        final(out)@ == old(out)@ + decimal(n as nat),
    decreases n,
{
    if n >= 10 {
        push_decimal(out, n / 10);
    }
    push_char(out, digit(n % 10));
    assert(final(out)@ =~= old(out)@ + decimal(n as nat));
}

proof fn lemma_chars_fit_bytes(chars: Seq<char>)
    ensures
        chars.len() <= vstd::utf8::encode_utf8(chars).len(),
    decreases chars.len(),
{
    if chars.len() > 0 {
        lemma_chars_fit_bytes(chars.drop_first());
    }
}

/// `s` cut at each line feed: the pieces between them, in order. A text
/// with `m` line feeds has `m + 1` pieces; the last one ended with none.
pub open spec fn pieces(s: Seq<char>) -> Seq<Seq<char>>
    decreases s.len(),
{
    if s.len() == 0 {
        seq![Seq::<char>::empty()]
    } else {
        let p = pieces(s.drop_last());
        if s.last() == '\n' {
            p.push(Seq::<char>::empty())
        } else {
            p.update(p.len() - 1, p.last().push(s.last()))
        }
    }
}

/// A line without the carriage return that ends it, if any.
pub open spec fn strip_cr(l: Seq<char>) -> Seq<char> {
    if l.len() > 0 && l.last() == '\r' {
        l.drop_last()
    } else {
        l
    }
}

/// The lines of `s` that end with a line feed (or a carriage return and a
/// line feed), without that ending.
pub open spec fn ended_lines(s: Seq<char>) -> Seq<Seq<char>> {
    let p = pieces(s);
    Seq::new((p.len() - 1) as nat, |j: int| strip_cr(p[j]))
}

/// The lines of `s`: those that end with a line ending, then what follows the
/// last line feed unless it is empty.
pub open spec fn text_lines(s: Seq<char>) -> Seq<Seq<char>> {
    let p = pieces(s);
    if p.last().len() > 0 {
        ended_lines(s).push(p.last())
    } else {
        ended_lines(s)
    }
}

/// Line `j` (counted from 0) of a listing: its number counted from 1, a colon,
/// a space, the line and a line feed.
pub open spec fn numbered_line(j: int, line: Seq<char>) -> Seq<char> {
    decimal((j + 1) as nat) + ": "@ + line + "\n"@
}

/// The lines whose index lies in `first..=last`, each numbered, in order.
pub open spec fn listing(lines: Seq<Seq<char>>, first: int, last: int) -> Seq<char>
    decreases lines.len(),
{
    if lines.len() == 0 {
        Seq::empty()
    } else {
        let j = lines.len() - 1;
        listing(lines.drop_last(), first, last) + if first <= j <= last {
            numbered_line(j, lines[j])
        } else {
            Seq::empty()
        }
    }
}

/// What `generate_content_block` returns: the listing of the lines of
/// `content` in `first..=last`, or `1:` for an empty text.
pub open spec fn content_block(content: Seq<char>, first: int, last: int) -> Seq<char> {
    if content.len() == 0 {
        "1:"@
    } else {
        listing(text_lines(content), first, last)
    }
}

proof fn lemma_pieces_nonempty(s: Seq<char>)
    ensures
        pieces(s).len() >= 1,
    decreases s.len(),
{
    if s.len() > 0 {
        lemma_pieces_nonempty(s.drop_last());
    }
}

fn push_numbered(out: &mut String, j: usize, line: &Vec<char>, len: usize)
    requires
        len <= line.len(),
        j < usize::MAX,
    ensures
        final(out)@ == old(out)@ + numbered_line(j as int, line@.take(len as int)),
{
    push_decimal(out, j + 1);
    out.append(": ");
    let mut i: usize = 0;
    while i < len
        invariant
            len <= line.len(),
            i <= len,
            out@ == old(out)@ + decimal((j + 1) as nat) + ": "@ + line@.take(i as int),
        decreases len - i,
    {
        push_char(out, line[i]);
        proof {
            assert(line@.take(i + 1) =~= line@.take(i as int).push(line@[i as int]));
        }
        i = i + 1;
    }
    out.append("\n");
}

/// The lines of `content` whose index (counted from 0) lies in
/// `first..=last`, each as its number (counted from 1), a colon, a space, the
/// line and a line feed; `1:` when `content` is empty. Lines end at a line
/// feed or at a carriage return and a line feed; the text's last line may
/// have no ending.
pub fn generate_content_block(content: &str, first: usize, last: usize) -> (r: String)
    ensures
        r@ == content_block(content@, first as int, last as int),
{
    if content.is_empty() {
        return String::from_str("1:");
    }
    proof {
        lemma_chars_fit_bytes(content@);
    }
    let total = content.as_bytes().len();
    let ghost s = content@;
    let mut out = String::new();
    let mut cur: Vec<char> = Vec::new();
    let mut k: usize = 0;
    proof {
        assert(s.take(0) =~= Seq::<char>::empty());
        assert(ended_lines(s.take(0)) =~= Seq::<Seq<char>>::empty());
    }
    for c in it: content.chars()
        invariant
            it.seq() == s,
            s == content@,
            s.len() <= total,
            k + cur@.len() <= it.index(),
            pieces(s.take(it.index() as int)).len() == k + 1,
            cur@ == pieces(s.take(it.index() as int)).last(),
            out@ == listing(ended_lines(s.take(it.index() as int)), first as int, last as int),
    {
        let ghost i = it.index() as int;
        let ghost before = s.take(i);
        let ghost after = s.take(i + 1);
        proof {
            assert(after.drop_last() =~= before);
            assert(after.last() == c);
            lemma_pieces_nonempty(before);
        }
        if c == '\n' {
            let ghost old_out = out@;
            let mut len = cur.len();
            if len > 0 && cur[len - 1] == '\r' {
                len = len - 1;
            }
            proof {
                assert(cur@.take(len as int) =~= strip_cr(cur@));
            }
            if first <= k && k <= last {
                push_numbered(&mut out, k, &cur, len);
            }
            proof {
                let e0 = ended_lines(before);
                let e1 = ended_lines(after);
                assert(e1.drop_last() =~= e0);
                assert(e1.len() == k + 1);
                assert(e1[k as int] == strip_cr(cur@));
            }
            k = k + 1;
            cur = Vec::new();
            proof {
                assert(cur@ =~= pieces(after).last());
            }
        } else {
            cur.push(c);
            proof {
                assert(ended_lines(after) =~= ended_lines(before));
                assert(cur@ =~= pieces(after).last());
            }
        }
    }
    proof {
        assert(s.take(s.len() as int) =~= s);
        lemma_pieces_nonempty(s);
    }
    if cur.len() > 0 {
        if first <= k && k <= last {
            let n = cur.len();
            push_numbered(&mut out, k, &cur, n);
            proof {
                assert(cur@.take(n as int) =~= cur@);
            }
        }
        proof {
            assert(text_lines(s).drop_last() =~= ended_lines(s));
        }
    }
    out
}

} // verus!
