//! Character-level building blocks: line splitting, padding and decimal digits.

use vstd::prelude::*;
use vstd::std_specs::iter::IteratorSpec;
use vstd::string::StrSliceExecFns;
use vstd::string::StringExecFns;

verus! {

/// `s` with the `\r` that precedes a line feed removed, if there is one.
pub open spec fn strip_cr(s: Seq<char>) -> Seq<char> {
    if s.len() > 0 && s.last() == '\r' {
        s.drop_last()
    } else {
        s
    }
}

/// The pieces of `s` between line feeds: `k` line feeds give `k + 1` pieces.
pub open spec fn split_newlines(s: Seq<char>) -> Seq<Seq<char>>
    decreases s.len(),
{
    if s.len() == 0 {
        seq![Seq::empty()]
    } else if s.last() == '\n' {
        split_newlines(s.drop_last()).push(Seq::empty())
    } else {
        let p = split_newlines(s.drop_last());
        p.update(p.len() - 1, p.last().push(s.last()))
    }
}

/// The lines of `s`: split at every `\n` (a `\r` just before it belongs to the
/// break), so that `k` line breaks give `k + 1` lines.
pub open spec fn lines_of(s: Seq<char>) -> Seq<Seq<char>> {
    let p = split_newlines(s);
    p.drop_last().map_values(|l: Seq<char>| strip_cr(l)).push(p.last())
}

/// Number of line feeds in `s`.
pub open spec fn newline_count(s: Seq<char>) -> nat
    decreases s.len(),
{
    if s.len() == 0 {
        0
    } else {
        newline_count(s.drop_last()) + if s.last() == '\n' {
            1nat
        } else {
            0nat
        }
    }
}

pub proof fn lemma_split_newlines_shape(s: Seq<char>)
    ensures
        split_newlines(s).len() == newline_count(s) + 1,
        split_newlines(s).last().len() == 0 <==> (s.len() == 0 || s.last() == '\n'),
    decreases s.len(),
{
    if s.len() > 0 {
        lemma_split_newlines_shape(s.drop_last());
    }
}

pub open spec fn spaces(n: nat) -> Seq<char> {
    Seq::new(n, |_i: int| ' ')
}

/// `s` left-aligned in a field of `width` characters, as `{:width$}` does.
pub open spec fn pad_to(s: Seq<char>, width: nat) -> Seq<char> {
    if s.len() < width {
        s + spaces((width - s.len()) as nat)
    } else {
        s
    }
}

pub open spec fn digit_char(d: nat) -> char {
    if d == 0 { '0' }
    else if d == 1 { '1' }
    else if d == 2 { '2' }
    else if d == 3 { '3' }
    else if d == 4 { '4' }
    else if d == 5 { '5' }
    else if d == 6 { '6' }
    else if d == 7 { '7' }
    else if d == 8 { '8' }
    else { '9' }
}

/// Decimal digits of `n`, most significant first, without leading zeros.
pub open spec fn decimal(n: nat) -> Seq<char>
    decreases n,
{
    if n < 10 {
        seq![digit_char(n)]
    } else {
        decimal(n / 10) + seq![digit_char(n % 10)]
    }
}

/// Relies on `String::push`: appends `c` to the end of `s`.
#[verifier::external_body]
fn push_char(s: &mut String, c: char)
    ensures
        final(s)@ == old(s)@.push(c),
{
    s.push(c)
}

/// `cur`, followed by a carriage return when one is held back.
pub open spec fn with_pending(cur: Seq<char>, pending_cr: bool) -> Seq<char> {
    if pending_cr {
        cur.push('\r')
    } else {
        cur
    }
}

/// Splits `s` into its lines in one pass.
pub fn split_lines(s: &str) -> (r: Vec<String>)
    ensures
        r@.map_values(|l: String| l@) == lines_of(s@),
{
    broadcast use vstd::string::group_string_axioms;

    let mut it = s.chars();
    let mut out: Vec<String> = Vec::new();
    let mut cur = String::new();
    let mut pending_cr = false;
    let ghost mut i: int = 0;
    assert(s@.subrange(0, 0) =~= Seq::<char>::empty());
    loop
        invariant
            0 <= i <= s@.len(),
            it.remaining() == s@.subrange(i, s@.len() as int),
            it.obeys_prophetic_iter_laws(),
            out@.map_values(|l: String| l@) == split_newlines(s@.subrange(0, i)).drop_last().map_values(
                |l: Seq<char>| strip_cr(l),
            ),
            split_newlines(s@.subrange(0, i)).last() == with_pending(cur@, pending_cr),
            !pending_cr ==> (cur@.len() == 0 || cur@.last() != '\r'),
        ensures
            i == s@.len(),
            out@.map_values(|l: String| l@) == split_newlines(s@.subrange(0, i)).drop_last().map_values(
                |l: Seq<char>| strip_cr(l),
            ),
            split_newlines(s@.subrange(0, i)).last() == with_pending(cur@, pending_cr),
        decreases s@.len() - i,
    {
        let ghost pre = s@.subrange(0, i);
        let ghost old_it = it;
        match it.next() {
            None => {
                assert(s@.subrange(i, s@.len() as int).len() == 0);
                break;
            },
            Some(c) => {
                let ghost next = s@.subrange(0, i + 1);
                assert(c == s@[i]);
                assert(next.drop_last() =~= pre);
                assert(next.last() == c);
                proof {
                    lemma_split_newlines_shape(pre);
                    lemma_split_newlines_shape(next);
                }
                if c == '\n' {
                    let line = cur;
                    assert(pending_cr ==> with_pending(line@, pending_cr).drop_last() =~= line@);
                    assert(line@ == strip_cr(split_newlines(pre).last()));
                    let ghost before = out@;
                    out.push(line);
                    cur = String::new();
                    pending_cr = false;
                    assert(split_newlines(next).drop_last() =~= split_newlines(pre));
                    assert(split_newlines(pre) =~= split_newlines(pre).drop_last().push(
                        split_newlines(pre).last(),
                    ));
                    assert(out@.map_values(|l: String| l@) =~= before.map_values(|l: String| l@).push(
                        line@,
                    ));
                } else {
                    if pending_cr {
                        push_char(&mut cur, '\r');
                    }
                    pending_cr = c == '\r';
                    if !pending_cr {
                        push_char(&mut cur, c);
                    }
                    assert(split_newlines(next).drop_last() =~= split_newlines(pre).drop_last());
                }
                proof {
                    i = i + 1;
                }
                assert(it.remaining() =~= s@.subrange(i, s@.len() as int));
            },
        }
    }
    assert(s@.subrange(0, i) =~= s@);
    if pending_cr {
        push_char(&mut cur, '\r');
    }
    let ghost before = out@;
    let ghost last = cur@;
    out.push(cur);
    assert(out@.map_values(|l: String| l@) =~= before.map_values(|l: String| l@).push(last));
    out
}

/// Appends `s` left-aligned in a field of `width` characters.
pub fn push_padded(out: &mut String, s: &str, width: usize)
    ensures
        final(out)@ == old(out)@ + pad_to(s@, width as nat),
{
    out.append(s);
    let len = s.unicode_len();
    proof {
        reveal_strlit(" ");
    }
    if len < width {
        let mut k: usize = len;
        assert(spaces(0) =~= Seq::<char>::empty());
        assert(out@ =~= old(out)@ + s@ + spaces(0));
        while k < width
            invariant
                len == s@.len(),
                len <= k <= width,
                out@ == old(out)@ + s@ + spaces((k - len) as nat),
            decreases width - k,
        {
            proof {
                reveal_strlit(" ");
            }
            out.append(" ");
            assert(spaces((k + 1 - len) as nat) =~= spaces((k - len) as nat) + " "@);
            k = k + 1;
        }
    }
    assert(final(out)@ =~= old(out)@ + pad_to(s@, width as nat));
}

fn digit_str(d: usize) -> (r: &'static str)
    requires
        d < 10,
    ensures
        r@ == seq![digit_char(d as nat)],
{
    proof {
        reveal_strlit("0");
        reveal_strlit("1");
        reveal_strlit("2");
        reveal_strlit("3");
        reveal_strlit("4");
        reveal_strlit("5");
        reveal_strlit("6");
        reveal_strlit("7");
        reveal_strlit("8");
        reveal_strlit("9");
    }
    match d {
        0 => "0",
        1 => "1",
        2 => "2",
        3 => "3",
        4 => "4",
        5 => "5",
        6 => "6",
        7 => "7",
        8 => "8",
        _ => "9",
    }
}

/// Appends the decimal digits of `n`.
pub fn push_decimal(out: &mut String, n: usize)
    ensures
        final(out)@ == old(out)@ + decimal(n as nat),
    decreases n,
{
    if n >= 10 {
        push_decimal(out, n / 10);
    }
    out.append(digit_str(n % 10));
    assert(final(out)@ =~= old(out)@ + decimal(n as nat));
}

} // verus!
