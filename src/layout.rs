//! The expanded layout as a sequence of lines, and the code that writes it.

use vstd::prelude::*;
use vstd::string::StringExecFns;
use crate::text::{lines_of, pad_to, push_padded, split_lines};

verus! {

broadcast use vstd::seq_lib::group_seq_properties;

/// What stands between a field's label and its value.
pub open spec fn separator() -> Seq<char> {
    seq![' ', '|', ' ']
}

/// One field line: the label padded to `width`, the separator, then `content`.
pub open spec fn field_line(label: Seq<char>, width: nat, content: Seq<char>) -> Seq<char> {
    pad_to(label, width) + separator() + content
}

/// The lines printed for one field. An empty value gives one line with nothing
/// after the separator; otherwise each line of the value gives one line, the
/// first under `label` and the others under a blank label of the same width.
pub open spec fn field_lines(label: Seq<char>, width: nat, value: Seq<char>) -> Seq<Seq<char>> {
    if value.len() == 0 {
        seq![field_line(label, width, Seq::empty())]
    } else {
        lines_of(value).map(
            |i: int, l: Seq<char>|
                field_line(
                    if i == 0 {
                        label
                    } else {
                        Seq::empty()
                    },
                    width,
                    l,
                ),
        )
    }
}

/// Lines written out, each followed by a line feed.
pub open spec fn text_of(lines: Seq<Seq<char>>) -> Seq<char> {
    lines.map_values(|l: Seq<char>| l.push('\n')).flatten()
}

/// The alignment width: the largest character count among `labels` (0 for none).
pub open spec fn label_width(labels: Seq<Seq<char>>) -> nat
    decreases labels.len(),
{
    if labels.len() == 0 {
        0
    } else {
        let w = label_width(labels.drop_last());
        if labels.last().len() > w {
            labels.last().len()
        } else {
            w
        }
    }
}

/// The lines of all fields of one record, in header order.
pub open spec fn fields_block(labels: Seq<Seq<char>>, width: nat, values: Seq<Seq<char>>) -> Seq<Seq<char>> {
    Seq::new(labels.len(), |j: int| field_lines(labels[j], width, values[j])).flatten()
}

/// One record's block: its head line, then its field lines.
pub open spec fn record_lines(
    head: Seq<char>,
    labels: Seq<Seq<char>>,
    width: nat,
    values: Seq<Seq<char>>,
) -> Seq<Seq<char>> {
    seq![head] + fields_block(labels, width, values)
}

/// The blocks of all records, in input order, aligned on `label_width(labels)`.
pub open spec fn record_blocks(
    labels: Seq<Seq<char>>,
    heads: Seq<Seq<char>>,
    rows: Seq<Seq<Seq<char>>>,
) -> Seq<Seq<Seq<char>>> {
    Seq::new(rows.len(), |i: int| record_lines(heads[i], labels, label_width(labels), rows[i]))
}

/// The whole expanded text for the given labels, record heads and (formatted) rows.
pub open spec fn expanded_text(
    labels: Seq<Seq<char>>,
    heads: Seq<Seq<char>>,
    rows: Seq<Seq<Seq<char>>>,
) -> Seq<char> {
    text_of(record_blocks(labels, heads, rows).flatten())
}

pub proof fn lemma_text_of_concat(a: Seq<Seq<char>>, b: Seq<Seq<char>>)
    ensures
        text_of(a + b) == text_of(a) + text_of(b),
{
    let f = |l: Seq<char>| l.push('\n');
    assert((a + b).map_values(f) =~= a.map_values(f) + b.map_values(f));
    vstd::seq_lib::lemma_flatten_concat(a.map_values(f), b.map_values(f));
}

pub proof fn lemma_text_of_push(a: Seq<Seq<char>>, l: Seq<char>)
    ensures
        text_of(a.push(l)) == text_of(a) + l.push('\n'),
{
    lemma_text_of_concat(a, seq![l]);
    assert(a + seq![l] =~= a.push(l));
    let f = |l: Seq<char>| l.push('\n');
    assert(seq![l].map_values(f) =~= seq![l.push('\n')]);
    seq![l.push('\n')].lemma_flatten_one_element();
}

fn push_field_line(out: &mut String, label: &str, width: usize, content: &str)
    ensures
        final(out)@ == old(out)@ + field_line(label@, width as nat, content@).push('\n'),
{
    push_padded(out, label, width);
    proof {
        reveal_strlit(" | ");
        reveal_strlit("\n");
    }
    out.append(" | ");
    out.append(content);
    out.append("\n");
    assert(final(out)@ =~= old(out)@ + field_line(label@, width as nat, content@).push('\n'));
}

/// Appends the lines of one field: `field` padded to `max_field_width`, the
/// separator and the value, one line per line of the value.
pub fn write_record_line(out: &mut String, field: &str, value: &str, max_field_width: usize)
    ensures
        final(out)@ == old(out)@ + text_of(field_lines(field@, max_field_width as nat, value@)),
{
    let ghost w = max_field_width as nat;
    if value.is_empty() {
        push_field_line(out, field, max_field_width, "");
        proof {
            reveal_strlit("");
            lemma_text_of_push(Seq::empty(), field_line(field@, w, Seq::empty()));
            assert(seq![field_line(field@, w, Seq::empty())] =~= Seq::<Seq<char>>::empty().push(
                field_line(field@, w, Seq::empty()),
            ));
            assert(text_of(Seq::empty()) =~= Seq::<char>::empty());
        }
        return;
    }
    let lines = split_lines(value);
    let ghost all = field_lines(field@, w, value@);
    assert(lines@.len() == lines_of(value@).len()) by {
        assert(lines@.map_values(|l: String| l@).len() == lines@.len());
    }
    let mut i: usize = 0;
    proof {
        assert(all.take(0) =~= Seq::<Seq<char>>::empty());
        assert(text_of(Seq::empty()) =~= Seq::<char>::empty());
        assert(out@ =~= old(out)@ + text_of(all.take(0)));
    }
    while i < lines.len()
        invariant
            value@.len() > 0,
            w == max_field_width as nat,
            all == field_lines(field@, w, value@),
            all.len() == lines@.len(),
            lines@.map_values(|l: String| l@) == lines_of(value@),
            i <= lines.len(),
            out@ == old(out)@ + text_of(all.take(i as int)),
        decreases lines.len() - i,
    {
        let ghost before = out@;
        proof {
            reveal_strlit("");
            assert(""@ =~= Seq::<char>::empty());
        }
        let line = lines[i].as_str();
        if i == 0 {
            push_field_line(out, field, max_field_width, line);
        } else {
            push_field_line(out, "", max_field_width, line);
        }
        proof {
            assert(lines@.map_values(|l: String| l@)[i as int] == lines@[i as int]@);
            assert(all[i as int] == field_line(if i == 0 { field@ } else { Seq::empty() }, w, lines@[i as int]@));
            assert(out@ == before + all[i as int].push('\n'));
            assert(all.take(i + 1) =~= all.take(i as int).push(all[i as int]));
            lemma_text_of_push(all.take(i as int), all[i as int]);
            assert(out@ =~= old(out)@ + text_of(all.take(i + 1)));
        }
        i = i + 1;
    }
    assert(all.take(i as int) =~= all);
}

/// The character sequences of a list of strings.
pub open spec fn strings_view(v: Seq<String>) -> Seq<Seq<char>> {
    v.map_values(|s: String| s@)
}

/// The character sequences of a list of rows of strings.
pub open spec fn rows_view(v: Seq<Vec<String>>) -> Seq<Seq<Seq<char>>> {
    v.map_values(|r: Vec<String>| strings_view(r@))
}

/// The largest character count among `labels`.
pub fn max_label_width(labels: &Vec<String>) -> (r: usize)
    ensures
        r as nat == label_width(strings_view(labels@)),
{
    let mut best: usize = 0;
    let mut i: usize = 0;
    while i < labels.len()
        invariant
            i <= labels.len(),
            best as nat == label_width(strings_view(labels@).take(i as int)),
        decreases labels.len() - i,
    {
        let n = labels[i].as_str().unicode_len();
        assert(strings_view(labels@).take(i + 1).drop_last() =~= strings_view(labels@).take(i as int));
        if n > best {
            best = n;
        }
        i = i + 1;
    }
    assert(strings_view(labels@).take(i as int) =~= strings_view(labels@));
    best
}

/// Writes every record: its head line, then its fields aligned on the widest
/// label. `heads[i]` is the head line of `rows[i]`, and `rows[i][j]` the
/// (already formatted) value of the field labelled `labels[j]`.
pub fn render_records(labels: &Vec<String>, heads: &Vec<String>, rows: &Vec<Vec<String>>) -> (r: String)
    requires
        heads.len() == rows.len(),
        forall|i: int| 0 <= i < rows.len() ==> #[trigger] rows[i].len() == labels.len(),
    ensures
        r@ == expanded_text(strings_view(labels@), strings_view(heads@), rows_view(rows@)),
{
    let width = max_label_width(labels);
    let ghost ls = strings_view(labels@);
    let ghost hs = strings_view(heads@);
    let ghost rs = rows_view(rows@);
    let ghost blocks = record_blocks(ls, hs, rs);
    let mut out = String::new();
    let mut i: usize = 0;
    assert(blocks.take(0) =~= Seq::<Seq<Seq<char>>>::empty());
    assert(text_of(Seq::empty()) =~= Seq::<char>::empty());
    while i < rows.len()
        invariant
            heads.len() == rows.len(),
            forall|i: int| 0 <= i < rows.len() ==> #[trigger] rows[i].len() == labels.len(),
            width as nat == label_width(ls),
            ls == strings_view(labels@),
            hs == strings_view(heads@),
            rs == rows_view(rows@),
            blocks == record_blocks(ls, hs, rs),
            i <= rows.len(),
            out@ == text_of(blocks.take(i as int).flatten()),
        decreases rows.len() - i,
    {
        let row = &rows[i];
        let ghost vs = rs[i as int];
        let ghost f = |j: int| field_lines(ls[j], width as nat, vs[j]);
        assert(vs == strings_view(row@));
        out.append(heads[i].as_str());
        proof {
            reveal_strlit("\n");
        }
        out.append("\n");
        let ghost start = text_of(blocks.take(i as int).flatten());
        proof {
            lemma_text_of_push(Seq::empty(), hs[i as int]);
            assert(Seq::<Seq<char>>::empty().push(hs[i as int]) =~= seq![hs[i as int]]);
            assert(text_of(Seq::empty()) =~= Seq::<char>::empty());
            assert(Seq::new(0, f).flatten() =~= Seq::<Seq<char>>::empty());
            assert(seq![hs[i as int]] + Seq::new(0, f).flatten() =~= seq![hs[i as int]]);
            assert(out@ =~= start + text_of(seq![hs[i as int]] + Seq::new(0, f).flatten()));
        }
        let mut j: usize = 0;
        while j < labels.len()
            invariant
                row.len() == labels.len(),
                vs == strings_view(row@),
                ls == strings_view(labels@),
                f == (|j: int| field_lines(ls[j], width as nat, vs[j])),
                j <= labels.len(),
                out@ == start + text_of(seq![hs[i as int]] + Seq::new(j as nat, f).flatten()),
            decreases labels.len() - j,
        {
            let ghost before = out@;
            write_record_line(&mut out, labels[j].as_str(), row[j].as_str(), width);
            proof {
                assert(Seq::new((j + 1) as nat, f) =~= Seq::new(j as nat, f).push(f(j as int)));
                Seq::new(j as nat, f).lemma_flatten_push(f(j as int));
                let pre = seq![hs[i as int]] + Seq::new(j as nat, f).flatten();
                assert(seq![hs[i as int]] + Seq::new((j + 1) as nat, f).flatten() =~= pre + f(j as int));
                lemma_text_of_concat(pre, f(j as int));
                assert(out@ =~= start + text_of(seq![hs[i as int]] + Seq::new((j + 1) as nat, f).flatten()));
            }
            j = j + 1;
        }
        proof {
            assert(Seq::new(labels.len() as nat, f) =~= Seq::new(ls.len(), |j: int| field_lines(ls[j], width as nat, vs[j])));
            assert(blocks[i as int] == seq![hs[i as int]] + Seq::new(j as nat, f).flatten());
            assert(blocks.take(i + 1) =~= blocks.take(i as int).push(blocks[i as int]));
            blocks.take(i as int).lemma_flatten_push(blocks[i as int]);
            lemma_text_of_concat(blocks.take(i as int).flatten(), blocks[i as int]);
        }
        i = i + 1;
    }
    assert(blocks.take(i as int) =~= blocks);
    out
}

} // verus!
