//! Properties of the expanded layout that hold for every input.

use vstd::prelude::*;
use crate::layout::{
    field_line, field_lines, label_width, record_blocks, separator,
};
use crate::escape::no_line_breaks;
use crate::text::{
    lemma_split_newlines_shape, lines_of, newline_count, pad_to, spaces, split_newlines,
};

verus! {

broadcast use vstd::seq_lib::group_seq_properties;

/// A field line as laid out under alignment width `width`: a label portion of
/// exactly `width` characters (a padded label of `labels`, or blanks), then
/// the separator.
pub open spec fn aligned_field_line(line: Seq<char>, labels: Seq<Seq<char>>, width: nat) -> bool {
    &&& line.len() >= width + 3
    &&& line.subrange(width as int, width + 3int) == separator()
    &&& (line.subrange(0, width as int) == spaces(width) || exists|j: int|
        0 <= j < labels.len() && line.subrange(0, width as int) == pad_to(#[trigger] labels[j], width))
}

pub proof fn lemma_pad_to_len(s: Seq<char>, width: nat)
    requires
        s.len() <= width,
    ensures
        pad_to(s, width).len() == width,
{
}

pub proof fn lemma_label_width_bound(labels: Seq<Seq<char>>)
    ensures
        forall|j: int| 0 <= j < labels.len() ==> (#[trigger] labels[j]).len() <= label_width(labels),
    decreases labels.len(),
{
    if labels.len() > 0 {
        lemma_label_width_bound(labels.drop_last());
        assert forall|j: int| 0 <= j < labels.len() implies (#[trigger] labels[j]).len() <= label_width(labels) by {
            if j < labels.len() - 1 {
                assert(labels.drop_last()[j] == labels[j]);
            }
        }
    }
}

proof fn lemma_flatten_all(ss: Seq<Seq<Seq<char>>>, p: spec_fn(Seq<char>) -> bool)
    requires
        forall|i: int, m: int| 0 <= i < ss.len() && 0 <= m < ss[i].len() ==> p(#[trigger] ss[i][m]),
    ensures
        forall|k: int| 0 <= k < ss.flatten().len() ==> p(#[trigger] ss.flatten()[k]),
    decreases ss.len(),
{
    if ss.len() > 0 {
        let rest = ss.drop_first();
        assert forall|i: int, m: int| 0 <= i < rest.len() && 0 <= m < rest[i].len() implies p(
            #[trigger] rest[i][m],
        ) by {
            assert(rest[i] == ss[i + 1]);
        }
        lemma_flatten_all(rest, p);
        assert forall|k: int| 0 <= k < ss.flatten().len() implies p(#[trigger] ss.flatten()[k]) by {
            assert(ss.flatten() == ss[0] + rest.flatten());
            if k < ss[0].len() {
                assert(ss.flatten()[k] == ss[0][k]);
            } else {
                assert(ss.flatten()[k] == rest.flatten()[k - ss[0].len()]);
            }
        }
    }
}

proof fn lemma_field_lines_aligned_one(labels: Seq<Seq<char>>, j: int, width: nat, value: Seq<char>)
    requires
        0 <= j < labels.len(),
        labels[j].len() <= width,
    ensures
        forall|m: int| 0 <= m < field_lines(labels[j], width, value).len() ==>
            aligned_field_line(#[trigger] field_lines(labels[j], width, value)[m], labels, width),
{
    let ls = field_lines(labels[j], width, value);
    assert forall|m: int| 0 <= m < ls.len() implies aligned_field_line(#[trigger] ls[m], labels, width) by {
        let label = if value.len() == 0 || m == 0 { labels[j] } else { Seq::empty() };
        let content = if value.len() == 0 { Seq::empty() } else { lines_of(value)[m] };
        assert(ls[m] == field_line(label, width, content));
        let pad = pad_to(label, width);
        assert(pad.len() == width);
        assert(ls[m].subrange(0, width as int) =~= pad);
        assert(ls[m].subrange(width as int, width + 3int) =~= separator());
        if value.len() != 0 && m != 0 {
            assert(pad =~= spaces(width));
        }
    }
}

/// Every field line of every record has a label portion exactly as wide as the
/// alignment width (the largest label length), followed by the separator.
pub proof fn lemma_field_lines_aligned(
    labels: Seq<Seq<char>>,
    heads: Seq<Seq<char>>,
    rows: Seq<Seq<Seq<char>>>,
)
    requires
        heads.len() == rows.len(),
        forall|i: int| 0 <= i < rows.len() ==> (#[trigger] rows[i]).len() == labels.len(),
    ensures
        forall|i: int, k: int|
            0 <= i < rows.len() && 1 <= k < record_blocks(labels, heads, rows)[i].len() ==> aligned_field_line(
                #[trigger] record_blocks(labels, heads, rows)[i][k],
                labels,
                label_width(labels),
            ),
{
    let w = label_width(labels);
    let blocks = record_blocks(labels, heads, rows);
    let p = |line: Seq<char>| aligned_field_line(line, labels, w);
    lemma_label_width_bound(labels);
    assert forall|i: int, k: int| 0 <= i < rows.len() && 1 <= k < blocks[i].len() implies aligned_field_line(
        #[trigger] blocks[i][k],
        labels,
        w,
    ) by {
        let ss = Seq::new(labels.len(), |j: int| field_lines(labels[j], w, rows[i][j]));
        assert forall|a: int, m: int| 0 <= a < ss.len() && 0 <= m < ss[a].len() implies p(#[trigger] ss[a][m]) by {
            lemma_field_lines_aligned_one(labels, a, w, rows[i][a]);
        }
        lemma_flatten_all(ss, p);
        assert(blocks[i] == seq![heads[i]] + ss.flatten());
        assert(blocks[i][k] == ss.flatten()[k - 1]);
    }
}

/// Each record contributes exactly one block, and that block opens with the
/// record's head line: there are as many head lines as records.
pub proof fn lemma_one_head_per_record(
    labels: Seq<Seq<char>>,
    heads: Seq<Seq<char>>,
    rows: Seq<Seq<Seq<char>>>,
)
    requires
        heads.len() == rows.len(),
    ensures
        record_blocks(labels, heads, rows).len() == rows.len(),
        forall|i: int| 0 <= i < rows.len() ==> (#[trigger] record_blocks(labels, heads, rows)[i])[0] == heads[i],
{
}

/// A value with `k` line feeds is printed on exactly `k + 1` lines; only the first carries the label, the others a blank label
/// portion of the same width.
pub proof fn lemma_multiline_value(label: Seq<char>, width: nat, value: Seq<char>)
    requires
        label.len() <= width,
    ensures
        field_lines(label, width, value).len() == newline_count(value) + 1,
        field_lines(label, width, value)[0].subrange(0, width as int) == pad_to(label, width),
        forall|m: int| 1 <= m < field_lines(label, width, value).len() ==>
            (#[trigger] field_lines(label, width, value)[m]).subrange(0, width as int) == spaces(width),
{
    lemma_split_newlines_shape(value);
    let ls = field_lines(label, width, value);
    if value.len() > 0 {
        assert(lines_of(value).len() == split_newlines(value).len());
    }
    assert(ls[0].subrange(0, width as int) =~= pad_to(label, width));
    assert forall|m: int| 1 <= m < ls.len() implies (#[trigger] ls[m]).subrange(0, width as int) == spaces(width) by {
        assert(ls[m].subrange(0, width as int) =~= spaces(width));
    }
}

/// An empty value is printed on exactly one line, with nothing after the separator.
pub proof fn lemma_empty_value(label: Seq<char>, width: nat)
    ensures
        field_lines(label, width, Seq::empty()) == seq![pad_to(label, width) + separator()],
{
    assert(field_line(label, width, Seq::empty()) =~= pad_to(label, width) + separator());
}

proof fn lemma_split_without_newline(s: Seq<char>)
    requires
        forall|k: int| 0 <= k < s.len() ==> #[trigger] s[k] != '\n',
    ensures
        split_newlines(s) == seq![s],
    decreases s.len(),
{
    if s.len() > 0 {
        let t = s.drop_last();
        assert forall|k: int| 0 <= k < t.len() implies #[trigger] t[k] != '\n' by {
            assert(t[k] == s[k]);
        }
        lemma_split_without_newline(t);
        assert(t.push(s.last()) =~= s);
        assert(seq![t].update(0, t.push(s.last())) =~= seq![s]);
    } else {
        assert(s =~= Seq::<char>::empty());
    }
}

/// A value without line breaks is printed on exactly one line, under its label.
pub proof fn lemma_single_line_value(label: Seq<char>, width: nat, value: Seq<char>)
    requires
        no_line_breaks(value),
    ensures
        field_lines(label, width, value) == seq![field_line(label, width, value)],
{
    assert forall|k: int| 0 <= k < value.len() implies #[trigger] value[k] != '\n' by {}
    lemma_split_without_newline(value);
    if value.len() > 0 {
        assert(lines_of(value) =~= seq![value]);
        assert(field_lines(label, width, value) =~= seq![field_line(label, width, value)]);
    } else {
        assert(value =~= Seq::<char>::empty());
    }
}

} // verus!
