//! The expanded-display renderer and the hooks that customise it.

use vstd::prelude::*;
use vstd::string::StringExecFns;
use crate::escape::{escape_debug, escape_debug_of, header_label, label_of, no_line_breaks};
use crate::laws::lemma_single_line_value;
use crate::layout::{expanded_text, field_line, field_lines, render_records, rows_view, strings_view};
use crate::text::{decimal, push_decimal};

verus! {

/// A record that can be shown field by field.
pub trait Tabled {
    /// The values of this record, one per header, in header order.
    fn fields(&self) -> Vec<String>;

    /// The header names, shared by every record of the type.
    fn headers() -> Vec<String>;
}

/// Produces the line printed before the record with a given zero-based index.
pub trait RecordHeadFormatter {
    fn format_head(&self, index: usize) -> String;
}

/// Turns a raw value into the text that is printed for it.
pub trait ValueFormatter {
    fn format_value(&self, value: String) -> String;
}

/// How the line before each record is produced.
pub enum RecordHead {
    /// `-[ RECORD i ]-`.
    Numbered,
    /// A formatter supplied by the caller.
    Custom(Box<dyn RecordHeadFormatter>),
}

/// How each value is turned into printed text.
pub enum ValueStyle {
    /// The value as it is.
    Raw,
    /// The value escaped as `str::escape_debug` does, so it fits on one line.
    OneLine,
    /// A formatter supplied by the caller.
    Custom(Box<dyn ValueFormatter>),
}

/// The default record head line: `-[ RECORD i ]-`.
pub open spec fn record_number_line(i: nat) -> Seq<char> {
    seq!['-', '[', ' ', 'R', 'E', 'C', 'O', 'R', 'D', ' '] + decimal(i) + seq![' ', ']', '-']
}

/// `h` may be the head line of record `i` under `style`.
pub open spec fn head_allowed(style: RecordHead, i: nat, h: Seq<char>) -> bool {
    match style {
        RecordHead::Numbered => h == record_number_line(i),
        RecordHead::Custom(_) => true,
    }
}

/// `w` may be the printed form of value `v` under `style`.
pub open spec fn value_allowed(style: ValueStyle, v: Seq<char>, w: Seq<char>) -> bool {
    match style {
        ValueStyle::Raw => w == v,
        ValueStyle::OneLine => w == escape_debug_of(v) && no_line_breaks(w),
        ValueStyle::Custom(_) => true,
    }
}

/// Builds `-[ RECORD i ]-`.
pub fn number_line(i: usize) -> (r: String)
    ensures
        r@ == record_number_line(i as nat),
{
    proof {
        reveal_strlit("-[ RECORD ");
        reveal_strlit(" ]-");
    }
    let mut out = String::from_str("-[ RECORD ");
    push_decimal(&mut out, i);
    out.append(" ]-");
    assert(out@ =~= record_number_line(i as nat));
    out
}

/// Records shown in the expanded layout: a head line per record, then one
/// `label | value` line per field, the separators aligned on the widest label.
pub struct ExpandedDisplay {
    format_record_splitter: RecordHead,
    format_value: ValueStyle,
    fields: Vec<String>,
    records: Vec<Vec<String>>,
}

impl ExpandedDisplay {
    #[verifier::type_invariant]
    spec fn rows_match_headers(self) -> bool {
        forall|i: int| 0 <= i < self.records.len() ==> #[trigger] self.records[i].len() == self.fields.len()
    }

    /// The header names, in order.
    pub closed spec fn header_names(self) -> Seq<Seq<char>> {
        strings_view(self.fields@)
    }

    /// The stored records, each a row of raw values in header order.
    pub closed spec fn rows(self) -> Seq<Seq<Seq<char>>> {
        rows_view(self.records@)
    }

    /// How the line before each record is produced.
    pub closed spec fn head_style(self) -> RecordHead {
        self.format_record_splitter
    }

    /// How each value is turned into printed text.
    pub closed spec fn value_style(self) -> ValueStyle {
        self.format_value
    }

    /// The labels printed for the headers.
    pub open spec fn labels(self) -> Seq<Seq<char>> {
        self.header_names().map_values(|h: Seq<char>| label_of(h))
    }

    /// `t` is the expanded text of this display when the record-head hook
    /// returned `heads` (one per record) and the value hook returned `vals`
    /// (one row per record, one entry per header).
    pub open spec fn renders_with(self, heads: Seq<Seq<char>>, vals: Seq<Seq<Seq<char>>>, t: Seq<char>) -> bool {
        &&& heads.len() == self.rows().len()
        &&& vals.len() == self.rows().len()
        &&& forall|i: int| 0 <= i < heads.len() ==> head_allowed(self.head_style(), i as nat, #[trigger] heads[i])
        &&& forall|i: int| 0 <= i < vals.len() ==> (#[trigger] vals[i]).len() == self.header_names().len()
        &&& forall|i: int, j: int|
            0 <= i < vals.len() && 0 <= j < self.header_names().len() ==> value_allowed(
                self.value_style(),
                self.rows()[i][j],
                #[trigger] vals[i][j],
            )
        &&& t == expanded_text(self.labels(), heads, vals)
    }

    /// `t` is a rendering of this display: for some head lines and printed
    /// values that the configured hooks may produce, `t` is their expanded text.
    pub open spec fn renders_as(self, t: Seq<char>) -> bool {
        exists|heads: Seq<Seq<char>>, vals: Seq<Seq<Seq<char>>>| #[trigger] self.renders_with(heads, vals, t)
    }

    /// A display of `records` under the header names `fields`, with the default
    /// hooks. Every record holds one value per header.
    pub fn from_rows(fields: Vec<String>, records: Vec<Vec<String>>) -> (r: ExpandedDisplay)
        requires
            forall|i: int| 0 <= i < records.len() ==> #[trigger] records[i].len() == fields.len(),
        ensures
            r.header_names() == strings_view(fields@),
            r.rows() == rows_view(records@),
            r.head_style() is Numbered,
            r.value_style() is Raw,
    {
        ExpandedDisplay {
            format_record_splitter: RecordHead::Numbered,
            format_value: ValueStyle::Raw,
            fields,
            records,
        }
    }

    /// Captures the header names of `T` and the values of every item, in
    /// order. `None` when an item does not give one value per header, which
    /// breaks the contract of `Tabled`; never for an empty list of items.
    pub fn new<T: Tabled>(items: Vec<T>) -> (r: Option<ExpandedDisplay>)
        ensures
            items.len() == 0 ==> r is Some,
            r is Some ==> {
                &&& r->0.rows().len() == items.len()
                &&& r->0.head_style() is Numbered
                &&& r->0.value_style() is Raw
            },
    {
        let fields = T::headers();
        let mut records: Vec<Vec<String>> = Vec::new();
        let mut i: usize = 0;
        while i < items.len()
            invariant
                i <= items.len(),
                records.len() == i,
                forall|k: int| 0 <= k < i ==> #[trigger] records[k].len() == fields.len(),
            decreases items.len() - i,
        {
            let row = items[i].fields();
            if row.len() != fields.len() {
                return None;
            }
            records.push(row);
            i = i + 1;
        }
        Some(Self::from_rows(fields, records))
    }

    /// Replaces the producer of the line printed before each record.
    pub fn format_record_head(&mut self, f: Box<dyn RecordHeadFormatter>) -> (r: &mut Self)
        ensures
            (*r).head_style() == RecordHead::Custom(f),
            (*r).value_style() == old(self).value_style(),
            (*r).header_names() == old(self).header_names(),
            (*r).rows() == old(self).rows(),
            *final(self) == *final(r),
    {
        proof {
            use_type_invariant(&*self);
        }
        self.format_record_splitter = RecordHead::Custom(f);
        self
    }

    /// Replaces the formatter applied to every value before it is printed.
    pub fn format_value(&mut self, f: Box<dyn ValueFormatter>) -> (r: &mut Self)
        ensures
            (*r).value_style() == ValueStyle::Custom(f),
            (*r).head_style() == old(self).head_style(),
            (*r).header_names() == old(self).header_names(),
            (*r).rows() == old(self).rows(),
            *final(self) == *final(r),
    {
        proof {
            use_type_invariant(&*self);
        }
        self.format_value = ValueStyle::Custom(f);
        self
    }

    /// Prints every value escaped as `str::escape_debug` does, so that a
    /// multi-line value takes a single line.
    pub fn format_value_in_one_line(&mut self) -> (r: &mut Self)
        ensures
            (*r).value_style() is OneLine,
            (*r).head_style() == old(self).head_style(),
            (*r).header_names() == old(self).header_names(),
            (*r).rows() == old(self).rows(),
            *final(self) == *final(r),
    {
        proof {
            use_type_invariant(&*self);
        }
        self.format_value = ValueStyle::OneLine;
        self
    }

    fn head_line(&self, i: usize) -> (r: String)
        ensures
            head_allowed(self.head_style(), i as nat, r@),
    {
        match &self.format_record_splitter {
            RecordHead::Numbered => number_line(i),
            RecordHead::Custom(f) => f.format_head(i),
        }
    }

    fn printed_value(&self, v: &String) -> (r: String)
        ensures
            value_allowed(self.value_style(), v@, r@),
    {
        match &self.format_value {
            ValueStyle::Raw => v.clone(),
            ValueStyle::OneLine => escape_debug(v.as_str()),
            ValueStyle::Custom(f) => f.format_value(v.clone()),
        }
    }

    /// The expanded text of every record, each line ending in a line feed.
    pub fn to_string(&self) -> (r: String)
        ensures
            self.renders_as(r@),
    {
        proof {
            use_type_invariant(self);
        }
        let n = self.fields.len();
        let mut labels: Vec<String> = Vec::new();
        let mut j: usize = 0;
        while j < n
            invariant
                n == self.fields.len(),
                j <= n,
                labels.len() == j,
                forall|k: int| 0 <= k < j ==> (#[trigger] labels[k])@ == label_of(self.fields[k]@),
            decreases n - j,
        {
            labels.push(header_label(self.fields[j].as_str()));
            j = j + 1;
        }
        let mut heads: Vec<String> = Vec::new();
        let mut rows: Vec<Vec<String>> = Vec::new();
        let mut i: usize = 0;
        while i < self.records.len()
            invariant
                n == self.fields.len(),
                forall|k: int| 0 <= k < self.records.len() ==> #[trigger] self.records[k].len() == n,
                i <= self.records.len(),
                heads.len() == i,
                rows.len() == i,
                forall|k: int| 0 <= k < i ==> head_allowed(self.head_style(), k as nat, (#[trigger] heads[k])@),
                forall|k: int| 0 <= k < i ==> (#[trigger] rows[k]).len() == n,
                forall|k: int, m: int|
                    0 <= k < i && 0 <= m < n ==> value_allowed(
                        self.value_style(),
                        self.records[k][m]@,
                        (#[trigger] rows[k][m])@,
                    ),
            decreases self.records.len() - i,
        {
            heads.push(self.head_line(i));
            let record = &self.records[i];
            let mut row: Vec<String> = Vec::new();
            let mut m: usize = 0;
            while m < n
                invariant
                    record.len() == n,
                    m <= n,
                    row.len() == m,
                    forall|q: int| 0 <= q < m ==> value_allowed(self.value_style(), record[q]@, (#[trigger] row[q])@),
                decreases n - m,
            {
                row.push(self.printed_value(&record[m]));
                m = m + 1;
            }
            rows.push(row);
            i = i + 1;
        }
        let r = render_records(&labels, &heads, &rows);
        proof {
            let hs = strings_view(heads@);
            let vs = rows_view(rows@);
            assert(strings_view(labels@) =~= self.labels());
            assert(self.header_names().len() == n);
            assert(vs.len() == self.records.len());
            assert forall|k: int, m: int|
                0 <= k < vs.len() && 0 <= m < self.header_names().len() implies value_allowed(
                self.value_style(),
                self.rows()[k][m],
                #[trigger] vs[k][m],
            ) by {
                assert(self.records[k].len() == n);
                assert(vs[k] == strings_view(rows[k]@));
                assert(self.rows()[k] == strings_view(self.records[k]@));
                assert(vs[k][m] == rows[k][m]@);
                assert(self.rows()[k][m] == self.records[k][m]@);
            }
            assert(forall|k: int| 0 <= k < vs.len() ==> (#[trigger] vs[k]).len() == self.header_names().len());
            assert(forall|k: int| 0 <= k < hs.len() ==> head_allowed(self.head_style(), k as nat, #[trigger] hs[k]));
            assert(self.renders_with(hs, vs, r@));
        }
        r
    }
}

/// With the built-in hooks, a display has exactly one rendering: rendering it
/// twice without changing its configuration gives the same text.
pub proof fn lemma_render_stable(d: ExpandedDisplay, t1: Seq<char>, t2: Seq<char>)
    requires
        d.head_style() is Numbered,
        !(d.value_style() is Custom),
        d.renders_as(t1),
        d.renders_as(t2),
    ensures
        t1 == t2,
{
    let (h1, v1) = choose|heads: Seq<Seq<char>>, vals: Seq<Seq<Seq<char>>>|
        d.renders_with(heads, vals, t1);
    let (h2, v2) = choose|heads: Seq<Seq<char>>, vals: Seq<Seq<Seq<char>>>|
        d.renders_with(heads, vals, t2);
    assert(h1 =~= h2);
    assert forall|i: int| 0 <= i < v1.len() implies #[trigger] v1[i] == v2[i] by {
        assert(v1[i] =~= v2[i]);
    }
    assert(v1 =~= v2);
}

/// A display with no records renders as the empty text, whatever its hooks.
pub proof fn lemma_no_records_render_empty(d: ExpandedDisplay, t: Seq<char>)
    requires
        d.rows().len() == 0,
        d.renders_as(t),
    ensures
        t == Seq::<char>::empty(),
{
    let (heads, vals) = choose|heads: Seq<Seq<char>>, vals: Seq<Seq<Seq<char>>>|
        d.renders_with(heads, vals, t);
    let blocks = crate::layout::record_blocks(d.labels(), heads, vals);
    assert(blocks =~= Seq::<Seq<Seq<char>>>::empty());
    assert(blocks.flatten() =~= Seq::<Seq<char>>::empty());
    assert(crate::layout::text_of(blocks.flatten()) =~= Seq::<char>::empty());
}

/// Rendering depends on nothing but what the hooks return: two renderings of
/// one display for which the hooks returned the same head lines and values are
/// the same text. With deterministic hooks, rendering twice gives the same text.
pub proof fn lemma_render_determined(
    d: ExpandedDisplay,
    heads: Seq<Seq<char>>,
    vals: Seq<Seq<Seq<char>>>,
    t1: Seq<char>,
    t2: Seq<char>,
)
    requires
        d.renders_with(heads, vals, t1),
        d.renders_with(heads, vals, t2),
    ensures
        t1 == t2,
{
}

/// In one-line mode every value of every record is printed on exactly one line,
/// under its label: no printed value holds a line break.
pub proof fn lemma_one_line_mode(d: ExpandedDisplay, v: Seq<char>, w: Seq<char>, label: Seq<char>, width: nat)
    requires
        d.value_style() is OneLine,
        value_allowed(d.value_style(), v, w),
    ensures
        field_lines(label, width, w) == seq![field_line(label, width, w)],
{
    lemma_single_line_value(label, width, w);
}

} // verus!
