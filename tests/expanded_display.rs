use expanded_display::escape::{header_label, unquote};
use expanded_display::expanded_display::number_line;
use expanded_display::layout::max_label_width;
use expanded_display::text::{push_decimal, push_padded, split_lines};
use expanded_display::{
    render_records, write_record_line, ExpandedDisplay, RecordHeadFormatter, Tabled,
    ValueFormatter,
};

struct Distribution {
    name: &'static str,
    based_on: &'static str,
}

impl Tabled for Distribution {
    fn fields(&self) -> Vec<String> {
        vec![self.name.to_string(), self.based_on.to_string()]
    }

    fn headers() -> Vec<String> {
        vec!["name".to_string(), "based_on".to_string()]
    }
}

struct Named(&'static str);

impl Tabled for Named {
    fn fields(&self) -> Vec<String> {
        vec![self.0.to_string()]
    }

    fn headers() -> Vec<String> {
        vec!["name".to_string()]
    }
}

struct Broken;

impl Tabled for Broken {
    fn fields(&self) -> Vec<String> {
        vec!["only one".to_string()]
    }

    fn headers() -> Vec<String> {
        vec!["a".to_string(), "b".to_string()]
    }
}

struct Dashes;

impl RecordHeadFormatter for Dashes {
    fn format_head(&self, index: usize) -> String {
        format!("--- {} ---", index + 1)
    }
}

struct Upper;

impl ValueFormatter for Upper {
    fn format_value(&self, value: String) -> String {
        value.to_uppercase()
    }
}

fn strings(v: &[&str]) -> Vec<String> {
    v.iter().map(|s| s.to_string()).collect()
}

fn named(values: &[&'static str]) -> ExpandedDisplay {
    ExpandedDisplay::new(values.iter().map(|v| Named(v)).collect()).unwrap()
}

#[test]
fn single_record_example() {
    let d = ExpandedDisplay::new(vec![Distribution { name: "Manjaro", based_on: "Arch" }]).unwrap();
    assert_eq!(
        d.to_string(),
        "-[ RECORD 0 ]-\nname     | Manjaro\nbased_on | Arch\n"
    );
}

#[test]
fn several_records_in_order() {
    let d = ExpandedDisplay::new(vec![
        Distribution { name: "Debian", based_on: "" },
        Distribution { name: "Arch", based_on: "" },
        Distribution { name: "Manjaro", based_on: "Arch" },
    ])
    .unwrap();
    assert_eq!(
        d.to_string(),
        "-[ RECORD 0 ]-\nname     | Debian\nbased_on | \n\
         -[ RECORD 1 ]-\nname     | Arch\nbased_on | \n\
         -[ RECORD 2 ]-\nname     | Manjaro\nbased_on | Arch\n"
    );
}

#[test]
fn one_head_line_per_record() {
    let d = named(&["a", "b\nc", "", "d"]);
    let out = d.to_string();
    let heads = out.lines().filter(|l| l.starts_with("-[ RECORD ")).count();
    assert_eq!(heads, 4);
}

#[test]
fn label_portion_has_alignment_width() {
    let d = ExpandedDisplay::new(vec![
        Distribution { name: "x\ny", based_on: "" },
        Distribution { name: "Arch", based_on: "z" },
    ])
    .unwrap();
    let out = d.to_string();
    for line in out.lines().filter(|l| !l.starts_with("-[")) {
        let chars: Vec<char> = line.chars().collect();
        assert!(chars.len() >= 11);
        assert_eq!(&chars[8..11], &[' ', '|', ' ']);
    }
}

#[test]
fn multiline_value_example() {
    let d = named(&["line1\nline2"]);
    assert_eq!(d.to_string(), "-[ RECORD 0 ]-\nname | line1\n     | line2\n");
}

#[test]
fn k_line_breaks_give_k_plus_one_lines() {
    let mut out = String::new();
    write_record_line(&mut out, "f", "a\nb\n\nc", 3);
    assert_eq!(out, "f   | a\n    | b\n    | \n    | c\n");
}

#[test]
fn trailing_line_break_adds_an_empty_line() {
    let mut out = String::new();
    write_record_line(&mut out, "f", "a\r\nb\n", 1);
    assert_eq!(out, "f | a\n  | b\n  | \n");
    let mut out = String::new();
    write_record_line(&mut out, "f", "a\n", 1);
    assert_eq!(out, "f | a\n  | \n");
    let mut out = String::new();
    write_record_line(&mut out, "f", "\n", 1);
    assert_eq!(out, "f | \n  | \n");
}

#[test]
fn trailing_line_break_in_full_rendering() {
    let d = named(&["x\n"]);
    assert_eq!(d.to_string(), "-[ RECORD 0 ]-\nname | x\n     | \n");
}

#[test]
fn empty_value_gives_one_line() {
    let mut out = String::new();
    write_record_line(&mut out, "name", "", 6);
    assert_eq!(out, "name   | \n");
}

#[test]
fn rendering_twice_is_stable() {
    let d = named(&["a\tb", "c\nd"]);
    assert_eq!(d.to_string(), d.to_string());
}

#[test]
fn one_line_mode_escapes_line_breaks() {
    let mut d = named(&["line1\nline2"]);
    d.format_value_in_one_line();
    assert_eq!(d.to_string(), "-[ RECORD 0 ]-\nname | line1\\nline2\n");
}

#[test]
fn one_line_mode_keeps_one_line_per_value() {
    let mut d = named(&["a\r\nb\n", ""]);
    d.format_value_in_one_line();
    assert_eq!(
        d.to_string(),
        "-[ RECORD 0 ]-\nname | a\\r\\nb\\n\n-[ RECORD 1 ]-\nname | \n"
    );
}

#[test]
fn one_line_mode_escapes_tabs_and_quotes() {
    let mut d = named(&["a\t\"b\""]);
    d.format_value_in_one_line();
    assert_eq!(d.to_string(), "-[ RECORD 0 ]-\nname | a\\t\\\"b\\\"\n");
}

#[test]
fn custom_record_head() {
    let mut d = named(&["x", "y"]);
    d.format_record_head(Box::new(Dashes));
    assert_eq!(d.to_string(), "--- 1 ---\nname | x\n--- 2 ---\nname | y\n");
}

#[test]
fn custom_value_formatter() {
    let mut d = named(&["abc"]);
    d.format_value(Box::new(Upper)).format_record_head(Box::new(Dashes));
    assert_eq!(d.to_string(), "--- 1 ---\nname | ABC\n");
}

#[test]
fn mismatched_record_is_refused() {
    assert!(ExpandedDisplay::new(vec![Broken]).is_none());
}

#[test]
fn from_rows_keeps_records() {
    let d = ExpandedDisplay::from_rows(
        strings(&["k", "value"]),
        vec![strings(&["1", "one"]), strings(&["2", ""])],
    );
    assert_eq!(
        d.to_string(),
        "-[ RECORD 0 ]-\nk     | 1\nvalue | one\n-[ RECORD 1 ]-\nk     | 2\nvalue | \n"
    );
}

#[test]
fn no_records_render_nothing() {
    let d = ExpandedDisplay::new(Vec::<Distribution>::new()).unwrap();
    assert_eq!(d.to_string(), "");
}

#[test]
fn header_labels_are_escaped() {
    let d = ExpandedDisplay::from_rows(strings(&["a\nb", "q"]), vec![strings(&["1", "2"])]);
    assert_eq!(d.to_string(), "-[ RECORD 0 ]-\na\\nb | 1\nq    | 2\n");
    assert_eq!(header_label("say \"hi\"\t"), "say \\\"hi\\\"\\t");
    assert_eq!(header_label("it's"), "it's");
}

#[test]
fn non_ascii_labels_pad_by_characters() {
    let d = ExpandedDisplay::from_rows(strings(&["é", "ab"]), vec![strings(&["1", "2"])]);
    assert_eq!(d.to_string(), "-[ RECORD 0 ]-\né  | 1\nab | 2\n");
}

#[test]
fn render_records_with_given_heads() {
    let out = render_records(
        &strings(&["id", "name"]),
        &strings(&["<first>", "<second>"]),
        &vec![strings(&["1", "a\nb"]), strings(&["2", ""])],
    );
    assert_eq!(out, "<first>\nid   | 1\nname | a\n     | b\n<second>\nid   | 2\nname | \n");
}

#[test]
fn split_lines_keeps_every_piece() {
    let cases: [(&str, &[&str]); 9] = [
        ("", &[""]),
        ("\n", &["", ""]),
        ("a", &["a"]),
        ("a\n", &["a", ""]),
        ("a\r\nb", &["a", "b"]),
        ("a\rb", &["a\rb"]),
        ("a\n\nb\n", &["a", "", "b", ""]),
        ("x\r", &["x\r"]),
        ("\r\n\r\n", &["", "", ""]),
    ];
    for (input, expected) in cases {
        assert_eq!(split_lines(input), strings(expected), "input {:?}", input);
    }
}

#[test]
fn widths_and_padding() {
    assert_eq!(max_label_width(&strings(&["ab", "é€x", ""])), 3);
    assert_eq!(max_label_width(&Vec::new()), 0);
    let mut out = String::from(">");
    push_padded(&mut out, "ab", 5);
    assert_eq!(out, ">ab   ");
    let mut out = String::new();
    push_padded(&mut out, "abcdef", 3);
    assert_eq!(out, "abcdef");
}

#[test]
fn decimal_numbers() {
    let mut out = String::new();
    push_decimal(&mut out, 0);
    push_decimal(&mut out, 7);
    push_decimal(&mut out, 1234567890);
    assert_eq!(out, "071234567890");
    assert_eq!(number_line(12), "-[ RECORD 12 ]-");
    assert_eq!(number_line(usize::MAX), format!("-[ RECORD {} ]-", usize::MAX));
}

#[test]
fn unquote_drops_outer_characters() {
    assert_eq!(unquote("\"abc\""), "abc");
    assert_eq!(unquote("\"\""), "");
    assert_eq!(unquote("x"), "");
}
