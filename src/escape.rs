//! Debug-style escaping, as std's formatting machinery does it.

use vstd::prelude::*;
use vstd::string::StrSliceExecFns;
use vstd::string::StringExecFns;

verus! {

/// What `format!("{:?}", s)` produces for a string with characters `s`: the
/// escaped characters between double quotes.
pub uninterp spec fn debug_str_of(s: Seq<char>) -> Seq<char>;

/// What `str::escape_debug` produces for a string with characters `s`.
pub uninterp spec fn escape_debug_of(s: Seq<char>) -> Seq<char>;

/// Relies on `<str as Debug>::fmt`, whose output depends on the characters alone.
#[verifier::external_body]
fn debug_quoted(s: &str) -> (r: String)
    ensures
        r@ == debug_str_of(s@),
{
    format!("{:?}", s)
}

/// No line feed and no carriage return occurs in `s`.
pub open spec fn no_line_breaks(s: Seq<char>) -> bool {
    forall|k: int| 0 <= k < s.len() ==> #[trigger] s[k] != '\n' && s[k] != '\r'
}

/// Relies on `str::escape_debug`, whose output depends on the characters alone
/// and writes `\n` and `\r` as the two-character escapes `\\n` and `\\r`.
#[verifier::external_body]
pub(crate) fn escape_debug(s: &str) -> (r: String)
    ensures
        r@ == escape_debug_of(s@),
        no_line_breaks(r@),
{
    s.escape_debug().to_string()
}

/// `q` without its first and last characters (empty when it has fewer than two).
pub open spec fn strip_quotes(q: Seq<char>) -> Seq<char> {
    if q.len() >= 2 {
        q.subrange(1, q.len() - 1)
    } else {
        Seq::empty()
    }
}

/// The label printed for a header name: its debug form without the quotes.
pub open spec fn label_of(h: Seq<char>) -> Seq<char> {
    strip_quotes(debug_str_of(h))
}

/// Drops the enclosing quote characters of a debug-formatted string.
pub fn unquote(q: &str) -> (r: String)
    ensures
        r@ == strip_quotes(q@),
{
    let n = q.unicode_len();
    if n >= 2 {
        String::from_str(q.substring_char(1, n - 1))
    } else {
        String::new()
    }
}

/// The label for a header name: escaped so that it fits on one line.
pub fn header_label(h: &str) -> (r: String)
    ensures
        r@ == label_of(h@),
{
    let q = debug_quoted(h);
    unquote(q.as_str())
}

} // verus!
