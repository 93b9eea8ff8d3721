//! Percent-encoding (the `urlencoding` crate) and JSON arrays (the `serde_json` crate).
use vstd::prelude::*;
use vstd::string::*;
use crate::text::int_decimal;

verus! {

/// A byte that percent-encoding keeps as it is: ASCII letters, digits, `-`, `.`, `_`, `~`.
pub open spec fn url_safe(b: u8) -> bool {
    (48 <= b <= 57) || (65 <= b <= 90) || (97 <= b <= 122) || b == 45 || b == 46 || b == 95 || b == 126
}

/// An uppercase hexadecimal digit.
pub open spec fn hex_upper(d: int) -> char {
    if d < 10 { (48 + d) as char } else { (55 + d) as char }
}

/// `bytes` percent-encoded: safe bytes as they are, every other byte as `%` and two
/// uppercase hexadecimal digits.
pub open spec fn url_encode_bytes(bytes: Seq<u8>) -> Seq<char>
    decreases bytes.len(),
{
    if bytes.len() == 0 {
        Seq::empty()
    } else {
        let b = bytes.last();
        url_encode_bytes(bytes.drop_last()) + if url_safe(b) {
            seq![b as char]
        } else {
            seq!['%', hex_upper(b as int / 16), hex_upper(b as int % 16)]
        }
    }
}

/// Percent-encodes the UTF-8 bytes of `s` with `urlencoding::encode`, which keeps ASCII
/// letters, digits and `-._~` and writes every other byte as `%XX` in uppercase
/// hexadecimal (as `encode_into` and `to_hex_digit` in its source do).
#[verifier::external_body]
pub(crate) fn url_encode(s: &str) -> (r: String)
    ensures
        r@ == url_encode_bytes(s.spec_bytes()),
{
    urlencoding::encode(s).into_owned()
}

/// A character that `serde_json` writes inside a string as it is: no control character,
/// quote or backslash.
pub open spec fn json_plain_char(c: char) -> bool {
    c as int >= 32 && c != '"' && c != '\\'
}

/// A lowercase hexadecimal digit.
pub open spec fn hex_lower(d: int) -> char {
    if d < 10 { (48 + d) as char } else { (87 + d) as char }
}

/// How `serde_json` writes `c` inside a string: a quote and a backslash behind a
/// backslash, backspace, tab, line feed, form feed and carriage return as `\b`, `\t`,
/// `\n`, `\f`, `\r`, any other control character as `\u00` and two lowercase
/// hexadecimal digits, and every other character as it is.
pub open spec fn json_escape_char(c: char) -> Seq<char> {
    if c == '"' {
        seq!['\\', '"']
    } else if c == '\\' {
        seq!['\\', '\\']
    } else if c as int == 8 {
        seq!['\\', 'b']
    } else if c as int == 9 {
        seq!['\\', 't']
    } else if c as int == 10 {
        seq!['\\', 'n']
    } else if c as int == 12 {
        seq!['\\', 'f']
    } else if c as int == 13 {
        seq!['\\', 'r']
    } else if (c as int) < 32 {
        seq!['\\', 'u', '0', '0', hex_lower(c as int / 16), hex_lower(c as int % 16)]
    } else {
        seq![c]
    }
}

/// The text `s` as `serde_json` writes it between the quotes of a string.
pub open spec fn json_escape(s: Seq<char>) -> Seq<char>
    decreases s.len(),
{
    if s.len() == 0 {
        Seq::empty()
    } else {
        json_escape(s.drop_last()) + json_escape_char(s.last())
    }
}

/// `items` as a compact JSON array of strings, when no item needs escaping.
pub open spec fn json_plain_array(items: Seq<Seq<char>>) -> Seq<char>
    decreases items.len(),
{
    if items.len() == 0 {
        "[]"@
    } else if items.len() == 1 {
        seq!['['] + seq!['"'] + items[0] + seq!['"'] + seq![']']
    } else {
        json_plain_array(items.drop_last()).drop_last() + seq![','] + seq!['"'] + items.last() + seq!['"'] + seq![']']
    }
}

/// What `serde_json::to_string` writes for a `Vec<String>`: `[`, each item escaped
/// between quotes, separated by commas, and `]`.
pub open spec fn json_string_array(items: Seq<Seq<char>>) -> Seq<char>
    decreases items.len(),
{
    if items.len() == 0 {
        "[]"@
    } else if items.len() == 1 {
        seq!['['] + seq!['"'] + json_escape(items[0]) + seq!['"'] + seq![']']
    } else {
        json_string_array(items.drop_last()).drop_last() + seq![','] + seq!['"'] + json_escape(items.last())
            + seq!['"'] + seq![']']
    }
}

/// Text with no character to escape is written as it is.
pub proof fn lemma_json_escape_plain(s: Seq<char>)
    requires
        forall|j: int| 0 <= j < s.len() ==> json_plain_char(#[trigger] s[j]),
    ensures
        json_escape(s) == s,
    decreases s.len(),
{
    if s.len() > 0 {
        assert(json_plain_char(s[s.len() - 1]));
        lemma_json_escape_plain(s.drop_last());
        assert(s.drop_last().push(s.last()) =~= s);
        assert(json_escape_char(s.last()) =~= seq![s.last()]);
    }
}

/// An array of strings with no character to escape is `[`, the items between quotes
/// separated by commas, and `]`.
pub proof fn lemma_json_string_array_plain(items: Seq<Seq<char>>)
    requires
        forall|i: int, j: int| 0 <= i < items.len() && 0 <= j < items[i].len() ==> json_plain_char(#[trigger] items[i][j]),
    ensures
        json_string_array(items) == json_plain_array(items),
    decreases items.len(),
{
    if items.len() > 0 {
        let last = items[items.len() - 1];
        assert forall|j: int| 0 <= j < last.len() implies json_plain_char(#[trigger] last[j]) by {
            assert(json_plain_char(items[items.len() - 1][j]));
        }
        lemma_json_escape_plain(last);
        if items.len() > 1 {
            let init = items.drop_last();
            assert forall|i: int, j: int| 0 <= i < init.len() && 0 <= j < init[i].len() implies json_plain_char(
                #[trigger] init[i][j],
            ) by {
                assert(init[i] == items[i]);
            }
            lemma_json_string_array_plain(init);
        }
    }
}

/// Writes `items` as JSON with `serde_json::to_string`, which never fails for strings:
/// the compact formatter writes `[`, the items separated by commas, and `]`, and each
/// string between quotes with the escapes of its `ESCAPE` table.
#[verifier::external_body]
pub(crate) fn json_strings(items: &Vec<String>) -> (r: String)
    ensures
        r@ == json_string_array(items@.map_values(|s: String| s@)),
{
    serde_json::to_string(items).unwrap()
}

/// `items` as a compact JSON array of numbers.
pub open spec fn json_int_array(items: Seq<i64>) -> Seq<char>
    decreases items.len(),
{
    if items.len() == 0 {
        "[]"@
    } else if items.len() == 1 {
        seq!['['] + int_decimal(items[0] as int) + seq![']']
    } else {
        json_int_array(items.drop_last()).drop_last() + seq![','] + int_decimal(items.last() as int) + seq![']']
    }
}

/// Writes `items` as JSON with `serde_json::to_string`, which writes integers in decimal
/// (through `itoa`) between `[`, commas and `]`, and never fails for them.
#[verifier::external_body]
pub(crate) fn json_ints(items: &Vec<i64>) -> (r: String)
    ensures
        r@ == json_int_array(items@),
{
    serde_json::to_string(items).unwrap()
}

} // verus!
