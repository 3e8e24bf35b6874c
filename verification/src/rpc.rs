//! The JSON-RPC request that asks the network to simulate a transaction.
use vstd::prelude::*;

verus! {

/// The lowercase hexadecimal digit for `d` in `0..16`.
pub open spec fn hex_digit(d: int) -> char {
    if d < 10 {
        ((d + 48) as u8) as char
    } else {
        ((d - 10 + 97) as u8) as char
    }
}

/// How `serde_json` writes one character inside a string literal: quotation
/// mark and backslash behind a backslash; backspace, tab, line feed, form
/// feed and carriage return by their short escapes; every other character
/// below U+0020 as `\u00XX` with lowercase hexadecimal digits; every other
/// character as itself.
pub open spec fn escape_char(c: char) -> Seq<char> {
    if c == '"' {
        seq!['\\', '"']
    } else if c == '\\' {
        seq!['\\', '\\']
    } else if c == '\x08' {
        seq!['\\', 'b']
    } else if c == '\t' {
        seq!['\\', 't']
    } else if c == '\n' {
        seq!['\\', 'n']
    } else if c == '\x0c' {
        seq!['\\', 'f']
    } else if c == '\r' {
        seq!['\\', 'r']
    } else if (c as int) < 0x20 {
        seq!['\\', 'u', '0', '0', hex_digit((c as int) / 16), hex_digit((c as int) % 16)]
    } else {
        seq![c]
    }
}

/// The escaped characters of `s`, one after another.
pub open spec fn json_escape(s: Seq<char>) -> Seq<char>
    decreases s.len(),
{
    if s.len() == 0 {
        Seq::empty()
    } else {
        json_escape(s.drop_last()) + escape_char(s.last())
    }
}

/// The JSON string literal that `serde_json` writes for `s`.
pub open spec fn json_string_literal(s: Seq<char>) -> Seq<char> {
    seq!['"'] + json_escape(s) + seq!['"']
}

/// Serializes `s` with `serde_json::to_string`. For a `str` this cannot
/// fail: it writes through `serialize_str` into a `Vec<u8>`, a writer that
/// never errs, so the contract promises `Some`. The text is what
/// `format_escaped_str` writes: a quotation mark, each character escaped by
/// the `ESCAPE` table and `write_char_escape`, and a quotation mark.
#[verifier::external_body]
fn json_string_literal_of(s: &str) -> (r: Option<String>)
    ensures
        r is Some,
        r matches Some(t) ==> t@ == json_string_literal(s@),
{
    serde_json::to_string(s).ok()
}

/// What precedes the transaction's string literal in the request.
pub open spec fn payload_head() -> Seq<char> {
    "{\"id\":1,\"jsonrpc\":\"2.0\",\"method\":\"simulateTransaction\",\"params\":{\"transaction\":"@
}

/// What follows the transaction's string literal in the request.
pub open spec fn payload_tail() -> Seq<char> {
    "}}"@
}

/// The request text for simulating the base64 XDR transaction `xdr`.
pub open spec fn rpc_payload(xdr: Seq<char>) -> Seq<char> {
    payload_head() + json_string_literal(xdr) + payload_tail()
}

fn head() -> (s: &'static str)
    ensures
        s@ == payload_head(),
{
    "{\"id\":1,\"jsonrpc\":\"2.0\",\"method\":\"simulateTransaction\",\"params\":{\"transaction\":"
}

fn tail() -> (s: &'static str)
    ensures
        s@ == payload_tail(),
{
    "}}"
}

/// The request text around an already serialized string literal `literal`
/// for the transaction.
pub fn payload_around(literal: &str) -> (r: String)
    ensures
        r@ == payload_head() + literal@ + payload_tail(),
{
    let mut s = String::from_str(head());
    s.append(literal);
    s.append(tail());
    s
}

/// The JSON-RPC 2.0 request (id 1) that calls `simulateTransaction` with
/// `xdr` as its `transaction` parameter, as compact JSON text with the keys
/// in the order `serde_json`'s map keeps them.
pub fn build_rpc_payload(xdr: &str) -> (r: String)
    ensures
        r@ == rpc_payload(xdr@),
{
    match json_string_literal_of(xdr) {
        Some(lit) => payload_around(lit.as_str()),
        None => payload_around(""),
    }
}

/// The value of a hexadecimal digit of either case.
pub open spec fn hex_value(c: char) -> Option<int> {
    if '0' <= c && c <= '9' {
        Some(c as int - 48)
    } else if 'a' <= c && c <= 'f' {
        Some(c as int - 97 + 10)
    } else if 'A' <= c && c <= 'F' {
        Some(c as int - 65 + 10)
    } else {
        None
    }
}

/// The character that a short escape `\e` stands for.
pub open spec fn short_unescape(e: char) -> Option<char> {
    if e == '"' {
        Some('"')
    } else if e == '\\' {
        Some('\\')
    } else if e == '/' {
        Some('/')
    } else if e == 'b' {
        Some('\x08')
    } else if e == 'f' {
        Some('\x0c')
    } else if e == 'n' {
        Some('\n')
    } else if e == 'r' {
        Some('\r')
    } else if e == 't' {
        Some('\t')
    } else {
        None
    }
}

/// The code that the four hexadecimal digits of a `\uXXXX` escape in `s`
/// at `i` name.
pub open spec fn hex4_value(s: Seq<char>, i: int) -> Option<int> {
    match (hex_value(s[i]), hex_value(s[i + 1]), hex_value(s[i + 2]), hex_value(s[i + 3])) {
        (Some(a), Some(b), Some(c), Some(d)) => Some(((a * 16 + b) * 16 + c) * 16 + d),
        _ => None,
    }
}

/// `c` put in front of the value decoded from the rest.
pub open spec fn decoded_after(c: char, rest: Option<(Seq<char>, Seq<char>)>) -> Option<
    (Seq<char>, Seq<char>),
> {
    match rest {
        Some((d, r)) => Some((seq![c] + d, r)),
        None => None,
    }
}

/// How a JSON reader reads the rest of a string literal whose opening
/// quotation mark is already consumed: the decoded value and the text after
/// the closing quotation mark, or `None` when the literal is malformed or
/// unterminated. A `\uXXXX` escape must name a scalar value by itself
/// (surrogate pairs are not decoded).
pub open spec fn decode_string(s: Seq<char>) -> Option<(Seq<char>, Seq<char>)>
    decreases s.len(),
{
    if s.len() == 0 {
        None
    } else if s[0] == '"' {
        Some((Seq::empty(), s.drop_first()))
    } else if s[0] == '\\' {
        if s.len() < 2 {
            None
        } else if let Some(c) = short_unescape(s[1]) {
            decoded_after(c, decode_string(s.subrange(2, s.len() as int)))
        } else if s[1] == 'u' && s.len() >= 6 {
            match hex4_value(s, 2) {
                Some(code) => if (0 <= code < 0xD800) || (0xE000 <= code <= 0xFFFF) {
                    decoded_after(code as char, decode_string(s.subrange(6, s.len() as int)))
                } else {
                    None
                },
                None => None,
            }
        } else {
            None
        }
    } else {
        decoded_after(s[0], decode_string(s.drop_first()))
    }
}

proof fn lemma_escape_concat(a: Seq<char>, b: Seq<char>)
    ensures
        json_escape(a + b) == json_escape(a) + json_escape(b),
    decreases b.len(),
{
    if b.len() == 0 {
        assert(a + b =~= a);
        assert(json_escape(a) + json_escape(b) =~= json_escape(a));
    } else {
        lemma_escape_concat(a, b.drop_last());
        assert((a + b).drop_last() =~= a + b.drop_last());
        assert((a + b).last() == b.last());
        assert(json_escape(a + b) =~= json_escape(a) + json_escape(b));
    }
}

proof fn lemma_hex_digit_value(d: int)
    requires
        0 <= d < 16,
    ensures
        hex_value(hex_digit(d)) == Some(d),
{
    if d < 10 {
        assert(((d + 48) as u8) as char as int == d + 48);
    } else {
        assert(((d - 10 + 97) as u8) as char as int == d - 10 + 97);
    }
}

proof fn lemma_decode_escaped_char(c: char, t: Seq<char>)
    ensures
        decode_string(escape_char(c) + t) == decoded_after(c, decode_string(t)),
{
    let e = escape_char(c);
    let s = e + t;
    if e.len() == 2 {
        assert(s.subrange(2, s.len() as int) =~= t);
    } else if e.len() == 6 {
        let code = c as int;
        lemma_hex_digit_value(code / 16);
        lemma_hex_digit_value(code % 16);
        assert(s[2] == '0' && s[3] == '0');
        assert(hex4_value(s, 2) == Some(code));
        assert(s.subrange(6, s.len() as int) =~= t);
        assert(code as char == c);
    } else {
        assert(s.drop_first() =~= t);
    }
}

/// The transaction text travels intact: the JSON string literal that the
/// request writes for `xdr`, read by a JSON reader after its opening
/// quotation mark, decodes to exactly `xdr` and ends right before what
/// follows it.
pub proof fn lemma_escaped_string_decodes(xdr: Seq<char>, rest: Seq<char>)
    ensures
        decode_string(json_escape(xdr) + seq!['"'] + rest) == Some((xdr, rest)),
    decreases xdr.len(),
{
    if xdr.len() == 0 {
        assert(json_escape(xdr) + seq!['"'] + rest =~= seq!['"'] + rest);
        assert((seq!['"'] + rest).drop_first() =~= rest);
        assert(xdr =~= Seq::<char>::empty());
    } else {
        let head = xdr[0];
        let tail = xdr.drop_first();
        assert(xdr =~= seq![head] + tail);
        lemma_escape_concat(seq![head], tail);
        assert(seq![head].drop_last() =~= Seq::<char>::empty());
        assert(json_escape(Seq::<char>::empty()) == Seq::<char>::empty());
        assert(seq![head].last() == head);
        assert(json_escape(seq![head]) == json_escape(seq![head].drop_last()) + escape_char(head));
        assert(Seq::<char>::empty() + escape_char(head) =~= escape_char(head));
        assert(json_escape(seq![head]) =~= escape_char(head));
        lemma_escaped_string_decodes(tail, rest);
        let t = json_escape(tail) + seq!['"'] + rest;
        assert(json_escape(xdr) + seq!['"'] + rest =~= escape_char(head) + t);
        lemma_decode_escaped_char(head, t);
        assert(seq![head] + tail =~= xdr);
    }
}

} // verus!
