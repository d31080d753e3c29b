use vstd::prelude::*;

verus! {

/// The error type of `serde_json`.
#[verifier::external_type_specification]
#[verifier::external_body]
pub struct ExJsonError(serde_json::Error);

/// The character of the URL-safe Base64 alphabet for the 6-bit value `v`.
pub open spec fn base64_url_digit(v: int) -> char {
    if v < 26 {
        (65 + v) as char
    } else if v < 52 {
        (97 + (v - 26)) as char
    } else if v < 62 {
        (48 + (v - 52)) as char
    } else if v == 62 {
        '-'
    } else {
        '_'
    }
}

/// URL-safe Base64 without padding: each group of three bytes gives four
/// characters, a last group of one or two bytes gives two or three.
pub open spec fn base64_url(s: Seq<u8>) -> Seq<char>
    decreases s.len(),
{
    let b0 = s[0] as int;
    let b1 = s[1] as int;
    let b2 = s[2] as int;
    if s.len() == 0 {
        seq![]
    } else if s.len() == 1 {
        seq![base64_url_digit(b0 / 4), base64_url_digit((b0 % 4) * 16)]
    } else if s.len() == 2 {
        seq![
            base64_url_digit(b0 / 4),
            base64_url_digit((b0 % 4) * 16 + b1 / 16),
            base64_url_digit((b1 % 16) * 4),
        ]
    } else {
        seq![
            base64_url_digit(b0 / 4),
            base64_url_digit((b0 % 4) * 16 + b1 / 16),
            base64_url_digit((b1 % 16) * 4 + b2 / 64),
            base64_url_digit(b2 % 64),
        ] + base64_url(s.skip(3))
    }
}

/// The 6-bit value of a character of the URL-safe Base64 alphabet.
pub open spec fn base64_url_value(c: char) -> int {
    if 'A' <= c <= 'Z' {
        c as int - 65
    } else if 'a' <= c <= 'z' {
        c as int - 71
    } else if '0' <= c <= '9' {
        c as int + 4
    } else if c == '-' {
        62
    } else {
        63
    }
}

/// URL-safe Base64 without padding, read back: each group of four characters
/// gives three bytes, a last group of two or three characters gives one or two.
pub open spec fn base64_url_decode(s: Seq<char>) -> Seq<u8>
    decreases s.len(),
{
    let v0 = base64_url_value(s[0]);
    let v1 = base64_url_value(s[1]);
    let v2 = base64_url_value(s[2]);
    let v3 = base64_url_value(s[3]);
    if s.len() < 2 {
        seq![]
    } else if s.len() == 2 {
        seq![(v0 * 4 + v1 / 16) as u8]
    } else if s.len() == 3 {
        seq![(v0 * 4 + v1 / 16) as u8, ((v1 % 16) * 16 + v2 / 4) as u8]
    } else {
        seq![
            (v0 * 4 + v1 / 16) as u8,
            ((v1 % 16) * 16 + v2 / 4) as u8,
            ((v2 % 4) * 64 + v3) as u8,
        ] + base64_url_decode(s.skip(4))
    }
}

proof fn lemma_base64_url_digit_value(v: int)
    requires
        0 <= v < 64,
    ensures
        base64_url_value(base64_url_digit(v)) == v,
{
}

proof fn lemma_base64_url_group(b0: int, b1: int, b2: int)
    requires
        0 <= b0 < 256,
        0 <= b1 < 256,
        0 <= b2 < 256,
    ensures
        (b0 / 4) * 4 + ((b0 % 4) * 16 + b1 / 16) / 16 == b0,
        (((b0 % 4) * 16 + b1 / 16) % 16) * 16 + ((b1 % 16) * 4 + b2 / 64) / 4 == b1,
        (((b1 % 16) * 4 + b2 / 64) % 4) * 64 + b2 % 64 == b2,
        0 <= (b0 % 4) * 16 + b1 / 16 < 64,
        0 <= (b1 % 16) * 4 + b2 / 64 < 64,
        0 <= b0 / 4 < 64,
        0 <= (b0 % 4) * 16 < 64,
        0 <= (b1 % 16) * 4 < 64,
        (b0 / 4) * 4 + ((b0 % 4) * 16) / 16 == b0,
        (((b0 % 4) * 16 + b1 / 16) % 16) * 16 + ((b1 % 16) * 4) / 4 == b1,
{
    assert((b0 / 4) * 4 + ((b0 % 4) * 16 + b1 / 16) / 16 == b0) by (nonlinear_arith)
        requires 0 <= b0 < 256, 0 <= b1 < 256;
    assert((((b0 % 4) * 16 + b1 / 16) % 16) * 16 + ((b1 % 16) * 4 + b2 / 64) / 4 == b1)
        by (nonlinear_arith)
        requires 0 <= b0 < 256, 0 <= b1 < 256, 0 <= b2 < 256;
    assert((((b1 % 16) * 4 + b2 / 64) % 4) * 64 + b2 % 64 == b2) by (nonlinear_arith)
        requires 0 <= b1 < 256, 0 <= b2 < 256;
    assert((b0 / 4) * 4 + ((b0 % 4) * 16) / 16 == b0) by (nonlinear_arith)
        requires 0 <= b0 < 256;
    assert((((b0 % 4) * 16 + b1 / 16) % 16) * 16 + ((b1 % 16) * 4) / 4 == b1) by (nonlinear_arith)
        requires 0 <= b0 < 256, 0 <= b1 < 256;
}

/// Base64 text read back gives the bytes that were written: `base64_url_decode`
/// undoes `base64_url`.
pub proof fn law_base64_url_decodes_back(s: Seq<u8>)
    ensures
        base64_url_decode(base64_url(s)) == s,
    decreases s.len(),
{
    if s.len() == 0 {
        assert(base64_url(s) =~= Seq::<char>::empty());
        assert(base64_url_decode(base64_url(s)) =~= s);
    } else {
        let b0 = s[0] as int;
        let b1 = s[1] as int;
        let b2 = s[2] as int;
        lemma_base64_url_group(b0, if s.len() > 1 { b1 } else { 0 }, if s.len() > 2 { b2 } else { 0 });
        lemma_base64_url_digit_value(b0 / 4);
        if s.len() == 1 {
            lemma_base64_url_digit_value((b0 % 4) * 16);
            assert(base64_url_decode(base64_url(s)) =~= s);
        } else if s.len() == 2 {
            lemma_base64_url_digit_value((b0 % 4) * 16 + b1 / 16);
            lemma_base64_url_digit_value((b1 % 16) * 4);
            assert(base64_url_decode(base64_url(s)) =~= s);
        } else {
            lemma_base64_url_digit_value((b0 % 4) * 16 + b1 / 16);
            lemma_base64_url_digit_value((b1 % 16) * 4 + b2 / 64);
            lemma_base64_url_digit_value(b2 % 64);
            law_base64_url_decodes_back(s.skip(3));
            let head = seq![
                base64_url_digit(b0 / 4),
                base64_url_digit((b0 % 4) * 16 + b1 / 16),
                base64_url_digit((b1 % 16) * 4 + b2 / 64),
                base64_url_digit(b2 % 64),
            ];
            let e = base64_url(s);
            assert(e == head + base64_url(s.skip(3)));
            assert(e.skip(4) =~= base64_url(s.skip(3)));
            assert(e[0] == head[0] && e[1] == head[1] && e[2] == head[2] && e[3] == head[3]);
            assert(base64_url_decode(e) =~= seq![s[0], s[1], s[2]] + s.skip(3));
            assert(seq![s[0], s[1], s[2]] + s.skip(3) =~= s);
        }
    }
}

/// `base64_url::encode`, which encodes with `base64::URL_SAFE_NO_PAD`.
#[verifier::external_body]
pub(crate) fn base64_url_encode(data: &[u8]) -> (r: String)
    ensures
        r@ == base64_url(data@),
{
    base64_url::encode(data)
}

/// The lower-case hexadecimal digit for `v < 16`.
pub open spec fn hex_lower_digit(v: int) -> char {
    if v < 10 {
        (48 + v) as char
    } else {
        (87 + v) as char
    }
}

/// How `serde_json` writes one character inside a string: `"` and `\` and the
/// control characters below U+0020 are escaped, all others stand as they are.
pub open spec fn json_escape_char(c: char) -> Seq<char> {
    if c == '"' {
        seq!['\\', '"']
    } else if c == '\\' {
        seq!['\\', '\\']
    } else if c == '\u{8}' {
        seq!['\\', 'b']
    } else if c == '\t' {
        seq!['\\', 't']
    } else if c == '\n' {
        seq!['\\', 'n']
    } else if c == '\u{c}' {
        seq!['\\', 'f']
    } else if c == '\r' {
        seq!['\\', 'r']
    } else if (c as u32) < 0x20 {
        seq!['\\', 'u', '0', '0', hex_lower_digit((c as int) / 16), hex_lower_digit((c as int) % 16)]
    } else {
        seq![c]
    }
}

/// The escaped contents of a JSON string.
pub open spec fn json_escape(s: Seq<char>) -> Seq<char>
    decreases s.len(),
{
    if s.len() == 0 {
        seq![]
    } else {
        json_escape(s.drop_last()) + json_escape_char(s.last())
    }
}

/// A string written as a JSON string literal.
pub open spec fn json_string(s: Seq<char>) -> Seq<char> {
    seq!['"'] + json_escape(s) + seq!['"']
}

/// `serde_json::to_string` on a string slice: a quoted, escaped JSON string.
/// Writing a `str` into a `Vec` does not fail, so the result is always `Ok`.
#[verifier::external_body]
pub(crate) fn json_quote(s: &str) -> (r: Result<String, serde_json::Error>)
    ensures
        r is Ok,
        r matches Ok(q) ==> q@ == json_string(s@),
{
    serde_json::to_string(s)
}

/// The list of byte strings that `serde_json::from_str::<Vec<Vec<u8>>>` reads
/// from `text`, or `None` where it returns an error.
pub uninterp spec fn json_node_list(text: Seq<char>) -> Option<Seq<Seq<u8>>>;

/// `serde_json::from_str::<Vec<Vec<u8>>>`: the list it reads, or `None` for its
/// error. The result is named `json_node_list`.
#[verifier::external_body]
pub(crate) fn parse_node_list(text: &str) -> (r: Option<Vec<Vec<u8>>>)
    ensures
        (r is Some) == (json_node_list(text@) is Some),
        r matches Some(v) ==> v@.map_values(|b: Vec<u8>| b@) == json_node_list(text@)->Some_0,
{
    match serde_json::from_str::<Vec<Vec<u8>>>(text) {
        Ok(v) => Some(v),
        Err(_) => None,
    }
}

/// The list of strings that `serde_json::from_str::<Vec<&str>>` reads from
/// `text`, or `None` where it returns an error.
pub uninterp spec fn json_peer_list(text: Seq<char>) -> Option<Seq<Seq<char>>>;

/// `serde_json::from_str::<Vec<&str>>`, each string then owned: the list it reads,
/// or `None` for its error. The result is named `json_peer_list`.
#[verifier::external_body]
pub(crate) fn parse_peer_list(text: &str) -> (r: Option<Vec<String>>)
    ensures
        (r is Some) == (json_peer_list(text@) is Some),
        r matches Some(v) ==> v@.map_values(|s: String| s@) == json_peer_list(text@)->Some_0,
{
    match serde_json::from_str::<Vec<&str>>(text) {
        Ok(v) => Some(v.iter().map(|s| s.to_string()).collect()),
        Err(_) => None,
    }
}

} // verus!
