use crate::primitives::encoding::{json_peer_list, parse_peer_list};
use crate::text::{chars_of, decimal, occurs_at, push_decimal};
use vstd::prelude::*;
use vstd::string::{StrSliceExecFns, StringExecFns};
use vstd::utf8::{encode_utf8, is_char_boundary};

verus! {

// The node's HTTP interface: which route a request takes, the body that it
// carries, and the responses that the node writes. The application reads and
// writes the sockets.

/// The first position at or after `from` where `pat` occurs in `s`, or -1 when
/// there is none.
pub open spec fn find_from(s: Seq<char>, pat: Seq<char>, from: int) -> int
    decreases s.len() + 1 - from,
{
    if from < 0 || from + pat.len() > s.len() {
        -1
    } else if occurs_at(s, pat, from) {
        from
    } else {
        find_from(s, pat, from + 1)
    }
}

/// A position that `find_from` finds is one where the pattern occurs, at or
/// after `from`.
pub proof fn lemma_find_from_bounds(s: Seq<char>, pat: Seq<char>, from: int)
    ensures
        find_from(s, pat, from) >= 0 ==> from <= find_from(s, pat, from) && find_from(s, pat, from)
            + pat.len() <= s.len() && occurs_at(s, pat, find_from(s, pat, from)),
    decreases s.len() + 1 - from,
{
    if !(from < 0 || from + pat.len() > s.len()) && !occurs_at(s, pat, from) {
        lemma_find_from_bounds(s, pat, from + 1);
    }
}

/// The second piece when `s` is split at `pat`: the text after the first
/// occurrence of `pat` up to the next one, or to the end.
pub open spec fn second_piece(s: Seq<char>, pat: Seq<char>) -> Seq<char> {
    let start = find_from(s, pat, 0) + pat.len();
    let end = find_from(s, pat, start);
    s.subrange(start, if end < 0 { s.len() as int } else { end })
}

/// The text up to the first line feed, or all of it.
pub open spec fn first_line(s: Seq<char>) -> Seq<char> {
    let k = find_from(s, seq!['\n'], 0);
    if k < 0 {
        s
    } else {
        s.subrange(0, k)
    }
}

/// The position of the last line feed, or -1.
pub open spec fn last_line_feed(s: Seq<char>) -> int
    decreases s.len(),
{
    if s.len() == 0 {
        -1
    } else if s.last() == '\n' {
        s.len() - 1
    } else {
        last_line_feed(s.drop_last())
    }
}

/// The text after the last line feed, or all of it.
pub open spec fn last_line(s: Seq<char>) -> Seq<char> {
    s.subrange(last_line_feed(s) + 1, s.len() as int)
}

/// The characters that `char::is_whitespace` accepts (Unicode White_Space).
pub open spec fn is_whitespace(c: char) -> bool {
    let v = c as u32;
    (0x9 <= v <= 0xD) || v == 0x20 || v == 0x85 || v == 0xA0 || v == 0x1680 || (0x2000 <= v <= 0x200A)
        || v == 0x2028 || v == 0x2029 || v == 0x202F || v == 0x205F || v == 0x3000
}

/// The text without its leading white space.
pub open spec fn trim_start(s: Seq<char>) -> Seq<char>
    decreases s.len(),
{
    if s.len() > 0 && is_whitespace(s[0]) {
        trim_start(s.drop_first())
    } else {
        s
    }
}

/// The text without its trailing white space.
pub open spec fn trim_end(s: Seq<char>) -> Seq<char>
    decreases s.len(),
{
    if s.len() > 0 && is_whitespace(s.last()) {
        trim_end(s.drop_last())
    } else {
        s
    }
}

/// The text without white space at either end, as `str::trim` leaves it.
pub open spec fn trim(s: Seq<char>) -> Seq<char> {
    trim_end(trim_start(s))
}

/// Whether every character is an ASCII digit.
pub open spec fn all_digits(s: Seq<char>) -> bool {
    forall|i: int| 0 <= i < s.len() ==> '0' <= #[trigger] s[i] <= '9'
}

/// The number that a string of decimal digits writes.
pub open spec fn digits_value(s: Seq<char>) -> nat
    decreases s.len(),
{
    if s.len() == 0 {
        0
    } else {
        digits_value(s.drop_last()) * 10 + ((s.last() as u32) - 48) as nat
    }
}

/// The number that `str::parse` reads for an unsigned integer type, before the
/// check of its range: an optional `+`, then at least one decimal digit.
pub open spec fn parse_unsigned(s: Seq<char>) -> Option<nat> {
    let d = if s.len() > 0 && s[0] == '+' {
        s.drop_first()
    } else {
        s
    };
    if d.len() == 0 || !all_digits(d) {
        None
    } else {
        Some(digits_value(d))
    }
}

/// The length that a request declares: the `Content-Length` header's value.
pub open spec fn declared_length(body: Seq<char>) -> Option<nat> {
    parse_unsigned(trim(first_line(second_piece(body, "Content-Length: "@))))
}

/// Whether `parse_body` can read the body of `request`: it has a
/// `Content-Length` header whose value is a `usize`, and the last line has a
/// character boundary after that many bytes.
pub open spec fn body_readable(request: Seq<char>) -> bool {
    &&& find_from(request, "Content-Length: "@, 0) >= 0
    &&& declared_length(request) matches Some(n)
    &&& n <= usize::MAX
    &&& is_char_boundary(encode_utf8(last_line(request)), n as int)
}

fn find_position(hay: &Vec<char>, pat: &Vec<char>, from: usize) -> (r: Option<usize>)
    ensures
        r == (if find_from(hay@, pat@, from as int) < 0 {
            None::<usize>
        } else {
            Some(find_from(hay@, pat@, from as int) as usize)
        }),
{
    let n = hay.len();
    let m = pat.len();
    let mut i = from;
    loop
        invariant
            n == hay@.len(),
            m == pat@.len(),
            from <= i,
            find_from(hay@, pat@, from as int) == find_from(hay@, pat@, i as int),
        decreases n - i,
    {
        if i > n || m > n - i {
            return None;
        }
        let mut j: usize = 0;
        let mut matched = true;
        while j < m
            invariant
                n == hay@.len(),
                m == pat@.len(),
                i + m <= n,
                j <= m,
                matched ==> forall|t: int| 0 <= t < j ==> hay@[i + t] == pat@[t],
                !matched ==> !occurs_at(hay@, pat@, i as int) && m > 0,
            decreases m - j,
        {
            if hay[i + j] != pat[j] {
                matched = false;
                assert(hay@.subrange(i as int, i + m)[j as int] == hay@[i + j]);
            }
            j += 1;
        }
        if matched {
            assert(hay@.subrange(i as int, i + m) =~= pat@);
            return Some(i);
        }
        i = i + 1;
    }
}

fn is_whitespace_char(c: char) -> (r: bool)
    ensures
        r == is_whitespace(c),
{
    let v = c as u32;
    (0x9 <= v && v <= 0xD) || v == 0x20 || v == 0x85 || v == 0xA0 || v == 0x1680 || (0x2000 <= v && v
        <= 0x200A) || v == 0x2028 || v == 0x2029 || v == 0x202F || v == 0x205F || v == 0x3000
}

proof fn lemma_digits_value_prefix(s: Seq<char>, k: int)
    requires
        0 <= k <= s.len(),
    ensures
        digits_value(s.take(k)) <= digits_value(s),
    decreases s.len(),
{
    if k < s.len() {
        assert(s.drop_last().take(k) =~= s.take(k));
        lemma_digits_value_prefix(s.drop_last(), k);
    } else {
        assert(s.take(k) =~= s);
    }
}

/// The characters from `start` up to `end`.
fn slice_chars(v: &Vec<char>, start: usize, end: usize) -> (r: Vec<char>)
    requires
        start <= end <= v@.len(),
    ensures
        r@ == v@.subrange(start as int, end as int),
{
    let mut out: Vec<char> = Vec::new();
    let mut i = start;
    while i < end
        invariant
            start <= i <= end,
            end <= v@.len(),
            out@ == v@.subrange(start as int, i as int),
        decreases end - i,
    {
        out.push(v[i]);
        assert(v@.subrange(start as int, i + 1) =~= v@.subrange(start as int, i as int).push(v@[i as int]));
        i = i + 1;
    }
    out
}

/// The bounds of the text that `str::trim` leaves.
fn trim_range(t: &Vec<char>) -> (r: (usize, usize))
    ensures
        r.0 <= r.1 <= t@.len(),
        t@.subrange(r.0 as int, r.1 as int) == trim(t@),
{
    let n = t.len();
    let mut s: usize = 0;
    assert(t@.subrange(0, n as int) =~= t@);
    while s < n && is_whitespace_char(t[s])
        invariant
            s <= n,
            n == t@.len(),
            trim_start(t@) == trim_start(t@.subrange(s as int, n as int)),
        decreases n - s,
    {
        assert(t@.subrange(s as int, n as int).drop_first() =~= t@.subrange(s + 1, n as int));
        s = s + 1;
    }
    assert(trim_start(t@) == t@.subrange(s as int, n as int));
    let ghost u = t@.subrange(s as int, n as int);
    let mut e: usize = n;
    while e > s && is_whitespace_char(t[e - 1])
        invariant
            s <= e <= n,
            n == t@.len(),
            u == t@.subrange(s as int, n as int),
            trim_end(u) == trim_end(t@.subrange(s as int, e as int)),
        decreases e,
    {
        assert(t@.subrange(s as int, e as int).drop_last() =~= t@.subrange(s as int, e - 1));
        e = e - 1;
    }
    (s, e)
}

/// The value of the digits from `d` up to `e`, where they are all decimal digits
/// and their value is at most `limit`; `None` otherwise.
fn digits_up_to(t: &Vec<char>, d: usize, e: usize, limit: u128) -> (r: Option<u128>)
    requires
        d <= e <= t@.len(),
    ensures
        r == (if all_digits(t@.subrange(d as int, e as int)) && digits_value(
            t@.subrange(d as int, e as int),
        ) <= limit {
            Some(digits_value(t@.subrange(d as int, e as int)) as u128)
        } else {
            None::<u128>
        }),
{
    let ghost digits = t@.subrange(d as int, e as int);
    let mut value: u128 = 0;
    let mut i = d;
    while i < e
        invariant
            d <= i <= e,
            e <= t@.len(),
            digits == t@.subrange(d as int, e as int),
            forall|k: int| 0 <= k < i - d ==> '0' <= #[trigger] digits[k] <= '9',
            value == digits_value(digits.take(i - d)),
            value <= limit,
        decreases e - i,
    {
        proof {
            assert(digits.take(i - d + 1).drop_last() =~= digits.take(i - d));
            assert(digits.take(i - d + 1).last() == t@[i as int]);
            assert(digits[i - d] == t@[i as int]);
        }
        let c = t[i];
        if !('0' <= c && c <= '9') {
            assert(!all_digits(digits));
            return None;
        }
        let digit = (c as u32 - 48) as u128;
        let next = match value.checked_mul(10) {
            Some(v) => v.checked_add(digit),
            None => None,
        };
        let ok = match next {
            Some(v) => v <= limit,
            None => false,
        };
        if !ok {
            proof {
                lemma_digits_value_prefix(digits, i - d + 1);
            }
            return None;
        }
        value = next.unwrap();
        i = i + 1;
    }
    assert(digits.take(e - d) =~= digits);
    Some(value)
}

/// Trims the text and reads it as a `usize`, as `str::trim` and `str::parse`
/// do; `None` where `parse` returns an error.
fn parse_usize_trimmed(t: &Vec<char>) -> (r: Option<usize>)
    ensures
        r == (if parse_unsigned(trim(t@)) matches Some(v) && v <= usize::MAX {
            Some(parse_unsigned(trim(t@))->Some_0 as usize)
        } else {
            None::<usize>
        }),
{
    let (s, e) = trim_range(t);
    let ghost w = t@.subrange(s as int, e as int);
    let mut d = s;
    if d < e && t[d] == '+' {
        d = d + 1;
        assert(w.drop_first() =~= t@.subrange(d as int, e as int));
    } else {
        assert(w =~= t@.subrange(d as int, e as int));
    }
    if d == e {
        return None;
    }
    match digits_up_to(t, d, e, usize::MAX as u128) {
        Some(v) => Some(v as usize),
        None => None,
    }
}

/// The number that `str::parse` reads for a signed integer type, before the
/// check of its range: an optional `+` or `-`, then at least one decimal digit.
pub open spec fn parse_signed(s: Seq<char>) -> Option<int> {
    let negative = s.len() > 0 && s[0] == '-';
    let d = if s.len() > 0 && (s[0] == '+' || s[0] == '-') {
        s.drop_first()
    } else {
        s
    };
    if d.len() == 0 || !all_digits(d) {
        None
    } else if negative {
        Some(-(digits_value(d) as int))
    } else {
        Some(digits_value(d) as int)
    }
}

/// Whether `text`, trimmed, reads as a `usize`, as `str::trim` and
/// `str::parse::<usize>` read it.
pub open spec fn count_readable(text: Seq<char>) -> bool {
    parse_unsigned(trim(text)) matches Some(v) && v <= usize::MAX
}

/// The count that `text` reads as.
pub open spec fn count_value(text: Seq<char>) -> nat {
    parse_unsigned(trim(text))->Some_0
}

/// Whether `text`, trimmed, reads as an `i128`, as `str::trim` and
/// `str::parse::<i128>` read it.
pub open spec fn timestamp_readable(text: Seq<char>) -> bool {
    parse_signed(trim(text)) matches Some(v) && i128::MIN <= v <= i128::MAX
}

/// The timestamp that `text` reads as.
pub open spec fn timestamp_value(text: Seq<char>) -> int {
    parse_signed(trim(text))->Some_0
}

/// Reads a count, such as the number of nodes that the middleware reports, as
/// `str::trim` and `str::parse::<usize>` read it. The text must read as a count.
pub fn parse_count(text: &str) -> (r: usize)
    requires
        count_readable(text@),
    ensures
        r == count_value(text@),
{
    match try_parse_count(text) {
        Some(v) => v,
        None => 0,
    }
}

/// `parse_count` where the text reads as a count, `None` where it does not.
pub fn try_parse_count(text: &str) -> (r: Option<usize>)
    ensures
        r == (if count_readable(text@) {
            Some(count_value(text@) as usize)
        } else {
            None::<usize>
        }),
{
    parse_usize_trimmed(&chars_of(text))
}

/// Reads a timestamp, such as the body of a request for a timestamp's hash, as
/// `str::trim` and `str::parse::<i128>` read it. The text must read as a
/// timestamp.
pub fn parse_timestamp(text: &str) -> (r: i128)
    requires
        timestamp_readable(text@),
    ensures
        r == timestamp_value(text@),
{
    match try_parse_timestamp(text) {
        Some(v) => v,
        None => 0,
    }
}

/// `parse_timestamp` where the text reads as a timestamp, `None` where it does
/// not.
pub fn try_parse_timestamp(text: &str) -> (r: Option<i128>)
    ensures
        r == (if timestamp_readable(text@) {
            Some(timestamp_value(text@) as i128)
        } else {
            None::<i128>
        }),
{
    let t = chars_of(text);
    let (s, e) = trim_range(&t);
    let ghost w = t@.subrange(s as int, e as int);
    let mut d = s;
    let mut negative = false;
    if d < e && (t[d] == '+' || t[d] == '-') {
        negative = t[d] == '-';
        d = d + 1;
        assert(w.drop_first() =~= t@.subrange(d as int, e as int));
    } else {
        assert(w =~= t@.subrange(d as int, e as int));
    }
    if d == e {
        return None;
    }
    let limit: u128 = if negative {
        0x8000_0000_0000_0000_0000_0000_0000_0000u128
    } else {
        0x7FFF_FFFF_FFFF_FFFF_FFFF_FFFF_FFFF_FFFFu128
    };
    let ghost digits = t@.subrange(d as int, e as int);
    let r = match digits_up_to(&t, d, e, limit) {
        Some(v) => {
            if negative {
                if v == 0x8000_0000_0000_0000_0000_0000_0000_0000u128 {
                    Some(i128::MIN)
                } else {
                    Some(-(v as i128))
                }
            } else {
                Some(v as i128)
            }
        },
        None => {
            proof {
                if all_digits(digits) {
                    assert(digits_value(digits) > limit);
                }
            }
            None
        },
    };
    r
}

/// Reads the body of a request, or `None` where `parse_body` cannot.
fn read_body(body: &String) -> (r: Option<String>)
    ensures
        r is Some <==> body_readable(body@),
        r matches Some(text) ==> encode_utf8(text@) == encode_utf8(last_line(body@)).subrange(
            0,
            declared_length(body@)->Some_0 as int,
        ),
{
    let chars = chars_of(body.as_str());
    let n = chars.len();
    proof {
        reveal_strlit("Content-Length: ");
    }
    let marker = chars_of("Content-Length: ");
    let first = find_position(&chars, &marker, 0);
    proof {
        lemma_find_from_bounds(chars@, marker@, 0);
        lemma_find_from_bounds(chars@, marker@, find_from(chars@, marker@, 0) + marker@.len());
    }
    let start = match first {
        Some(f) => f + marker.len(),
        None => {
            return None;
        },
    };
    let end = match find_position(&chars, &marker, start) {
        Some(e) => e,
        None => n,
    };
    // The header's line.
    let line_feed = chars_of("\n");
    proof {
        reveal_strlit("\n");
        assert(line_feed@ =~= seq!['\n']);
    }
    let piece = slice_chars(&chars, start, end);
    assert(piece@ == second_piece(body@, "Content-Length: "@));
    proof {
        lemma_find_from_bounds(piece@, line_feed@, 0);
    }
    let line_end = match find_position(&piece, &line_feed, 0) {
        Some(k) => k,
        None => piece.len(),
    };
    let line = slice_chars(&piece, 0, line_end);
    assert(line@ == first_line(piece@));
    let content_len_int = match parse_usize_trimmed(&line) {
        Some(v) => v,
        None => {
            return None;
        },
    };
    // The last line.
    let mut k = n;
    assert(chars@.take(n as int) =~= chars@);
    while k > 0 && chars[k - 1] != '\n'
        invariant
            k <= n,
            n == chars@.len(),
            last_line_feed(chars@) == last_line_feed(chars@.take(k as int)),
        decreases k,
    {
        assert(chars@.take(k as int).drop_last() =~= chars@.take(k - 1));
        k = k - 1;
    }
    proof {
        if k > 0 {
            assert(chars@.take(k as int).last() == '\n');
        } else {
            assert(chars@.take(0).len() == 0);
        }
    }
    let last = body.as_str().substring_char(k, n);
    assert(last@ == last_line(body@));
    if !last.is_char_boundary(content_len_int) {
        return None;
    }
    let (head, _) = last.split_at(content_len_int);
    Some(head.to_owned())
}

/// Reads the body of an HTTP request: the declared `Content-Length` counts the
/// bytes of the body, which is taken from the start of the request's last line.
/// The request must be readable (`body_readable`).
pub fn parse_body(body: String) -> (r: String)
    requires
        body_readable(body@),
    ensures
        encode_utf8(r@) == encode_utf8(last_line(body@)).subrange(
            0,
            declared_length(body@)->Some_0 as int,
        ),
{
    match read_body(&body) {
        Some(text) => text,
        None => String::new(),
    }
}

/// `parse_body` where the request is readable, `None` where it is not.
pub fn try_parse_body(body: String) -> (r: Option<String>)
    ensures
        r is Some <==> body_readable(body@),
        r matches Some(text) ==> encode_utf8(text@) == encode_utf8(last_line(body@)).subrange(
            0,
            declared_length(body@)->Some_0 as int,
        ),
{
    read_body(&body)
}

/// Whether the bytes `s` begin with `prefix`.
pub open spec fn starts_with(s: Seq<u8>, prefix: Seq<u8>) -> bool {
    prefix.len() <= s.len() && s.take(prefix.len() as int) == prefix
}

fn bytes_start_with(s: &[u8], prefix: &[u8]) -> (r: bool)
    ensures
        r == starts_with(s@, prefix@),
{
    if prefix.len() > s.len() {
        return false;
    }
    let n = prefix.len();
    for i in 0..n
        invariant
            n == prefix@.len(),
            n <= s@.len(),
            forall|k: int| 0 <= k < i ==> s@[k] == prefix@[k],
    {
        if s[i] != prefix[i] {
            assert(s@.take(n as int)[i as int] == s@[i as int]);
            return false;
        }
    }
    assert(s@.take(n as int) =~= prefix@);
    true
}

/// The routes of the node's HTTP interface.
#[derive(Clone, Copy, Debug, PartialEq, Eq, Structural)]
pub enum Route {
    /// Store a record on the chain.
    StoreInformation,
    /// Get the data stored under a URL.
    GetInformationByUrl,
    /// Get the blocks of the chain.
    GetBlocks,
    /// Get the hash of the block with a given timestamp.
    GetHash,
    /// Anything else, which is answered with nothing.
    Unknown,
}

/// The route that a request takes, by the start of its request line.
pub open spec fn route_for(request: Seq<u8>) -> Route {
    if starts_with(request, encode_utf8("POST /store_information HTTP/1.1"@)) {
        Route::StoreInformation
    } else if starts_with(request, encode_utf8("POST /get_information_by_url HTTP/1.1"@)) {
        Route::GetInformationByUrl
    } else if starts_with(request, encode_utf8("GET /get_blocks HTTP/1.1"@)) {
        Route::GetBlocks
    } else if starts_with(request, encode_utf8("POST /get_hash HTTP/1.1"@)) {
        Route::GetHash
    } else {
        Route::Unknown
    }
}

/// The route that the request in `buffer` takes.
pub fn route_of(buffer: &[u8]) -> (r: Route)
    ensures
        r == route_for(buffer@),
{
    if bytes_start_with(buffer, "POST /store_information HTTP/1.1".as_bytes()) {
        Route::StoreInformation
    } else if bytes_start_with(buffer, "POST /get_information_by_url HTTP/1.1".as_bytes()) {
        Route::GetInformationByUrl
    } else if bytes_start_with(buffer, "GET /get_blocks HTTP/1.1".as_bytes()) {
        Route::GetBlocks
    } else if bytes_start_with(buffer, "POST /get_hash HTTP/1.1".as_bytes()) {
        Route::GetHash
    } else {
        Route::Unknown
    }
}

/// An HTTP response with the status line `status` (such as `200 OK`) and the
/// body, whose length in bytes is declared.
pub open spec fn http_response_text(status: Seq<char>, body: Seq<char>) -> Seq<char> {
    "HTTP/1.1 "@ + status + "\r\nContent-Length: "@ + decimal(encode_utf8(body).len()) + "\r\n\r\n"@
        + body
}

/// Writes an HTTP response.
pub fn http_response(status: &str, body: &str) -> (r: String)
    ensures
        r@ == http_response_text(status@, body@),
{
    let length = body.as_bytes().len();
    let mut response = String::from_str("HTTP/1.1 ");
    response.append(status);
    response.append("\r\nContent-Length: ");
    push_decimal(&mut response, length as u128);
    response.append("\r\n\r\n");
    response.append(body);
    response
}

/// The answer to a request for a timestamp's hash when no block has it.
pub open spec fn no_matching_hash() -> Seq<char> {
    "No matching hash"@
}

/// The text `No matching hash`.
pub fn no_matching_hash_text() -> (r: &'static str)
    ensures
        r@ == no_matching_hash(),
{
    "No matching hash"
}

/// What a node does when it starts, given the middleware's replies.
#[derive(Clone, Copy, Debug, PartialEq, Eq, Structural)]
pub enum StartAction {
    /// Take the chain from the network and connect to the peers.
    JoinNetwork,
    /// Start a new chain.
    StartNewChain,
    /// Do nothing.
    Stay,
}

/// The start of a node: it joins the network when the middleware accepted it
/// and there are peers, starts a new chain when it was accepted alone.
pub open spec fn start_action_for(registration_reply: Seq<char>, peers_reply: Seq<char>) -> StartAction {
    if registration_reply == "true"@ && peers_reply != "["@ {
        StartAction::JoinNetwork
    } else if registration_reply == "true"@ {
        StartAction::StartNewChain
    } else {
        StartAction::Stay
    }
}

/// Decides how a node starts from the middleware's reply to its registration
/// and its list of peers.
pub fn start_action(registration_reply: &str, peers_reply: &str) -> (r: StartAction)
    ensures
        r == start_action_for(registration_reply@, peers_reply@),
{
    let accepted = registration_reply.to_owned() == String::from_str("true");
    let alone = peers_reply.to_owned() == String::from_str("[");
    if accepted && !alone {
        StartAction::JoinNetwork
    } else if accepted {
        StartAction::StartNewChain
    } else {
        StartAction::Stay
    }
}

/// The hosts that the middleware lists in its reply to a request for the peers,
/// a JSON list of strings; `None` when the reply is not such a list.
pub fn peer_hosts(peers_reply: &str) -> (r: Option<Vec<String>>)
    ensures
        (r is Some) == (json_peer_list(peers_reply@) is Some),
        r matches Some(v) ==> v@.map_values(|h: String| h@) == json_peer_list(peers_reply@)->Some_0,
{
    parse_peer_list(peers_reply)
}

} // verus!
