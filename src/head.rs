use vstd::prelude::*;
use vstd::string::StrSliceExecFns;
use vstd::utf8::{decode_utf8, valid_utf8};

verus! {

/// The request line and header fields of a request, as text.
pub struct RequestHead {
    pub method: String,
    pub path: String,
    pub version: String,
    pub headers: Vec<(String, String)>,
}

/// Why the head of a request could not be read.
#[derive(Debug, PartialEq, Eq, Structural)]
pub enum HeadError {
    /// The head is not valid UTF-8 text.
    Encoding,
    /// The text does not follow the request grammar.
    Protocol,
}

/// A head as plain sequences: method, path, version and the header fields.
pub struct HeadModel {
    pub method: Seq<char>,
    pub path: Seq<char>,
    pub version: Seq<char>,
    pub headers: Seq<(Seq<char>, Seq<char>)>,
}

pub open spec fn pairs_view(v: Seq<(String, String)>) -> Seq<(Seq<char>, Seq<char>)> {
    v.map_values(|p: (String, String)| (p.0@, p.1@))
}

pub open spec fn field_view(r: Option<(String, String)>) -> Option<(Seq<char>, Seq<char>)> {
    match r {
        Some(p) => Some((p.0@, p.1@)),
        None => None,
    }
}

impl RequestHead {
    pub open spec fn model(&self) -> HeadModel {
        HeadModel {
            method: self.method@,
            path: self.path@,
            version: self.version@,
            headers: pairs_view(self.headers@),
        }
    }
}

/// The first position in `[k, end)` that holds `c`, or `end`.
pub open spec fn find_in(s: Seq<char>, c: char, k: int, end: int) -> int
    decreases end - k,
{
    if k >= end {
        end
    } else if s[k] == c {
        k
    } else {
        find_in(s, c, k + 1, end)
    }
}

/// The first position at or after `k` where a `\r\n` starts, or the end.
pub open spec fn line_end(s: Seq<char>, k: int) -> int
    decreases s.len() - k,
{
    if k + 1 >= s.len() {
        s.len() as int
    } else if s[k] == '\r' && s[k + 1] == '\n' {
        k
    } else {
        line_end(s, k + 1)
    }
}

/// The first position in `[k, end)` that is not a space, or `end`.
pub open spec fn skip_spaces(s: Seq<char>, k: int, end: int) -> int
    decreases end - k,
{
    if k >= end {
        end
    } else if s[k] != ' ' {
        k
    } else {
        skip_spaces(s, k + 1, end)
    }
}

/// The header field in `s[k..end]`: a non-empty name before the first colon,
/// and after it the value with its leading spaces left out.
pub open spec fn field_spec(s: Seq<char>, k: int, end: int) -> Option<(Seq<char>, Seq<char>)> {
    let colon = find_in(s, ':', k, end);
    if colon == end || colon == k {
        None
    } else {
        Some((s.subrange(k, colon), s.subrange(skip_spaces(s, colon + 1, end), end)))
    }
}

/// The header fields of the lines from `k` on, one per line.
pub open spec fn fields_from(s: Seq<char>, k: int) -> Option<Seq<(Seq<char>, Seq<char>)>>
    decreases s.len() - k,
{
    if k < 0 || k >= s.len() {
        Some(Seq::empty())
    } else if line_end(s, k) < k {
        None
    } else {
        let e = line_end(s, k);
        let rest = if e + 2 < s.len() {
            fields_from(s, e + 2)
        } else {
            Some(Seq::empty())
        };
        match (field_spec(s, k, e), rest) {
            (Some(f), Some(rest)) => Some(seq![f] + rest),
            _ => None,
        }
    }
}

/// The request line `s[0..end]`: method, path and version, each non-empty,
/// separated by single spaces.
pub open spec fn request_line_spec(s: Seq<char>, end: int) -> Option<
    (Seq<char>, Seq<char>, Seq<char>),
> {
    let sp1 = find_in(s, ' ', 0, end);
    let sp2 = find_in(s, ' ', sp1 + 1, end);
    if sp1 == 0 || sp1 == end || sp2 == sp1 + 1 || sp2 == end || sp2 + 1 == end || find_in(
        s,
        ' ',
        sp2 + 1,
        end,
    ) != end {
        None
    } else {
        Some((s.subrange(0, sp1), s.subrange(sp1 + 1, sp2), s.subrange(sp2 + 1, end)))
    }
}

/// What the text of a head says: the request line, then one header field per
/// line, lines ending in `\r\n`.
pub open spec fn parse_head_spec(s: Seq<char>) -> Option<HeadModel> {
    let e = line_end(s, 0);
    match request_line_spec(s, e) {
        None => None,
        Some(rl) => match fields_from(s, e + 2) {
            None => None,
            Some(fields) => Some(
                HeadModel { method: rl.0, path: rl.1, version: rl.2, headers: fields },
            ),
        },
    }
}

/// Relies on String::from_utf8: it succeeds exactly on valid UTF-8, and the
/// text it gives holds the characters that the bytes encode.
#[verifier::external_body]
fn decode_text(bytes: Vec<u8>) -> (r: Option<String>)
    ensures
        r is Some <==> valid_utf8(bytes@),
        r matches Some(t) ==> t@ == decode_utf8(bytes@),
{
    String::from_utf8(bytes).ok()
}

/// Relies on str::chars, collected into a Vec: the characters of the text, in order.
#[verifier::external_body]
pub(crate) fn chars_of(s: &str) -> (r: Vec<char>)
    ensures
        r@ == s@,
{
    s.chars().collect()
}

proof fn lemma_find_in_bounds(s: Seq<char>, c: char, k: int, end: int)
    requires
        k <= end,
    ensures
        k <= find_in(s, c, k, end) <= end,
    decreases end - k,
{
    if k < end && s[k] != c {
        lemma_find_in_bounds(s, c, k + 1, end);
    }
}

proof fn lemma_line_end_bounds(s: Seq<char>, k: int)
    requires
        0 <= k <= s.len(),
    ensures
        k <= line_end(s, k) <= s.len(),
        line_end(s, k) < s.len() ==> line_end(s, k) + 2 <= s.len(),
    decreases s.len() - k,
{
    if k + 1 < s.len() && !(s[k] == '\r' && s[k + 1] == '\n') {
        lemma_line_end_bounds(s, k + 1);
    }
}

proof fn lemma_skip_spaces_bounds(s: Seq<char>, k: int, end: int)
    requires
        k <= end,
    ensures
        k <= skip_spaces(s, k, end) <= end,
    decreases end - k,
{
    if k < end && s[k] == ' ' {
        lemma_skip_spaces_bounds(s, k + 1, end);
    }
}

pub(crate) fn find_in_exec(cs: &Vec<char>, c: char, k: usize, end: usize) -> (r: usize)
    requires
        k <= end <= cs@.len(),
    ensures
        r == find_in(cs@, c, k as int, end as int),
        k <= r <= end,
{
    proof {
        lemma_find_in_bounds(cs@, c, k as int, end as int);
    }
    let mut i: usize = k;
    while i < end
        invariant
            k <= i <= end <= cs@.len(),
            find_in(cs@, c, k as int, end as int) == find_in(cs@, c, i as int, end as int),
        decreases end - i,
    {
        if cs[i] == c {
            return i;
        }
        i = i + 1;
    }
    i
}

fn line_end_exec(cs: &Vec<char>, k: usize) -> (r: usize)
    requires
        k <= cs@.len(),
    ensures
        r == line_end(cs@, k as int),
        k <= r <= cs@.len(),
        r < cs@.len() ==> r + 2 <= cs@.len(),
{
    proof {
        lemma_line_end_bounds(cs@, k as int);
    }
    let n = cs.len();
    let mut i: usize = k;
    while n > 0 && i < n - 1
        invariant
            k <= i <= n,
            n == cs@.len(),
            line_end(cs@, k as int) == line_end(cs@, i as int),
        decreases n - i,
    {
        if cs[i] == '\r' && cs[i + 1] == '\n' {
            return i;
        }
        i = i + 1;
    }
    n
}

fn skip_spaces_exec(cs: &Vec<char>, k: usize, end: usize) -> (r: usize)
    requires
        k <= end <= cs@.len(),
    ensures
        r == skip_spaces(cs@, k as int, end as int),
        k <= r <= end,
{
    proof {
        lemma_skip_spaces_bounds(cs@, k as int, end as int);
    }
    let mut i: usize = k;
    while i < end
        invariant
            k <= i <= end <= cs@.len(),
            skip_spaces(cs@, k as int, end as int) == skip_spaces(cs@, i as int, end as int),
        decreases end - i,
    {
        if cs[i] != ' ' {
            return i;
        }
        i = i + 1;
    }
    i
}

pub(crate) fn piece(text: &str, from: usize, to: usize) -> (r: String)
    requires
        from <= to <= text@.len(),
    ensures
        r@ == text@.subrange(from as int, to as int),
{
    text.substring_char(from, to).to_owned()
}

fn parse_field(text: &str, cs: &Vec<char>, k: usize, end: usize) -> (r: Option<(String, String)>)
    requires
        cs@ == text@,
        k <= end <= cs@.len(),
    ensures
        field_view(r) == field_spec(cs@, k as int, end as int),
{
    let colon = find_in_exec(cs, ':', k, end);
    if colon == end || colon == k {
        return None;
    }
    let start = skip_spaces_exec(cs, colon + 1, end);
    Some((piece(text, k, colon), piece(text, start, end)))
}

fn parse_request_line(text: &str, cs: &Vec<char>, end: usize) -> (r: Option<
    (String, String, String),
>)
    requires
        cs@ == text@,
        end <= cs@.len(),
    ensures
        match r {
            Some(t) => request_line_spec(cs@, end as int) == Some((t.0@, t.1@, t.2@)),
            None => request_line_spec(cs@, end as int) is None,
        },
{
    let sp1 = find_in_exec(cs, ' ', 0, end);
    if sp1 == 0 || sp1 == end {
        return None;
    }
    let sp2 = find_in_exec(cs, ' ', sp1 + 1, end);
    if sp2 == sp1 + 1 || sp2 == end || sp2 + 1 == end {
        return None;
    }
    if find_in_exec(cs, ' ', sp2 + 1, end) != end {
        return None;
    }
    Some((piece(text, 0, sp1), piece(text, sp1 + 1, sp2), piece(text, sp2 + 1, end)))
}

pub open spec fn prefixed(
    acc: Seq<(Seq<char>, Seq<char>)>,
    rest: Option<Seq<(Seq<char>, Seq<char>)>>,
) -> Option<Seq<(Seq<char>, Seq<char>)>> {
    match rest {
        Some(t) => Some(acc + t),
        None => None,
    }
}

fn parse_fields(text: &str, cs: &Vec<char>, start: usize) -> (r: Option<Vec<(String, String)>>)
    requires
        cs@ == text@,
        start <= cs@.len(),
    ensures
        match r {
            Some(v) => fields_from(cs@, start as int) == Some(pairs_view(v@)),
            None => fields_from(cs@, start as int) is None,
        },
{
    let n = cs.len();
    let mut acc: Vec<(String, String)> = Vec::new();
    let mut k: usize = start;
    while k < n
        invariant
            n == cs@.len(),
            cs@ == text@,
            start <= k <= n,
            fields_from(cs@, start as int) == prefixed(pairs_view(acc@), fields_from(cs@, k as int)),
        decreases n - k,
    {
        let e = line_end_exec(cs, k);
        let f = parse_field(text, cs, k, e);
        let ghost rest = fields_from(cs@, if e + 2 < n { e + 2 } else { n as int });
        assert(fields_from(cs@, n as int) == Some(Seq::<(Seq<char>, Seq<char>)>::empty()));
        match f {
            None => {
                return None;
            },
            Some(p) => {
                let ghost old_acc = pairs_view(acc@);
                acc.push(p);
                assert(pairs_view(acc@) =~= old_acc + seq![(p.0@, p.1@)]);
                let next = if e < n { e + 2 } else { n };
                proof {
                    if rest is Some {
                        let t = rest->0;
                        assert(old_acc + (seq![(p.0@, p.1@)] + t) =~= pairs_view(acc@) + t);
                    }
                }
                k = next;
            },
        }
    }
    assert(pairs_view(acc@) + Seq::<(Seq<char>, Seq<char>)>::empty() =~= pairs_view(acc@));
    Some(acc)
}

/// Reads the text of a head: the request line, then one header field per line.
pub fn parse_head_text(text: &str) -> (r: Option<RequestHead>)
    ensures
        match r {
            Some(h) => parse_head_spec(text@) == Some(h.model()),
            None => parse_head_spec(text@) is None,
        },
{
    let cs = chars_of(text);
    let e = line_end_exec(&cs, 0);
    let line = parse_request_line(text, &cs, e);
    match line {
        None => None,
        Some((method, path, version)) => {
            let start = if e < cs.len() { e + 2 } else { cs.len() };
            proof {
                if e >= cs@.len() {
                    assert(fields_from(cs@, e + 2) == Some(Seq::<(Seq<char>, Seq<char>)>::empty()));
                }
            }
            match parse_fields(text, &cs, start) {
                None => None,
                Some(headers) => Some(RequestHead { method, path, version, headers }),
            }
        },
    }
}

/// What decoding and reading the head bytes gives: an encoding error unless
/// they are UTF-8, a protocol error unless the text follows the grammar.
pub open spec fn head_result(bytes: Seq<u8>) -> Result<HeadModel, HeadError> {
    if !valid_utf8(bytes) {
        Err(HeadError::Encoding)
    } else {
        match parse_head_spec(decode_utf8(bytes)) {
            Some(m) => Ok(m),
            None => Err(HeadError::Protocol),
        }
    }
}

/// Decodes the head bytes as text and reads the request line and header fields.
pub fn parse_head(bytes: Vec<u8>) -> (r: Result<RequestHead, HeadError>)
    ensures
        match r {
            Ok(h) => head_result(bytes@) == Ok::<HeadModel, HeadError>(h.model()),
            Err(e) => head_result(bytes@) == Err::<HeadModel, HeadError>(e),
        },
{
    match decode_text(bytes) {
        None => Err(HeadError::Encoding),
        Some(text) => match parse_head_text(text.as_str()) {
            Some(h) => Ok(h),
            None => Err(HeadError::Protocol),
        },
    }
}

} // verus!
