use vstd::prelude::*;
use crate::head::pairs_view;

verus! {

/// A response: status line, header fields and body.
pub struct Response {
    pub status: u16,
    pub reason: String,
    pub headers: Vec<(String, String)>,
    pub body: Vec<u8>,
}

/// The decimal digits of `n`, as ASCII bytes.
pub open spec fn decimal(n: nat) -> Seq<u8>
    decreases n,
{
    if n < 10 {
        seq![(48 + n) as u8]
    } else {
        decimal(n / 10).push((48 + n % 10) as u8)
    }
}

/// The UTF-8 bytes of some text.
pub open spec fn text_bytes(s: Seq<char>) -> Seq<u8> {
    vstd::utf8::encode_utf8(s)
}

/// Each header field as `name: value` and a line end, in order.
pub open spec fn fields_bytes(h: Seq<(Seq<char>, Seq<char>)>) -> Seq<u8>
    decreases h.len(),
{
    if h.len() == 0 {
        Seq::empty()
    } else {
        fields_bytes(h.drop_last()) + text_bytes(h.last().0) + seq![58u8, 32u8] + text_bytes(
            h.last().1,
        ) + seq![13u8, 10u8]
    }
}

/// `HTTP/1.1 `, then the status, the reason, the fields, a `Content-Length`
/// field for the body, a blank line and the body.
pub open spec fn response_bytes(
    status: nat,
    reason: Seq<char>,
    headers: Seq<(Seq<char>, Seq<char>)>,
    body: Seq<u8>,
) -> Seq<u8> {
    text_bytes("HTTP/1.1 "@) + decimal(status) + seq![32u8] + text_bytes(reason) + seq![13u8, 10u8]
        + fields_bytes(headers) + text_bytes("Content-Length: "@) + decimal(body.len()) + seq![
        13u8,
        10u8,
        13u8,
        10u8,
    ] + body
}

fn push_decimal(out: &mut Vec<u8>, n: usize)
    ensures
        final(out)@ == old(out)@ + decimal(n as nat),
    decreases n,
{
    if n >= 10 {
        push_decimal(out, n / 10);
    }
    out.push(48u8 + (n % 10) as u8);
    assert(out@ =~= old(out)@ + decimal(n as nat));
}

fn push_bytes(out: &mut Vec<u8>, b: &[u8])
    ensures
        final(out)@ == old(out)@ + b@,
{
    let mut i: usize = 0;
    while i < b.len()
        invariant
            i <= b@.len(),
            out@ == old(out)@ + b@.subrange(0, i as int),
        decreases b@.len() - i,
    {
        out.push(b[i]);
        i = i + 1;
        assert(out@ =~= old(out)@ + b@.subrange(0, i as int));
    }
    assert(b@.subrange(0, b@.len() as int) =~= b@);
}

fn push_text(out: &mut Vec<u8>, s: &str)
    ensures
        final(out)@ == old(out)@ + text_bytes(s@),
{
    push_bytes(out, s.as_bytes());
}

impl Response {
    pub open spec fn bytes_spec(&self) -> Seq<u8> {
        response_bytes(
            self.status as nat,
            self.reason@,
            pairs_view(self.headers@),
            self.body@,
        )
    }

    /// A response with a status, its reason phrase and a body, and no fields.
    pub fn new(status: u16, reason: &str, body: Vec<u8>) -> (r: Self)
        ensures
            r.status == status,
            r.reason@ == reason@,
            r.headers@.len() == 0,
            r.body@ == body@,
    {
        Response { status, reason: reason.to_owned(), headers: Vec::new(), body }
    }

    /// The fixed response written when a request cannot be served.
    pub fn bad_request() -> (r: Self)
        ensures
            r.status == 400,
            r.reason@ == "Bad Request"@,
            r.headers@.len() == 0,
            r.body@.len() == 0,
    {
        Response::new(400, "Bad Request", Vec::new())
    }

    /// Adds a header field at the end.
    pub fn add_header(&mut self, name: &str, value: &str)
        ensures
            final(self).status == old(self).status,
            final(self).reason == old(self).reason,
            final(self).body == old(self).body,
            final(self).headers@.len() == old(self).headers@.len() + 1,
            forall|i: int|
                0 <= i < old(self).headers@.len() ==> final(self).headers@[i] == old(self).headers@[i],
            final(self).headers@.last().0@ == name@,
            final(self).headers@.last().1@ == value@,
    {
        self.headers.push((name.to_owned(), value.to_owned()));
    }

    /// The bytes that go on the wire.
    pub fn into_bytes(self) -> (r: Vec<u8>)
        ensures
            r@ == self.bytes_spec(),
    {
        let mut out: Vec<u8> = Vec::new();
        push_text(&mut out, "HTTP/1.1 ");
        push_decimal(&mut out, self.status as usize);
        out.push(32u8);
        push_text(&mut out, self.reason.as_str());
        out.push(13u8);
        out.push(10u8);
        let ghost hv = pairs_view(self.headers@);
        let ghost start = out@;
        let mut i: usize = 0;
        while i < self.headers.len()
            invariant
                i <= self.headers@.len(),
                hv == pairs_view(self.headers@),
                out@ == start + fields_bytes(hv.subrange(0, i as int)),
            decreases self.headers@.len() - i,
        {
            push_text(&mut out, self.headers[i].0.as_str());
            out.push(58u8);
            out.push(32u8);
            push_text(&mut out, self.headers[i].1.as_str());
            out.push(13u8);
            out.push(10u8);
            proof {
                let sub = hv.subrange(0, i + 1);
                assert(sub.drop_last() =~= hv.subrange(0, i as int));
                assert(sub.last() == hv[i as int]);
            }
            i = i + 1;
            assert(out@ =~= start + fields_bytes(hv.subrange(0, i as int)));
        }
        assert(hv.subrange(0, hv.len() as int) =~= hv);
        push_text(&mut out, "Content-Length: ");
        push_decimal(&mut out, self.body.len());
        out.push(13u8);
        out.push(10u8);
        out.push(13u8);
        out.push(10u8);
        push_bytes(&mut out, self.body.as_slice());
        assert(out@ =~= self.bytes_spec());
        out
    }
}

} // verus!
