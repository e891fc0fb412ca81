use vstd::prelude::*;
use vstd::string::StringSliceAdditionalSpecFns;

verus! {

pub const STATUS_OK: &'static str = "HTTP/1.1 200 OK";

pub const STATUS_NOT_FOUND: &'static str = "HTTP/1.1 404 NOT_FOUND";

pub const STATUS_INTERNAL_SERVER_ERROR: &'static str = "HTTP/1.1 500 INTERNAL_SERVER_ERROR";

/// The decimal digits of `n` in ASCII, most significant first, without
/// leading zeros.
pub open spec fn decimal(n: nat) -> Seq<u8>
    decreases n,
{
    if n < 10 {
        seq![(48 + n) as u8]
    } else {
        decimal(n / 10).push((48 + n % 10) as u8)
    }
}

/// What ends the status line and opens the length header:
/// `\r\nContent-Length: `.
pub open spec fn length_header() -> Seq<u8> {
    seq![13u8, 10, 67, 111, 110, 116, 101, 110, 116, 45, 76, 101, 110, 103, 116, 104, 58, 32]
}

/// What ends the length header and the head of the response: `\r\n\r\n`.
pub open spec fn blank_line() -> Seq<u8> {
    seq![13u8, 10, 13, 10]
}

/// A response: the status line, a length header that gives the body's length
/// in bytes, a blank line and the body as it is.
pub open spec fn response_bytes(status: Seq<u8>, body: Seq<u8>) -> Seq<u8> {
    status + length_header() + decimal(body.len()) + blank_line() + body
}

/// Appends the bytes of `tail` to `out`.
fn append_bytes(out: &mut Vec<u8>, tail: &[u8])
    ensures
        final(out)@ == old(out)@ + tail@,
{
    let mut i: usize = 0;
    while i < tail.len()
        invariant
            i <= tail@.len(),
            out@ == old(out)@ + tail@.take(i as int),
        decreases tail@.len() - i,
    {
        out.push(tail[i]);
        assert(tail@.take(i as int + 1) =~= tail@.take(i as int).push(tail@[i as int]));
        i = i + 1;
    }
    assert(tail@.take(tail@.len() as int) =~= tail@);
}

/// Appends the decimal digits of `n` to `out`.
fn append_decimal(out: &mut Vec<u8>, n: usize)
    ensures
        final(out)@ == old(out)@ + decimal(n as nat),
    decreases n,
{
    if n < 10 {
        out.push(48u8 + n as u8);
        assert(old(out)@ + decimal(n as nat) =~= old(out)@.push((48 + n) as u8));
    } else {
        append_decimal(out, n / 10);
        out.push(48u8 + (n % 10) as u8);
        assert(old(out)@ + decimal(n as nat) =~= (old(out)@ + decimal((n / 10) as nat)).push(
            (48 + n % 10) as u8,
        ));
    }
}

/// The response with status line `status` and body `body`.
pub fn response(status: &str, body: &[u8]) -> (r: Vec<u8>)
    ensures
        r@ == response_bytes(status.spec_bytes(), body@),
        r@.subrange(r@.len() - body@.len(), r@.len() as int) == body@,
{
    let mut out: Vec<u8> = Vec::new();
    append_bytes(&mut out, status.as_bytes());
    let header: Vec<u8> = vec![
        13u8, 10, 67, 111, 110, 116, 101, 110, 116, 45, 76, 101, 110, 103, 116, 104, 58, 32,
    ];
    append_bytes(&mut out, header.as_slice());
    append_decimal(&mut out, body.len());
    let blank: Vec<u8> = vec![13u8, 10, 13, 10];
    append_bytes(&mut out, blank.as_slice());
    let ghost head = out@;
    append_bytes(&mut out, body);
    assert(out@ =~= response_bytes(status.spec_bytes(), body@));
    assert(out@.subrange(head.len() as int, out@.len() as int) =~= body@);
    out
}

/// The response to a request that no route takes: status 404 and the
/// fallback body, unmodified.
pub fn not_found(body: &[u8]) -> (r: Vec<u8>)
    ensures
        r@ == response_bytes(STATUS_NOT_FOUND.spec_bytes(), body@),
        r@.subrange(r@.len() - body@.len(), r@.len() as int) == body@,
{
    response(STATUS_NOT_FOUND, body)
}

/// A successful response carrying `body`.
pub fn ok(body: &[u8]) -> (r: Vec<u8>)
    ensures
        r@ == response_bytes(STATUS_OK.spec_bytes(), body@),
        r@.subrange(r@.len() - body@.len(), r@.len() as int) == body@,
{
    response(STATUS_OK, body)
}

} // verus!
