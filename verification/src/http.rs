//! The demonstration server's replies: which canned page answers a request
//! line, and the text of the response. The pool knows nothing of these.

use crate::error::{decimal, decimal_string};
use vstd::prelude::*;
use vstd::string::*;

verus! {

/// The byte that ends a field of a request line.
pub const SPACE: u8 = 32;

/// How long the answer to the slow request is held back, in seconds.
pub const SLOW_PAUSE_SECS: u64 = 5;

/// The first `count` fields of `line`, joined with nothing between them.
/// Every space ends a field, so two spaces in a row hold an empty field.
pub open spec fn joined_fields(line: Seq<u8>, count: nat) -> Seq<u8>
    decreases line.len(),
{
    if count == 0 || line.len() == 0 {
        Seq::empty()
    } else if line[0] == SPACE {
        joined_fields(line.skip(1), (count - 1) as nat)
    } else {
        seq![line[0]] + joined_fields(line.skip(1), count)
    }
}

/// The request line whose answer is held back.
pub open spec fn slow_request_line() -> Seq<u8> {
    "GET /sleep HTTP/1.1".spec_bytes()
}

/// What the server does with one request.
pub struct Reply {
    /// The status line of the response.
    pub status_line: &'static str,
    /// The file whose contents are the body of the response.
    pub filename: &'static str,
    /// The name under which the request is logged.
    pub path: Vec<u8>,
    /// How many seconds to wait before answering.
    pub pause_secs: u64,
}

/// Joins the first `count` space-separated fields of `line`.
pub fn first_fields(line: &[u8], count: usize) -> (out: Vec<u8>)
    ensures
        out@ == joined_fields(line@, count as nat),
{
    let mut out: Vec<u8> = Vec::new();
    let mut left: usize = count;
    let mut i: usize = 0;
    proof {
        assert(line@.skip(0) =~= line@);
        assert(out@ + joined_fields(line@, count as nat) =~= joined_fields(line@, count as nat));
    }
    while i < line.len() && left > 0
        invariant
            i <= line@.len(),
            joined_fields(line@, count as nat) == out@ + joined_fields(
                line@.skip(i as int),
                left as nat,
            ),
        decreases line@.len() - i,
    {
        let byte = line[i];
        proof {
            let rest = line@.skip(i as int);
            assert(rest.skip(1) =~= line@.skip(i + 1));
            assert(rest[0] == byte);
            assert(out@ + (seq![byte] + joined_fields(rest.skip(1), left as nat)) =~= out@.push(
                byte,
            ) + joined_fields(rest.skip(1), left as nat));
        }
        if byte == SPACE {
            left -= 1;
        } else {
            out.push(byte);
        }
        i += 1;
    }
    proof {
        assert(out@ + Seq::<u8>::empty() =~= out@);
    }
    out
}

/// Whether two byte strings are equal.
pub fn same_bytes(a: &[u8], b: &[u8]) -> (same: bool)
    ensures
        same == (a@ == b@),
{
    if a.len() != b.len() {
        return false;
    }
    let mut i: usize = 0;
    while i < a.len()
        invariant
            i <= a@.len(),
            a@.len() == b@.len(),
            forall|j: int| 0 <= j < i ==> a@[j] == b@[j],
        decreases a@.len() - i,
    {
        if a[i] != b[i] {
            return false;
        }
        i += 1;
    }
    proof {
        assert(a@ =~= b@);
    }
    true
}

/// Decides the reply to a request line. Every request is answered with the
/// same page under the same status. The slow request is held back and
/// logged as `GET /sleep`; any other is answered at once and logged under
/// its first two fields.
pub fn route(request_line: &[u8]) -> (reply: Reply)
    ensures
        reply.status_line@ == "HTTP/1.1 200 OK"@,
        reply.filename@ == "hello.html"@,
        request_line@ == slow_request_line() ==> reply.pause_secs == SLOW_PAUSE_SECS
            && reply.path@ == "GET /sleep".spec_bytes(),
        request_line@ != slow_request_line() ==> reply.pause_secs == 0 && reply.path@
            == joined_fields(request_line@, 2),
{
    if same_bytes(request_line, "GET /sleep HTTP/1.1".as_bytes()) {
        Reply {
            status_line: "HTTP/1.1 200 OK",
            filename: "hello.html",
            path: "GET /sleep".as_bytes_vec(),
            pause_secs: SLOW_PAUSE_SECS,
        }
    } else {
        Reply {
            status_line: "HTTP/1.1 200 OK",
            filename: "hello.html",
            path: first_fields(request_line, 2),
            pause_secs: 0,
        }
    }
}

/// The text of a response: the status line, the length of the body in
/// bytes as its only header, an empty line, and the body.
pub open spec fn response_text(status_line: &str, contents: &str) -> Seq<char> {
    status_line@ + "\r\nContent-Length: "@ + decimal(contents.spec_bytes().len()) + "\r\n\r\n"@
        + contents@
}

/// Writes the response that carries `contents` under `status_line`.
pub fn response(status_line: &str, contents: &str) -> (r: String)
    ensures
        r@ == response_text(status_line, contents),
{
    let length = decimal_string(contents.as_bytes().len());
    let mut r = String::from_str(status_line);
    r.append("\r\nContent-Length: ");
    r.append(length.as_str());
    r.append("\r\n\r\n");
    r.append(contents);
    proof {
        assert(r@ =~= response_text(status_line, contents));
    }
    r
}

} // verus!
