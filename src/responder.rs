//! Answers to media requests: full content, partial content or an error,
//! from a file's length, the request's range and the bytes that were read.

use vstd::prelude::*;
use vstd::string::*;

use crate::media::{content_type_for, media_type_of, PathStyle};
use crate::range::{start_fits, parse_range, range_at, range_header_split, recognised, ByteRange};
use crate::text::{decimal, push_decimal};

verus! {

/// The whole file follows.
pub const STATUS_OK: u16 = 200;

/// The requested interval follows.
pub const STATUS_PARTIAL_CONTENT: u16 = 206;

/// Unknown identifier, or no readable file behind it.
pub const STATUS_NOT_FOUND: u16 = 404;

/// The requested interval is empty or lies outside the file.
pub const STATUS_RANGE_NOT_SATISFIABLE: u16 = 416;

/// Opening, seeking or reading failed, or the read came back short.
pub const STATUS_INTERNAL_ERROR: u16 = 500;

/// What to read of a file to answer a request.
#[derive(Clone, Copy, Debug, PartialEq, Eq, Structural)]
pub enum ReadPlan {
    /// The whole file, `total_length` bytes.
    Whole { total_length: u64 },
    /// The bytes of a satisfiable interval.
    Part { range: ByteRange },
    /// Nothing: the requested interval is empty or outside the file.
    Unsatisfiable { total_length: u64 },
}

impl ReadPlan {
    /// Where the read starts.
    pub open spec fn spec_offset(&self) -> u64 {
        match *self {
            ReadPlan::Part { range } => range.start,
            _ => 0,
        }
    }

    /// How many bytes the read must yield.
    pub open spec fn spec_length(&self) -> nat {
        match *self {
            ReadPlan::Whole { total_length } => total_length as nat,
            ReadPlan::Part { range } => (range.end_inclusive - range.start + 1) as nat,
            ReadPlan::Unsatisfiable { .. } => 0,
        }
    }

    /// The plan is one that `plan_read` can return.
    pub open spec fn wf(&self) -> bool {
        match *self {
            ReadPlan::Part { range } => range.satisfiable(),
            _ => true,
        }
    }

    /// Where the read starts.
    pub fn offset(&self) -> (r: u64)
        ensures
            r == self.spec_offset(),
    {
        match *self {
            ReadPlan::Part { range } => range.start,
            _ => 0,
        }
    }

    /// How many bytes the read must yield.
    pub fn length(&self) -> (r: u64)
        requires
            self.wf(),
        ensures
            r == self.spec_length(),
    {
        match *self {
            ReadPlan::Whole { total_length } => total_length,
            ReadPlan::Part { range } => range.len(),
            ReadPlan::Unsatisfiable { .. } => 0,
        }
    }
}

/// The plan for a file of `total_length` bytes and the interval a request
/// asked for, if any.
pub open spec fn plan_for(total_length: u64, range: Option<ByteRange>) -> ReadPlan {
    match range {
        None => ReadPlan::Whole { total_length },
        Some(r) => if r.satisfiable() && r.total_length == total_length {
            ReadPlan::Part { range: r }
        } else {
            ReadPlan::Unsatisfiable { total_length }
        },
    }
}

/// What to read of a file of `total_length` bytes: all of it when no
/// interval was asked for, the interval when it lies inside the file, and
/// nothing when it does not.
pub fn plan_read(total_length: u64, range: Option<ByteRange>) -> (r: ReadPlan)
    ensures
        r == plan_for(total_length, range),
        r.wf(),
{
    match range {
        None => ReadPlan::Whole { total_length },
        Some(b) => if b.is_satisfiable() && b.total_length == total_length {
            ReadPlan::Part { range: b }
        } else {
            ReadPlan::Unsatisfiable { total_length }
        },
    }
}

/// What to read of a file of `total_length` bytes for a request that
/// carried `range_header`, if any.
pub fn plan_request(total_length: u64, range_header: Option<&str>) -> (r: ReadPlan)
    ensures
        r.wf(),
        match range_header {
            None => r == (ReadPlan::Whole { total_length }),
            Some(h) => {
                &&& !recognised(h@) ==> r == (ReadPlan::Whole { total_length })
                &&& forall|k: int|
                    range_header_split(h@, k) && start_fits(h@, k) ==> r == plan_for(
                        total_length,
                        Some(range_at(h@, k, total_length)),
                    )
            },
        },
{
    let range = parse_range(range_header, total_length);
    plan_read(total_length, range)
}

/// A response: status, header fields in order, and body.
pub struct HttpResponse {
    pub status: u16,
    pub headers: Vec<(String, String)>,
    pub body: Vec<u8>,
}

/// The header fields as pairs of character sequences.
pub open spec fn fields_view(h: Seq<(String, String)>) -> Seq<(Seq<char>, Seq<char>)> {
    h.map_values(|f: (String, String)| (f.0@, f.1@))
}

impl View for HttpResponse {
    type V = (u16, Seq<(Seq<char>, Seq<char>)>, Seq<u8>);

    open spec fn view(&self) -> (u16, Seq<(Seq<char>, Seq<char>)>, Seq<u8>) {
        (self.status, fields_view(self.headers@), self.body@)
    }
}

/// The cache directive sent with media: the content of a local file is taken
/// not to change while it is played.
pub open spec fn cache_directive() -> Seq<char> {
    "public, max-age=31536000"@
}

/// The value of `Content-Range` for a served interval.
pub open spec fn content_range_of(r: ByteRange) -> Seq<char> {
    "bytes "@ + decimal(r.start as nat) + "-"@ + decimal(r.end_inclusive as nat) + "/"@ + decimal(
        r.total_length as nat,
    )
}

/// The fields of an error answer: range requests stay advertised.
pub open spec fn error_fields() -> Seq<(Seq<char>, Seq<char>)> {
    seq![("Accept-Ranges"@, "bytes"@)]
}

/// The fields of a successful answer with a body of `length` bytes of media type `ct`.
pub open spec fn content_fields(ct: Seq<char>, length: nat) -> Seq<(Seq<char>, Seq<char>)> {
    seq![
        ("Content-Type"@, ct),
        ("Content-Length"@, decimal(length)),
        ("Accept-Ranges"@, "bytes"@),
        ("Cache-Control"@, cache_directive()),
    ]
}

/// The answer to a request for the file at `path` (a path of style
/// `style`), planned as `plan`, when
/// the read gave `data` (`None` when it failed).
pub open spec fn response_for(
    path: Seq<char>,
    style: PathStyle,
    plan: ReadPlan,
    data: Option<Seq<u8>>,
) -> (
    u16,
    Seq<(Seq<char>, Seq<char>)>,
    Seq<u8>,
) {
    match plan {
        ReadPlan::Unsatisfiable { total_length } => (
            STATUS_RANGE_NOT_SATISFIABLE,
            seq![
                ("Content-Range"@, "bytes */"@ + decimal(total_length as nat)),
                ("Accept-Ranges"@, "bytes"@),
            ],
            Seq::<u8>::empty(),
        ),
        _ => match data {
            Some(d) => if d.len() == plan.spec_length() {
                match plan {
                    ReadPlan::Part { range } => (
                        STATUS_PARTIAL_CONTENT,
                        content_fields(media_type_of(path, style), d.len()).push(
                            ("Content-Range"@, content_range_of(range)),
                        ),
                        d,
                    ),
                    _ => (STATUS_OK, content_fields(media_type_of(path, style), d.len()), d),
                }
            } else {
                (STATUS_INTERNAL_ERROR, error_fields(), Seq::<u8>::empty())
            },
            None => (STATUS_INTERNAL_ERROR, error_fields(), Seq::<u8>::empty()),
        },
    }
}

fn field(name: &str, value: String) -> (r: (String, String))
    ensures
        r.0@ == name@,
        r.1@ == value@,
{
    (String::from_str(name), value)
}

fn decimal_string(n: u64) -> (r: String)
    ensures
        r@ == decimal(n as nat),
{
    let mut s = String::new();
    push_decimal(&mut s, n);
    proof {
        assert(Seq::<char>::empty() + decimal(n as nat) =~= decimal(n as nat));
    }
    s
}

/// The answer to a request for an identifier or a file that is not there.
pub fn not_found() -> (r: HttpResponse)
    ensures
        r@ == (STATUS_NOT_FOUND, error_fields(), Seq::<u8>::empty()),
{
    error_response(STATUS_NOT_FOUND)
}

fn error_response(status: u16) -> (r: HttpResponse)
    ensures
        r@ == (status, error_fields(), Seq::<u8>::empty()),
{
    proof {
        reveal_strlit("Accept-Ranges");
        reveal_strlit("bytes");
    }
    let mut headers: Vec<(String, String)> = Vec::new();
    headers.push(field("Accept-Ranges", String::from_str("bytes")));
    let r = HttpResponse { status, headers, body: Vec::new() };
    proof {
        assert(fields_view(r.headers@) =~= error_fields());
        assert(r.body@ =~= Seq::<u8>::empty());
    }
    r
}

/// The answer to a request for the file at `path`, planned as `plan`, once
/// the read is done: `data` holds the bytes read, or is `None` when opening,
/// seeking or reading failed. A read that came back short (a file that is
/// still being written, or was cut) is a failure too: the answer is then an
/// internal error, never a truncated partial answer.
pub fn respond(
    path: &str,
    style: PathStyle,
    plan: &ReadPlan,
    data: Option<Vec<u8>>,
) -> (r: HttpResponse)
    requires
        plan.wf(),
    ensures
        r@ == response_for(
            path@,
            style,
            *plan,
            match data {
                Some(d) => Some(d@),
                None => None,
            },
        ),
{
    proof {
        reveal_strlit("Content-Range");
        reveal_strlit("Content-Type");
        reveal_strlit("Content-Length");
        reveal_strlit("Accept-Ranges");
        reveal_strlit("Cache-Control");
        reveal_strlit("bytes");
        reveal_strlit("bytes */");
        reveal_strlit("bytes ");
        reveal_strlit("-");
        reveal_strlit("/");
        reveal_strlit("public, max-age=31536000");
    }
    if let ReadPlan::Unsatisfiable { total_length } = *plan {
        let mut v = String::from_str("bytes */");
        push_decimal(&mut v, total_length);
        let mut headers: Vec<(String, String)> = Vec::new();
        headers.push(field("Content-Range", v));
        headers.push(field("Accept-Ranges", String::from_str("bytes")));
        let r = HttpResponse { status: STATUS_RANGE_NOT_SATISFIABLE, headers, body: Vec::new() };
        proof {
            assert(fields_view(r.headers@) =~= response_for(path@, style, *plan, None).1);
            assert(r.body@ =~= Seq::<u8>::empty());
        }
        return r;
    }
    let body = match data {
        None => {
            return error_response(STATUS_INTERNAL_ERROR);
        },
        Some(d) => d,
    };
    let expected = plan.length();
    if body.len() as u64 != expected {
        return error_response(STATUS_INTERNAL_ERROR);
    }
    let mut headers: Vec<(String, String)> = Vec::new();
    headers.push(field("Content-Type", String::from_str(content_type_for(path, style))));
    headers.push(field("Content-Length", decimal_string(body.len() as u64)));
    headers.push(field("Accept-Ranges", String::from_str("bytes")));
    headers.push(field("Cache-Control", String::from_str("public, max-age=31536000")));
    let status = match *plan {
        ReadPlan::Part { range } => {
            let mut v = String::from_str("bytes ");
            push_decimal(&mut v, range.start);
            v.append("-");
            push_decimal(&mut v, range.end_inclusive);
            v.append("/");
            push_decimal(&mut v, range.total_length);
            headers.push(field("Content-Range", v));
            STATUS_PARTIAL_CONTENT
        },
        _ => STATUS_OK,
    };
    let r = HttpResponse { status, headers, body };
    proof {
        let d = r.body@;
        match *plan {
            ReadPlan::Part { range } => {
                assert(fields_view(r.headers@) =~= content_fields(media_type_of(path@, style), d.len()).push(
                    ("Content-Range"@, content_range_of(range)),
                ));
            },
            _ => {
                assert(fields_view(r.headers@) =~= content_fields(media_type_of(path@, style), d.len()));
            },
        }
    }
    r
}

} // verus!
