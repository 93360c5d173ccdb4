//! The single-range form of the HTTP `Range` request header.

use vstd::prelude::*;

use crate::text::{all_decimal, decimal_run, decimal_value, is_decimal_digit};

verus! {

/// A byte interval of a resource: `start` to `end_inclusive`, both
/// included, of a resource `total_length` bytes long.
#[derive(Clone, Copy, Debug, PartialEq, Eq, Structural)]
pub struct ByteRange {
    pub start: u64,
    pub end_inclusive: u64,
    pub total_length: u64,
}

impl ByteRange {
    /// The interval is non-empty and lies inside the resource.
    pub open spec fn satisfiable(&self) -> bool {
        self.start <= self.end_inclusive && self.end_inclusive < self.total_length
    }

    /// Whether the interval is non-empty and lies inside the resource.
    pub fn is_satisfiable(&self) -> (r: bool)
        ensures
            r == self.satisfiable(),
    {
        self.start <= self.end_inclusive && self.end_inclusive < self.total_length
    }

    /// The number of bytes of the interval.
    pub fn len(&self) -> (r: u64)
        requires
            self.satisfiable(),
        ensures
            r == self.end_inclusive - self.start + 1,
    {
        self.end_inclusive - self.start + 1
    }
}

/// `h` reads `bytes=<start>-<end>` with its dash at index `k`: a non-empty
/// run of decimal digits before the dash, a possibly empty one after it.
pub open spec fn range_header_split(h: Seq<char>, k: int) -> bool {
    &&& 6 < k < h.len()
    &&& h.subrange(0, 6) == "bytes="@
    &&& h[k] == '-'
    &&& all_decimal(h.subrange(6, k))
    &&& all_decimal(h.subrange(k + 1, h.len() as int))
}

/// The first position of a header split at `k`.
pub open spec fn start_field(h: Seq<char>, k: int) -> nat {
    decimal_value(h.subrange(6, k))
}

/// The last position of a header split at `k`, unless it was left empty.
pub open spec fn end_field(h: Seq<char>, k: int) -> Option<nat> {
    if k + 1 == h.len() {
        None
    } else {
        Some(decimal_value(h.subrange(k + 1, h.len() as int)))
    }
}

/// The first position of a header split at `k` fits in 64 bits. The last
/// one need not: one beyond the resource is clamped, however large.
pub open spec fn start_fits(h: Seq<char>, k: int) -> bool {
    start_field(h, k) <= u64::MAX
}

/// The last byte that a request for `end` (or for the rest, when `None`)
/// covers in a resource of `total` bytes: the request is clamped to the
/// resource's last byte. An empty resource has none; zero stands there.
pub open spec fn clamped_end(end: Option<nat>, total: nat) -> nat {
    if total == 0 {
        0
    } else {
        match end {
            Some(e) => if e < total {
                e
            } else {
                (total - 1) as nat
            },
            None => (total - 1) as nat,
        }
    }
}

/// The interval that a header split at `k` asks for in a resource of `total` bytes.
pub open spec fn range_at(h: Seq<char>, k: int, total: u64) -> ByteRange {
    ByteRange {
        start: start_field(h, k) as u64,
        end_inclusive: clamped_end(end_field(h, k), total as nat) as u64,
        total_length: total,
    }
}

/// `h` is a well-formed single-range header whose positions fit in 64 bits.
pub open spec fn recognised(h: Seq<char>) -> bool {
    exists|k: int| range_header_split(h, k) && start_fits(h, k)
}

/// A header splits at one position at most.
pub proof fn lemma_split_unique(h: Seq<char>, k1: int, k2: int)
    requires
        range_header_split(h, k1),
        range_header_split(h, k2),
    ensures
        k1 == k2,
{
    if k1 < k2 {
        assert(h.subrange(6, k2)[k1 - 6] == h[k1]);
    } else if k2 < k1 {
        assert(h.subrange(6, k1)[k2 - 6] == h[k2]);
    }
}

/// A split position ends the run of digits that follows `bytes=`.
proof fn lemma_split_at_run_end(h: Seq<char>, k: int, j: int)
    requires
        range_header_split(h, k),
        6 <= j <= h.len(),
        all_decimal(h.subrange(6, j)),
        j == h.len() || !is_decimal_digit(h[j]),
    ensures
        j == k,
{
    if j < k {
        assert(h.subrange(6, k)[j - 6] == h[j]);
    } else if k < j {
        assert(h.subrange(6, j)[k - 6] == h[k]);
    }
}

/// The interval that a `Range` header value asks for in a resource of
/// `total_length` bytes. Only `bytes=<start>-<end>` is recognised, `<end>`
/// possibly empty for "to the end"; anything else, several ranges or a
/// start beyond 64 bits included, gives `None`. The end is clamped to the
/// resource's last byte, also when it is beyond 64 bits. An interval that starts past its clamped end,
/// or one in an empty resource, is returned all the same: the responder
/// turns it down.
pub fn parse_range_header(h: &str, total_length: u64) -> (r: Option<ByteRange>)
    ensures
        r is Some <==> recognised(h@),
        forall|k: int|
            range_header_split(h@, k) && start_fits(h@, k) ==> r == Some(
                range_at(h@, k, total_length),
            ),
{
    let n = h.unicode_len();
    proof {
        reveal_strlit("bytes=");
    }
    if n < 6 || h.get_char(0) != 'b' || h.get_char(1) != 'y' || h.get_char(2) != 't'
        || h.get_char(3) != 'e' || h.get_char(4) != 's' || h.get_char(5) != '=' {
        proof {
            assert forall|k: int| !range_header_split(h@, k) by {
                if range_header_split(h@, k) {
                    let p = h@.subrange(0, 6);
                    assert(p[0] == 'b' && p[1] == 'y' && p[2] == 't' && p[3] == 'e' && p[4]
                        == 's' && p[5] == '=');
                }
            }
        }
        return None;
    }
    proof {
        assert(h@.subrange(0, 6) =~= "bytes="@);
    }
    let (k, start) = decimal_run(h, 6);
    if k == 6 || k == n || h.get_char(k) != '-' {
        proof {
            assert forall|k2: int| !range_header_split(h@, k2) by {
                if range_header_split(h@, k2) {
                    lemma_split_at_run_end(h@, k2, k as int);
                }
            }
        }
        return None;
    }
    assert(range_header_split(h@, k as int) || !all_decimal(h@.subrange(k + 1, n as int)));
    let (e, end) = decimal_run(h, k + 1);
    if e != n {
        proof {
            assert forall|k2: int| !range_header_split(h@, k2) by {
                if range_header_split(h@, k2) {
                    lemma_split_at_run_end(h@, k2, k as int);
                    assert(h@.subrange(k + 1, n as int)[e - k - 1] == h@[e as int]);
                }
            }
        }
        return None;
    }
    assert(range_header_split(h@, k as int));
    let start = match start {
        Some(s) => s,
        None => {
            proof {
                assert forall|k2: int| !(range_header_split(h@, k2) && start_fits(h@, k2)) by {
                    if range_header_split(h@, k2) {
                        lemma_split_unique(h@, k as int, k2);
                    }
                }
            }
            return None;
        },
    };
    let last: u64 = if total_length == 0 {
        0
    } else if e == k + 1 {
        total_length - 1
    } else {
        match end {
            Some(v) => if v < total_length {
                v
            } else {
                total_length - 1
            },
            None => total_length - 1,
        }
    };
    proof {
        assert(start_fits(h@, k as int));
        assert forall|k2: int| range_header_split(h@, k2) && start_fits(h@, k2) implies Some(
            ByteRange { start, end_inclusive: last, total_length },
        ) == Some(range_at(h@, k2, total_length)) by {
            lemma_split_unique(h@, k as int, k2);
        }
    }
    Some(ByteRange { start, end_inclusive: last, total_length })
}

/// The bounds of the chunk `start..end` of a buffer of `len` bytes, with
/// `end` cut down to `len`; `None` when `start` lies past the cut end.
pub fn chunk_bounds(len: usize, start: usize, end: usize) -> (r: Option<(usize, usize)>)
    ensures
        r == (if start <= (if end < len { end } else { len }) {
            Some((start, if end < len { end } else { len }))
        } else {
            None::<(usize, usize)>
        }),
{
    let end = if end < len {
        end
    } else {
        len
    };
    if start <= end {
        Some((start, end))
    } else {
        None
    }
}

/// The interval that an optional `Range` header asks for: `None` when the
/// header is absent or not recognised, in which case the whole resource is served.
pub fn parse_range(header: Option<&str>, total_length: u64) -> (r: Option<ByteRange>)
    ensures
        match header {
            None => r is None,
            Some(h) => {
                &&& r is Some <==> recognised(h@)
                &&& forall|k: int|
                    range_header_split(h@, k) && start_fits(h@, k) ==> r == Some(
                        range_at(h@, k, total_length),
                    )
            },
        },
{
    match header {
        None => None,
        Some(h) => parse_range_header(h, total_length),
    }
}

} // verus!
