//! Media types of video files, judged by the file name's extension.

use vstd::prelude::*;
use vstd::string::*;

verus! {

/// How paths separate their components: POSIX systems use `/` alone,
/// Windows accepts both `/` and `\\`.
#[derive(Clone, Copy, Debug, PartialEq, Eq, Structural)]
pub enum PathStyle {
    Posix,
    Windows,
}

/// Whether `c` separates path components in paths of style `style`.
pub open spec fn is_separator(c: char, style: PathStyle) -> bool {
    c == '/' || (style == PathStyle::Windows && c == '\\')
}

/// Whether `c` separates path components in paths of style `style`.
pub fn separator(c: char, style: PathStyle) -> (r: bool)
    ensures
        r == is_separator(c, style),
{
    match style {
        PathStyle::Posix => c == '/',
        PathStyle::Windows => c == '/' || c == '\\',
    }
}

/// The extension of a path: the characters after the last dot of its last
/// component, or `None` when that component has no dot, or has one only as
/// its first character (a hidden file such as `.mp4`).
pub open spec fn extension(p: Seq<char>, style: PathStyle) -> Option<Seq<char>>
    decreases p.len(),
{
    if p.len() == 0 {
        None
    } else if p.last() == '.' {
        if p.len() == 1 || is_separator(p[p.len() - 2], style) {
            None
        } else {
            Some(Seq::<char>::empty())
        }
    } else if is_separator(p.last(), style) {
        None
    } else {
        match extension(p.drop_last(), style) {
            Some(e) => Some(e.push(p.last())),
            None => None,
        }
    }
}

/// `c` is `w`, or its upper-case ASCII form when `w` is a lowercase letter.
pub open spec fn char_matches_lower(c: char, w: char) -> bool {
    c == w || ('A' <= c && c <= 'Z' && c as u32 + 32 == w as u32)
}

/// `s` spells the lowercase word `w`, ignoring ASCII case.
pub open spec fn same_ignoring_case(s: Seq<char>, w: Seq<char>) -> bool {
    s.len() == w.len() && forall|i: int| 0 <= i < s.len() ==> char_matches_lower(#[trigger] s[i], w[i])
}

/// The media type that an extension stands for, or the MP4 type when the
/// extension is not one of the known video extensions.
pub open spec fn media_type_of_extension(e: Seq<char>) -> Seq<char> {
    if same_ignoring_case(e, "webm"@) {
        "video/webm"@
    } else if same_ignoring_case(e, "mkv"@) {
        "video/x-matroska"@
    } else if same_ignoring_case(e, "avi"@) {
        "video/x-msvideo"@
    } else if same_ignoring_case(e, "mov"@) {
        "video/quicktime"@
    } else if same_ignoring_case(e, "flv"@) {
        "video/x-flv"@
    } else if same_ignoring_case(e, "wmv"@) {
        "video/x-ms-wmv"@
    } else if same_ignoring_case(e, "m4v"@) {
        "video/x-m4v"@
    } else {
        "video/mp4"@
    }
}

/// The media type of a file, judged by its path's extension; the MP4 type
/// when there is none or it is not known.
pub open spec fn media_type_of(p: Seq<char>, style: PathStyle) -> Seq<char> {
    match extension(p, style) {
        Some(e) => media_type_of_extension(e),
        None => "video/mp4"@,
    }
}

/// No character of `s` is a dot or a path separator.
pub open spec fn plain_tail(s: Seq<char>, style: PathStyle) -> bool {
    forall|i: int| 0 <= i < s.len() ==> #[trigger] s[i] != '.' && !is_separator(s[i], style)
}

proof fn lemma_extension_append(a: Seq<char>, b: Seq<char>, style: PathStyle)
    requires
        plain_tail(b, style),
    ensures
        extension(a + b, style) == match extension(a, style) {
            Some(e) => Some(e + b),
            None => None::<Seq<char>>,
        },
    decreases b.len(),
{
    if b.len() == 0 {
        assert(a + b =~= a);
        match extension(a, style) {
            Some(e) => {
                assert(e + b =~= e);
            },
            None => {},
        }
    } else {
        let b0 = b.drop_last();
        assert(plain_tail(b0, style)) by {
            assert forall|i: int| 0 <= i < b0.len() implies #[trigger] b0[i] != '.'
                && !is_separator(b0[i], style) by {
                assert(b0[i] == b[i]);
            }
        }
        lemma_extension_append(a, b0, style);
        assert((a + b).drop_last() =~= a + b0);
        assert((a + b).last() == b.last());
        match extension(a, style) {
            Some(e) => {
                assert((e + b0).push(b.last()) =~= e + b);
            },
            None => {},
        }
    }
}

/// Where the extension of `p` starts, if `p` has one.
fn extension_start(p: &str, style: PathStyle) -> (r: Option<usize>)
    ensures
        match r {
            Some(d) => d <= p@.len() && extension(p@, style) == Some(p@.subrange(d as int, p@.len() as int)),
            None => extension(p@, style) is None,
        },
{
    let n = p.unicode_len();
    let mut i: usize = n;
    while i > 0
        invariant
            n == p@.len(),
            i <= n,
            plain_tail(p@.subrange(i as int, n as int), style),
        decreases i,
    {
        let c = p.get_char(i - 1);
        let ghost head = p@.subrange(0, i as int);
        let ghost tail = p@.subrange(i as int, n as int);
        proof {
            assert(p@ =~= head + tail);
            lemma_extension_append(head, tail, style);
            assert(head.drop_last() =~= p@.subrange(0, i - 1));
        }
        if c == '.' {
            if i == 1 {
                return None;
            }
            let b = p.get_char(i - 2);
            if separator(b, style) {
                proof {
                    assert(head[i - 2] == b);
                }
                return None;
            }
            proof {
                assert(head[i - 2] == b);
                assert(extension(head, style) == Some(Seq::<char>::empty()));
                assert(Seq::<char>::empty() + tail =~= tail);
            }
            return Some(i);
        }
        if separator(c, style) {
            return None;
        }
        proof {
            let t2 = p@.subrange(i - 1, n as int);
            assert forall|j: int| 0 <= j < t2.len() implies #[trigger] t2[j] != '.'
                && !is_separator(t2[j], style) by {
                if j > 0 {
                    assert(t2[j] == tail[j - 1]);
                }
            }
        }
        i = i - 1;
    }
    proof {
        assert(p@.subrange(0, 0) =~= Seq::<char>::empty());
        assert(p@ =~= p@.subrange(0, 0) + p@.subrange(0, n as int));
        lemma_extension_append(Seq::<char>::empty(), p@, style);
    }
    None
}

/// Whether the characters of `p` from `from` on spell the lowercase word `w`,
/// ignoring ASCII case.
fn tail_matches(p: &str, from: usize, w: &str) -> (r: bool)
    requires
        from <= p@.len(),
    ensures
        r == same_ignoring_case(p@.subrange(from as int, p@.len() as int), w@),
{
    let n = p.unicode_len();
    let m = w.unicode_len();
    if n - from != m {
        return false;
    }
    let ghost t = p@.subrange(from as int, n as int);
    let mut i: usize = 0;
    while i < m
        invariant
            n == p@.len(),
            m == w@.len(),
            n - from == m,
            t == p@.subrange(from as int, n as int),
            i <= m,
            forall|j: int| 0 <= j < i ==> char_matches_lower(#[trigger] t[j], w@[j]),
        decreases m - i,
    {
        let c = p.get_char(from + i);
        let d = w.get_char(i);
        assert(t[i as int] == c);
        if !(c == d || ('A' <= c && c <= 'Z' && c as u32 + 32 == d as u32)) {
            return false;
        }
        i = i + 1;
    }
    true
}

/// The media type of the file at `path`, judged by its extension: MP4,
/// WebM, Matroska, AVI, QuickTime, Flash video, Windows Media video and
/// M4V have their own; any other extension, or none, gives the MP4 type.
pub fn content_type_for(path: &str, style: PathStyle) -> (r: &'static str)
    ensures
        r@ == media_type_of(path@, style),
{
    proof {
        reveal_strlit("webm");
        reveal_strlit("mkv");
        reveal_strlit("avi");
        reveal_strlit("mov");
        reveal_strlit("flv");
        reveal_strlit("wmv");
        reveal_strlit("m4v");
        reveal_strlit("video/mp4");
        reveal_strlit("video/webm");
        reveal_strlit("video/x-matroska");
        reveal_strlit("video/x-msvideo");
        reveal_strlit("video/quicktime");
        reveal_strlit("video/x-flv");
        reveal_strlit("video/x-ms-wmv");
        reveal_strlit("video/x-m4v");
    }
    match extension_start(path, style) {
        None => "video/mp4",
        Some(d) => {
            if tail_matches(path, d, "webm") {
                "video/webm"
            } else if tail_matches(path, d, "mkv") {
                "video/x-matroska"
            } else if tail_matches(path, d, "avi") {
                "video/x-msvideo"
            } else if tail_matches(path, d, "mov") {
                "video/quicktime"
            } else if tail_matches(path, d, "flv") {
                "video/x-flv"
            } else if tail_matches(path, d, "wmv") {
                "video/x-ms-wmv"
            } else if tail_matches(path, d, "m4v") {
                "video/x-m4v"
            } else {
                "video/mp4"
            }
        },
    }
}

/// Whether a lowercased extension is one of the known video extensions.
pub open spec fn is_listed_video_extension(e: Seq<char>) -> bool {
    e == "mp4"@ || e == "webm"@ || e == "mkv"@ || e == "avi"@ || e == "mov"@ || e == "flv"@ || e
        == "wmv"@ || e == "m4v"@
}

/// The Unicode lowercase form of a string.
pub uninterp spec fn lower_of(s: Seq<char>) -> Seq<char>;

/// Relies on str::to_lowercase: the Unicode lowercase mapping of the
/// string, which depends on its characters alone.
#[verifier::external_body]
fn lowercase(s: &str) -> (r: String)
    ensures
        r@ == lower_of(s@),
{
    s.to_lowercase()
}

fn same_chars(s: &str, w: &str) -> (r: bool)
    ensures
        r == (s@ == w@),
{
    let n = s.unicode_len();
    if n != w.unicode_len() {
        return false;
    }
    let mut i: usize = 0;
    while i < n
        invariant
            n == s@.len(),
            n == w@.len(),
            i <= n,
            forall|j: int| 0 <= j < i ==> s@[j] == w@[j],
        decreases n - i,
    {
        if s.get_char(i) != w.get_char(i) {
            return false;
        }
        i = i + 1;
    }
    proof {
        assert(s@ =~= w@);
    }
    true
}

/// Whether an extension, already lowercased, is exactly one of mp4, webm,
/// mkv, avi, mov, flv, wmv and m4v.
pub fn is_listed_extension(lower: &str) -> (r: bool)
    ensures
        r == is_listed_video_extension(lower@),
{
    proof {
        reveal_strlit("mp4");
        reveal_strlit("webm");
        reveal_strlit("mkv");
        reveal_strlit("avi");
        reveal_strlit("mov");
        reveal_strlit("flv");
        reveal_strlit("wmv");
        reveal_strlit("m4v");
    }
    same_chars(lower, "mp4") || same_chars(lower, "webm") || same_chars(lower, "mkv") || same_chars(
        lower,
        "avi",
    ) || same_chars(lower, "mov") || same_chars(lower, "flv") || same_chars(lower, "wmv")
        || same_chars(lower, "m4v")
}

/// Whether the file at `path` has one of the known video extensions once
/// the extension is lowercased by Unicode rules.
pub fn has_video_extension(path: &str, style: PathStyle) -> (r: bool)
    ensures
        r == match extension(path@, style) {
            Some(e) => is_listed_video_extension(lower_of(e)),
            None => false,
        },
{
    match extension_start(path, style) {
        None => false,
        Some(d) => {
            let ext = path.substring_char(d, path.unicode_len());
            let lower = lowercase(ext);
            is_listed_extension(lower.as_str())
        },
    }
}

} // verus!
