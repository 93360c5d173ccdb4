//! The progressive transcode cache: where a source's re-encoded copy lives,
//! whether it must be (re)made, how the encoder is invoked, and how far it
//! has come.

use vstd::prelude::*;
use vstd::string::*;

use std::collections::HashSet;

use crate::ident::{cache_key, derive_id_and_key, path_cache_key, path_key_of};

verus! {

broadcast use vstd::std_specs::hash::group_hash_axioms;

/// Above this many bytes an output file is taken to be complete. This is a
/// heuristic: the encoder does not report completion.
pub const MIN_COMPLETE_SIZE: u64 = 1024 * 1024;

/// The file name, inside the cache directory, of the re-encoded copy of a source.
pub open spec fn cache_file_name_of(source: Seq<char>) -> Seq<char> {
    path_cache_key(source) + ".mp4"@
}

/// The file name, inside the cache directory, of the re-encoded copy of
/// `source`: its cache key followed by `.mp4`.
pub fn cache_file_name(source: &str) -> (r: String)
    ensures
        r@ == cache_file_name_of(source@),
        r@.len() == 68,
{
    let key = cache_key(source);
    proof {
        reveal_strlit(".mp4");
    }
    key.concat(".mp4")
}

/// The state of a source's transcode, as its output file shows it.
#[derive(Clone, Copy, Debug, PartialEq, Eq, Structural)]
pub enum TranscodeState {
    /// There is no output file.
    NotStarted,
    /// There is an output file, not yet large enough to be taken as complete.
    Running,
    /// The output file is larger than the completion threshold.
    Complete,
}

/// The state that an output file of `output_size` bytes (`None`: absent or
/// unreadable) shows.
pub open spec fn state_of(output_size: Option<u64>) -> TranscodeState {
    match output_size {
        None => TranscodeState::NotStarted,
        Some(n) => if n > MIN_COMPLETE_SIZE {
            TranscodeState::Complete
        } else {
            TranscodeState::Running
        },
    }
}

/// The state that an output file of `output_size` bytes (`None`: absent or
/// unreadable) shows.
pub fn transcode_state(output_size: Option<u64>) -> (r: TranscodeState)
    ensures
        r == state_of(output_size),
{
    match output_size {
        None => TranscodeState::NotStarted,
        Some(n) => if n > MIN_COMPLETE_SIZE {
            TranscodeState::Complete
        } else {
            TranscodeState::Running
        },
    }
}

/// Whether an encoder must be launched for a source whose output file has
/// `output_size` bytes: unless the output is taken as complete.
pub fn needs_launch(output_size: Option<u64>) -> (r: bool)
    ensures
        r == (state_of(output_size) != TranscodeState::Complete),
        r == !(output_size is Some && output_size.unwrap() > MIN_COMPLETE_SIZE),
{
    let s = transcode_state(output_size);
    !matches!(s, TranscodeState::Complete)
}

/// A completion estimate: `done` out of `total`, with `done <= total` and
/// `total > 0`.
#[derive(Clone, Copy, Debug, PartialEq, Eq, Structural)]
pub struct TranscodeProgress {
    pub done: u64,
    pub total: u64,
}

impl TranscodeProgress {
    /// The estimate is a fraction between zero and one.
    pub open spec fn wf(&self) -> bool {
        self.total > 0 && self.done <= self.total
    }
}

/// The estimate for an output of `output_size` bytes and a source of
/// `input_size` bytes (`None`: absent or unreadable): the ratio of the two,
/// at most one; nothing done when either is unknown or the source is empty.
pub open spec fn progress_of(output_size: Option<u64>, input_size: Option<u64>) -> TranscodeProgress {
    match (output_size, input_size) {
        (Some(o), Some(i)) => if i == 0 {
            TranscodeProgress { done: 0, total: 1 }
        } else if o >= i {
            TranscodeProgress { done: i, total: i }
        } else {
            TranscodeProgress { done: o, total: i }
        },
        _ => TranscodeProgress { done: 0, total: 1 },
    }
}

/// How far a transcode has come, estimated by comparing the output's size to
/// the source's. This is advisory: sizes are not proportional to encoding work.
pub fn transcode_progress(output_size: Option<u64>, input_size: Option<u64>) -> (r: TranscodeProgress)
    ensures
        r == progress_of(output_size, input_size),
        r.wf(),
{
    match (output_size, input_size) {
        (Some(o), Some(i)) => if i == 0 {
            TranscodeProgress { done: 0, total: 1 }
        } else if o >= i {
            TranscodeProgress { done: i, total: i }
        } else {
            TranscodeProgress { done: o, total: i }
        },
        _ => TranscodeProgress { done: 0, total: 1 },
    }
}

/// `a` is no further along than `b`, as fractions.
pub open spec fn progress_le(a: TranscodeProgress, b: TranscodeProgress) -> bool {
    a.done * b.total <= b.done * a.total
}

/// The output file of `later` is the one of `earlier` after it grew: it was
/// absent before, or is at least as large now.
pub open spec fn grew(earlier: Option<u64>, later: Option<u64>) -> bool {
    match (earlier, later) {
        (None, _) => true,
        (Some(a), Some(b)) => a <= b,
        (Some(_), None) => false,
    }
}

/// As the output file grows against the same source, the estimate never goes back.
pub proof fn lemma_progress_monotone(earlier: Option<u64>, later: Option<u64>, input_size: Option<u64>)
    requires
        grew(earlier, later),
    ensures
        progress_le(progress_of(earlier, input_size), progress_of(later, input_size)),
{
    let p = progress_of(earlier, input_size);
    let q = progress_of(later, input_size);
    if p.done == 0 {
        assert(p.done * q.total == 0);
        assert(q.done * p.total >= 0) by (nonlinear_arith);
    } else {
        assert(p.total == q.total);
        assert(p.done <= q.done);
        assert(p.done * q.total <= q.done * p.total) by (nonlinear_arith)
            requires
                p.done <= q.done,
                p.total == q.total,
        ;
    }
}

/// The character sequences of a list of strings.
pub open spec fn strings_view(v: Seq<String>) -> Seq<Seq<char>> {
    v.map_values(|s: String| s@)
}

/// The encoder arguments of a short trial encode that succeeds only where
/// hardware (NVENC) encoding is available.
pub open spec fn probe_args_spec() -> Seq<Seq<char>> {
    seq!["-v"@, "error"@, "-f"@, "lavfi"@, "-i"@, "color=black:s=64x64:r=1"@, "-vframes"@, "1"@, "-an"@, "-c:v"@, "h264_nvenc"@, "-f"@, "null"@, "-"@]
}

/// The encoder arguments that re-encode `input` to `output` as fragmented
/// MP4 (an empty initial index, a fragment at each key frame), so that a
/// partly written output already plays: with hardware decoding and NVENC at
/// fixed quality when `use_gpu`, with x264 at its fastest preset otherwise;
/// AAC audio at 128 kbit/s; the output is overwritten.
pub open spec fn encoder_args_spec(input: Seq<char>, output: Seq<char>, use_gpu: bool) -> Seq<Seq<char>> {
    (if use_gpu {
        seq!["-hwaccel"@, "cuda"@, "-hwaccel_output_format"@, "cuda"@, "-i"@].push(input) + seq!["-c:v"@, "h264_nvenc"@, "-preset"@, "p1"@, "-rc"@, "constqp"@, "-qp"@, "28"@]
    } else {
        seq!["-i"@].push(input) + seq!["-c:v"@, "libx264"@, "-preset"@, "ultrafast"@, "-tune"@, "zerolatency"@, "-crf"@, "28"@]
    }) + seq!["-c:a"@, "aac"@, "-b:a"@, "128k"@, "-movflags"@, "+frag_keyframe+empty_moov+default_base_moof"@, "-f"@, "mp4"@, "-y"@].push(output)
}

fn push_item(v: &mut Vec<String>, s: &str)
    ensures
        strings_view(final(v)@) == strings_view(old(v)@).push(s@),
{
    v.push(String::from_str(s));
    proof {
        assert(strings_view(final(v)@) =~= strings_view(old(v)@).push(s@));
    }
}

/// The arguments of the hardware-encoding trial.
pub fn gpu_probe_args() -> (r: Vec<String>)
    ensures
        strings_view(r@) == probe_args_spec(),
{
    proof {
        reveal_strlit("+frag_keyframe+empty_moov+default_base_moof");
        reveal_strlit("-");
        reveal_strlit("-an");
        reveal_strlit("-b:a");
        reveal_strlit("-c:a");
        reveal_strlit("-c:v");
        reveal_strlit("-crf");
        reveal_strlit("-f");
        reveal_strlit("-hwaccel");
        reveal_strlit("-hwaccel_output_format");
        reveal_strlit("-i");
        reveal_strlit("-movflags");
        reveal_strlit("-preset");
        reveal_strlit("-qp");
        reveal_strlit("-rc");
        reveal_strlit("-tune");
        reveal_strlit("-v");
        reveal_strlit("-vframes");
        reveal_strlit("-y");
        reveal_strlit("1");
        reveal_strlit("128k");
        reveal_strlit("28");
        reveal_strlit("aac");
        reveal_strlit("color=black:s=64x64:r=1");
        reveal_strlit("constqp");
        reveal_strlit("cuda");
        reveal_strlit("error");
        reveal_strlit("h264_nvenc");
        reveal_strlit("lavfi");
        reveal_strlit("libx264");
        reveal_strlit("mp4");
        reveal_strlit("null");
        reveal_strlit("p1");
        reveal_strlit("ultrafast");
        reveal_strlit("zerolatency");
    }
    let mut args: Vec<String> = Vec::new();
    proof {
        assert(strings_view(args@) =~= Seq::<Seq<char>>::empty());
    }
    push_item(&mut args, "-v");
    push_item(&mut args, "error");
    push_item(&mut args, "-f");
    push_item(&mut args, "lavfi");
    push_item(&mut args, "-i");
    push_item(&mut args, "color=black:s=64x64:r=1");
    push_item(&mut args, "-vframes");
    push_item(&mut args, "1");
    push_item(&mut args, "-an");
    push_item(&mut args, "-c:v");
    push_item(&mut args, "h264_nvenc");
    push_item(&mut args, "-f");
    push_item(&mut args, "null");
    push_item(&mut args, "-");
    proof {
        assert(strings_view(args@) =~= probe_args_spec());
    }
    args
}

/// The encoder arguments that re-encode `input` into `output` as a
/// progressively playable fragmented MP4.
pub fn encoder_args(input: &str, output: &str, use_gpu: bool) -> (r: Vec<String>)
    ensures
        strings_view(r@) == encoder_args_spec(input@, output@, use_gpu),
{
    proof {
        reveal_strlit("+frag_keyframe+empty_moov+default_base_moof");
        reveal_strlit("-");
        reveal_strlit("-an");
        reveal_strlit("-b:a");
        reveal_strlit("-c:a");
        reveal_strlit("-c:v");
        reveal_strlit("-crf");
        reveal_strlit("-f");
        reveal_strlit("-hwaccel");
        reveal_strlit("-hwaccel_output_format");
        reveal_strlit("-i");
        reveal_strlit("-movflags");
        reveal_strlit("-preset");
        reveal_strlit("-qp");
        reveal_strlit("-rc");
        reveal_strlit("-tune");
        reveal_strlit("-v");
        reveal_strlit("-vframes");
        reveal_strlit("-y");
        reveal_strlit("1");
        reveal_strlit("128k");
        reveal_strlit("28");
        reveal_strlit("aac");
        reveal_strlit("color=black:s=64x64:r=1");
        reveal_strlit("constqp");
        reveal_strlit("cuda");
        reveal_strlit("error");
        reveal_strlit("h264_nvenc");
        reveal_strlit("lavfi");
        reveal_strlit("libx264");
        reveal_strlit("mp4");
        reveal_strlit("null");
        reveal_strlit("p1");
        reveal_strlit("ultrafast");
        reveal_strlit("zerolatency");
    }
    let mut args: Vec<String> = Vec::new();
    proof {
        assert(strings_view(args@) =~= Seq::<Seq<char>>::empty());
    }
    if use_gpu {
        push_item(&mut args, "-hwaccel");
        push_item(&mut args, "cuda");
        push_item(&mut args, "-hwaccel_output_format");
        push_item(&mut args, "cuda");
        push_item(&mut args, "-i");
        push_item(&mut args, input);
        push_item(&mut args, "-c:v");
        push_item(&mut args, "h264_nvenc");
        push_item(&mut args, "-preset");
        push_item(&mut args, "p1");
        push_item(&mut args, "-rc");
        push_item(&mut args, "constqp");
        push_item(&mut args, "-qp");
        push_item(&mut args, "28");
    } else {
        push_item(&mut args, "-i");
        push_item(&mut args, input);
        push_item(&mut args, "-c:v");
        push_item(&mut args, "libx264");
        push_item(&mut args, "-preset");
        push_item(&mut args, "ultrafast");
        push_item(&mut args, "-tune");
        push_item(&mut args, "zerolatency");
        push_item(&mut args, "-crf");
        push_item(&mut args, "28");
    }
    push_item(&mut args, "-c:a");
    push_item(&mut args, "aac");
    push_item(&mut args, "-b:a");
    push_item(&mut args, "128k");
    push_item(&mut args, "-movflags");
    push_item(&mut args, "+frag_keyframe+empty_moov+default_base_moof");
    push_item(&mut args, "-f");
    push_item(&mut args, "mp4");
    push_item(&mut args, "-y");
    push_item(&mut args, output);
    proof {
        assert(strings_view(args@) =~= encoder_args_spec(input@, output@, use_gpu));
    }
    args
}

/// Whether a request to transcode a source begins a new job, given the
/// keys of the jobs in flight and the size of the source's output file.
pub open spec fn begins(running: Set<u64>, source: Seq<char>, output_size: Option<u64>) -> bool {
    state_of(output_size) != TranscodeState::Complete && !running.contains(path_key_of(source))
}

/// The jobs in flight after such a request.
pub open spec fn after_request(running: Set<u64>, source: Seq<char>, output_size: Option<u64>) -> Set<u64> {
    if begins(running, source, output_size) {
        running.insert(path_key_of(source))
    } else {
        running
    }
}

/// The transcodes in flight, one at most per source: each is recorded under
/// the number that its source's identifier spells, so that concurrent
/// requests for one source share a single encoder.
pub struct TranscodeJobs {
    running: HashSet<u64>,
}

impl View for TranscodeJobs {
    type V = Set<u64>;

    closed spec fn view(&self) -> Set<u64> {
        self.running@
    }
}

impl TranscodeJobs {
    /// No job in flight.
    pub fn new() -> (r: TranscodeJobs)
        ensures
            r@ == Set::<u64>::empty(),
    {
        TranscodeJobs { running: HashSet::new() }
    }

    /// Asks to transcode `source`, whose output file has `output_size` bytes
    /// (`None`: absent). Returns whether the caller must launch the encoder:
    /// only when the output is not yet taken as complete and no job for the
    /// source is in flight. A job that begins is recorded as in flight.
    pub fn request(&mut self, source: &str, output_size: Option<u64>) -> (r: bool)
        ensures
            r == begins(old(self)@, source@, output_size),
            final(self)@ == after_request(old(self)@, source@, output_size),
    {
        if !needs_launch(output_size) {
            return false;
        }
        let (_, key) = derive_id_and_key(source);
        if self.running.contains(&key) {
            return false;
        }
        self.running.insert(key);
        true
    }

    /// Records that the job for `source` ended, however it ended.
    pub fn finish(&mut self, source: &str)
        ensures
            final(self)@ == old(self)@.remove(path_key_of(source@)),
    {
        let (_, key) = derive_id_and_key(source);
        self.running.remove(&key);
    }

    /// Whether a job for `source` is in flight.
    pub fn is_running(&self, source: &str) -> (r: bool)
        ensures
            r == self@.contains(path_key_of(source@)),
    {
        let (_, key) = derive_id_and_key(source);
        self.running.contains(&key)
    }
}

/// While a job for a source is in flight, a second request for that source
/// starts nothing, whatever its output file shows; the first request for it
/// begins one unless the output is already complete.
pub proof fn lemma_single_flight(
    running: Set<u64>,
    source: Seq<char>,
    first_size: Option<u64>,
    second_size: Option<u64>,
)
    ensures
        !running.contains(path_key_of(source)) ==> (begins(running, source, first_size) <==> state_of(
            first_size,
        ) != TranscodeState::Complete),
        begins(running, source, first_size) ==> !begins(
            after_request(running, source, first_size),
            source,
            second_size,
        ),
{
}

} // verus!
