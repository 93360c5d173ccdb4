use vidserve::transcode::{
    cache_file_name, encoder_args, gpu_probe_args, needs_launch, transcode_progress,
    transcode_state, TranscodeJobs, TranscodeProgress, TranscodeState, MIN_COMPLETE_SIZE,
};

fn fraction(p: TranscodeProgress) -> f64 {
    p.done as f64 / p.total as f64
}

#[test]
fn cache_file_is_digest_named() {
    assert_eq!(
        cache_file_name("abc"),
        "ba7816bf8f01cfea414140de5dae2223b00361a396177a9cb410ff61f20015ad.mp4"
    );
    assert_eq!(cache_file_name("/v/a.mkv"), cache_file_name("/v/a.mkv"));
    assert_ne!(cache_file_name("/v/a.mkv"), cache_file_name("/v/b.mkv"));
}

#[test]
fn completion_threshold() {
    assert_eq!(transcode_state(None), TranscodeState::NotStarted);
    assert_eq!(transcode_state(Some(0)), TranscodeState::Running);
    assert_eq!(transcode_state(Some(MIN_COMPLETE_SIZE)), TranscodeState::Running);
    assert_eq!(transcode_state(Some(MIN_COMPLETE_SIZE + 1)), TranscodeState::Complete);
    assert!(needs_launch(None));
    assert!(needs_launch(Some(1024 * 1024)));
    assert!(!needs_launch(Some(1024 * 1024 + 1)));
}

#[test]
fn progress_values() {
    assert_eq!(fraction(transcode_progress(None, Some(100))), 0.0);
    assert_eq!(fraction(transcode_progress(Some(50), None)), 0.0);
    assert_eq!(fraction(transcode_progress(Some(50), Some(0))), 0.0);
    assert_eq!(transcode_progress(Some(25), Some(100)), TranscodeProgress { done: 25, total: 100 });
    assert_eq!(fraction(transcode_progress(Some(25), Some(100))), 0.25);
    assert_eq!(fraction(transcode_progress(Some(300), Some(100))), 1.0);
}

#[test]
fn progress_never_decreases_as_output_grows() {
    let input = Some(10_000u64);
    let sizes = [None, Some(0), Some(10), Some(4_000), Some(9_999), Some(10_000), Some(50_000)];
    let mut last = 0.0;
    for s in sizes {
        let f = fraction(transcode_progress(s, input));
        assert!(f >= last);
        assert!((0.0..=1.0).contains(&f));
        last = f;
    }
}

#[test]
fn cpu_encoder_args() {
    let args = encoder_args("in.mov", "out.mp4", false);
    let want = [
        "-i", "in.mov", "-c:v", "libx264", "-preset", "ultrafast", "-tune", "zerolatency", "-crf",
        "28", "-c:a", "aac", "-b:a", "128k", "-movflags",
        "+frag_keyframe+empty_moov+default_base_moof", "-f", "mp4", "-y", "out.mp4",
    ];
    assert_eq!(args, want.iter().map(|s| s.to_string()).collect::<Vec<String>>());
}

#[test]
fn gpu_encoder_args() {
    let args = encoder_args("in.mov", "out.mp4", true);
    assert_eq!(&args[..6], &["-hwaccel", "cuda", "-hwaccel_output_format", "cuda", "-i", "in.mov"]);
    assert!(args.contains(&"h264_nvenc".to_string()));
    assert_eq!(args.last().unwrap(), "out.mp4");
    assert_eq!(args.len(), 24);
}

#[test]
fn probe_args() {
    let args = gpu_probe_args();
    assert_eq!(args.len(), 14);
    assert_eq!(args[10], "h264_nvenc");
    assert_eq!(args[13], "-");
}

#[test]
fn single_flight_per_source() {
    let mut jobs = TranscodeJobs::new();
    assert!(jobs.request("/v/a.mkv", None));
    assert!(jobs.is_running("/v/a.mkv"));
    assert!(!jobs.request("/v/a.mkv", None));
    assert!(!jobs.request("/v/a.mkv", Some(10)));
    assert!(jobs.request("/v/b.mkv", Some(10)));
    jobs.finish("/v/a.mkv");
    assert!(!jobs.is_running("/v/a.mkv"));
    assert!(jobs.request("/v/a.mkv", Some(10)));
    assert!(!jobs.request("/v/c.mkv", Some(MIN_COMPLETE_SIZE + 1)));
    assert!(!jobs.is_running("/v/c.mkv"));
}

#[test]
fn cache_file_name_length() {
    assert_eq!(cache_file_name("/some/video.mkv").len(), 68);
    assert!(cache_file_name("").ends_with(".mp4"));
}
