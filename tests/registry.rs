use std::collections::HashSet;

use vidserve::ident::{cache_key, derive_id, id_key};
use vidserve::registry::{register_video, video_url, PathRegistry, DEFAULT_PORT};

#[test]
fn resolve_returns_registered_path() {
    let mut reg = PathRegistry::new();
    let paths = ["/videos/a.mp4", "C:\\clips\\b.mkv", "/tmp/ünïcode name.mov", ""];
    for p in paths.iter() {
        let id = reg.register(p);
        assert_eq!(reg.resolve(&id), Some(p.to_string()));
    }
    for p in paths.iter() {
        let id = derive_id(p);
        assert_eq!(reg.resolve(&id), Some(p.to_string()));
    }
}

#[test]
fn register_is_deterministic() {
    let mut a = PathRegistry::new();
    let mut b = PathRegistry::new();
    let id1 = a.register("/videos/clip.mp4");
    let id2 = b.register("/videos/clip.mp4");
    let id3 = a.register("/videos/clip.mp4");
    assert_eq!(id1, id2);
    assert_eq!(id1, id3);
    assert_eq!(id1.len(), 16);
}

#[test]
fn register_twice_keeps_resolution() {
    let mut reg = PathRegistry::new();
    let first = register_video(&mut reg, "/videos/x.webm", DEFAULT_PORT);
    let second = register_video(&mut reg, "/videos/x.webm", DEFAULT_PORT);
    assert_eq!(first, second);
    let id = first.rsplit('/').next().unwrap().to_string();
    assert_eq!(reg.resolve(&id), Some("/videos/x.webm".to_string()));
}

#[test]
fn no_collisions_among_ten_thousand_paths() {
    let mut seen = HashSet::new();
    for i in 0..10_000u32 {
        let p = format!("/media/library/folder{}/video_{}.mp4", i % 97, i);
        assert!(seen.insert(derive_id(&p)), "collision at {}", p);
    }
    assert_eq!(seen.len(), 10_000);
}

#[test]
fn identifier_is_digest_prefix() {
    assert_eq!(derive_id("abc"), "ba7816bf8f01cfea");
    assert_eq!(
        cache_key("abc"),
        "ba7816bf8f01cfea414140de5dae2223b00361a396177a9cb410ff61f20015ad"
    );
}

#[test]
fn unknown_or_malformed_ids_do_not_resolve() {
    let mut reg = PathRegistry::new();
    reg.register("/videos/a.mp4");
    assert_eq!(reg.resolve("0000000000000000"), None);
    assert_eq!(reg.resolve("BA7816BF8F01CFEA"), None);
    assert_eq!(reg.resolve("ba7816bf"), None);
    assert_eq!(reg.resolve("not-an-id"), None);
    assert_eq!(reg.resolve(""), None);
}

#[test]
fn id_key_reads_hex() {
    assert_eq!(id_key("00000000000000ff"), Some(255));
    assert_eq!(id_key("ffffffffffffffff"), Some(u64::MAX));
    assert_eq!(id_key("fffffffffffffffff"), None);
    assert_eq!(id_key("0000000000000g00"), None);
}

#[test]
fn url_has_port_and_id() {
    assert_eq!(video_url(3030, "0123456789abcdef"), "http://127.0.0.1:3030/video/0123456789abcdef");
    assert_eq!(video_url(0, "x"), "http://127.0.0.1:0/video/x");
    let mut reg = PathRegistry::new();
    assert_eq!(
        register_video(&mut reg, "abc", 3030),
        "http://127.0.0.1:3030/video/ba7816bf8f01cfea"
    );
}
