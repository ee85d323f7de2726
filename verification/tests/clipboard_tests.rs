use clipvault::content::{is_meaningful_share_text, is_primarily_url, CapturedText};
use clipvault::fgwin::{decode_file_description, FriendlyCache, MAX_ENTRIES};
use clipvault::image::{downscale_captured_rgba_if_large, image_quick_fingerprint, MAX_EDGE};
use clipvault::monitor::MonitorState;

#[test]
fn clipboard_url_only_is_primarily_url() {
    assert!(is_primarily_url("https://example.com/path"));
    assert!(is_primarily_url("see https://example.com"));
}

#[test]
fn clipboard_url_with_caption_is_not_primarily_url() {
    assert!(!is_primarily_url(
        "Check out this really long descriptive caption https://example.com"
    ));
    assert!(!is_primarily_url("no link here at all"));
}

#[test]
fn clipboard_share_text_needs_length_and_no_dominant_url() {
    assert!(is_meaningful_share_text("this is a meaningful caption"));
    assert!(!is_meaningful_share_text("   "));
    assert!(!is_meaningful_share_text("short"));
    assert!(!is_meaningful_share_text("https://example.com/some/long/path"));
}

#[test]
fn monitor_url_only_is_primarily_url() {
    assert!(is_primarily_url("https://example.com/path"));
    assert!(is_primarily_url("see https://example.com"));
    assert!(is_primarily_url(
        "magnet:?xt=urn:btih:0123456789abcdef0123456789abcdef01234567"
    ));
    assert!(is_primarily_url(
        "ed2k://|file|name.iso|123|ABCDEF0123456789ABCDEF0123456789|/"
    ));
}

#[test]
fn monitor_url_with_caption_is_not_primarily_url() {
    assert!(!is_primarily_url(
        "Check out this really long descriptive caption https://example.com"
    ));
    assert!(!is_primarily_url("no link here at all"));
}

#[test]
fn monitor_share_text_needs_length_and_no_dominant_url() {
    assert!(is_meaningful_share_text("this is a meaningful caption"));
    assert!(!is_meaningful_share_text("   "));
    assert!(!is_meaningful_share_text("short"));
    assert!(!is_meaningful_share_text(
        "https://example.com/some/long/path"
    ));
}

#[test]
fn fingerprint_is_deterministic() {
    let ct = CapturedText {
        text: "hello".into(),
        html: Some("<b>hello</b>".into()),
    };
    assert_eq!(ct.fingerprint(), ct.fingerprint());
}

#[test]
fn fingerprint_changes_with_text() {
    let a = CapturedText {
        text: "hello".into(),
        html: None,
    };
    let b = CapturedText {
        text: "world".into(),
        html: None,
    };
    assert_ne!(a.fingerprint(), b.fingerprint());
}

#[test]
fn fingerprint_ignores_html_variant() {
    let a = CapturedText {
        text: "hello".into(),
        html: None,
    };
    let b = CapturedText {
        text: "hello".into(),
        html: Some("<p>hi</p>".into()),
    };
    assert_eq!(a.fingerprint(), b.fingerprint());
}

#[test]
fn fingerprint_is_the_sha256_of_the_text() {
    let a = CapturedText {
        text: "abc".into(),
        html: None,
    };
    assert_eq!(
        a.fingerprint(),
        "ba7816bf8f01cfea414140de5dae2223b00361a396177a9cb410ff61f20015ad"
    );
}

#[test]
fn file_description_keeps_the_full_utf16_string() {
    let description: Vec<u16> = "OpenCode 中文".encode_utf16().collect();
    assert_eq!(
        decode_file_description(&description),
        Some("OpenCode 中文".to_string())
    );
}

#[test]
fn file_description_strips_nul_padding_and_blank() {
    let mut description: Vec<u16> = vec![0];
    description.extend(" App ".encode_utf16());
    description.push(0);
    description.push(0);
    assert_eq!(decode_file_description(&description), Some("App".to_string()));
    assert_eq!(decode_file_description(&[0, 0]), None);
    assert_eq!(decode_file_description(&[]), None);
}

fn friendly(cache: &mut FriendlyCache, path: &str) -> String {
    if let Some(name) = cache.get(path) {
        return name;
    }
    cache.insert(path, "");
    String::new()
}

#[test]
fn friendly_name_cache_is_bounded_and_lrus() {
    let mut cache = FriendlyCache::new();
    for i in 0..80 {
        friendly(&mut cache, &format!("C:\\nonexistent\\app-{i}.exe"));
    }
    assert!(cache.len() <= MAX_ENTRIES);
    assert!(!cache.contains("C:\\nonexistent\\app-0.exe"));
    assert!(!cache.contains("C:\\nonexistent\\app-15.exe"));
    assert!(cache.contains("C:\\nonexistent\\app-79.exe"));
    friendly(&mut cache, "C:\\nonexistent\\app-16.exe");
    for i in 80..90 {
        friendly(&mut cache, &format!("C:\\nonexistent\\app-{i}.exe"));
    }
    assert!(cache.contains("C:\\nonexistent\\app-16.exe"));
}

#[test]
fn small_image_passes_through_unchanged() {
    let w = 100u32;
    let h = 50u32;
    let rgba = vec![0u8; (w * h * 4) as usize];
    let (out_rgba, out_w, out_h) = downscale_captured_rgba_if_large(rgba.clone(), w, h);
    assert_eq!(out_w, w);
    assert_eq!(out_h, h);
    assert_eq!(out_rgba, rgba);
}

#[test]
fn zero_size_passes_through() {
    let (out, ow, oh) = downscale_captured_rgba_if_large(vec![], 0, 0);
    assert_eq!(ow, 0);
    assert_eq!(oh, 0);
    assert!(out.is_empty());
}

#[test]
fn large_image_is_downscaled() {
    let w = 3000u32;
    let h = 1000u32;
    let rgba = vec![128u8; (w * h * 4) as usize];
    let (out, ow, oh) = downscale_captured_rgba_if_large(rgba, w, h);
    assert!(ow <= MAX_EDGE);
    assert!(oh <= MAX_EDGE);
    assert_eq!(out.len(), (ow * oh * 4) as usize);
    assert!(!out.is_empty());
}

#[test]
fn large_image_with_stride_padding_is_normalized() {
    let w = 3000u32;
    let h = 100u32;
    let expected = (w * h * 4) as usize;
    let rgba = vec![128u8; expected + 64];
    let (out, ow, oh) = downscale_captured_rgba_if_large(rgba, w, h);
    assert!(ow <= MAX_EDGE);
    assert!(oh <= MAX_EDGE);
    assert_eq!(out.len(), (ow * oh * 4) as usize);
}

#[test]
fn large_image_with_short_buffer_is_padded() {
    let w = 3000u32;
    let h = 100u32;
    let expected = (w * h * 4) as usize;
    let rgba = vec![128u8; expected - 64];
    let (out, ow, oh) = downscale_captured_rgba_if_large(rgba, w, h);
    assert!(ow <= MAX_EDGE);
    assert!(oh <= MAX_EDGE);
    assert_eq!(out.len(), (ow * oh * 4) as usize);
}

#[test]
fn large_image_keeps_aspect_ratio() {
    let (_, ow, oh) = downscale_captured_rgba_if_large(vec![1u8; 3000 * 1000 * 4], 3000, 1000);
    assert_eq!((ow, oh), (2560, 853));
}

#[test]
fn quick_fp_is_deterministic() {
    let pixels = vec![42u8; 64 * 64 * 4];
    assert_eq!(
        image_quick_fingerprint(64, 64, &pixels),
        image_quick_fingerprint(64, 64, &pixels)
    );
}

#[test]
fn quick_fp_differs_for_different_images() {
    let a = vec![0u8; 64 * 64 * 4];
    let b = vec![255u8; 64 * 64 * 4];
    assert_ne!(
        image_quick_fingerprint(64, 64, &a),
        image_quick_fingerprint(64, 64, &b)
    );
}

#[test]
fn quick_fp_differs_for_different_sizes() {
    let a = vec![0u8; 64 * 64 * 4];
    let b = vec![0u8; 32 * 32 * 4];
    assert_ne!(
        image_quick_fingerprint(64, 64, &a),
        image_quick_fingerprint(32, 32, &b)
    );
}

#[test]
fn quick_fp_ignores_middle_only_changes() {
    let len = 64 * 64 * 4;
    let a = vec![1u8; len];
    let mut b = a.clone();
    b[len / 2] = 99;
    assert_eq!(
        image_quick_fingerprint(64, 64, &a),
        image_quick_fingerprint(64, 64, &b)
    );
}

#[test]
fn quick_fp_detects_tail_changes() {
    let len = 64 * 64 * 4;
    let a = vec![1u8; len];
    let mut b = a.clone();
    *b.last_mut().unwrap() = 2;
    assert_ne!(
        image_quick_fingerprint(64, 64, &a),
        image_quick_fingerprint(64, 64, &b)
    );
}

#[test]
fn suppress_active_within_window() {
    let mut m = MonitorState::new();
    m.suppress_self_writes(1_000, 5_000);
    assert!(m.is_capture_suppressed(2_000));
}

#[test]
fn suppress_expired_clears_value() {
    let mut m = MonitorState::new();
    m.suppress_self_writes(1_000, 1_000);
    assert!(!m.is_capture_suppressed(3_000));
    assert!(m.suppress_until.is_none());
}

#[test]
fn suppress_none_is_not_suppressed() {
    let mut m = MonitorState::new();
    assert!(!m.is_capture_suppressed(0));
}

#[test]
fn mark_text_written_syncs_last_text_fp() {
    let mut m = MonitorState::new();
    m.mark_text_written("hello");
    let captured = CapturedText {
        text: "hello".into(),
        html: None,
    };
    assert_eq!(m.last_text_fp, Some(captured.fingerprint()));
}

#[test]
fn mark_image_written_syncs_quick_fp() {
    let mut m = MonitorState::new();
    m.mark_image_written("0123456789abcdef");
    assert_eq!(m.last_image_hash, Some("0123456789abcdef".to_string()));
}

#[test]
fn zero_width_bitmap_passes_through_unchanged() {
    let (out, ow, oh) = downscale_captured_rgba_if_large(vec![7u8; 12], 0, 3000);
    assert_eq!((ow, oh), (0, 3000));
    assert_eq!(out, vec![7u8; 12]);
}
