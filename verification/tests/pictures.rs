use base64::Engine;
use sender::clip::{
    admit_image, clip_from_image, clip_from_text, clip_temp_file_name, wl_copy_command, decode_to_rgba, encode_png, fit_size, image_failed_note,
    image_saved_note, is_clip_temp_name, is_stale, picture_format_for, prepare_image, ClipGet,
    PictureFormat, MAX_IMAGE_BYTES,
};
use sender::console::clipboard_push;
use sender::proto::Msg;

fn b64(bytes: &[u8]) -> String {
    base64::engine::general_purpose::STANDARD.encode(bytes)
}

fn pixels(w: usize, h: usize) -> Vec<u8> {
    (0..w * h * 4).map(|i| (i * 37 % 251) as u8).collect()
}

#[test]
fn fit_size_scales_only_large_pictures() {
    assert_eq!(fit_size(100, 200), (100, 200));
    assert_eq!(fit_size(2560, 2560), (2560, 2560));
    assert_eq!(fit_size(5000, 2500), (2560, 1280));
    assert_eq!(fit_size(2561, 2561), (2560, 2560));
    // 1000 * 2560 / 3001 = 853.05
    assert_eq!(fit_size(1000, 3001), (853, 2560));
    // 10 * 2560 / 3000 = 8.53
    assert_eq!(fit_size(3000, 10), (2560, 9));
    // 0.85 rounds to 1; a vanishing side stays at least 1
    assert_eq!(fit_size(3000, 1), (2560, 1));
    assert_eq!(fit_size(100_000, 1), (2560, 1));
    // exactly half a pixel rounds up: 3 * 2560 / 5120 = 1.5
    assert_eq!(fit_size(5120, 3), (2560, 2));
}

#[test]
fn fit_size_agrees_with_float_rounding() {
    for (w, h) in [(4032u32, 3024u32), (3024, 4032), (7000, 123), (2561, 1), (65535, 65534), (3333, 3332)] {
        let (nw, nh) = if w >= h {
            (2560, (h as f64 * 2560.0 / w as f64).round() as u32)
        } else {
            ((w as f64 * 2560.0 / h as f64).round() as u32, 2560)
        };
        assert_eq!(fit_size(w, h), (nw.max(1), nh.max(1)));
    }
}

#[test]
fn mime_types_name_picture_formats() {
    assert_eq!(picture_format_for("image/png"), Some(PictureFormat::Png));
    assert_eq!(picture_format_for("image/jpeg"), Some(PictureFormat::Jpeg));
    assert_eq!(picture_format_for("image/jpg"), Some(PictureFormat::Jpeg));
    assert_eq!(picture_format_for("image/webp"), Some(PictureFormat::WebP));
    assert_eq!(picture_format_for("image/gif"), Some(PictureFormat::Gif));
    assert_eq!(picture_format_for("image/bmp"), Some(PictureFormat::Bmp));
    assert_eq!(picture_format_for("image/tiff"), None);
    assert_eq!(picture_format_for("IMAGE/PNG"), None);
}

#[test]
fn png_round_trip_through_base64() {
    let px = pixels(3, 2);
    let png = encode_png(3, 2, &px);
    assert!(png.starts_with(&[0x89, b'P', b'N', b'G']));
    let (w, h, out) = decode_to_rgba("Image/PNG", &format!("  {}\n", b64(&png))).unwrap();
    assert_eq!((w, h), (3, 2));
    assert_eq!(out, px);
}

#[test]
fn encode_png_falls_back_to_one_blank_pixel() {
    let png = encode_png(4, 4, &[1, 2, 3]);
    let (w, h, out) = decode_to_rgba("image/png", &b64(&png)).unwrap();
    assert_eq!((w, h), (1, 1));
    assert_eq!(out, vec![0, 0, 0, 0]);
    // a zero width counts as 1
    let png = encode_png(0, 1, &[9, 8, 7, 6]);
    let (w, h, out) = decode_to_rgba("image/png", &b64(&png)).unwrap();
    assert_eq!((w, h, out), (1, 1, vec![9, 8, 7, 6]));
}

#[test]
fn large_pictures_are_scaled_for_the_clipboard() {
    let px = vec![200u8; 3000 * 10 * 4];
    let png = encode_png(3000, 10, &px);
    let (w, h, out) = decode_to_rgba("image/png", &b64(&png)).unwrap();
    assert_eq!((w, h), (2560, 9));
    assert_eq!(out.len(), 2560 * 9 * 4);
}

#[test]
fn decode_to_rgba_errors() {
    let e = decode_to_rgba("image/png", "!!!").unwrap_err();
    assert!(e.starts_with("base64: "), "{}", e);
    let e = decode_to_rgba("IMAGE/TIFF", &b64(b"abc")).unwrap_err();
    assert_eq!(e, "unsupported mime image/tiff");
    let e = decode_to_rgba("image/png", &b64(b"not a png at all")).unwrap_err();
    assert!(e.starts_with("decode: "), "{}", e);
}

#[test]
fn prepare_image_checks_and_names() {
    let (file, raw) = prepare_image("my photo.jpg", &b64(b"abc"), 1700).unwrap();
    assert_eq!(file, "1700-my_photo.jpg");
    assert_eq!(raw, b"abc".to_vec());
    let e = prepare_image("a", "@@@@", 1).unwrap_err();
    assert!(e.starts_with("base64: "));
    let big = vec![0u8; MAX_IMAGE_BYTES + 1];
    assert_eq!(prepare_image("a", &b64(&big), 1).unwrap_err(), "image too large");
    let ok = vec![0u8; MAX_IMAGE_BYTES];
    assert!(prepare_image("a", &b64(&ok), 1).is_ok());
}

#[test]
fn image_notes() {
    assert_eq!(
        image_saved_note("/home/u/Pictures/Sender/1-a.png", 3 * 1024 + 5, true),
        "phone ▸ [image] saved /home/u/Pictures/Sender/1-a.png (3 KB), clipboard ✓"
    );
    assert_eq!(image_saved_note("p", 10, false), "phone ▸ [image] saved p (0 KB), CLIPBOARD ✗");
    assert_eq!(image_failed_note("save: denied"), "✗ image failed: save: denied");
}

#[test]
fn clipboard_contents_become_messages() {
    match clip_from_text(Some("hello".to_string())) {
        Some(ClipGet::Text(t)) => assert_eq!(t, "hello"),
        _ => panic!("expected text"),
    }
    assert!(clip_from_text(Some(String::new())).is_none());
    assert!(clip_from_text(None).is_none());
    match clip_from_image(2, 2, &pixels(2, 2)) {
        Some(ClipGet::Png { png }) => assert!(png.starts_with(&[0x89, b'P', b'N', b'G'])),
        _ => panic!("expected png"),
    }
}

#[test]
fn pushing_the_clipboard() {
    let (line, msg) = clipboard_push(None, "ab".into(), 1);
    assert_eq!(line, "could not read clipboard");
    assert!(msg.is_none());
    let (line, msg) = clipboard_push(Some(ClipGet::Text("  \n".into())), "ab".into(), 1);
    assert_eq!(line, "clipboard empty");
    assert!(msg.is_none());
    let long: String = "x".repeat(60);
    let (line, msg) = clipboard_push(Some(ClipGet::Text(long.clone())), "ab".into(), 7);
    assert_eq!(line, format!("you ▸ [clip] {}", "x".repeat(48)));
    assert_eq!(msg, Some(Msg::Text { id: "ab".into(), body: long, ts: 7 }));
    let (line, msg) = clipboard_push(Some(ClipGet::Png { png: vec![] }), "ab".into(), 1);
    assert_eq!(line, "clipboard empty");
    assert!(msg.is_none());
    let png = vec![7u8; 2048];
    let (line, msg) = clipboard_push(Some(ClipGet::Png { png: png.clone() }), "f00".into(), 9);
    assert_eq!(line, "you ▸ [image 2 KB]");
    assert_eq!(
        msg,
        Some(Msg::Img {
            id: "f00".into(),
            name: "clip-f00.png".into(),
            mime: "image/png".into(),
            data: b64(&png),
            ts: 9,
        })
    );
}

#[test]
fn temporary_clipboard_files() {
    assert!(is_clip_temp_name("sender-clip-123.png"));
    assert!(!is_clip_temp_name("sender-clip-123.jpg"));
    assert!(!is_clip_temp_name("other-123.png"));
    assert!(is_stale(1000, Some(399)));
    assert!(!is_stale(1000, Some(400)));
    assert!(!is_stale(1000, Some(2000)));
    assert!(!is_stale(1000, None));
}

#[test]
fn admit_image_caps_the_size() {
    let (file, raw) = admit_image("a b.png", vec![1, 2, 3], 42).unwrap();
    assert_eq!(file, "42-a_b.png");
    assert_eq!(raw, vec![1, 2, 3]);
    assert_eq!(admit_image("x", vec![0u8; MAX_IMAGE_BYTES + 1], 1).unwrap_err(), "image too large");
}

#[test]
fn clipboard_tool_names_and_commands() {
    let name = clip_temp_file_name(1_700_000_000_123_456_789);
    assert_eq!(name, "sender-clip-1700000000123456789.png");
    assert!(is_clip_temp_name(&name));
    assert_eq!(clip_temp_file_name(0), "sender-clip-0.png");
    assert_eq!(
        wl_copy_command("/tmp/sender-clip-1.png"),
        "setsid wl-copy -t image/png < '/tmp/sender-clip-1.png' >/dev/null 2>&1 &"
    );
}

#[test]
fn decoder_error_texts_follow_the_prefixes() {
    let bad = "@@@@";
    let expected = base64::engine::general_purpose::STANDARD.decode(bad).unwrap_err().to_string();
    assert_eq!(decode_to_rgba("image/png", bad).unwrap_err(), format!("base64: {}", expected));
    assert_eq!(prepare_image("a", bad, 1).unwrap_err(), format!("base64: {}", expected));
    let junk = b"not a png at all";
    let expected = image::load_from_memory_with_format(junk, image::ImageFormat::Png).unwrap_err().to_string();
    assert_eq!(decode_to_rgba("image/png", &b64(junk)).unwrap_err(), format!("decode: {}", expected));
}

#[test]
fn pushed_picture_data_decodes_back() {
    let png = encode_png(2, 2, &pixels(2, 2));
    let (_, msg) = clipboard_push(Some(ClipGet::Png { png: png.clone() }), "1".into(), 1);
    match msg {
        Some(Msg::Img { data, .. }) => {
            assert_eq!(base64::engine::general_purpose::STANDARD.decode(data).unwrap(), png)
        }
        _ => panic!("expected an image"),
    }
}
