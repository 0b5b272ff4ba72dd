use mqtt_image_writer::assets::{choose_asset, resolve_asset, AssetError};
use mqtt_image_writer::bitmap::{decode_rgba, nearest_resize, open_rgba, DecodeError, RgbaBitmap};
use mqtt_image_writer::color::{merge_colors, Rgb, Rgba};
use mqtt_image_writer::frame::{parse_chunk_line, parse_frame, FrameError};
use mqtt_image_writer::payload::{parse_payload, PayloadError};
use mqtt_image_writer::pipeline::{
    default_background, default_sizes, load_emoji_image, plan_chunk, plan_chunk_bytes,
    reconnect_delay_ms, topic_for, transcode_all, transcode_image_bytes, vet_decoded,
    BrokerMessage, ChunkAction, LoadError, PublishSequence,
};

#[test]
fn test_parse_chunk_line() {
    let input = "event: put\ndata: {\"emoji\":\"👍\"}\n\n";
    let (command, data) = parse_chunk_line(input).unwrap();
    assert_eq!(command, "event");
    assert_eq!(data, "put\ndata: {\"emoji\":\"👍\"}");
}

#[test]
fn merges_colors_correctly() {
    let fg = Rgba { r: 255, g: 0, b: 0, a: 128 };
    let bg = Rgb { r: 0, g: 255, b: 0 };
    let result = merge_colors(&fg, &bg);
    assert_eq!(result, vec![128, 127, 0]);
}

#[test]
fn opaque_foreground_wins_for_any_background() {
    for bg_v in [0u8, 1, 77, 128, 254, 255] {
        let fg = Rgba { r: 13, g: 200, b: 251, a: 255 };
        let bg = Rgb { r: bg_v, g: bg_v, b: bg_v };
        assert_eq!(merge_colors(&fg, &bg), vec![13, 200, 251]);
    }
}

#[test]
fn transparent_foreground_keeps_background() {
    for fg_v in [0u8, 1, 77, 128, 254, 255] {
        let fg = Rgba { r: fg_v, g: fg_v, b: fg_v, a: 0 };
        let bg = Rgb { r: 9, g: 90, b: 200 };
        assert_eq!(merge_colors(&fg, &bg), vec![9, 90, 200]);
    }
}

#[test]
fn merge_is_monotonic_in_alpha() {
    let fg = Rgba { r: 240, g: 7, b: 128, a: 0 };
    let bg = Rgb { r: 10, g: 250, b: 128 };
    let mut prev = merge_colors(&Rgba { a: 0, ..fg }, &bg);
    for a in 1..=255u8 {
        let cur = merge_colors(&Rgba { a, ..fg }, &bg);
        // red rises towards fg, green falls towards fg, blue stays put
        assert!(cur[0] >= prev[0]);
        assert!(cur[1] <= prev[1]);
        assert_eq!(cur[2], 128);
        prev = cur;
    }
}

#[test]
fn parse_chunk_line_keeps_embedded_colons() {
    let (key, value) = parse_chunk_line("data: {\"emoji\":\"👍\"}").unwrap();
    assert_eq!(key, "data");
    assert_eq!(value, "{\"emoji\":\"👍\"}");
}

#[test]
fn parse_chunk_line_without_colon_fails() {
    assert_eq!(parse_chunk_line("no colon here"), Err(FrameError::MissingColon));
}

#[test]
fn parse_frame_reads_command_and_data() {
    let ev = parse_frame("event: put\ndata: {\"emoji\":\"X\"}\n\n").unwrap();
    assert_eq!(ev.command, "put");
    assert_eq!(ev.data, "{\"emoji\":\"X\"}");
}

#[test]
fn parse_frame_handles_crlf_line_endings() {
    let ev = parse_frame("event: put\r\ndata: {\"emoji\":\"X\"}\r\n\r\n").unwrap();
    assert_eq!(ev.command, "put");
    assert_eq!(ev.data, "{\"emoji\":\"X\"}");
}

#[test]
fn chunk_with_too_few_nonblank_lines_is_rejected() {
    assert_eq!(parse_frame("event: put\n\n").unwrap_err(), FrameError::TooFewLines);
    assert_eq!(parse_frame("").unwrap_err(), FrameError::TooFewLines);
    assert_eq!(parse_frame("\n \n\t\n").unwrap_err(), FrameError::TooFewLines);
}

#[test]
fn chunk_with_colonless_first_line_is_rejected() {
    assert_eq!(parse_frame("nocolon\ndata: x\n").unwrap_err(), FrameError::MissingColon);
}

#[test]
fn payload_decodes_plain_emoji() {
    assert_eq!(parse_payload("{\"emoji\":\"👍\"}").unwrap(), "👍");
    assert_eq!(parse_payload(" { \"emoji\" : \"ok\" } ").unwrap(), "ok");
}

#[test]
fn payload_decodes_simple_escapes() {
    assert_eq!(parse_payload("{\"emoji\":\"a\\nb\\\"c\\\\d\"}").unwrap(), "a\nb\"c\\d");
}

#[test]
fn payload_decodes_unicode_escapes() {
    assert_eq!(parse_payload("{\"emoji\":\"\\u0041\"}").unwrap(), "A");
    // a surrogate pair combines into one supplementary character
    assert_eq!(parse_payload("{\"emoji\":\"\\ud83d\\udc4d\"}").unwrap(), "👍");
}

#[test]
fn malformed_payload_is_recoverable() {
    assert_eq!(parse_payload("not json"), Err(PayloadError::Malformed));
    assert_eq!(parse_payload("{\"emoji\":\"unterminated}"), Err(PayloadError::Malformed));
    assert_eq!(parse_payload("{\"other\":\"x\"}"), Err(PayloadError::Malformed));
    assert_eq!(parse_payload("{\"emoji\":\"\\uzzzz\"}"), Err(PayloadError::Malformed));
    // a lone surrogate names no character
    assert_eq!(parse_payload("{\"emoji\":\"\\ud83d\"}"), Err(PayloadError::Malformed));
    assert_eq!(parse_payload("{}"), Err(PayloadError::Malformed));
}

#[test]
fn put_chunk_plans_a_publish() {
    match plan_chunk("event: put\ndata: {\"emoji\":\"👍\"}\n\n") {
        ChunkAction::Publish { emoji } => assert_eq!(emoji, "👍"),
        _ => panic!("expected a publish"),
    }
}

#[test]
fn keep_alive_plans_nothing() {
    match plan_chunk("event: keep-alive\ndata: null\n\n") {
        ChunkAction::KeepAlive => {}
        _ => panic!("expected a keep-alive no-op"),
    }
}

#[test]
fn unknown_command_is_ignored() {
    match plan_chunk("event: delete\ndata: {}\n\n") {
        ChunkAction::Ignore { command } => assert_eq!(command, "delete"),
        _ => panic!("expected the command to be ignored"),
    }
}

#[test]
fn invalid_frame_is_skipped() {
    match plan_chunk("event put\ndata: {}\n") {
        ChunkAction::SkipFrame { error } => assert_eq!(error, FrameError::MissingColon),
        _ => panic!("expected a frame skip"),
    }
}

#[test]
fn bad_payload_is_skipped_not_fatal() {
    match plan_chunk("event: put\ndata: {\"emoji\":}\n\n") {
        ChunkAction::SkipPayload { error } => assert_eq!(error, PayloadError::Malformed),
        _ => panic!("expected a payload skip"),
    }
}

#[test]
fn byte_chunks_are_decoded_lossily() {
    let mut bytes = b"event: put\ndata: {\"emoji\":\"X\"}\n\n".to_vec();
    match plan_chunk_bytes(&bytes) {
        ChunkAction::Publish { emoji } => assert_eq!(emoji, "X"),
        _ => panic!("expected a publish"),
    }
    // an invalid byte in a trailing blank line must not derail the frame
    bytes.push(0xff);
    bytes.push(b'\n');
    match plan_chunk_bytes(&bytes) {
        ChunkAction::Publish { emoji } => assert_eq!(emoji, "X"),
        _ => panic!("expected a publish despite the invalid byte"),
    }
}

#[test]
fn asset_names_use_lowercase_hex_codepoints() {
    let cps: Vec<char> = "👍".chars().collect();
    match choose_asset("assets", &cps, true, false) {
        Ok(p) => assert_eq!(p, "assets/emoji_u1f44d.png"),
        Err(_) => panic!("expected the primary path"),
    }
    let seq: Vec<char> = "👍🏻".chars().collect();
    match choose_asset("assets", &seq, true, false) {
        Ok(p) => assert_eq!(p, "assets/emoji_u1f44d_1f3fb.png"),
        Err(_) => panic!("expected the primary path"),
    }
}

#[test]
fn missing_exact_file_falls_back_to_shorter_name() {
    let seq: Vec<char> = "👍🏻".chars().collect();
    match choose_asset("assets", &seq, false, true) {
        Ok(p) => assert_eq!(p, "assets/emoji_u1f44d.png"),
        Err(_) => panic!("expected the fallback path"),
    }
    assert_eq!(choose_asset("assets", &seq, false, false), Err(AssetError::NotFound));
}

#[test]
fn single_codepoint_has_no_fallback() {
    let cps: Vec<char> = "👍".chars().collect();
    assert_eq!(choose_asset("assets", &cps, false, true), Err(AssetError::NotFound));
}

#[test]
fn resolution_in_missing_directory_fails() {
    assert_eq!(
        resolve_asset("/surely/not/a/real/asset/directory", "👍"),
        Err(AssetError::NotFound)
    );
    match load_emoji_image("/surely/not/a/real/asset/directory", "👍") {
        Err(e) => assert_eq!(e, LoadError::NotFound),
        Ok(_) => panic!("expected a miss"),
    }
}

#[test]
fn empty_emoji_never_resolves() {
    assert_eq!(resolve_asset("assets", ""), Err(AssetError::NotFound));
    match load_emoji_image("assets", "") {
        Err(e) => assert_eq!(e, LoadError::NotFound),
        Ok(_) => panic!("an empty emoji must not resolve"),
    }
}

#[test]
fn decode_vetting_passes_only_usable_bitmaps() {
    let good = RgbaBitmap { width: 1, height: 1, data: vec![1, 2, 3, 4] };
    match vet_decoded(Ok(good)) {
        Ok(b) => {
            assert_eq!(b.width, 1);
            assert_eq!(b.height, 1);
            assert_eq!(b.data, vec![1, 2, 3, 4]);
        }
        Err(_) => panic!("a usable bitmap must pass through"),
    }
    let empty = RgbaBitmap { width: 0, height: 3, data: vec![] };
    match vet_decoded(Ok(empty)) {
        Err(e) => assert_eq!(e, LoadError::Undecodable),
        Ok(_) => panic!("an empty bitmap must be rejected"),
    }
    match vet_decoded(Err(DecodeError::Invalid)) {
        Err(e) => assert_eq!(e, LoadError::Undecodable),
        Ok(_) => panic!("a failed decode must be rejected"),
    }
}

#[test]
fn unreadable_image_file_fails_decode() {
    let missing = String::from("/surely/not/a/real/asset.png");
    assert!(open_rgba(&missing).is_err());
}

#[test]
fn garbage_bytes_do_not_decode() {
    let garbage = b"certainly not an image".to_vec();
    assert!(decode_rgba(&garbage).is_err());
}

#[test]
fn topics_name_the_resolution() {
    assert_eq!(topic_for(32, 32), "ledmoji/32x32");
    assert_eq!(topic_for(128, 128), "ledmoji/128x128");
    assert_eq!(topic_for(1, 300), "ledmoji/1x300");
}

#[test]
fn nearest_resize_repeats_pixels_exactly() {
    // two pixels: red then blue
    let src = RgbaBitmap {
        width: 2,
        height: 1,
        data: vec![255, 0, 0, 255, 0, 0, 255, 255],
    };
    let out = nearest_resize(&src, 4, 1);
    assert_eq!(out.width, 4);
    assert_eq!(out.height, 1);
    assert_eq!(
        out.data,
        vec![255, 0, 0, 255, 255, 0, 0, 255, 0, 0, 255, 255, 0, 0, 255, 255]
    );
}

#[test]
fn compositing_flattens_alpha_against_black() {
    let src = RgbaBitmap { width: 1, height: 1, data: vec![255, 0, 0, 128] };
    let bg = Rgb { r: 0, g: 255, b: 0 };
    let out = mqtt_image_writer::bitmap::composite_to_rgb(&src, &bg);
    assert_eq!(out, vec![128, 127, 0]);
}

#[test]
fn put_event_yields_one_publish_per_resolution() {
    // the end-to-end path short of the network: a put frame arrives, the
    // bitmap decodes, and one retained publish per configured resolution
    // comes out with a w*h*3 payload
    match plan_chunk("event: put\ndata: {\"emoji\":\"👍\"}\n\n") {
        ChunkAction::Publish { emoji } => assert_eq!(emoji, "👍"),
        _ => panic!("expected a publish"),
    }

    let mut img = image::RgbaImage::new(16, 16);
    for p in img.pixels_mut() {
        *p = image::Rgba([200, 30, 40, 255]);
    }
    let mut bytes: Vec<u8> = Vec::new();
    img.write_to(&mut std::io::Cursor::new(&mut bytes), image::ImageFormat::Png)
        .unwrap();

    let bmp = decode_rgba(&bytes).unwrap();
    assert_eq!(bmp.width, 16);
    assert_eq!(bmp.height, 16);
    assert_eq!(bmp.data.len(), 16 * 16 * 4);

    let sizes = default_sizes();
    let bg = default_background();
    let messages = transcode_image_bytes(&bytes, &sizes, &bg).unwrap();
    let direct = transcode_all(&bmp, &sizes, &bg);
    assert_eq!(messages.len(), direct.len());
    assert_eq!(messages[0].payload, direct[0].payload);
    assert_eq!(messages[1].payload, direct[1].payload);
    assert_eq!(messages.len(), 2);
    assert_eq!(messages[0].topic, "ledmoji/32x32");
    assert_eq!(messages[0].payload.len(), 32 * 32 * 3);
    assert_eq!(messages[1].topic, "ledmoji/128x128");
    assert_eq!(messages[1].payload.len(), 128 * 128 * 3);
    // fully opaque source: every pixel carries the source colour unchanged
    assert_eq!(&messages[0].payload[0..3], &[200, 30, 40]);
    assert_eq!(&messages[1].payload[49149..49152], &[200, 30, 40]);
}

#[test]
fn failed_publish_does_not_block_remaining_resolutions() {
    let messages = vec![
        BrokerMessage { topic: topic_for(32, 32), payload: vec![1, 2, 3] },
        BrokerMessage { topic: topic_for(128, 128), payload: vec![4, 5, 6] },
    ];
    let mut seq = PublishSequence::new(messages);
    let first = seq.current().expect("a first message");
    assert_eq!(first.topic, "ledmoji/32x32");
    // the broker rejects the first publish; the second must still come up
    seq.record(false);
    let second = seq.current().expect("a second message after a failure");
    assert_eq!(second.topic, "ledmoji/128x128");
    assert_eq!(second.payload, vec![4, 5, 6]);
    seq.record(true);
    assert!(seq.current().is_none());
}

#[test]
fn reconnects_always_pause() {
    let mut prev = 0u64;
    for attempt in 0..12u32 {
        let d = reconnect_delay_ms(attempt);
        assert!(d >= 1000);
        assert!(d <= 32000);
        assert!(d >= prev);
        prev = d;
    }
    assert_eq!(reconnect_delay_ms(0), 1000);
    assert_eq!(reconnect_delay_ms(5), 32000);
}
