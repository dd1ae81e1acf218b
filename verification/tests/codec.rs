use flate2::write::ZlibEncoder;
use flate2::Compression;
use rss_qualifier::cache::cache_data::CacheData;
use rss_qualifier::codec::{decode, encode, storage_form};
use std::io::Write;

fn deflate(bytes: &[u8]) -> Vec<u8> {
    let mut encoder = ZlibEncoder::new(Vec::new(), Compression::default());
    encoder.write_all(bytes).unwrap();
    encoder.finish().unwrap()
}

#[test]
fn round_trip_plain_text() {
    let (bytes, compressed) = encode("Hello World");
    assert_eq!(decode(&bytes, compressed), "Hello World");
}

#[test]
fn round_trip_empty_text() {
    let (bytes, compressed) = encode("");
    assert_eq!(decode(&bytes, compressed), "");
}

#[test]
fn round_trip_text_beyond_ascii() {
    let text = "Grüße aus Köln — 東京 🚀 \u{0} end";
    let (bytes, compressed) = encode(text);
    assert_eq!(decode(&bytes, compressed), text);
}

#[test]
fn round_trip_text_larger_than_the_compressor_buffers() {
    let mut text = String::new();
    let mut seed: u32 = 12345;
    while text.len() < 600_000 {
        seed = seed.wrapping_mul(1_103_515_245).wrapping_add(12_345);
        text.push(char::from_u32(0x21 + (seed >> 16) % 0x250).unwrap_or('x'));
    }
    let (bytes, compressed) = encode(&text);
    assert!(compressed);
    assert_eq!(decode(&bytes, compressed), text);
}

#[test]
fn encode_stores_the_zlib_stream() {
    let text = "aaaaaaaaaaaaaaaaaaaaaaaaaaaaaaaaaaaaaaaaaaaaaaaaaaaaaaaaaaaaaaaaaaaaaaaaaaaaaaaa";
    let (bytes, compressed) = encode(text);
    assert!(compressed);
    assert_ne!(bytes, text.as_bytes().to_vec());
    assert!(bytes.len() < text.len());
    assert_eq!(bytes, deflate(text.as_bytes()));
}

#[test]
fn storage_form_prefers_the_compressed_bytes() {
    let (bytes, compressed) = storage_form(vec![1, 2, 3], Some(vec![9, 8]));
    assert_eq!(bytes, vec![9, 8]);
    assert!(compressed);
}

#[test]
fn storage_form_falls_back_to_raw_bytes() {
    let raw = "fallback é".as_bytes().to_vec();
    let (bytes, compressed) = storage_form(raw.clone(), None);
    assert_eq!(bytes, raw);
    assert!(!compressed);
    assert_eq!(decode(&bytes, compressed), "fallback é");
}

#[test]
fn decode_raw_bytes_is_not_a_copy_of_compressed_input() {
    let packed = deflate(b"payload");
    assert_eq!(decode(&packed, true), "payload");
    assert_ne!(decode(&packed, false), "payload");
}

#[test]
fn decode_repairs_invalid_utf8_in_raw_bytes() {
    assert_eq!(decode(&[0x66, 0xff, 0x6f], false), "f\u{fffd}o");
}

#[test]
fn decode_repairs_invalid_utf8_after_decompression() {
    let packed = deflate(&[0x61, 0xc3, 0x28, 0x62]);
    assert_eq!(decode(&packed, true), "a\u{fffd}(b");
}

#[test]
fn decode_survives_bytes_that_are_no_zlib_stream() {
    assert_eq!(decode(b"this is not compressed", true), "");
    assert_eq!(decode(&[], true), "");
}

#[test]
fn decode_keeps_what_a_truncated_stream_still_gives() {
    let mut text = String::new();
    for i in 0..20_000 {
        text.push_str(&format!("line {} of the article\n", i * 7919 % 10_007));
    }
    let packed = deflate(text.as_bytes());
    let cut = &packed[..packed.len() / 2];
    let partial = decode(cut, true);
    assert!(partial.len() < text.len());
    assert!(text.starts_with(partial.trim_end_matches('\u{fffd}')));
}

#[test]
fn new_entry_holds_the_text_and_three_equal_timestamps() {
    let data = CacheData::new("full article", 1_000);
    assert_eq!(data.get_content(), "full article");
    assert_eq!(data.creation, 1_000);
    assert_eq!(data.last_access, 1_000);
    assert_eq!(data.last_update, 1_000);
    assert_eq!(data.creation(), 1_000);
    assert_eq!(data.last_access(), 1_000);
    assert_eq!(data.last_update(), 1_000);
}

#[test]
fn set_content_replaces_the_text_and_moves_only_last_update() {
    let mut data = CacheData::new("first", 10);
    data.set_content("second, longer than the first", 25);
    assert_eq!(data.get_content(), "second, longer than the first");
    assert_eq!(data.creation, 10);
    assert_eq!(data.last_access, 10);
    assert_eq!(data.last_update, 25);
}

#[test]
fn record_access_moves_only_last_access() {
    let mut data = CacheData::new("text", 10);
    data.record_access(99);
    assert_eq!(data.get_content(), "text");
    assert_eq!(data.creation, 10);
    assert_eq!(data.last_access, 99);
    assert_eq!(data.last_update, 10);
}

#[test]
fn get_content_does_not_touch_the_entry() {
    let data = CacheData::new("text", 10);
    let _ = data.get_content();
    let _ = data.get_content();
    assert_eq!(data.last_access, 10);
    assert_eq!(data.get_content(), "text");
}
