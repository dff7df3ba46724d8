use std::collections::HashMap;
use std::io::Cursor;

use dir_encoder::codec::{decode_image, decode_payload, encode_pixels};
use dir_encoder::document::Document;
use dir_encoder::pipeline::{encode_files, render, SourceFile};

fn image_bytes(w: u32, h: u32, pixels: Vec<u8>, format: image::ImageFormat) -> Vec<u8> {
    let img = image::RgbaImage::from_raw(w, h, pixels).expect("buffer size");
    let mut out = Cursor::new(Vec::new());
    image::DynamicImage::ImageRgba8(img)
        .write_to(&mut out, format)
        .expect("encode test image");
    out.into_inner()
}

fn png(w: u32, h: u32, pixels: Vec<u8>) -> Vec<u8> {
    image_bytes(w, h, pixels, image::ImageFormat::Png)
}

fn file(name: &str, bytes: Vec<u8>) -> SourceFile {
    SourceFile { name: name.to_string(), bytes }
}

fn parse(json: &str) -> HashMap<String, String> {
    serde_json::from_str(json).expect("a JSON object of strings")
}

#[test]
fn png_pixels_survive_the_round_trip() {
    let pixels: Vec<u8> = (0u8..16).map(|i| i.wrapping_mul(17)).collect();
    let bytes = png(2, 2, pixels.clone());
    let decoded = decode_image(&bytes).expect("a PNG");
    assert_eq!(decoded, pixels);
    let payload = encode_pixels(&decoded).expect("encodes");
    assert_eq!(decode_payload(&payload), Some(pixels));
}

#[test]
fn bmp_pixels_survive_the_round_trip() {
    let pixels: Vec<u8> = vec![255, 0, 0, 255, 0, 255, 0, 255, 0, 0, 255, 255];
    let bytes = image_bytes(3, 1, pixels.clone(), image::ImageFormat::Bmp);
    let decoded = decode_image(&bytes).expect("a BMP");
    assert_eq!(decoded, pixels);
    let payload = encode_pixels(&decoded).expect("encodes");
    assert_eq!(decode_payload(&payload), Some(decoded));
}

#[test]
fn rendered_payloads_decode_to_the_pixels() {
    let pixels = vec![1u8, 2, 3, 4, 5, 6, 7, 8];
    let out = render(&vec![file("p.png", png(2, 1, pixels.clone()))]).expect("renders");
    let map = parse(&out.json);
    assert_eq!(decode_payload(&map["p.png"]), Some(pixels));
}

#[test]
fn no_files_give_an_empty_object() {
    let out = render(&vec![]).expect("renders");
    assert_eq!(out.json, "{}");
    assert_eq!(out.source_bytes, 0);
}

#[test]
fn only_undecodable_files_give_an_empty_object() {
    let files = vec![
        file("notes.txt", b"hello, this is not an image".to_vec()),
        file("empty.png", Vec::new()),
    ];
    let out = render(&files).expect("renders");
    assert_eq!(out.json, "{}");
    assert_eq!(out.source_bytes, 0);
}

#[test]
fn a_text_file_is_not_a_key() {
    let files = vec![
        file("readme.txt", b"plain text".to_vec()),
        file("dot.png", png(1, 1, vec![9, 9, 9, 255])),
    ];
    let out = render(&files).expect("renders");
    let map = parse(&out.json);
    assert!(!map.contains_key("readme.txt"));
    assert!(map.contains_key("dot.png"));
    assert_eq!(map.len(), 1);
}

#[test]
fn two_images_give_two_distinct_entries() {
    let a = png(1, 1, vec![255, 0, 0, 255]);
    let b = png(1, 1, vec![0, 0, 255, 255]);
    let size = (a.len() + b.len()) as u64;
    let out = render(&vec![file("a.png", a), file("b.png", b)]).expect("renders");
    let map = parse(&out.json);
    assert_eq!(map.len(), 2);
    assert!(map.contains_key("a.png"));
    assert!(map.contains_key("b.png"));
    assert_ne!(map["a.png"], map["b.png"]);
    assert_eq!(out.source_bytes, size);
}

#[test]
fn a_later_file_with_the_same_name_wins() {
    let first = png(1, 1, vec![1, 1, 1, 255]);
    let second = png(1, 1, vec![2, 2, 2, 255]);
    let encoded = encode_files(&vec![file("x.png", first), file("x.png", second)]).expect("encodes");
    assert_eq!(encoded.document.len(), 1);
    let payload = encoded.document.get(&"x.png".to_string()).expect("present").clone();
    assert_eq!(decode_payload(&payload), Some(vec![2, 2, 2, 255]));
}

#[test]
fn encoding_twice_gives_the_same_payload() {
    let pixels: Vec<u8> = (0..400u32).map(|i| (i % 251) as u8).collect();
    let first = encode_pixels(&pixels).expect("encodes");
    let second = encode_pixels(&pixels).expect("encodes");
    assert_eq!(first, second);
}

#[test]
fn empty_buffer_payload_is_exact() {
    assert_eq!(encode_pixels(&[]).expect("encodes"), "eNoDAAAAAAE=");
}

#[test]
fn payload_is_not_the_raw_pixels() {
    let pixels = vec![7u8; 64];
    let payload = encode_pixels(&pixels).expect("encodes");
    assert_ne!(payload.as_bytes(), &pixels[..]);
    assert!(payload.len() < 64);
}

#[test]
fn garbage_payload_does_not_decode() {
    assert_eq!(decode_payload("not base64 at all!"), None);
    assert_eq!(decode_payload("AAAA"), None);
}

#[test]
fn non_image_bytes_do_not_decode() {
    assert_eq!(decode_image(b"GIF89a but truncated"), None);
    assert_eq!(decode_image(&[]), None);
}

#[test]
fn document_replaces_in_place_and_serialises() {
    let mut doc = Document::new();
    doc.insert("b".to_string(), "1".to_string());
    doc.insert("a\"q".to_string(), "2".to_string());
    doc.insert("b".to_string(), "3".to_string());
    assert_eq!(doc.len(), 2);
    assert_eq!(doc.get(&"b".to_string()), Some(&"3".to_string()));
    assert_eq!(doc.get(&"c".to_string()), None);
    assert_eq!(doc.to_json(), "{\"b\":\"3\",\"a\\\"q\":\"2\"}");
}

#[test]
fn empty_document_serialises_to_braces() {
    assert_eq!(Document::new().to_json(), "{}");
}

#[test]
fn control_characters_are_escaped() {
    let mut doc = Document::new();
    doc.insert("a\u{1}\t\\".to_string(), "\u{7f}é".to_string());
    assert_eq!(doc.to_json(), "{\"a\\u0001\\t\\\\\":\"\u{7f}é\"}");
}
