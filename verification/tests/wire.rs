use rp_helper::fingerprint::fingerprint;
use rp_helper::formats::{bundle_reply, content_type, extension, import_file_name};
use rp_helper::frame::split_frame;
use rp_helper::http::{internal_error, listen_address, Status, PORT};
use rp_helper::json::{read_header, request_bytes, with_defaults};
use rp_helper::text::{decimal_text, hex_text, is_text, joined, lossy_text};
use std::collections::hash_map::DefaultHasher;
use std::hash::{Hash, Hasher};

fn strings(list: &[&str]) -> Vec<String> {
    list.iter().map(|s| s.to_string()).collect()
}

#[test]
fn request_is_compact_json_with_sorted_members() {
    let bytes = request_bytes(&strings(&["/a/b.csv", "/c d.csv"]));
    assert_eq!(
        String::from_utf8(bytes).unwrap(),
        r#"{"encrypt":false,"password":"","paths":["/a/b.csv","/c d.csv"],"row_limit":0}"#
    );
}

#[test]
fn request_for_no_files() {
    assert_eq!(
        request_bytes(&Vec::new()),
        br#"{"encrypt":false,"password":"","paths":[],"row_limit":0}"#.to_vec()
    );
}

#[test]
fn request_escapes_every_special_character() {
    let bytes = request_bytes(&strings(&[
        "\"\\/\u{8}\t\n\u{c}\r",
        "\u{0}\u{1}\u{b}\u{1f}\u{7f}",
        "caf\u{e9} \u{1f600} \u{2028}",
    ]));
    let expected = concat_texts(&[
        r#"{"encrypt":false,"password":"","paths":[""#,
        r#"\"\\/\b\t\n\f\r"#,
        r#"",""#,
        "\\u0000\\u0001\\u000b\\u001f\u{7f}",
        r#"",""#,
        "caf\u{e9} \u{1f600} \u{2028}",
        r#""],"row_limit":0}"#,
    ]);
    assert_eq!(String::from_utf8(bytes).unwrap(), expected);
}

fn concat_texts(pieces: &[&str]) -> String {
    pieces.concat()
}

#[test]
fn request_is_read_back_by_a_json_parser() {
    let paths = strings(&["a\"b", "c\\d", "e\nf", "\u{0}", ""]);
    let bytes = request_bytes(&paths);
    let value: serde_json::Value = serde_json::from_slice(&bytes).unwrap();
    let read: Vec<String> = value["paths"]
        .as_array()
        .unwrap()
        .iter()
        .map(|v| v.as_str().unwrap().to_string())
        .collect();
    assert_eq!(read, paths);
    assert_eq!(value["encrypt"].as_bool(), Some(false));
    assert_eq!(value["password"].as_str(), Some(""));
    assert_eq!(value["row_limit"].as_u64(), Some(0));
}

#[test]
fn different_files_give_different_requests() {
    let one = request_bytes(&strings(&["a\",\"b"]));
    let two = request_bytes(&strings(&["a", "b"]));
    assert_ne!(one, two);
    assert_ne!(
        request_bytes(&strings(&["a", "b"])),
        request_bytes(&strings(&["b", "a"]))
    );
}

#[test]
fn frame_is_taken_apart() {
    let frame = split_frame(b"HDR{\"format\":\"json\"}\n[1,2]\n[3]").unwrap();
    assert_eq!(frame.header, b"{\"format\":\"json\"}".to_vec());
    assert_eq!(frame.body, b"[1,2]\n[3]".to_vec());
}

#[test]
fn frame_is_put_together_again() {
    let bytes = b"HDR{\"a\":1}\nline\n\nHDR\n".to_vec();
    let frame = split_frame(&bytes).unwrap();
    let again = [&b"HDR"[..], &frame.header, b"\n", &frame.body].concat();
    assert_eq!(again, bytes);
    assert!(!frame.header.contains(&b'\n'));
}

#[test]
fn frame_with_empty_parts() {
    let frame = split_frame(b"HDR\n").unwrap();
    assert!(frame.header.is_empty());
    assert!(frame.body.is_empty());
}

#[test]
fn what_is_no_frame() {
    assert!(split_frame(b"").is_none());
    assert!(split_frame(b"HDR{}").is_none());
    assert!(split_frame(b"HD\nR").is_none());
    assert!(split_frame(b"hdr{}\nbody").is_none());
    assert!(split_frame(b"\nHDR").is_none());
}

#[test]
fn header_names_password_and_format() {
    let fields = read_header(r#" {"format" : "ndjson", "password":"péw\n"} "#.as_bytes());
    assert_eq!(fields.password, "p\u{e9}w\n");
    assert_eq!(fields.format, "ndjson");
}

#[test]
fn header_without_members_gets_the_defaults() {
    for header in [
        &b"{}"[..],
        b"",
        b"not json",
        b"[\"password\"]",
        b"null",
        b"{\"password\":7,\"format\":null}",
        b"{\"password\":\"x\"",
        b"{\"password\":\"x\"}\xff",
    ] {
        let fields = read_header(header);
        assert_eq!(fields.password, "");
        assert_eq!(fields.format, "bundle");
    }
}

#[test]
fn header_with_one_member() {
    let fields = read_header(b"{\"password\":\"secret\"}");
    assert_eq!(fields.password, "secret");
    assert_eq!(fields.format, "bundle");
    let fields = read_header(b"{\"format\":\"\"}");
    assert_eq!(fields.password, "");
    assert_eq!(fields.format, "");
}

#[test]
fn defaults_fill_in_what_is_missing() {
    let fields = with_defaults(None, Some("json".to_string()));
    assert_eq!(fields.password, "");
    assert_eq!(fields.format, "json");
    let fields = with_defaults(Some("p".to_string()), None);
    assert_eq!(fields.password, "p");
    assert_eq!(fields.format, "bundle");
}

#[test]
fn content_types() {
    assert_eq!(content_type("json"), "application/json");
    assert_eq!(content_type("ndjson"), "application/x-ndjson");
    assert_eq!(content_type("bundle"), "application/octet-stream");
    assert_eq!(content_type("JSON"), "application/octet-stream");
}

#[test]
fn extensions() {
    assert_eq!(extension("json"), "json");
    assert_eq!(extension("ndjson"), "ndjson");
    assert_eq!(extension("bundle"), "RoyaltyProData");
    assert_eq!(extension(""), "RoyaltyProData");
}

#[test]
fn file_names_of_results() {
    assert_eq!(import_file_name(1700000000123, "json"), "rp-import-1700000000123.json");
    assert_eq!(import_file_name(0, "bundle"), "rp-import-0.RoyaltyProData");
}

#[test]
fn results_are_served_by_format() {
    let reply = bundle_reply("ndjson", Ok(vec![1, 2])).unwrap();
    assert_eq!(reply.content_type, "application/x-ndjson");
    assert_eq!(reply.bytes, vec![1, 2]);
    let error = bundle_reply("json", Err("gone".to_string())).unwrap_err();
    assert_eq!(error.status, Status::InternalServerError);
    assert_eq!(error.message, "read bundle: gone");
}

#[test]
fn fingerprint_is_the_default_hash_in_hexadecimal() {
    let big_endian = 1u16.to_ne_bytes()[0] == 0;
    for bytes in [&b""[..], b"a", b"hello world", &[0u8; 5000]] {
        let mut hasher = DefaultHasher::new();
        bytes.hash(&mut hasher);
        assert_eq!(fingerprint(bytes, big_endian), format!("{:016x}", hasher.finish()));
    }
}

#[test]
fn fingerprint_writes_the_length_in_the_given_byte_order() {
    let bytes = [7u8; 300];
    for (big_endian, length) in [
        (false, bytes.len().to_le_bytes()),
        (true, bytes.len().to_be_bytes()),
    ] {
        let mut hasher = DefaultHasher::new();
        hasher.write(&length);
        hasher.write(&bytes);
        assert_eq!(fingerprint(&bytes, big_endian), format!("{:016x}", hasher.finish()));
    }
    assert_ne!(fingerprint(&bytes, false), fingerprint(&bytes, true));
}

#[test]
fn equal_bytes_have_equal_fingerprints() {
    assert_eq!(fingerprint(b"engine", false), fingerprint(b"engine", false));
    assert_ne!(fingerprint(b"a", false), fingerprint(b"b", false));
}

#[test]
fn numbers_in_decimal() {
    assert_eq!(decimal_text(0), "0");
    assert_eq!(decimal_text(9), "9");
    assert_eq!(decimal_text(10), "10");
    assert_eq!(decimal_text(1700000000123), "1700000000123");
    assert_eq!(decimal_text(u128::MAX), u128::MAX.to_string());
}

#[test]
fn numbers_in_hexadecimal() {
    assert_eq!(hex_text(0, 16), "0000000000000000");
    assert_eq!(hex_text(0x0123456789abcdef, 16), "0123456789abcdef");
    assert_eq!(hex_text(u64::MAX, 16), "ffffffffffffffff");
    assert_eq!(hex_text(0xabc, 2), "bc");
    assert_eq!(hex_text(7, 0), "");
    assert_eq!(hex_text(7, 1_000_000).len(), 1_000_000);
}

#[test]
fn lossy_text_replaces_what_is_no_utf8() {
    assert_eq!(lossy_text(b"plain"), "plain");
    assert_eq!(lossy_text("caf\u{e9}".as_bytes()), "caf\u{e9}");
    assert_eq!(lossy_text(b"a\xffb"), "a\u{fffd}b");
    assert_eq!(lossy_text(b""), "");
}

#[test]
fn texts_are_joined_and_compared() {
    assert_eq!(joined("ab", "c"), "abc");
    assert!(is_text("json", "json"));
    assert!(!is_text("json", "ndjson"));
}

#[test]
fn statuses_have_their_numbers() {
    assert_eq!(Status::Accepted.code(), 202);
    assert_eq!(Status::BadRequest.code(), 400);
    assert_eq!(Status::NotFound.code(), 404);
    assert_eq!(Status::PreconditionFailed.code(), 412);
    assert_eq!(Status::InternalServerError.code(), 500);
}

#[test]
fn internal_errors_say_what_was_done() {
    let error = internal_error("read bundle", "no such file");
    assert_eq!(error.status, Status::InternalServerError);
    assert_eq!(error.message, "read bundle: no such file");
}

#[test]
fn address_is_local() {
    assert_eq!(listen_address(PORT), "127.0.0.1:17891");
}
