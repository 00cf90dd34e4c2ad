use layer8_interceptor::formdata::{
    parse_form_data_in_memory, parse_form_data_to_array, FormBlob, FormData, FormEntry, FormValue,
};
use layer8_interceptor::text::{decimal, escape, normalize_linefeeds};

fn text(name: &str, value: &str) -> FormEntry {
    FormEntry { name: name.to_string(), value: FormValue::Text(value.to_string()) }
}

fn blob(name: &str, filename: &str, content_type: &str, bytes: &[u8]) -> FormEntry {
    FormEntry {
        name: name.to_string(),
        value: FormValue::Blob(FormBlob {
            filename: filename.to_string(),
            content_type: content_type.to_string(),
            bytes: bytes.to_vec(),
        }),
    }
}

#[test]
fn escape_replaces_line_ends_and_quotes() {
    assert_eq!(escape("a\nb\rc\"d"), "a%0Ab%0Dc%22d");
    assert_eq!(escape(""), "");
    assert_eq!(escape("plain é"), "plain é");
}

#[test]
fn normalize_linefeeds_turns_every_line_end_into_a_line_feed() {
    assert_eq!(normalize_linefeeds("a\r\nb"), "a\nb");
    assert_eq!(normalize_linefeeds("a\rb"), "a\nb");
    assert_eq!(normalize_linefeeds("a\nb"), "a\nb");
    assert_eq!(normalize_linefeeds("\r\r\n\n"), "\n\n\n");
    assert_eq!(normalize_linefeeds(""), "");
}

#[test]
fn form_data_framing() {
    let form = FormData {
        entries: vec![text("key1", "value1"), blob("file", "a.txt", "text/plain", &[0x41, 0x42, 0x43])],
    };
    let body = parse_form_data_to_array(&form, "B");
    let expected = "--B\r\nContent-Disposition: form-data; name=\"key1\"\r\n\r\nvalue1\r\n\
--B\r\nContent-Disposition: form-data; name=\"file\"; filename=\"a.txt\"\r\nContent-Type: text/plain\r\n\r\nABC\r\n\
--B--";
    assert_eq!(body, expected.as_bytes().to_vec());
    assert_eq!(parse_form_data_in_memory(&form, "B"), body);
}

#[test]
fn form_data_blob_without_file_name() {
    let form = FormData { entries: vec![blob("f", "", "application/octet-stream", &[1, 2])] };
    let body = parse_form_data_to_array(&form, "xyz");
    let mut expected = b"--xyz\r\nContent-Disposition: form-data; name=\"f\"\r\nContent-Type: application/octet-stream\r\n\r\n".to_vec();
    expected.extend_from_slice(&[1, 2]);
    expected.extend_from_slice(b"\r\n--xyz--");
    assert_eq!(body, expected);
}

#[test]
fn empty_form_is_only_the_closing_line() {
    let form = FormData { entries: vec![] };
    assert_eq!(parse_form_data_to_array(&form, "B"), b"--B--".to_vec());
}

#[test]
fn numbers_in_decimal() {
    assert_eq!(decimal(0), "0");
    assert_eq!(decimal(9), "9");
    assert_eq!(decimal(10), "10");
    assert_eq!(decimal(65535), "65535");
    assert_eq!(decimal(4294967295), "4294967295");
}

#[test]
fn names_are_normalized_and_escaped_in_the_header() {
    let form = FormData { entries: vec![text("a\"b\r\nc", "x\ry")] };
    let body = parse_form_data_to_array(&form, "B");
    assert_eq!(
        body,
        b"--B\r\nContent-Disposition: form-data; name=\"a%22b%0Ac\"\r\n\r\nx\ny\r\n--B--".to_vec()
    );
    let form = FormData { entries: vec![blob("f", "q\"uote\n.txt", "text/plain", &[])] };
    let body = parse_form_data_to_array(&form, "B");
    assert_eq!(
        body,
        b"--B\r\nContent-Disposition: form-data; name=\"f\"; filename=\"q%22uote%0A.txt\"\r\nContent-Type: text/plain\r\n\r\n\r\n--B--".to_vec()
    );
}

fn count(text: &[u8], pattern: &[u8]) -> usize {
    (0..text.len()).filter(|&i| text[i..].starts_with(pattern)).count()
}

#[test]
fn the_closing_line_and_the_dispositions_stand_where_they_belong() {
    let form = FormData {
        entries: vec![
            text("key1", "value1 -- with dashes"),
            blob("file", "a--b.txt", "text/plain", b"--\r\n--X--\r\nContent-Disposition"),
            text("key-2", "x"),
            blob("raw", "", "application/octet-stream", &[45, 45, 45]),
        ],
    };
    let body = parse_form_data_to_array(&form, "B0und-ary");
    assert_eq!(count(&body, b"--B0und-ary--"), 1);
    assert!(body.ends_with(b"--B0und-ary--"));
    assert_eq!(count(&body, b"--B0und-ary"), 5);
    assert_eq!(count(&body, b"--B0und-ary\r\nContent-Disposition: form-data; name=\""), 4);
    let first = b"--B0und-ary\r\nContent-Disposition: form-data; name=\"key1\"";
    assert!(body.starts_with(first));
}

#[test]
fn a_boundary_of_dashes_cannot_be_told_apart() {
    let form = FormData { entries: vec![] };
    let body = parse_form_data_to_array(&form, "-");
    assert_eq!(body, b"-----".to_vec());
    assert_eq!(count(&body, b"---"), 3);
}
