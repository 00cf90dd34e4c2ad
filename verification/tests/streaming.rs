use layer8_interceptor::constants::STREAM_CHUNK_SIZE;
use layer8_interceptor::formdata::{
    parse_form_data_to_array, FormBlob, FormData, FormEntry, FormValue,
};
use layer8_interceptor::streaming::{
    calculate_indices, can_stream, FormDataParser, FormDataStreamer,
};

fn text_entry(name: &str, value: &str) -> FormEntry {
    FormEntry { name: name.to_string(), value: FormValue::Text(value.to_string()) }
}

fn blob_entry(name: &str, filename: &str, content_type: &str, bytes: Vec<u8>) -> FormEntry {
    FormEntry {
        name: name.to_string(),
        value: FormValue::Blob(FormBlob {
            filename: filename.to_string(),
            content_type: content_type.to_string(),
            bytes,
        }),
    }
}

fn drain(streamer: &mut FormDataStreamer) -> Vec<Vec<u8>> {
    let mut chunks = Vec::new();
    while let Some(chunk) = streamer.stream() {
        chunks.push(chunk);
        assert!(chunks.len() < 1000);
    }
    chunks
}

#[test]
fn small_forms_are_not_streamed() {
    let form = FormData {
        entries: vec![text_entry("a", "1"), blob_entry("f", "x", "t/t", vec![1; STREAM_CHUNK_SIZE])],
    };
    assert!(!can_stream(&form));
    let expected = parse_form_data_to_array(&form, "B");
    let (bytes, parser) = FormDataParser::new(form, "B".to_string());
    assert!(matches!(parser, FormDataParser::InMemory));
    assert_eq!(bytes, expected);
}

#[test]
fn a_blob_over_one_chunk_is_streamed() {
    let form = FormData {
        entries: vec![blob_entry("f", "x", "t/t", vec![1; STREAM_CHUNK_SIZE + 1])],
    };
    assert!(can_stream(&form));
    let (bytes, parser) = FormDataParser::new(form, "B".to_string());
    assert_eq!(bytes, Vec::<u8>::new());
    assert!(matches!(parser, FormDataParser::Streamer(_)));
}

#[test]
fn streamed_chunks_join_to_the_body_with_texts_first() {
    let big: Vec<u8> = (0..(2 * STREAM_CHUNK_SIZE + 10)).map(|i| (i % 251) as u8).collect();
    let entries = vec![
        text_entry("key1", "value1"),
        blob_entry("big", "big.bin", "application/octet-stream", big.clone()),
        text_entry("key2", "line\r\nbreak"),
        blob_entry("small", "", "text/plain", vec![0x41, 0x42, 0x43]),
    ];
    let reordered = FormData {
        entries: vec![
            text_entry("key1", "value1"),
            text_entry("key2", "line\r\nbreak"),
            blob_entry("big", "big.bin", "application/octet-stream", big.clone()),
            blob_entry("small", "", "text/plain", vec![0x41, 0x42, 0x43]),
        ],
    };
    let whole = parse_form_data_to_array(&reordered, "bound");
    let (prefix, mut streamer) = FormDataStreamer::new(FormData { entries }, "bound".to_string());
    let chunks = drain(&mut streamer);
    assert_eq!(chunks.len(), 4);
    let header = b"--bound\r\nContent-Disposition: form-data; name=\"big\"; filename=\"big.bin\"\r\nContent-Type: application/octet-stream\r\n\r\n";
    assert_eq!(chunks[0].len(), header.len() + STREAM_CHUNK_SIZE);
    assert_eq!(&chunks[0][..header.len()], &header[..]);
    assert_eq!(chunks[1], big[STREAM_CHUNK_SIZE..2 * STREAM_CHUNK_SIZE].to_vec());
    let mut last_of_big = big[2 * STREAM_CHUNK_SIZE..].to_vec();
    last_of_big.extend_from_slice(b"\r\n");
    assert_eq!(chunks[2], last_of_big);
    assert_eq!(
        chunks[3],
        b"--bound\r\nContent-Disposition: form-data; name=\"small\"\r\nContent-Type: text/plain\r\n\r\nABC\r\n--bound--".to_vec()
    );
    let mut joined = prefix;
    for chunk in chunks {
        joined.extend_from_slice(&chunk);
    }
    assert_eq!(joined, whole);
    assert_eq!(streamer.stream(), None);
}

#[test]
fn a_streamer_without_files_yields_nothing() {
    let form = FormData { entries: vec![text_entry("a", "b")] };
    let (prefix, mut streamer) = FormDataStreamer::new(form, "B".to_string());
    assert_eq!(prefix, b"--B\r\nContent-Disposition: form-data; name=\"a\"\r\n\r\nb\r\n".to_vec());
    assert_eq!(streamer.stream(), None);
}

#[test]
fn an_empty_blob_is_one_chunk() {
    let form = FormData { entries: vec![blob_entry("e", "e.txt", "text/plain", vec![])] };
    let whole = parse_form_data_to_array(&form, "B");
    let (prefix, mut streamer) = FormDataStreamer::new(form, "B".to_string());
    let chunks = drain(&mut streamer);
    assert_eq!(chunks.len(), 1);
    let mut joined = prefix;
    joined.extend_from_slice(&chunks[0]);
    assert_eq!(joined, whole);
}

#[test]
fn chunk_indices() {
    let blob = FormBlob {
        filename: String::new(),
        content_type: String::new(),
        bytes: vec![0; STREAM_CHUNK_SIZE + 5],
    };
    assert_eq!(calculate_indices(&blob, None), (0, STREAM_CHUNK_SIZE));
    assert_eq!(
        calculate_indices(&blob, Some(STREAM_CHUNK_SIZE)),
        (STREAM_CHUNK_SIZE, STREAM_CHUNK_SIZE + 5)
    );
    assert_eq!(calculate_indices(&blob, Some(7)), (7, STREAM_CHUNK_SIZE + 5));
    assert_eq!(calculate_indices(&blob, Some(3)), (3, 3 + STREAM_CHUNK_SIZE));
    let exact = FormBlob {
        filename: String::new(),
        content_type: String::new(),
        bytes: vec![0; STREAM_CHUNK_SIZE],
    };
    assert_eq!(calculate_indices(&exact, None), (0, STREAM_CHUNK_SIZE));
    assert_eq!(STREAM_CHUNK_SIZE, 1024 * 1024);
}
