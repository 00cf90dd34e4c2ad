use layer8_interceptor::compression::{
    compress_data, decompress_data, try_decompress_data, CompressorVariant,
};
use std::str::FromStr;

#[test]
fn test_zlib_compression() {
    let data = b"Hello, world!";
    let compressed = compress_data(&CompressorVariant::Zlib, data);
    let decompressed = decompress_data(&CompressorVariant::Zlib, &compressed);
    assert_eq!(data.to_vec(), decompressed);
}

#[test]
fn test_gzip_compression() {
    let data = b"Hello, world!";
    let compressed = compress_data(&CompressorVariant::Gzip, data);
    let decompressed = decompress_data(&CompressorVariant::Gzip, &compressed);
    assert_eq!(data.to_vec(), decompressed);
}

#[test]
fn test_compression_consistency() {
    let data = b"Hello, world! This is a test of the compression and decompression functions.";
    let compressed_zlib = compress_data(&CompressorVariant::Zlib, data);
    let decompressed_zlib = decompress_data(&CompressorVariant::Zlib, &compressed_zlib);
    assert_eq!(data.to_vec(), decompressed_zlib);
    let compressed_gzip = compress_data(&CompressorVariant::Gzip, data);
    let decompressed_gzip = decompress_data(&CompressorVariant::Gzip, &compressed_gzip);
    assert_eq!(data.to_vec(), decompressed_gzip);
}

#[test]
fn compression_changes_the_bytes() {
    let data = b"aaaaaaaaaaaaaaaaaaaaaaaaaaaaaaaaaaaaaaaaaaaaaaaaaaaaaaaaaaaaaaaaaaaaaaaa";
    let zlib = compress_data(&CompressorVariant::Zlib, data);
    let gzip = compress_data(&CompressorVariant::Gzip, data);
    assert_ne!(zlib, data.to_vec());
    assert_ne!(gzip, data.to_vec());
    assert_ne!(zlib, gzip);
    assert_eq!(&gzip[..2], &[0x1f, 0x8b]);
    assert_eq!(zlib[0], 0x78);
}

#[test]
fn empty_data_stays_empty() {
    assert_eq!(compress_data(&CompressorVariant::Zlib, &[]), Vec::<u8>::new());
    assert_eq!(compress_data(&CompressorVariant::Gzip, &[]), Vec::<u8>::new());
    assert_eq!(decompress_data(&CompressorVariant::Zlib, &[]), Vec::<u8>::new());
    assert_eq!(try_decompress_data(&CompressorVariant::Gzip, &[]), Some(Vec::new()));
}

#[test]
fn try_decompress_refuses_what_is_not_compressed() {
    assert_eq!(try_decompress_data(&CompressorVariant::Zlib, b"not zlib at all"), None);
    assert_eq!(try_decompress_data(&CompressorVariant::Gzip, b"not gzip at all"), None);
    let packed = compress_data(&CompressorVariant::Gzip, b"payload");
    assert_eq!(try_decompress_data(&CompressorVariant::Gzip, &packed), Some(b"payload".to_vec()));
    assert_eq!(try_decompress_data(&CompressorVariant::Zlib, &packed), None);
}

#[test]
fn variant_names() {
    assert_eq!(CompressorVariant::Zlib.as_str(), "zlib");
    assert_eq!(CompressorVariant::Gzip.as_str(), "gzip");
    assert_eq!(CompressorVariant::default(), CompressorVariant::Zlib);
    assert_eq!(CompressorVariant::from_str("GZip"), Ok(CompressorVariant::Gzip));
    assert_eq!(CompressorVariant::from_str("zlib"), Ok(CompressorVariant::Zlib));
    assert_eq!(CompressorVariant::from_str("brotli"), Ok(CompressorVariant::Zlib));
    assert_eq!(CompressorVariant::from_name("GZIP"), CompressorVariant::Gzip);
}
