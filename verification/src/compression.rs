use std::io::{Read, Write};
use vstd::prelude::*;

verus! {

/// The compression formats that payloads may use.
#[derive(Clone, Copy, Debug, PartialEq, Eq, Structural)]
pub enum CompressorVariant {
    Zlib,
    Gzip,
}

/// What `flate2::write::ZlibEncoder`, at the default level, makes of the data.
pub uninterp spec fn zlib_compressed(data: Seq<u8>) -> Seq<u8>;

/// What `flate2::write::GzEncoder`, at the default level, makes of the data.
pub uninterp spec fn gzip_compressed(data: Seq<u8>) -> Seq<u8>;

/// What `flate2::read::ZlibDecoder` reads out of the data, or `None` where it fails.
pub uninterp spec fn zlib_inflated(data: Seq<u8>) -> Option<Seq<u8>>;

/// What `flate2::read::GzDecoder` reads out of the data, or `None` where it fails.
pub uninterp spec fn gzip_inflated(data: Seq<u8>) -> Option<Seq<u8>>;

/// What `str::to_lowercase` makes of a text.
pub uninterp spec fn lowercased(s: Seq<char>) -> Seq<char>;

/// Writes the data through `flate2::write::ZlibEncoder` at the default level into a vector
/// and finishes the stream. Writing into a vector cannot fail. Nothing is claimed of the
/// bytes but that they depend on the data alone.
#[verifier::external_body]
fn zlib_deflate(data: &[u8]) -> (out: Vec<u8>)
    ensures
        out@ == zlib_compressed(data@),
{
    let mut encoder = flate2::write::ZlibEncoder::new(Vec::new(), flate2::Compression::default());
    encoder.write_all(data).unwrap_or_default();
    encoder.finish().unwrap_or_default()
}

/// Writes the data through `flate2::write::GzEncoder` at the default level into a vector and
/// finishes the stream. The header that the encoder writes holds no time and no file name.
/// Nothing is claimed of the bytes but that they depend on the data alone.
#[verifier::external_body]
fn gzip_deflate(data: &[u8]) -> (out: Vec<u8>)
    ensures
        out@ == gzip_compressed(data@),
{
    let mut encoder = flate2::write::GzEncoder::new(Vec::new(), flate2::Compression::default());
    encoder.write_all(data).unwrap_or_default();
    encoder.finish().unwrap_or_default()
}

/// Reads the data through `flate2::read::ZlibDecoder` to its end. The result is `None` where
/// the decoder reports an error; nothing more is claimed of it.
#[verifier::external_body]
fn zlib_inflate(data: &[u8]) -> (out: Option<Vec<u8>>)
    ensures
        zlib_inflated(data@) == (match out {
            Some(bytes) => Some(bytes@),
            None => None::<Seq<u8>>,
        }),
{
    let mut decoded = Vec::new();
    match flate2::read::ZlibDecoder::new(data).read_to_end(&mut decoded) {
        Ok(_) => Some(decoded),
        Err(_) => None,
    }
}

/// Reads the data through `flate2::read::GzDecoder` to its end. The result is `None` where
/// the decoder reports an error; nothing more is claimed of it.
#[verifier::external_body]
fn gzip_inflate(data: &[u8]) -> (out: Option<Vec<u8>>)
    ensures
        gzip_inflated(data@) == (match out {
            Some(bytes) => Some(bytes@),
            None => None::<Seq<u8>>,
        }),
{
    let mut decoded = Vec::new();
    match flate2::read::GzDecoder::new(data).read_to_end(&mut decoded) {
        Ok(_) => Some(decoded),
        Err(_) => None,
    }
}

/// `str::to_lowercase`: the text with every character in its lower case.
#[verifier::external_body]
fn to_lowercase(s: &str) -> (lower: String)
    ensures
        lower@ == lowercased(s@),
{
    s.to_lowercase()
}

/// The compressed form of the data: nothing for no data, else what the variant's encoder
/// makes of it.
pub open spec fn compressed(variant: CompressorVariant, data: Seq<u8>) -> Seq<u8> {
    if data.len() == 0 {
        Seq::empty()
    } else {
        match variant {
            CompressorVariant::Zlib => zlib_compressed(data),
            CompressorVariant::Gzip => gzip_compressed(data),
        }
    }
}

/// The data that a compressed form stands for, or `None` where the variant's decoder
/// refuses it: nothing for no data, else what the decoder reads.
pub open spec fn decompressed(variant: CompressorVariant, data: Seq<u8>) -> Option<Seq<u8>> {
    if data.len() == 0 {
        Some(Seq::empty())
    } else {
        match variant {
            CompressorVariant::Zlib => zlib_inflated(data),
            CompressorVariant::Gzip => gzip_inflated(data),
        }
    }
}

/// The variant that a lower-case name stands for: `gzip` for Gzip, anything else for Zlib.
pub open spec fn variant_named(lower: Seq<char>) -> CompressorVariant {
    if lower == "gzip"@ {
        CompressorVariant::Gzip
    } else {
        CompressorVariant::Zlib
    }
}

impl CompressorVariant {
    /// The variant's name.
    pub open spec fn name(&self) -> Seq<char> {
        match self {
            CompressorVariant::Zlib => "zlib"@,
            CompressorVariant::Gzip => "gzip"@,
        }
    }

    /// The variant's name: `zlib` or `gzip`.
    pub fn as_str(&self) -> (name: &'static str)
        ensures
            name@ == self.name(),
    {
        match self {
            CompressorVariant::Zlib => "zlib",
            CompressorVariant::Gzip => "gzip",
        }
    }

    /// The variant that a name stands for, whatever its case. An unknown name stands for
    /// Zlib.
    pub fn from_name(s: &str) -> (variant: CompressorVariant)
        ensures
            variant == variant_named(lowercased(s@)),
    {
        let lower = to_lowercase(s);
        let gzip = "gzip".to_owned();
        if lower == gzip {
            CompressorVariant::Gzip
        } else {
            CompressorVariant::Zlib
        }
    }
}

impl Default for CompressorVariant {
    fn default() -> (variant: CompressorVariant)
        ensures
            variant == CompressorVariant::Zlib,
    {
        CompressorVariant::Zlib
    }
}

impl std::str::FromStr for CompressorVariant {
    type Err = &'static str;

    fn from_str(s: &str) -> (parsed: Result<CompressorVariant, &'static str>)
        ensures
            parsed == Ok::<CompressorVariant, &'static str>(variant_named(lowercased(s@))),
    {
        Ok(CompressorVariant::from_name(s))
    }
}

/// Compresses the data in the variant's format. No data compresses to no bytes.
pub fn compress_data(variant: &CompressorVariant, data: &[u8]) -> (out: Vec<u8>)
    ensures
        out@ == compressed(*variant, data@),
{
    if data.len() == 0 {
        return Vec::new();
    }
    match variant {
        CompressorVariant::Zlib => zlib_deflate(data),
        CompressorVariant::Gzip => gzip_deflate(data),
    }
}

/// Decompresses data that is in the variant's format. No bytes decompress to no data.
pub fn decompress_data(variant: &CompressorVariant, data: &[u8]) -> (out: Vec<u8>)
    requires
        decompressed(*variant, data@) is Some,
    ensures
        Some(out@) == decompressed(*variant, data@),
{
    if data.len() == 0 {
        return Vec::new();
    }
    let decoded = match variant {
        CompressorVariant::Zlib => zlib_inflate(data),
        CompressorVariant::Gzip => gzip_inflate(data),
    };
    match decoded {
        Some(bytes) => bytes,
        None => Vec::new(),
    }
}

/// Decompresses the data where it is in the variant's format, and says so where it is
/// not.
pub fn try_decompress_data(variant: &CompressorVariant, data: &[u8]) -> (out: Option<Vec<u8>>)
    ensures
        decompressed(*variant, data@) == (match out {
            Some(bytes) => Some(bytes@),
            None => None::<Seq<u8>>,
        }),
{
    if data.len() == 0 {
        return Some(decompress_data(variant, data));
    }
    let decodes = match variant {
        CompressorVariant::Zlib => zlib_inflate(data).is_some(),
        CompressorVariant::Gzip => gzip_inflate(data).is_some(),
    };
    if decodes {
        Some(decompress_data(variant, data))
    } else {
        None
    }
}

} // verus!
