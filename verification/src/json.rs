use crate::string_map::StringMap;
use crate::text::{append_bytes, append_text, utf8};
use vstd::prelude::*;

verus! {

/// A number in decimal digits, as bytes.
pub open spec fn decimal_bytes(n: nat) -> Seq<u8>
    decreases n,
{
    if n < 10 {
        seq![(48 + n) as u8]
    } else {
        decimal_bytes(n / 10).push((48 + n % 10) as u8)
    }
}

/// The first `n` bytes as decimal numbers with commas between them.
pub open spec fn json_numbers(data: Seq<u8>, n: int) -> Seq<u8>
    decreases n,
{
    if n <= 0 {
        Seq::empty()
    } else if n == 1 {
        decimal_bytes(data[0] as nat)
    } else {
        json_numbers(data, n - 1) + seq![44u8] + decimal_bytes(data[n - 1] as nat)
    }
}

/// Bytes as a JSON document: an array of their numbers, `[` first and `]` last, without
/// white space.
pub open spec fn json_of_bytes(data: Seq<u8>) -> Seq<u8> {
    seq![91u8] + json_numbers(data, data.len() as int) + seq![93u8]
}

/// The JSON document that `serde_json::to_string` writes for a text.
pub uninterp spec fn json_of_text(text: Seq<char>) -> Seq<char>;

/// `serde_json::to_vec` on a slice of bytes: the slice as a JSON document. Serialising a
/// slice of bytes into a vector does not fail. The document is the compact array that
/// the serialiser writes for a sequence of small numbers: an opening bracket, each byte
/// in decimal digits with a comma before every byte but the first, and a closing
/// bracket.
#[verifier::external_body]
pub(crate) fn json_bytes(data: &[u8]) -> (json: Vec<u8>)
    ensures
        json@ == json_of_bytes(data@),
{
    serde_json::to_vec(data).unwrap_or_default()
}

/// `serde_json::to_string` on a text: the text as a JSON document. Serialising a text does
/// not fail. Nothing is claimed of the document but that it depends on the text alone.
#[verifier::external_body]
pub(crate) fn json_text(text: &str) -> (json: String)
    ensures
        json@ == json_of_text(text@),
{
    serde_json::to_string(text).unwrap_or_default()
}

/// A sealed message as it travels: the nonce it was sealed with and the ciphertext.
#[derive(Debug, PartialEq, Eq)]
pub struct WasmEncryptedMessage {
    pub nonce: Vec<u8>,
    pub data: Vec<u8>,
}

impl WasmEncryptedMessage {
    /// The JSON object with the members `nonce` and `data`, each a JSON array of bytes.
    pub open spec fn json(&self) -> Seq<u8> {
        utf8("{\"nonce\":"@) + json_of_bytes(self.nonce@) + utf8(",\"data\":"@) + json_of_bytes(
            self.data@,
        ) + utf8("}"@)
    }

    /// The message as the body of a request to the proxy.
    pub fn to_json(&self) -> (json: Vec<u8>)
        ensures
            json@ == self.json(),
    {
        let mut json: Vec<u8> = Vec::new();
        let nonce = json_bytes(self.nonce.as_slice());
        let data = json_bytes(self.data.as_slice());
        append_text(&mut json, "{\"nonce\":");
        append_bytes(&mut json, nonce.as_slice());
        append_text(&mut json, ",\"data\":");
        append_bytes(&mut json, data.as_slice());
        append_text(&mut json, "}");
        assert(json@ =~= self.json());
        json
    }
}

/// Wraps bytes as a message without sealing them: a nonce of twelve zero bytes and the
/// bytes as they are. This stands in where no key exchange has taken place.
pub fn tmp_encrypt(data: Vec<u8>) -> (message: WasmEncryptedMessage)
    ensures
        message.nonce@ == Seq::new(12, |i: int| 0u8),
        message.data == data,
{
    let mut nonce: Vec<u8> = Vec::new();
    let mut i: usize = 0;
    while i < 12
        invariant
            i <= 12,
            nonce@ == Seq::new(i as nat, |j: int| 0u8),
        decreases 12 - i,
    {
        nonce.push(0);
        assert(nonce@ =~= Seq::new((i + 1) as nat, |j: int| 0u8));
        i = i + 1;
    }
    WasmEncryptedMessage { nonce, data }
}

/// One member of a JSON object of headers: the name as a JSON text, a colon, and the
/// value, which is a JSON document already.
pub open spec fn header_member(pair: (Seq<char>, Seq<char>)) -> Seq<u8> {
    utf8(json_of_text(pair.0)) + utf8(":"@) + utf8(pair.1)
}

/// The members of the first `n` headers, with commas between them.
pub open spec fn header_members(pairs: Seq<(Seq<char>, Seq<char>)>, n: int) -> Seq<u8>
    decreases n,
{
    if n <= 0 {
        Seq::empty()
    } else if n == 1 {
        header_member(pairs[0])
    } else {
        header_members(pairs, n - 1) + utf8(","@) + header_member(pairs[n - 1])
    }
}

/// Appends the headers as the members of a JSON object.
pub fn append_header_members(out: &mut Vec<u8>, headers: &StringMap)
    ensures
        final(out)@ == old(out)@ + header_members(headers@, headers@.len() as int),
{
    let ghost before = out@;
    let mut i: usize = 0;
    assert(out@ =~= before + header_members(headers@, 0));
    while i < headers.len()
        invariant
            i <= headers@.len(),
            out@ == before + header_members(headers@, i as int),
        decreases headers@.len() - i,
    {
        if i > 0 {
            append_text(out, ",");
        }
        let name = json_text(headers.key_at(i).as_str());
        append_text(out, name.as_str());
        append_text(out, ":");
        append_text(out, headers.value_at(i).as_str());
        assert(out@ =~= before + header_members(headers@, i + 1));
        i = i + 1;
    }
}

} // verus!
