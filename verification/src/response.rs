use crate::string_map::{pairs_of, StringMap};
use crate::text::append_bytes;
use vstd::prelude::*;

verus! {

/// A response as it comes out of the tunnel.
#[derive(Debug, PartialEq, Eq)]
pub struct L8ResponseObject {
    pub status: u16,
    pub status_text: String,
    /// Header names and, for each, the value as a JSON document.
    pub headers: StringMap,
    pub body: Vec<u8>,
    /// Present in what the proxy sends, and not used.
    pub ok: bool,
    /// Present in what the proxy sends, and not used.
    pub url: String,
    /// Present in what the proxy sends, and not used.
    pub redirected: bool,
}

/// What a response of the host is made from.
#[derive(Debug, PartialEq, Eq)]
pub struct JsResponse {
    pub status: u16,
    pub status_text: String,
    /// Header names and values, in the order in which they are appended.
    pub headers: Vec<(String, String)>,
    pub body: Vec<u8>,
}

impl L8ResponseObject {
    /// What the host's response is made from: the status, the status text, every header
    /// with its value as it was sent, and the body.
    pub fn reconstruct_js_response(&self) -> (response: JsResponse)
        ensures
            response.status == self.status,
            response.status_text@ == self.status_text@,
            pairs_of(response.headers@) == self.headers@,
            response.body@ == self.body@,
    {
        let mut headers: Vec<(String, String)> = Vec::new();
        let mut i: usize = 0;
        while i < self.headers.len()
            invariant
                i <= self.headers@.len(),
                headers@.len() == i,
                forall|j: int|
                    0 <= j < i ==> (#[trigger] headers@[j]).0@ == self.headers@[j].0 && headers@[j].1@
                        == self.headers@[j].1,
            decreases self.headers@.len() - i,
        {
            headers.push((self.headers.key_at(i).clone(), self.headers.value_at(i).clone()));
            i = i + 1;
        }
        let mut body: Vec<u8> = Vec::new();
        append_bytes(&mut body, self.body.as_slice());
        assert(pairs_of(headers@) =~= self.headers@);
        assert(body@ =~= self.body@);
        JsResponse { status: self.status, status_text: self.status_text.clone(), headers, body }
    }
}

} // verus!
