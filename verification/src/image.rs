//! The image store: a base64 data URL in, raw bytes on disk, and back.
//!
//! `save_header_image` takes the data URL the UI sends, cuts out the
//! base64 payload between the first comma and the next one (or the end),
//! and decodes it to the bytes the caller writes to the image file.
//! `load_header_image` re-encodes the file's bytes under a fixed
//! `data:image/png;base64,` label: the store keeps no record of the
//! original type, so every reload is labelled PNG.

use vstd::prelude::*;
use crate::error::StoreError;
use crate::jtext::{push_char, str_chars};

verus! {

/// What the standard base64 encoding of a byte sequence reads as.
pub uninterp spec fn b64_of(bytes: Seq<u8>) -> Seq<char>;

/// Relies on base64's `STANDARD` engine: `Engine::encode` returns the
/// RFC 4648 standard encoding of the bytes, a function of the bytes
/// alone, over the 64-letter alphabet (letters, digits, `+`, `/`) with
/// `=` padding — so never a comma.
#[verifier::external_body]
fn b64_encode(bytes: &Vec<u8>) -> (r: String)
    ensures
        r@ == b64_of(bytes@),
        forall|k: int| 0 <= k < r@.len() ==> r@[k] != ',',
{
    base64::Engine::encode(&base64::engine::general_purpose::STANDARD, bytes.as_slice())
}

/// Relies on base64's `STANDARD` engine: `Engine::decode` inverts
/// `Engine::encode`. The engine's `PAD` config demands canonical padding
/// and rejects non-canonical trailing bits, so decoding succeeds exactly
/// on the encodings `Engine::encode` produces: a standard encoding
/// returns its bytes, and a success means the input was such an
/// encoding. A failure carries the decoder's description.
#[verifier::external_body]
fn b64_decode(s: &str) -> (r: Result<Vec<u8>, String>)
    ensures
        forall|b: Seq<u8>| s@ == #[trigger] b64_of(b) ==> r is Ok && r->Ok_0@ == b,
        r matches Ok(v) ==> s@ == b64_of(v@),
{
    match base64::Engine::decode(&base64::engine::general_purpose::STANDARD, s.as_bytes()) {
        Ok(v) => Ok(v),
        Err(e) => Err(e.to_string()),
    }
}

/// The first comma position at or after `i`, or the length if none.
pub open spec fn comma_from(s: Seq<char>, i: int) -> int
    decreases s.len() - i,
{
    if 0 <= i && i < s.len() {
        if s[i] == ',' {
            i
        } else {
            comma_from(s, i + 1)
        }
    } else {
        s.len() as int
    }
}

/// The base64 payload of a data URL: the text between the first comma
/// and the second comma or the end; no comma, no payload.
pub open spec fn sp_payload_of(s: Seq<char>) -> Option<Seq<char>> {
    let c1 = comma_from(s, 0);
    if c1 == s.len() {
        None
    } else {
        Some(s.subrange(c1 + 1, comma_from(s, c1 + 1)))
    }
}

/// `comma_from` finds exactly the first comma.
pub proof fn lemma_comma_from(s: Seq<char>, i: int, m: int)
    requires
        0 <= i <= m <= s.len(),
        forall|k: int| i <= k < m ==> s[k] != ',',
        m == s.len() || s[m] == ',',
    ensures
        comma_from(s, i) == m,
    decreases m - i,
{
    if i < m {
        lemma_comma_from(s, i + 1, m);
    }
}

/// A data URL splits at its first comma: with a comma-free prefix and a
/// comma-free payload reaching the end, the payload is recovered whole.
pub proof fn lemma_payload_of_data_url(prefix: Seq<char>, payload: Seq<char>)
    requires
        forall|k: int| 0 <= k < prefix.len() ==> prefix[k] != ',',
        forall|k: int| 0 <= k < payload.len() ==> payload[k] != ',',
    ensures
        sp_payload_of(prefix + seq![','] + payload) == Some(payload),
{
    let s = prefix + seq![','] + payload;
    let c = prefix.len() as int;
    assert(s[c] == ',');
    assert(forall|k: int| 0 <= k < c ==> s[k] == prefix[k]);
    lemma_comma_from(s, 0, c);
    assert(forall|k: int| c + 1 <= k < s.len() ==> s[k] == payload[k - c - 1] && s[k] != ',');
    lemma_comma_from(s, c + 1, s.len() as int);
    assert(s.subrange(c + 1, s.len() as int) =~= payload);
}

/// The first comma position at or after `i`, in executable code.
fn scan_comma(s: &Vec<char>, i: usize) -> (j: usize)
    requires
        i <= s@.len(),
    ensures
        j as int == comma_from(s@, i as int),
        i <= j <= s@.len(),
{
    let mut k = i;
    while k < s.len() && s[k] != ','
        invariant
            i <= k <= s@.len(),
            comma_from(s@, i as int) == comma_from(s@, k as int),
        decreases s@.len() - k,
    {
        k += 1;
    }
    k
}

/// The payload of the data-URL input: the segment between the first
/// comma and the second comma or the end; `None` without any comma.
pub fn image_payload(image_data: &str) -> (r: Option<String>)
    ensures
        match r {
            Some(p) => sp_payload_of(image_data@) == Some(p@),
            None => sp_payload_of(image_data@) is None,
        },
{
    let s = str_chars(image_data);
    let c1 = scan_comma(&s, 0);
    if c1 == s.len() {
        return None;
    }
    let c2 = scan_comma(&s, c1 + 1);
    let mut payload = String::new();
    let mut k = c1 + 1;
    while k < c2
        invariant
            c1 + 1 <= k <= c2 <= s@.len(),
            payload@ == s@.subrange(c1 + 1, k as int),
        decreases c2 - k,
    {
        proof {
            assert(s@.subrange(c1 + 1, k + 1) =~= s@.subrange(c1 + 1, k as int).push(
                s@[k as int],
            ));
        }
        push_char(&mut payload, s[k]);
        k += 1;
    }
    Some(payload)
}

/// The data URL under which stored image bytes are handed back: a PNG
/// label — whatever was stored — and the standard encoding of the bytes.
pub open spec fn sp_png_data_url(bytes: Seq<u8>) -> Seq<char> {
    "data:image/png;base64,"@ + b64_of(bytes)
}

/// Builds the PNG data URL of the given bytes. Its payload is exactly
/// their encoding, so saving this URL stores these bytes again.
pub fn make_header_data_url(bytes: &Vec<u8>) -> (r: String)
    ensures
        r@ == sp_png_data_url(bytes@),
        sp_payload_of(r@) == Some(b64_of(bytes@)),
{
    let enc = b64_encode(bytes);
    let mut out = String::from_str("data:image/png;base64,");
    out.append(enc.as_str());
    proof {
        reveal_strlit("data:image/png;base64,");
        reveal_strlit("data:image/png;base64");
        let p0 = "data:image/png;base64"@;
        assert("data:image/png;base64,"@ =~= p0 + seq![',']);
        assert(out@ =~= p0 + seq![','] + enc@);
        assert(forall|k: int| 0 <= k < p0.len() ==> p0[k] != ',');
        lemma_payload_of_data_url(p0, enc@);
    }
    out
}

/// Decodes a data-URL input to the bytes the image store writes: a
/// format error exactly where no comma separates a payload; otherwise
/// success exactly where the payload is a standard base64 encoding, and
/// then exactly its bytes; anything else is a decode error.
pub fn save_header_image(image_data: &str) -> (r: Result<Vec<u8>, StoreError>)
    ensures
        sp_payload_of(image_data@) is None <==> r == Err::<Vec<u8>, StoreError>(StoreError::Format),
        r is Ok <==> (exists|b: Seq<u8>| sp_payload_of(image_data@) == Some(#[trigger] b64_of(b))),
        r matches Ok(v) ==> sp_payload_of(image_data@) == Some(b64_of(v@)),
        forall|b: Seq<u8>|
            sp_payload_of(image_data@) == Some(#[trigger] b64_of(b)) ==> (r matches Ok(v) && v@
                == b),
        r matches Err(e) ==> (e is Format || e is Decode),
{
    match image_payload(image_data) {
        None => Err(StoreError::Format),
        Some(p) => match b64_decode(p.as_str()) {
            Ok(v) => Ok(v),
            Err(m) => Err(StoreError::Decode(m)),
        },
    }
}

/// Re-encodes stored image bytes as the data URL handed to the UI;
/// `None` exactly where no image file exists.
pub fn load_header_image(file: Option<&Vec<u8>>) -> (r: Option<String>)
    ensures
        r is Some <==> file is Some,
        file matches Some(b) ==> (r matches Some(u) && u@ == sp_png_data_url(b@)
            && sp_payload_of(u@) == Some(b64_of(b@))),
{
    match file {
        None => None,
        Some(b) => Some(make_header_data_url(b)),
    }
}

} // verus!
