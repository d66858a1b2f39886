//! TOON: compact serialisation for language models. A value's JSON text
//! is compressed with zstd at level 12; texts over the token threshold must
//! travel compressed.
use vstd::prelude::*;
use vstd::slice::slice_to_vec;
use vstd::string::StringSliceAdditionalSpecFns;

verus! {

/// Texts of more tokens than this must be sent as TOON.
pub const TOON_THRESHOLD_TOKENS: usize = 100;

/// The zstd compression level of TOON.
pub const TOON_ZSTD_LEVEL: i32 = 12;

/// TOON errors.
#[derive(Debug)]
pub enum ToonError {
    /// The value could not be turned into JSON or back.
    Serialize(String),
    /// zstd could not compress.
    Compress(String),
    /// The data is not a zstd stream that decompresses.
    Decompress(String),
    /// The tokenizer could not be loaded or could not tokenize the text.
    Tokenize,
}

/// What `zstd::encode_all` produces for `data` at level `level`.
pub uninterp spec fn zstd_frame(data: Seq<u8>, level: i32) -> Seq<u8>;

/// What `zstd::decode_all` yields for `frame`: the decompressed bytes, or
/// `None` where it reports an error.
pub uninterp spec fn zstd_content(frame: Seq<u8>) -> Option<Seq<u8>>;

/// What the `cl100k_base` tokenizer (special tokens allowed) makes of
/// `text`: the number of tokens, or `None` where it reports an error.
pub uninterp spec fn cl100k_tokens(text: Seq<char>) -> Option<nat>;

/// `zstd::encode_all(data, level)` for a level in zstd's range. Claims that
/// it succeeds (it compresses from a slice into a `Vec<u8>`, and neither
/// reading the one nor writing the other can fail; running out of memory
/// aborts instead), that the frame is `zstd_frame(data, level)`, and that
/// decompressing it gives `data` back (zstd is lossless).
#[verifier::external_body]
fn zstd_encode_all(data: &[u8], level: i32) -> (r: Result<Vec<u8>, String>)
    requires
        1 <= level <= 22,
    ensures
        r is Ok,
        r matches Ok(c) ==> c@ == zstd_frame(data@, level) && zstd_content(c@) == Some(data@),
{
    zstd::encode_all(data, level).map_err(|e| e.to_string())
}

/// `zstd::decode_all(frame)`. Claims that it succeeds exactly where
/// `zstd_content(frame)` is defined, with those bytes; the error text is
/// zstd's and not stated.
#[verifier::external_body]
fn zstd_decode_all(frame: &[u8]) -> (r: Result<Vec<u8>, String>)
    ensures
        match r {
            Ok(d) => zstd_content(frame@) == Some(d@),
            Err(_) => zstd_content(frame@) is None,
        },
{
    zstd::decode_all(frame).map_err(|e| e.to_string())
}

/// `tiktoken_rs::cl100k_base()` followed by `CoreBPE::encode` with every
/// special token allowed (what `encode_with_special_tokens` does, without
/// its panic). The vocabulary is bundled in the crate, so loading depends on
/// nothing outside; claims that the outcome is `cl100k_tokens(text)`: the
/// count where the tokenizer succeeds, `None` where it reports an error.
#[verifier::external_body]
fn cl100k_count(text: &str) -> (r: Option<usize>)
    ensures
        match r {
            Some(n) => cl100k_tokens(text@) == Some(n as nat),
            None => cl100k_tokens(text@) is None,
        },
{
    let bpe = tiktoken_rs::cl100k_base().ok()?;
    let special = bpe.special_tokens();
    bpe.encode(text, &special).ok().map(|(tokens, _)| tokens.len())
}

/// `packed` is the TOON form of the JSON bytes `json`: its zstd frame at
/// level 12, which decompresses to `json`.
pub open spec fn toon_packs(json: Seq<u8>, packed: Seq<u8>) -> bool {
    &&& packed == zstd_frame(json, TOON_ZSTD_LEVEL)
    &&& zstd_content(packed) == Some(json)
}

/// Whether `text` is over the TOON threshold, or `None` where the tokenizer
/// fails on it.
pub open spec fn toon_needed(text: Seq<char>) -> Option<bool> {
    match cl100k_tokens(text) {
        Some(n) => Some(n > TOON_THRESHOLD_TOKENS),
        None => None,
    }
}

/// What decoding `data` gives: its decompressed bytes, or `None`.
pub open spec fn toon_unpacked(data: Seq<u8>) -> Option<Seq<u8>> {
    zstd_content(data)
}

/// The outcome of a decode, as bytes.
pub open spec fn decode_outcome(r: Result<Vec<u8>, ToonError>) -> Option<Seq<u8>> {
    match r {
        Ok(d) => Some(d@),
        Err(_) => None,
    }
}

/// Compresses the JSON text of a value into TOON.
pub fn encode(json: &[u8]) -> (r: Result<Vec<u8>, ToonError>)
    ensures
        r is Ok,
        r matches Ok(packed) ==> toon_packs(json@, packed@),
{
    match zstd_encode_all(json, TOON_ZSTD_LEVEL) {
        Ok(c) => Ok(c),
        Err(m) => Err(ToonError::Compress(m)),
    }
}

/// Decompresses TOON data back into JSON text.
pub fn decode(data: &[u8]) -> (r: Result<Vec<u8>, ToonError>)
    ensures
        decode_outcome(r) == toon_unpacked(data@),
        r matches Err(e) ==> e is Decompress,
{
    match zstd_decode_all(data) {
        Ok(d) => Ok(d),
        Err(m) => Err(ToonError::Decompress(m)),
    }
}

/// Compresses the JSON text of a list of values (a JSON array) into TOON.
pub fn encode_batch(json: &[u8]) -> (r: Result<Vec<u8>, ToonError>)
    ensures
        r is Ok,
        r matches Ok(packed) ==> toon_packs(json@, packed@),
{
    encode(json)
}

/// Decompresses TOON data holding a list of values back into JSON text.
pub fn decode_batch(data: &[u8]) -> (r: Result<Vec<u8>, ToonError>)
    ensures
        decode_outcome(r) == toon_unpacked(data@),
        r matches Err(e) ==> e is Decompress,
{
    decode(data)
}

/// The number of `cl100k_base` tokens in `text`; `None` where the tokenizer
/// fails.
pub fn count_tokens(text: &str) -> (r: Option<usize>)
    ensures
        match r {
            Some(n) => cl100k_tokens(text@) == Some(n as nat),
            None => cl100k_tokens(text@) is None,
        },
{
    cl100k_count(text)
}

/// Whether `text` is over the TOON threshold (more than 100 tokens);
/// `None` where the tokenizer fails.
pub fn requires_toon(text: &str) -> (r: Option<bool>)
    ensures
        r == toon_needed(text@),
{
    match count_tokens(text) {
        Some(n) => Some(n > TOON_THRESHOLD_TOKENS),
        None => None,
    }
}

/// Size figures of a value in JSON and in TOON.
#[derive(Debug, Clone, Copy, PartialEq, Eq, Structural)]
pub struct ToonStats {
    /// Bytes of the JSON text.
    pub json_bytes: usize,
    /// Bytes of the TOON form.
    pub toon_bytes: usize,
    /// Tokens of the JSON text.
    pub json_tokens: usize,
}

impl ToonStats {
    /// The compression ratio as a fraction (numerator, denominator): TOON
    /// bytes over JSON bytes, or 1/1 for an empty JSON text.
    pub fn ratio_parts(&self) -> (r: (usize, usize))
        ensures
            r == if self.json_bytes == 0 {
                (1usize, 1usize)
            } else {
                (self.toon_bytes, self.json_bytes)
            },
    {
        if self.json_bytes == 0 {
            (1, 1)
        } else {
            (self.toon_bytes, self.json_bytes)
        }
    }
}

/// The compression figures of a value, given its JSON text.
pub fn stats(json: &str) -> (r: Result<ToonStats, ToonError>)
    ensures
        r is Ok <==> cl100k_tokens(json@) is Some,
        r matches Ok(s) ==> {
            &&& s.json_bytes == json.spec_bytes().len()
            &&& s.toon_bytes == zstd_frame(json.spec_bytes(), TOON_ZSTD_LEVEL).len()
            &&& cl100k_tokens(json@) == Some(s.json_tokens as nat)
        },
        r matches Err(e) ==> e is Tokenize,
{
    let bytes = json.as_bytes();
    let compressed = encode(bytes)?;
    let json_tokens = match count_tokens(json) {
        Some(n) => n,
        None => {
            return Err(ToonError::Tokenize);
        },
    };
    Ok(ToonStats { json_bytes: bytes.len(), toon_bytes: compressed.len(), json_tokens })
}

/// Sends a value's JSON text as is when it is at most 100 tokens, and as
/// TOON otherwise. Returns the bytes and whether they are TOON.
pub fn smart_encode(json: &str) -> (r: Result<(Vec<u8>, bool), ToonError>)
    ensures
        match r {
            Ok((data, is_toon)) => {
                &&& toon_needed(json@) == Some(is_toon)
                &&& is_toon ==> toon_packs(json.spec_bytes(), data@)
                &&& !is_toon ==> data@ == json.spec_bytes()
            },
            Err(e) => e is Tokenize && toon_needed(json@) is None,
        },
{
    match requires_toon(json) {
        Some(true) => {
            let packed = encode(json.as_bytes())?;
            Ok((packed, true))
        },
        Some(false) => Ok((slice_to_vec(json.as_bytes()), false)),
        None => Err(ToonError::Tokenize),
    }
}

/// `requires_toon` answers exactly where `count_tokens` counts, and its
/// answer is whether that count is over the threshold.
pub proof fn law_requires_toon_follows_count(text: Seq<char>)
    ensures
        toon_needed(text) is Some <==> cl100k_tokens(text) is Some,
        cl100k_tokens(text) matches Some(n) ==> toon_needed(text) == Some(
            n > TOON_THRESHOLD_TOKENS,
        ),
{
}

/// Decoding what encoding produced gives the JSON text back.
pub proof fn law_decode_inverts_encode(json: Seq<u8>, packed: Seq<u8>)
    requires
        toon_packs(json, packed),
    ensures
        toon_unpacked(packed) == Some(json),
{
}

/// Whatever `smart_encode` returns reads back as the JSON text: plain bytes
/// as they are, TOON bytes through decoding.
pub proof fn law_smart_encode_reads_back(json: Seq<u8>, data: Seq<u8>, is_toon: bool)
    requires
        is_toon ==> toon_packs(json, data),
        !is_toon ==> data == json,
    ensures
        (if is_toon {
            toon_unpacked(data)
        } else {
            Some(data)
        }) == Some(json),
{
}

} // verus!
