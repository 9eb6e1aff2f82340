//! Content-addressed blobs: hashing, framing, compression, local paths.
//!
//! A blob is raw content plus metadata. Its binary form is a frame — a
//! little-endian length prefix, the serialized metadata bytes, then the
//! content — which this module encodes and decodes exactly; turning
//! metadata into bytes and back is the caller's business.

use vstd::prelude::*;
use vstd::string::*;
use crate::classify::{ends_with_seq};
use crate::digest::{
    hex_of, lz4_compress, lz4_decompress, lz4_pack, lz4_unpack, sha256_hex, sha256_of, CodecError,
};
use crate::ops::now_millis;
use crate::strutil::{ascii_lower_chars, lower_chars, str_to_chars, substring};

verus! {

/// Metadata carried beside blob content.
pub struct BlobMetadata {
    /// SHA-256 of the content, in hex.
    pub hash: String,
    /// The original file path.
    pub path: String,
    /// Content size in bytes.
    pub size: u64,
    /// The guessed MIME type.
    pub mime_type: String,
    /// Wall-clock milliseconds at creation, informational.
    pub created_at_ms: i64,
    /// The compression applied to the content, if any.
    pub compression: Option<String>,
}

/// Content plus metadata.
pub struct Blob {
    pub metadata: BlobMetadata,
    pub content: Vec<u8>,
}

/// The MIME type guessed from a path's extension, compared
/// case-insensitively.
pub open spec fn mime_of(path: Seq<char>) -> Seq<char> {
    let lower = lower_chars(path);
    if ends_with_seq(lower, ".rs"@) {
        "text/x-rust"@
    } else if ends_with_seq(lower, ".js"@) || ends_with_seq(lower, ".mjs"@) {
        "text/javascript"@
    } else if ends_with_seq(lower, ".ts"@) {
        "text/typescript"@
    } else if ends_with_seq(lower, ".tsx"@) {
        "text/tsx"@
    } else if ends_with_seq(lower, ".json"@) {
        "application/json"@
    } else if ends_with_seq(lower, ".md"@) {
        "text/markdown"@
    } else if ends_with_seq(lower, ".html"@) {
        "text/html"@
    } else if ends_with_seq(lower, ".css"@) {
        "text/css"@
    } else if ends_with_seq(lower, ".toml"@) {
        "application/toml"@
    } else if ends_with_seq(lower, ".yaml"@) || ends_with_seq(lower, ".yml"@) {
        "application/yaml"@
    } else {
        "application/octet-stream"@
    }
}

fn ends_lower(lower: &Vec<char>, suffix: &str) -> (r: bool)
    ensures
        r == ends_with_seq(lower@, suffix@),
{
    let suf = str_to_chars(suffix);
    if suf.len() > lower.len() {
        return false;
    }
    let tail = crate::strutil::chars_range(lower, lower.len() - suf.len(), lower.len());
    crate::strutil::chars_eq(&tail, &suf)
}

/// Guesses the MIME type from a path string's extension.
pub fn detect_mime_type_from_path(path: &str) -> (r: String)
    ensures
        r@ == mime_of(path@),
{
    let chars = str_to_chars(path);
    let lower = ascii_lower_chars(&chars);
    if ends_lower(&lower, ".rs") {
        String::from_str("text/x-rust")
    } else if ends_lower(&lower, ".js") || ends_lower(&lower, ".mjs") {
        String::from_str("text/javascript")
    } else if ends_lower(&lower, ".ts") {
        String::from_str("text/typescript")
    } else if ends_lower(&lower, ".tsx") {
        String::from_str("text/tsx")
    } else if ends_lower(&lower, ".json") {
        String::from_str("application/json")
    } else if ends_lower(&lower, ".md") {
        String::from_str("text/markdown")
    } else if ends_lower(&lower, ".html") {
        String::from_str("text/html")
    } else if ends_lower(&lower, ".css") {
        String::from_str("text/css")
    } else if ends_lower(&lower, ".toml") {
        String::from_str("application/toml")
    } else if ends_lower(&lower, ".yaml") || ends_lower(&lower, ".yml") {
        String::from_str("application/yaml")
    } else {
        String::from_str("application/octet-stream")
    }
}

/// Guesses the MIME type of a file path.
pub fn detect_mime_type(path: &str) -> (r: String)
    ensures
        r@ == mime_of(path@),
{
    detect_mime_type_from_path(path)
}

impl Blob {
    /// Builds a blob from raw content: content-addressed hash, size,
    /// guessed MIME type, no compression.
    pub fn from_content(path: &str, content: Vec<u8>) -> (r: Blob)
        ensures
            r.content@ == content@,
            r.metadata.hash@ == hex_of(sha256_of(content@)),
            r.metadata.path@ == path@,
            r.metadata.size == content@.len(),
            r.metadata.mime_type@ == mime_of(path@),
            r.metadata.compression is None,
    {
        let hash = sha256_hex(content.as_slice());
        let size = content.len() as u64;
        let mime_type = detect_mime_type_from_path(path);
        Blob {
            metadata: BlobMetadata {
                hash,
                path: path.to_owned(),
                size,
                mime_type,
                created_at_ms: now_millis(),
                compression: None,
            },
            content,
        }
    }

    /// The content-addressed hash.
    pub fn hash(&self) -> (r: &String)
        ensures
            r@ == self.metadata.hash@,
    {
        &self.metadata.hash
    }

    /// Compresses the content in place. Compression is kept only when it
    /// actually shrinks the content; the metadata then records it and the
    /// new size.
    pub fn compress(&mut self) -> (r: Result<(), CodecError>)
        requires
            old(self).metadata.size == old(self).content@.len(),
        ensures
            final(self).metadata.size == final(self).content@.len(),
            old(self).metadata.compression is Some ==> r is Ok && final(self).content == old(self).content && final(self).metadata.compression == old(self).metadata.compression,
            old(self).metadata.compression is None && r is Ok ==> if lz4_pack(
                old(self).content@,
            ).len() < old(self).content@.len() {
                &&& final(self).content@ == lz4_pack(old(self).content@)
                &&& lz4_unpack(final(self).content@) == old(self).content@
                &&& (final(self).metadata.compression matches Some(c) && c@ == "lz4"@)
            } else {
                &&& final(self).content == old(self).content
                &&& final(self).metadata.compression is None
            },
            r is Err ==> final(self).content == old(self).content && final(self).metadata.compression == old(self).metadata.compression,
    {
        if matches!(&self.metadata.compression, Option::Some(_)) {
            return Ok(());
        }
        let packed = match lz4_compress(self.content.as_slice()) {
            Ok(v) => v,
            Err(e) => {
                return Err(e);
            },
        };
        if packed.len() < self.content.len() {
            self.content = packed;
            self.metadata.compression = Some(String::from_str("lz4"));
            self.metadata.size = self.content.len() as u64;
        }
        Ok(())
    }

    /// Decompresses the content in place; nothing happens when it is not
    /// compressed.
    pub fn decompress(&mut self) -> (r: Result<(), CodecError>)
        requires
            old(self).metadata.size == old(self).content@.len(),
        ensures
            final(self).metadata.size == final(self).content@.len(),
            old(self).metadata.compression is None ==> r is Ok && final(self).content == old(self).content,
            old(self).metadata.compression is Some && r is Ok ==> final(self).content@
                == lz4_unpack(old(self).content@) && final(self).metadata.compression is None,
            r is Err ==> final(self).content == old(self).content && final(self).metadata.compression == old(self).metadata.compression,
    {
        if matches!(&self.metadata.compression, Option::None) {
            return Ok(());
        }
        let unpacked = match lz4_decompress(self.content.as_slice()) {
            Ok(v) => v,
            Err(e) => {
                return Err(e);
            },
        };
        self.content = unpacked;
        self.metadata.compression = None;
        self.metadata.size = self.content.len() as u64;
        Ok(())
    }
}

/// The little-endian bytes of a 32-bit length.
pub open spec fn u32_le_bytes(n: u32) -> Seq<u8> {
    seq![
        (n & 0xff) as u8,
        ((n >> 8) & 0xff) as u8,
        ((n >> 16) & 0xff) as u8,
        ((n >> 24) & 0xff) as u8,
    ]
}

/// The value the little-endian bytes denote.
pub open spec fn u32_le_value(b: Seq<u8>) -> int {
    b[0] + b[1] * 0x100 + b[2] * 0x10000 + b[3] * 0x1000000
}

/// A frame that cannot be encoded or decoded: metadata too long, or the
/// buffer too short for its own length prefix.
#[derive(Debug)]
pub struct FrameError {}

/// Frames metadata bytes and content into one buffer: a 4-byte
/// little-endian metadata length, the metadata, then the content.
pub fn encode_frame(meta: &[u8], content: &[u8]) -> (r: Result<Vec<u8>, FrameError>)
    ensures
        meta@.len() <= u32::MAX ==> (r matches Ok(v) && v@ == u32_le_bytes(
            meta@.len() as u32,
        ) + meta@ + content@),
        meta@.len() > u32::MAX ==> r is Err,
{
    broadcast use vstd::slice::group_slice_axioms;

    if meta.len() as u64 > u32::MAX as u64 {
        return Err(FrameError {});
    }
    let n = meta.len() as u32;
    let mut out: Vec<u8> = Vec::new();
    out.push((n & 0xff) as u8);
    out.push(((n >> 8) & 0xff) as u8);
    out.push(((n >> 16) & 0xff) as u8);
    out.push(((n >> 24) & 0xff) as u8);
    let mut i: usize = 0;
    let meta_len = meta.len();
    assert(out@ =~= u32_le_bytes(meta@.len() as u32) + meta@.take(0));
    while i < meta_len
        invariant
            meta_len == meta@.len(),
            i <= meta_len,
            out@ == u32_le_bytes(meta@.len() as u32) + meta@.take(i as int),
        decreases meta_len - i,
    {
        out.push(meta[i]);
        i = i + 1;
        assert(out@ =~= u32_le_bytes(meta@.len() as u32) + meta@.take(i as int));
    }
    let mut j: usize = 0;
    let content_len = content.len();
    while j < content_len
        invariant
            content_len == content@.len(),
            j <= content_len,
            out@ == u32_le_bytes(meta@.len() as u32) + meta@ + content@.take(j as int),
        decreases content_len - j,
    {
        out.push(content[j]);
        j = j + 1;
        assert(out@ =~= u32_le_bytes(meta@.len() as u32) + meta@ + content@.take(j as int));
    }
    proof {
        assert(meta@.take(meta@.len() as int) =~= meta@);
        assert(content@.take(content@.len() as int) =~= content@);
    }
    Ok(out)
}

/// Splits a framed buffer back into metadata bytes and content. Fails
/// exactly when the buffer is shorter than its own prefix promises.
pub fn decode_frame(data: &[u8]) -> (r: Result<(Vec<u8>, Vec<u8>), FrameError>)
    ensures
        data@.len() >= 4 && 4 + u32_le_value(data@.take(4)) <= data@.len() ==> (r matches Ok(p)
            && p.0@ == data@.subrange(4, 4 + u32_le_value(data@.take(4))) && p.1@
            == data@.subrange(4 + u32_le_value(data@.take(4)), data@.len() as int)),
        data@.len() < 4 || 4 + u32_le_value(data@.take(4)) > data@.len() ==> r is Err,
{
    broadcast use vstd::slice::group_slice_axioms;

    let data_len = data.len();
    if data_len < 4 {
        return Err(FrameError {});
    }
    let b0 = data[0] as u64;
    let b1 = data[1] as u64;
    let b2 = data[2] as u64;
    let b3 = data[3] as u64;
    let meta_len_u64: u64 = b0 + b1 * 0x100 + b2 * 0x10000 + b3 * 0x1000000;
    proof {
        assert(data@.take(4)[0] == data@[0]);
        assert(data@.take(4)[1] == data@[1]);
        assert(data@.take(4)[2] == data@[2]);
        assert(data@.take(4)[3] == data@[3]);
    }
    if meta_len_u64 > (data_len as u64) - 4 {
        return Err(FrameError {});
    }
    let meta_len = meta_len_u64 as usize;
    let mut meta: Vec<u8> = Vec::new();
    let mut i: usize = 0;
    while i < meta_len
        invariant
            data_len == data@.len(),
            4 + meta_len <= data_len,
            i <= meta_len,
            meta@ == data@.subrange(4, 4 + i as int),
        decreases meta_len - i,
    {
        meta.push(data[4 + i]);
        i = i + 1;
        assert(meta@ =~= data@.subrange(4, 4 + i as int));
    }
    let mut content: Vec<u8> = Vec::new();
    let mut j: usize = 4 + meta_len;
    while j < data_len
        invariant
            data_len == data@.len(),
            4 + meta_len <= j <= data_len,
            content@ == data@.subrange(4 + meta_len as int, j as int),
        decreases data_len - j,
    {
        content.push(data[j]);
        j = j + 1;
        assert(content@ =~= data@.subrange(4 + meta_len as int, j as int));
    }
    Ok((meta, content))
}

/// Decoding a frame recovers exactly what was encoded.
pub proof fn lemma_frame_round_trip(meta: Seq<u8>, content: Seq<u8>)
    requires
        meta.len() <= u32::MAX,
    ensures
        ({
            let framed = u32_le_bytes(meta.len() as u32) + meta + content;
            &&& framed.len() >= 4
            &&& u32_le_value(framed.take(4)) == meta.len()
            &&& framed.subrange(4, 4 + meta.len() as int) == meta
            &&& framed.subrange(4 + meta.len() as int, framed.len() as int) == content
        }),
{
    let framed = u32_le_bytes(meta.len() as u32) + meta + content;
    let n = meta.len() as u32;
    assert(framed.take(4) =~= u32_le_bytes(n));
    assert(u32_le_value(u32_le_bytes(n)) == n) by {
        assert(((n & 0xff) as u8) as u32 + (((n >> 8) & 0xff) as u8) as u32 * 0x100 + (((n >> 16)
            & 0xff) as u8) as u32 * 0x10000 + (((n >> 24) & 0xff) as u8) as u32 * 0x1000000
            == n) by (bit_vector);
    }
    assert(framed.subrange(4, 4 + meta.len() as int) =~= meta);
    assert(framed.subrange(4 + meta.len() as int, framed.len() as int) =~= content);
}

/// The local, content-addressed home of blobs.
pub struct BlobRepository {
    /// The directory blobs live under.
    pub cache_dir: String,
}

impl BlobRepository {
    /// A repository rooted at `forge_dir`'s blob directory. Creating the
    /// directory on disk is the caller's business.
    pub fn new(forge_dir: &str) -> (r: BlobRepository)
        ensures
            r.cache_dir@ == forge_dir@ + "/blobs"@,
    {
        let mut cache_dir = forge_dir.to_owned();
        cache_dir.append("/blobs");
        BlobRepository { cache_dir }
    }

    /// Where a blob of the given hash lives: the first two hex digits
    /// name the subdirectory, the rest the file.
    pub fn get_blob_path(&self, hash: &str) -> (r: String)
        requires
            hash@.len() >= 2,
        ensures
            r@ == self.cache_dir@ + "/"@ + hash@.take(2) + "/"@ + hash@.skip(2),
    {
        let prefix = substring(hash, 0, 2);
        let chars = str_to_chars(hash);
        let rest = crate::strutil::chars_range(&chars, 2, chars.len());
        let suffix = crate::strutil::string_from_chars(&rest);
        let mut out = self.cache_dir.clone();
        out.append("/");
        out.append(prefix.as_str());
        out.append("/");
        out.append(suffix.as_str());
        proof {
            assert(prefix@ == hash@.take(2)) by {
                assert(hash@.subrange(0, 2) =~= hash@.take(2));
            }
        }
        out
    }
}

} // verus!
