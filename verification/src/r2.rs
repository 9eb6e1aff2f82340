//! R2 object-store configuration, keys and request signing.
//!
//! The store itself is an external collaborator reached over HTTP; what
//! lives here is the exact text the requests carry: endpoint URLs, object
//! keys, and the AWS-signature-v4 authorization header, built over the
//! HMAC chain.

use vstd::prelude::*;
use vstd::string::*;
use vstd::utf8::encode_utf8;
use crate::digest::{hex_of, hmac_sha256, hmac_sha256_of, sha256_hex, sha256_of};
use crate::strutil::substring;

verus! {

/// Connection settings for the object store.
pub struct R2Config {
    /// The account identifier.
    pub account_id: String,
    /// The bucket holding the blobs.
    pub bucket_name: String,
    /// Access key id for signing.
    pub access_key_id: String,
    /// Secret access key for signing.
    pub secret_access_key: String,
    /// A custom domain standing in for the default endpoint.
    pub custom_domain: Option<String>,
}

/// The default endpoint host for an account.
pub open spec fn host_of(account_id: Seq<char>) -> Seq<char> {
    account_id + ".r2.cloudflarestorage.com"@
}

/// The endpoint URL: the custom domain when one is set, the account's
/// default host otherwise.
pub open spec fn endpoint_url_of(config: &R2Config) -> Seq<char> {
    match config.custom_domain {
        Some(domain) => "https://"@ + domain@,
        None => "https://"@ + host_of(config.account_id@),
    }
}

/// The object key a blob hash maps to.
pub open spec fn blob_key_of(hash: Seq<char>) -> Seq<char> {
    "blobs/"@ + hash.take(2) + "/"@ + hash.skip(2)
}

/// The canonical request the signature covers.
pub open spec fn canonical_request_of(
    method: Seq<char>,
    bucket: Seq<char>,
    key: Seq<char>,
    host: Seq<char>,
    body_hash: Seq<char>,
    date: Seq<char>,
) -> Seq<char> {
    method + "\n/"@ + bucket + "/"@ + key + "\n\nhost:"@ + host + "\nx-amz-content-sha256:"@
        + body_hash + "\nx-amz-date:"@ + date + "\n\nhost;x-amz-content-sha256;x-amz-date\n"@
        + body_hash
}

/// The string-to-sign derived from the canonical request.
pub open spec fn string_to_sign_of(
    date: Seq<char>,
    date_short: Seq<char>,
    canonical_hash: Seq<char>,
) -> Seq<char> {
    "AWS4-HMAC-SHA256\n"@ + date + "\n"@ + date_short + "/auto/s3/aws4_request\n"@
        + canonical_hash
}

/// The derived signing key: the HMAC chain over date, region, service
/// and terminator.
pub open spec fn signing_key_of(secret: Seq<char>, date_short: Seq<char>) -> Seq<u8> {
    let date_key = hmac_sha256_of(encode_utf8("AWS4"@ + secret), encode_utf8(date_short));
    let region_key = hmac_sha256_of(date_key, encode_utf8("auto"@));
    let service_key = hmac_sha256_of(region_key, encode_utf8("s3"@));
    hmac_sha256_of(service_key, encode_utf8("aws4_request"@))
}

/// The full authorization header for a request.
pub open spec fn auth_header_of(
    config: &R2Config,
    method: Seq<char>,
    key: Seq<char>,
    body: Seq<u8>,
    date: Seq<char>,
) -> Seq<char> {
    let date_short = date.take(8);
    let body_hash = hex_of(sha256_of(body));
    let canonical = canonical_request_of(
        method,
        config.bucket_name@,
        key,
        host_of(config.account_id@),
        body_hash,
        date,
    );
    let canonical_hash = hex_of(sha256_of(encode_utf8(canonical)));
    let to_sign = string_to_sign_of(date, date_short, canonical_hash);
    let signature = hex_of(
        hmac_sha256_of(signing_key_of(config.secret_access_key@, date_short), encode_utf8(to_sign)),
    );
    "AWS4-HMAC-SHA256 Credential="@ + config.access_key_id@ + "/"@ + date_short
        + "/auto/s3/aws4_request, SignedHeaders=host;x-amz-content-sha256;x-amz-date, Signature="@
        + signature
}

impl R2Config {
    /// The endpoint URL requests go to.
    pub fn endpoint_url(&self) -> (r: String)
        ensures
            r@ == endpoint_url_of(self),
    {
        let mut out = String::from_str("https://");
        match &self.custom_domain {
            Option::Some(domain) => {
                out.append(domain.as_str());
            },
            Option::None => {
                out.append(self.account_id.as_str());
                out.append(".r2.cloudflarestorage.com");
            },
        }
        out
    }

    /// Builds the v4 authorization header for a request on `key` with
    /// the given body, at the given timestamp (whose first eight
    /// characters are the short date).
    pub fn create_auth_header(&self, method: &str, key: &str, body: &[u8], date: &str) -> (r:
        String)
        requires
            date@.len() >= 8,
        ensures
            r@ == auth_header_of(self, method@, key@, body@, date@),
    {
        let date_short = substring(date, 0, 8);
        let body_hash = sha256_hex(body);
        let host = self.host();

        // canonical request
        let mut canonical = method.to_owned();
        canonical.append("\n/");
        canonical.append(self.bucket_name.as_str());
        canonical.append("/");
        canonical.append(key);
        canonical.append("\n\nhost:");
        canonical.append(host.as_str());
        canonical.append("\nx-amz-content-sha256:");
        canonical.append(body_hash.as_str());
        canonical.append("\nx-amz-date:");
        canonical.append(date);
        canonical.append("\n\nhost;x-amz-content-sha256;x-amz-date\n");
        canonical.append(body_hash.as_str());
        let canonical_hash = sha256_hex(canonical.as_str().as_bytes());

        // string to sign
        let mut to_sign = String::from_str("AWS4-HMAC-SHA256\n");
        to_sign.append(date);
        to_sign.append("\n");
        to_sign.append(date_short.as_str());
        to_sign.append("/auto/s3/aws4_request\n");
        to_sign.append(canonical_hash.as_str());

        // signing key
        let mut seed = String::from_str("AWS4");
        seed.append(self.secret_access_key.as_str());
        let date_key = hmac_sha256(seed.as_str().as_bytes(), date_short.as_str().as_bytes());
        let region_key = hmac_sha256(date_key.as_slice(), "auto".as_bytes());
        let service_key = hmac_sha256(region_key.as_slice(), "s3".as_bytes());
        let signing_key = hmac_sha256(service_key.as_slice(), "aws4_request".as_bytes());

        // signature
        let tag = hmac_sha256(signing_key.as_slice(), to_sign.as_str().as_bytes());
        let signature = crate::digest::hex_encode(tag.as_slice());

        let mut out = String::from_str("AWS4-HMAC-SHA256 Credential=");
        out.append(self.access_key_id.as_str());
        out.append("/");
        out.append(date_short.as_str());
        out.append("/auto/s3/aws4_request, SignedHeaders=host;x-amz-content-sha256;x-amz-date, Signature=");
        out.append(signature.as_str());
        proof {
            assert(date@.subrange(0, 8) =~= date@.take(8));
            assert(out@ =~= auth_header_of(self, method@, key@, body@, date@));
        }
        out
    }

    /// The default endpoint host for this account.
    pub fn host(&self) -> (r: String)
        ensures
            r@ == host_of(self.account_id@),
    {
        let mut out = self.account_id.clone();
        out.append(".r2.cloudflarestorage.com");
        out
    }
}

/// The object key a blob hash maps to, as sent in requests.
pub fn blob_key(hash: &str) -> (r: String)
    requires
        hash@.len() >= 2,
    ensures
        r@ == blob_key_of(hash@),
{
    let prefix = substring(hash, 0, 2);
    let suffix = substring(hash, 2, char_count(hash));
    let mut out = String::from_str("blobs/");
    out.append(prefix.as_str());
    out.append("/");
    out.append(suffix.as_str());
    proof {
        assert(hash@.subrange(0, 2) =~= hash@.take(2));
        assert(hash@.subrange(2, hash@.len() as int) =~= hash@.skip(2));
    }
    out
}

/// Character count of a string, used as the end bound of a substring.
fn char_count(s: &str) -> (r: usize)
    ensures
        r == s@.len(),
{
    let chars = crate::strutil::str_to_chars(s);
    chars.len()
}

/// SHA-256 of raw data in hex form, as the signature scheme carries it.
pub fn compute_sha256_hex(data: &[u8]) -> (r: String)
    ensures
        r@ == hex_of(sha256_of(data@)),
{
    sha256_hex(data)
}

} // verus!
