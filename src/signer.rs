//! Signature Version 4 request signing for the `s3` service.
use vstd::prelude::*;
use vstd::utf8::encode_utf8;
use crate::auth::Credentials;
use crate::hashing::{hex_hash, hex_of, hmac, hmac_sha256_of, sha256_of, to_hex};
use crate::http::{method_text, Method, Request};
use crate::query::{canonical_query, canonical_query_string};
use crate::timestamp::Timestamp;

verus! {

/// What an operation asks of the service, before signing.
pub struct RequestDescriptor {
    pub method: Method,
    pub host: String,
    pub path: String,
    pub query: Vec<(String, String)>,
    pub body: Vec<u8>,
    pub region: String,
}

/// Lowercase hex of the SHA-256 digest of the body.
pub open spec fn content_hash_text(body: Seq<u8>) -> Seq<char> {
    hex_of(sha256_of(body))
}

pub open spec fn canonical_request_text(
    method: Seq<char>,
    path: Seq<char>,
    query: Seq<char>,
    host: Seq<char>,
    content_hash: Seq<char>,
    full_date: Seq<char>,
) -> Seq<char> {
    method + "\n"@ + path + "\n"@ + query + "\n"@ + "host:"@ + host + "\n"@
        + "x-amz-content-sha256:"@ + content_hash + "\n"@ + "x-amz-date:"@ + full_date
        + "\n\n"@ + "host;x-amz-content-sha256;x-amz-date"@ + "\n"@ + content_hash
}

/// `date/region/s3/aws4_request`.
pub open spec fn scope_text(date: Seq<char>, region: Seq<char>) -> Seq<char> {
    date + "/"@ + region + "/s3/aws4_request"@
}

pub open spec fn string_to_sign_text(
    full_date: Seq<char>,
    date: Seq<char>,
    region: Seq<char>,
    canonical_request_hash: Seq<char>,
) -> Seq<char> {
    "AWS4-HMAC-SHA256\n"@ + full_date + "\n"@ + scope_text(date, region) + "\n"@
        + canonical_request_hash
}

/// The chained keyed digests of date, region, service and terminator,
/// starting from `AWS4` followed by the secret.
pub open spec fn signing_key_of(secret: Seq<char>, date: Seq<char>, region: Seq<char>) -> Seq<u8> {
    let k_date = hmac_sha256_of(encode_utf8("AWS4"@ + secret), encode_utf8(date));
    let k_region = hmac_sha256_of(k_date, encode_utf8(region));
    let k_service = hmac_sha256_of(k_region, encode_utf8("s3"@));
    hmac_sha256_of(k_service, encode_utf8("aws4_request"@))
}

pub open spec fn authorization_text(
    key_id: Seq<char>,
    date: Seq<char>,
    region: Seq<char>,
    signature: Seq<char>,
) -> Seq<char> {
    "AWS4-HMAC-SHA256 Credential="@ + key_id + "/"@ + scope_text(date, region)
        + ",SignedHeaders=host;x-amz-content-sha256;x-amz-date,Signature="@ + signature
}

/// The canonical request of a descriptor at a moment.
pub open spec fn descriptor_canonical_request(d: RequestDescriptor, now: Timestamp) -> Seq<char> {
    canonical_request_text(
        method_text(d.method),
        d.path@,
        canonical_query(d.query@),
        d.host@,
        content_hash_text(d.body@),
        now.full_text(),
    )
}

/// The signature of a descriptor with a secret at a moment.
pub open spec fn signature_text(d: RequestDescriptor, secret: Seq<char>, now: Timestamp) -> Seq<
    char,
> {
    let sts = string_to_sign_text(
        now.full_text(),
        now.date_text(),
        d.region@,
        hex_of(sha256_of(encode_utf8(descriptor_canonical_request(d, now)))),
    );
    hex_of(hmac_sha256_of(signing_key_of(secret, now.date_text(), d.region@), encode_utf8(sts)))
}

/// The `Authorization` header value of a descriptor.
pub open spec fn descriptor_authorization(d: RequestDescriptor, c: Credentials, now: Timestamp) -> Seq<
    char,
> {
    authorization_text(c.key_id(), now.date_text(), d.region@, signature_text(d, c.secret(), now))
}

/// `https://host/path`, followed by `?` and the canonical query where there
/// is a query.
pub open spec fn url_text(d: RequestDescriptor) -> Seq<char> {
    let base = "https://"@ + d.host@ + d.path@;
    if d.query@.len() == 0 {
        base
    } else {
        base + "?"@ + canonical_query(d.query@)
    }
}

/// `r` is the descriptor signed with the credentials at the moment: its
/// method, URL and body, and the headers `Host`, `x-amz-content-sha256`,
/// `x-amz-date` and `Authorization` in that order.
pub open spec fn is_signed(r: Request, d: RequestDescriptor, c: Credentials, now: Timestamp) -> bool {
    &&& r.method == d.method
    &&& r.url@ == url_text(d)
    &&& r.body@ == d.body@
    &&& r.headers@.len() == 4
    &&& r.headers@[0].0@ == "Host"@
    &&& r.headers@[0].1@ == d.host@
    &&& r.headers@[1].0@ == "x-amz-content-sha256"@
    &&& r.headers@[1].1@ == content_hash_text(d.body@)
    &&& r.headers@[2].0@ == "x-amz-date"@
    &&& r.headers@[2].1@ == now.full_text()
    &&& r.headers@[3].0@ == "Authorization"@
    &&& r.headers@[3].1@ == descriptor_authorization(d, c, now)
}

/// The canonical request of the descriptor, given the body's content hash
/// and the full timestamp.
pub fn canonical_request(d: &RequestDescriptor, content_hash: &str, full_date: &str) -> (r: String)
    ensures
        r@ == canonical_request_text(
            method_text(d.method),
            d.path@,
            canonical_query(d.query@),
            d.host@,
            content_hash@,
            full_date@,
        ),
{
    let mut s = d.method.as_str().to_owned();
    s.append("\n");
    s.append(d.path.as_str());
    s.append("\n");
    let q = canonical_query_string(&d.query);
    s.append(q.as_str());
    s.append("\n");
    s.append("host:");
    s.append(d.host.as_str());
    s.append("\n");
    s.append("x-amz-content-sha256:");
    s.append(content_hash);
    s.append("\n");
    s.append("x-amz-date:");
    s.append(full_date);
    s.append("\n\n");
    s.append("host;x-amz-content-sha256;x-amz-date");
    s.append("\n");
    s.append(content_hash);
    s
}

/// The string to sign.
pub fn string_to_sign(full_date: &str, date: &str, region: &str, canonical_request_hash: &str) -> (r:
    String)
    ensures
        r@ == string_to_sign_text(full_date@, date@, region@, canonical_request_hash@),
{
    let mut s = "AWS4-HMAC-SHA256\n".to_owned();
    s.append(full_date);
    s.append("\n");
    s.append(date);
    s.append("/");
    s.append(region);
    s.append("/s3/aws4_request");
    s.append("\n");
    s.append(canonical_request_hash);
    s
}

/// The signing key for a secret, a date (`YYYYMMDD`) and a region.
pub fn derive_signing_key(secret: &str, date: &str, region: &str) -> (r: Vec<u8>)
    ensures
        r@ == signing_key_of(secret@, date@, region@),
{
    let mut k = "AWS4".to_owned();
    k.append(secret);
    let k_date = hmac(k.as_str().as_bytes(), date.as_bytes());
    let k_region = hmac(k_date.as_slice(), region.as_bytes());
    let k_service = hmac(k_region.as_slice(), "s3".as_bytes());
    hmac(k_service.as_slice(), "aws4_request".as_bytes())
}

/// The `Authorization` header value.
pub fn authorization_header(key_id: &str, date: &str, region: &str, signature: &str) -> (r: String)
    ensures
        r@ == authorization_text(key_id@, date@, region@, signature@),
{
    let mut s = "AWS4-HMAC-SHA256 Credential=".to_owned();
    s.append(key_id);
    s.append("/");
    s.append(date);
    s.append("/");
    s.append(region);
    s.append("/s3/aws4_request");
    s.append(",SignedHeaders=host;x-amz-content-sha256;x-amz-date,Signature=");
    s.append(signature);
    s
}

fn header(name: &str, value: String) -> (r: (String, String))
    ensures
        r.0@ == name@,
        r.1@ == value@,
{
    (name.to_owned(), value)
}

fn request_url(d: &RequestDescriptor) -> (r: String)
    ensures
        r@ == url_text(*d),
{
    let mut s = "https://".to_owned();
    s.append(d.host.as_str());
    s.append(d.path.as_str());
    if d.query.len() > 0 {
        s.append("?");
        let q = canonical_query_string(&d.query);
        s.append(q.as_str());
    }
    s
}

/// The descriptor signed with the credentials at the moment.
pub fn sign(d: &RequestDescriptor, credentials: &Credentials, now: &Timestamp) -> (r: Request)
    ensures
        is_signed(r, *d, *credentials, *now),
{
    let full_date = now.full_stamp();
    let date = now.date_stamp();
    let content_hash = hex_hash(d.body.as_slice());
    let creq = canonical_request(d, content_hash.as_str(), full_date.as_str());
    let creq_hash = hex_hash(creq.as_str().as_bytes());
    let sts = string_to_sign(full_date.as_str(), date.as_str(), d.region.as_str(), creq_hash.as_str());
    let key = derive_signing_key(credentials.aws_secret_access_key(), date.as_str(), d.region.as_str());
    let signature = to_hex(hmac(key.as_slice(), sts.as_str().as_bytes()).as_slice());
    let auth = authorization_header(
        credentials.aws_access_key_id(),
        date.as_str(),
        d.region.as_str(),
        signature.as_str(),
    );
    let mut headers: Vec<(String, String)> = Vec::new();
    headers.push(header("Host", d.host.clone()));
    headers.push(header("x-amz-content-sha256", content_hash));
    headers.push(header("x-amz-date", full_date));
    headers.push(header("Authorization", auth));
    Request { method: d.method, url: request_url(d), headers, body: d.body.clone() }
}

/// Signing is deterministic: two requests signed from the same descriptor,
/// credentials and moment carry the same URL, body and headers.
pub proof fn lemma_signing_deterministic(
    r1: Request,
    r2: Request,
    d: RequestDescriptor,
    c: Credentials,
    now: Timestamp,
)
    requires
        is_signed(r1, d, c, now),
        is_signed(r2, d, c, now),
    ensures
        r1.method == r2.method,
        r1.url@ == r2.url@,
        r1.body@ == r2.body@,
        r1.headers@.len() == r2.headers@.len(),
        forall|i: int|
            0 <= i < r1.headers@.len() ==> (#[trigger] r1.headers@[i]).0@ == r2.headers@[i].0@
                && r1.headers@[i].1@ == r2.headers@[i].1@,
{
}

} // verus!
