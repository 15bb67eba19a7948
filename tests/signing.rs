use aws::auth::Credentials;
use aws::hashing::{hash, hex_hash, hmac, to_hex};
use aws::query::{canonical_query_string, uri_encode};
use aws::error::Error;
use aws::s3::{get_object_descriptor, list_buckets_descriptor, list_objects_descriptor, sign_request};
use aws::signer::{
    authorization_header, canonical_request, derive_signing_key, sign, string_to_sign,
};
use aws::timestamp::Timestamp;
use hmac::Mac;
use sha2::Digest;

fn hex(b: &[u8]) -> String {
    b.iter().map(|x| format!("{:02x}", x)).collect()
}

fn ref_sha256(b: &[u8]) -> Vec<u8> {
    sha2::Sha256::digest(b).to_vec()
}

fn ref_hmac(key: &[u8], data: &[u8]) -> Vec<u8> {
    let mut m = hmac::Hmac::<sha2::Sha256>::new_from_slice(key).unwrap();
    m.update(data);
    m.finalize().into_bytes().to_vec()
}

fn pairs(p: &[(&str, &str)]) -> Vec<(String, String)> {
    p.iter().map(|(k, v)| (k.to_string(), v.to_string())).collect()
}

#[test]
fn sha256_test_vectors() {
    assert_eq!(
        to_hex(&hash(b"")),
        "e3b0c44298fc1c149afbf4c8996fb92427ae41e4649b934ca495991b7852b855"
    );
    assert_eq!(
        to_hex(&hash(b"abc")),
        "ba7816bf8f01cfea414140de5dae2223b00361a396177a9cb410ff61f20015ad"
    );
    assert_eq!(hash(b"abc"), hash(b"abc"));
    assert_eq!(hex_hash(b""), "e3b0c44298fc1c149afbf4c8996fb92427ae41e4649b934ca495991b7852b855");
}

#[test]
fn hmac_sha256_test_vectors() {
    assert_eq!(
        to_hex(&hmac(b"Jefe", b"what do ya want for nothing?")),
        "5bdcc146bf60754e6a042426089575c75a003f089d2739839dec58b964ec3843"
    );
    let key = vec![0x0bu8; 20];
    assert_eq!(
        to_hex(&hmac(&key, b"Hi There")),
        "b0344c61d8db38535ca8afceaf0bf12b881dc200c9833da726e9376c2e32cff7"
    );
    assert_eq!(hmac(b"k", b"d"), hmac(b"k", b"d"));
}

#[test]
fn hex_is_two_lowercase_digits_per_byte() {
    assert_eq!(to_hex(&[0x00, 0x0f, 0xa0, 0xff]), "000fa0ff");
    assert_eq!(to_hex(&[]), "");
}

#[test]
fn canonical_query_sorted_by_key() {
    assert_eq!(canonical_query_string(&pairs(&[("b", "2"), ("a", "1")])), "a=1&b=2");
    assert_eq!(canonical_query_string(&pairs(&[("a", "1"), ("b", "2")])), "a=1&b=2");
    assert_eq!(canonical_query_string(&Vec::new()), "");
}

#[test]
fn canonical_query_encodes_pairs() {
    assert_eq!(canonical_query_string(&pairs(&[("prefix", "a b/c"), ("marker", "")])), "marker=&prefix=a%20b%2Fc");
}

#[test]
fn timestamp_stamps() {
    let t = Timestamp::new(2015, 8, 30, 12, 36, 0).unwrap();
    assert_eq!(t.date_stamp(), "20150830");
    assert_eq!(t.full_stamp(), "20150830T123600Z");
    let early = Timestamp::new(7, 1, 2, 3, 4, 5).unwrap();
    assert_eq!(early.full_stamp(), "00070102T030405Z");
    assert!(Timestamp::new(2015, 13, 1, 0, 0, 0).is_none());
    assert!(Timestamp::new(2015, 1, 1, 24, 0, 0).is_none());
}

#[test]
fn descriptors_of_the_operations() {
    let d = list_buckets_descriptor();
    assert_eq!(d.path, "/");
    assert_eq!(d.host, "s3.amazonaws.com");
    assert_eq!(d.region, "us-east-1");
    assert!(d.query.is_empty() && d.body.is_empty());
    let d = list_objects_descriptor("bkt", Some("photos/"), None, Some("/"), Some(1000));
    assert_eq!(d.path, "/bkt");
    assert_eq!(d.query, pairs(&[("delimiter", "/"), ("max-keys", "1000"), ("prefix", "photos/")]));
    let d = list_objects_descriptor("bkt", None, Some("m"), None, None);
    assert_eq!(d.query, pairs(&[("marker", "m")]));
    let d = get_object_descriptor("bkt", "dir/file.txt");
    assert_eq!(d.path, "/bkt/dir/file.txt");
    assert!(d.query.is_empty());
}

#[test]
fn signing_pieces() {
    let d = list_objects_descriptor("bkt", None, None, None, Some(2));
    let creq = canonical_request(&d, "HASH", "20150830T123600Z");
    assert_eq!(
        creq,
        "GET\n/bkt\nmax-keys=2\nhost:s3.amazonaws.com\nx-amz-content-sha256:HASH\nx-amz-date:20150830T123600Z\n\nhost;x-amz-content-sha256;x-amz-date\nHASH"
    );
    assert_eq!(
        string_to_sign("20150830T123600Z", "20150830", "us-east-1", "abc"),
        "AWS4-HMAC-SHA256\n20150830T123600Z\n20150830/us-east-1/s3/aws4_request\nabc"
    );
    assert_eq!(
        authorization_header("AKID", "20150830", "us-east-1", "sig"),
        "AWS4-HMAC-SHA256 Credential=AKID/20150830/us-east-1/s3/aws4_request,SignedHeaders=host;x-amz-content-sha256;x-amz-date,Signature=sig"
    );
}

#[test]
fn signing_key_chain() {
    let k = derive_signing_key("secret", "20150830", "us-east-1");
    let expected = ref_hmac(
        &ref_hmac(&ref_hmac(&ref_hmac(b"AWS4secret", b"20150830"), b"us-east-1"), b"s3"),
        b"aws4_request",
    );
    assert_eq!(k, expected);
}

#[test]
fn authorization_header_replays_by_hand() {
    let creds = Credentials::BasicCredentials(
        "AKIDEXAMPLE".to_string(),
        "wJalrXUtnFEMI/K7MDENG+bPxRfiCYEXAMPLEKEY".to_string(),
    );
    let now = Timestamp::new(2015, 8, 30, 12, 36, 0).unwrap();
    let d = get_object_descriptor("examplebucket", "test.txt");
    let req = sign(&d, &creds, &now);

    let empty_hash = hex(&ref_sha256(b""));
    let creq = format!(
        "GET\n/examplebucket/test.txt\n\nhost:s3.amazonaws.com\nx-amz-content-sha256:{}\nx-amz-date:20150830T123600Z\n\nhost;x-amz-content-sha256;x-amz-date\n{}",
        empty_hash, empty_hash
    );
    let sts = format!(
        "AWS4-HMAC-SHA256\n20150830T123600Z\n20150830/us-east-1/s3/aws4_request\n{}",
        hex(&ref_sha256(creq.as_bytes()))
    );
    let key = ref_hmac(
        &ref_hmac(
            &ref_hmac(
                &ref_hmac(b"AWS4wJalrXUtnFEMI/K7MDENG+bPxRfiCYEXAMPLEKEY", b"20150830"),
                b"us-east-1",
            ),
            b"s3",
        ),
        b"aws4_request",
    );
    let expected = format!(
        "AWS4-HMAC-SHA256 Credential=AKIDEXAMPLE/20150830/us-east-1/s3/aws4_request,SignedHeaders=host;x-amz-content-sha256;x-amz-date,Signature={}",
        hex(&ref_hmac(&key, sts.as_bytes()))
    );
    assert_eq!(req.url, "https://s3.amazonaws.com/examplebucket/test.txt");
    assert_eq!(
        req.headers,
        pairs(&[
            ("Host", "s3.amazonaws.com"),
            ("x-amz-content-sha256", empty_hash.as_str()),
            ("x-amz-date", "20150830T123600Z"),
            ("Authorization", expected.as_str()),
        ])
    );
    let again = sign(&d, &creds, &now);
    assert_eq!(again.headers, req.headers);
}

#[test]
fn signed_url_carries_canonical_query() {
    let creds = Credentials::BasicCredentials("k".to_string(), "s".to_string());
    let now = Timestamp::new(2020, 1, 1, 0, 0, 0).unwrap();
    let d = list_objects_descriptor("b", Some("x"), None, None, Some(5));
    let req = sign(&d, &creds, &now);
    assert_eq!(req.url, "https://s3.amazonaws.com/b?max-keys=5&prefix=x");
}

#[test]
fn form_encoding_of_reserved_bytes() {
    assert_eq!(canonical_query_string(&pairs(&[("k", "~*-._ é")])), "k=~%2A-._%20%C3%A9");
    assert_eq!(uri_encode("AZaz09+=&"), "AZaz09%2B%3D%26");
    assert_eq!(uri_encode(""), "");
}

#[test]
fn sign_request_uses_given_credentials_or_passes_error_on() {
    let now = Timestamp::new(2015, 8, 30, 12, 36, 0).unwrap();
    let d = list_buckets_descriptor();
    let c = Credentials::BasicCredentials("AK".to_string(), "SK".to_string());
    let direct = sign(&d, &c, &now);
    let r = sign_request(Ok(Credentials::BasicCredentials("AK".to_string(), "SK".to_string())), &d, &now).unwrap();
    assert_eq!(r.headers, direct.headers);
    assert_eq!(r.url, direct.url);
    let e = sign_request(Err(Error::Credentials("none".to_string())), &d, &now);
    assert_eq!(e.err(), Some(Error::Credentials("none".to_string())));
}
