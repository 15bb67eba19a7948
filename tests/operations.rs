use aws::auth::{Credentials, CredentialsProvider, DefaultCredentialsProvider};
use aws::dispatch::{receive, FromResponse, Response};
use aws::error::{Error, Field};
use aws::http;
use aws::markup::{XmlChild, XmlNode};
use aws::s3::{GetObjectResponse, ListBucketsResponse, ListObjectsResponse, S3Connection};
use aws::timestamp::Timestamp;
use aws::util::TryUnwrap;

const NS: &str = "http://s3.amazonaws.com/doc/2006-03-01/";

fn body(text: &str) -> Response {
    Response { body: text.as_bytes().to_vec() }
}

fn objects_doc(inner: &str) -> Response {
    body(&format!("<ListBucketResult xmlns=\"{}\">{}</ListBucketResult>", NS, inner))
}

fn node(name: &str, text: &str, children: Vec<XmlNode>) -> XmlNode {
    XmlNode {
        name: name.to_string(),
        namespace: Some(NS.to_string()),
        text: text.to_string(),
        children: children.into_iter().map(XmlChild::Element).collect(),
    }
}

#[test]
fn list_buckets_two_in_document_order() {
    let resp = body(&format!(
        "<ListAllMyBucketsResult xmlns=\"{}\"><Owner><ID>1</ID></Owner><Buckets>\
         <Bucket><Name>zeta</Name><CreationDate>2020</CreationDate></Bucket>\
         <Bucket><Name>alpha</Name></Bucket></Buckets></ListAllMyBucketsResult>",
        NS
    ));
    let r = ListBucketsResponse::from_raw(&resp).unwrap();
    let names: Vec<&str> = r.buckets.iter().map(|b| b.name.as_str()).collect();
    assert_eq!(names, vec!["zeta", "alpha"]);
    let r2: ListBucketsResponse = resp.unmarshal().unwrap();
    assert_eq!(r2.buckets.len(), 2);
}

#[test]
fn list_buckets_missing_fields() {
    let resp = body(&format!("<ListAllMyBucketsResult xmlns=\"{}\"></ListAllMyBucketsResult>", NS));
    assert_eq!(ListBucketsResponse::from_raw(&resp).err(), Some(Error::RequiredFieldMissing(Field::Buckets)));
    let resp = body(&format!(
        "<ListAllMyBucketsResult xmlns=\"{}\"><Buckets><Bucket><Name>a</Name></Bucket><Bucket></Bucket></Buckets></ListAllMyBucketsResult>",
        NS
    ));
    assert_eq!(ListBucketsResponse::from_raw(&resp).err(), Some(Error::RequiredFieldMissing(Field::Name)));
}

#[test]
fn list_buckets_wrong_namespace_is_missing() {
    let resp = body("<ListAllMyBucketsResult><Buckets></Buckets></ListAllMyBucketsResult>");
    assert_eq!(ListBucketsResponse::from_raw(&resp).err(), Some(Error::RequiredFieldMissing(Field::Buckets)));
}

#[test]
fn list_buckets_skips_comments_and_reads_cdata() {
    let resp = body(&format!(
        "<ListAllMyBucketsResult xmlns=\"{}\"><Buckets><!-- first -->\
         <Bucket><Name><![CDATA[c-d]]></Name></Bucket>text<Bucket><Name>e</Name></Bucket>\
         </Buckets></ListAllMyBucketsResult>",
        NS
    ));
    let r = ListBucketsResponse::from_raw(&resp).unwrap();
    let names: Vec<&str> = r.buckets.iter().map(|b| b.name.as_str()).collect();
    assert_eq!(names, vec!["c-d", "e"]);
}

#[test]
fn list_buckets_from_built_tree() {
    let root = node(
        "ListAllMyBucketsResult",
        "",
        vec![node("Buckets", "", vec![node("Bucket", "", vec![node("Name", "one", vec![])])])],
    );
    let r = ListBucketsResponse::from_document(&root).unwrap();
    assert_eq!(r.buckets.len(), 1);
    assert_eq!(r.buckets[0].name, "one");
}

#[test]
fn list_objects_full_document() {
    let resp = objects_doc(
        "<Name>bkt</Name><Prefix>p/</Prefix><Marker></Marker><NextMarker>p/b</NextMarker>\
         <MaxKeys>1000</MaxKeys><IsTruncated>true</IsTruncated>\
         <Contents><Key>p/a</Key><Size>3</Size></Contents><Contents><Key>p/b</Key></Contents>",
    );
    let r = ListObjectsResponse::from_raw(&resp).unwrap();
    assert_eq!(r.bucket_name, "bkt");
    assert_eq!(r.prefix, Some("p/".to_string()));
    assert_eq!(r.marker, Some("".to_string()));
    assert_eq!(r.next_marker, Some("p/b".to_string()));
    assert_eq!(r.delimiter, None);
    assert_eq!(r.max_keys, 1000);
    assert!(r.truncated);
    assert!(r.common_prefixes.is_empty());
    let keys: Vec<&str> = r.object_summaries.iter().map(|o| o.key.as_str()).collect();
    assert_eq!(keys, vec!["p/a", "p/b"]);
}

#[test]
fn list_objects_missing_name() {
    let resp = objects_doc("<MaxKeys>10</MaxKeys><IsTruncated>false</IsTruncated>");
    assert_eq!(ListObjectsResponse::from_raw(&resp).err(), Some(Error::RequiredFieldMissing(Field::Name)));
}

#[test]
fn list_objects_invalid_max_keys() {
    let resp = objects_doc("<Name>b</Name><MaxKeys>abc</MaxKeys><IsTruncated>false</IsTruncated>");
    assert_eq!(ListObjectsResponse::from_raw(&resp).err(), Some(Error::FieldInvalid(Field::MaxKeys)));
}

#[test]
fn list_objects_other_field_errors() {
    let resp = objects_doc("<Name>b</Name><IsTruncated>false</IsTruncated>");
    assert_eq!(ListObjectsResponse::from_raw(&resp).err(), Some(Error::RequiredFieldMissing(Field::MaxKeys)));
    let resp = objects_doc("<Name>b</Name><MaxKeys>1</MaxKeys><IsTruncated>maybe</IsTruncated>");
    assert_eq!(ListObjectsResponse::from_raw(&resp).err(), Some(Error::FieldInvalid(Field::IsTruncated)));
    let resp = objects_doc("<Name>b</Name><MaxKeys>1</MaxKeys>");
    assert_eq!(ListObjectsResponse::from_raw(&resp).err(), Some(Error::RequiredFieldMissing(Field::IsTruncated)));
    let resp = objects_doc(
        "<Name>b</Name><MaxKeys>1</MaxKeys><IsTruncated>false</IsTruncated><Contents><Key>k</Key></Contents><Contents></Contents>",
    );
    assert_eq!(ListObjectsResponse::from_raw(&resp).err(), Some(Error::RequiredFieldMissing(Field::Key)));
    let resp = objects_doc("<Name>b</Name><MaxKeys>18446744073709551616</MaxKeys><IsTruncated>false</IsTruncated>");
    assert_eq!(ListObjectsResponse::from_raw(&resp).err(), Some(Error::FieldInvalid(Field::MaxKeys)));
}

#[test]
fn list_objects_largest_max_keys() {
    let resp = objects_doc("<Name>b</Name><MaxKeys>18446744073709551615</MaxKeys><IsTruncated>false</IsTruncated>");
    let r = ListObjectsResponse::from_raw(&resp).unwrap();
    assert_eq!(r.max_keys, u64::MAX);
    assert!(!r.truncated);
    assert!(r.object_summaries.is_empty());
}

#[test]
fn body_encoding_and_markup_errors() {
    let resp = Response { body: vec![0xff, 0xfe, 0x3c] };
    assert_eq!(ListBucketsResponse::from_raw(&resp).err(), Some(Error::InvalidEncoding));
    let resp = body("<a><b></a>");
    assert!(matches!(ListObjectsResponse::from_raw(&resp), Err(Error::MarkupParse { .. })));
}

#[test]
fn get_object_is_identity() {
    let bytes = vec![0u8, 255, 10, 13, 0x80, b'x'];
    let resp = Response { body: bytes.clone() };
    assert_eq!(GetObjectResponse::from_raw(&resp).content, bytes);
    let r: GetObjectResponse = resp.unmarshal().unwrap();
    assert_eq!(r.content, bytes);
}

#[test]
fn non_200_status_whatever_the_body() {
    let r = receive(Ok(http::Response { status_code: 403, body: Some(b"<Error/>".to_vec()) }));
    assert_eq!(r.err(), Some(Error::HttpStatus(403)));
    let r = receive(Ok(http::Response { status_code: 403, body: None }));
    assert_eq!(r.err(), Some(Error::HttpStatus(403)));
}

#[test]
fn status_200_and_transport_errors() {
    let r = receive(Ok(http::Response { status_code: 200, body: Some(vec![1, 2]) })).unwrap();
    assert_eq!(r.body, vec![1, 2]);
    let r = receive(Ok(http::Response { status_code: 200, body: None })).unwrap();
    assert!(r.body.is_empty());
    let r = receive(Err("refused".to_string()));
    assert_eq!(r.err(), Some(Error::Transport("refused".to_string())));
}

#[test]
fn default_provider_needs_both_values() {
    let mut p = DefaultCredentialsProvider::new(Some("k".to_string()), Some("s".to_string()));
    let c = p.get_credentials().unwrap();
    assert_eq!(c.aws_access_key_id(), "k");
    assert_eq!(c.aws_secret_access_key(), "s");
    let mut p = DefaultCredentialsProvider::new(Some("k".to_string()), None);
    assert!(matches!(p.get_credentials(), Err(Error::Credentials(_))));
    let mut p = DefaultCredentialsProvider::new(None, Some("s".to_string()));
    assert!(matches!(p.get_credentials(), Err(Error::Credentials(_))));
}

#[test]
fn connection_signs_each_operation() {
    let now = Timestamp::new(2020, 2, 29, 23, 59, 59).unwrap();
    let provider = DefaultCredentialsProvider::new(Some("AK".to_string()), Some("SK".to_string()));
    let mut s3 = S3Connection::new(provider);
    let req = s3.list_buckets(&now).unwrap();
    assert_eq!(req.url, "https://s3.amazonaws.com/");
    assert_eq!(req.method, http::Method::Get);
    assert!(req.headers[3].1.starts_with("AWS4-HMAC-SHA256 Credential=AK/20200229/us-east-1/s3/aws4_request,"));
    let req = s3.list_objects("bkt", None, None, None, Some(3), &now).unwrap();
    assert_eq!(req.url, "https://s3.amazonaws.com/bkt?max-keys=3");
    let req = s3.get_object("bkt", "k", &now).unwrap();
    assert_eq!(req.url, "https://s3.amazonaws.com/bkt/k");
    let mut none = S3Connection::new(DefaultCredentialsProvider::new(None, None));
    assert!(matches!(none.list_buckets(&now), Err(Error::Credentials(_))));
}

#[test]
fn try_unwrap_option() {
    assert_eq!(Some(3).try_unwrap("e"), Ok(3));
    assert_eq!(None::<i32>.try_unwrap("e"), Err("e"));
    let c = Credentials::BasicCredentials("a".to_string(), "b".to_string());
    assert_eq!(c.aws_access_key_id(), "a");
}

#[test]
fn field_and_method_names() {
    assert_eq!(Field::MaxKeys.name(), "MaxKeys");
    assert_eq!(Field::IsTruncated.name(), "IsTruncated");
    assert_eq!(http::Method::Get.as_str(), "GET");
    assert_eq!(http::Method::Delete.as_str(), "DELETE");
}

#[test]
fn get_object_through_the_trait() {
    let resp = Response { body: vec![0xff, 0x00, 0xfe, 0x0a] };
    let r = <GetObjectResponse as FromResponse>::from_response(&resp).unwrap();
    assert_eq!(r.content, vec![0xff, 0x00, 0xfe, 0x0a]);
    let r = <ListObjectsResponse as FromResponse>::from_response(&Response { body: vec![0xff] });
    assert_eq!(r.err(), Some(Error::InvalidEncoding));
}

#[test]
fn replies_read_through_to_results() {
    let ok = |b: &str| Ok(http::Response { status_code: 200, body: Some(b.as_bytes().to_vec()) });
    let doc = format!(
        "<ListAllMyBucketsResult xmlns=\"{}\"><Buckets><Bucket><Name>x</Name></Bucket></Buckets></ListAllMyBucketsResult>",
        NS
    );
    let r = ListBucketsResponse::from_reply(ok(&doc)).unwrap();
    assert_eq!(r.buckets[0].name, "x");
    let r = ListBucketsResponse::from_reply(Ok(http::Response { status_code: 404, body: Some(doc.into_bytes()) }));
    assert_eq!(r.err(), Some(Error::HttpStatus(404)));
    let r = ListObjectsResponse::from_reply(Err("timeout".to_string()));
    assert_eq!(r.err(), Some(Error::Transport("timeout".to_string())));
    let r = ListObjectsResponse::from_reply(ok(&format!("<ListBucketResult xmlns=\"{}\"><MaxKeys>1</MaxKeys></ListBucketResult>", NS)));
    assert_eq!(r.err(), Some(Error::RequiredFieldMissing(Field::Name)));
    let r = GetObjectResponse::from_reply(Ok(http::Response { status_code: 200, body: Some(vec![0xff, 0]) })).unwrap();
    assert_eq!(r.content, vec![0xff, 0]);
    let r = GetObjectResponse::from_reply(Ok(http::Response { status_code: 500, body: None }));
    assert_eq!(r.err(), Some(Error::HttpStatus(500)));
}

#[test]
fn connection_passes_provider_error_on() {
    let now = Timestamp::new(2020, 1, 1, 0, 0, 0).unwrap();
    let mut s3 = S3Connection::new(DefaultCredentialsProvider::new(Some("k".to_string()), None));
    assert!(matches!(s3.get_object("b", "k", &now), Err(Error::Credentials(_))));
    assert!(matches!(s3.list_objects("b", None, None, None, None, &now), Err(Error::Credentials(_))));
}
