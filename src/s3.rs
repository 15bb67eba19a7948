//! The three operations of the service: request descriptors, typed results
//! and the connection that ties them to credentials.
use vstd::prelude::*;
use crate::auth::{Credentials, CredentialsProvider};
use crate::dispatch::{body_of, document_of, receive, reply_error, FromResponse, Response};
use crate::error::{Error, Field};
use crate::http;
use crate::http::{Method, Request};
use crate::markup::{
    child, child_text, find_child, find_child_text, is_s3_child, is_s3_child_element, XmlChild,
    XmlNode,
};
use crate::signer::{is_signed, sign, RequestDescriptor};
use crate::text::{bool_of_text, decimal, decimal_text, parse_bool, parse_u64, u64_of_text};
use crate::timestamp::Timestamp;

verus! {

pub struct Bucket {
    pub name: String,
}

pub struct ObjectSummary {
    pub key: String,
}

pub struct ListBucketsResponse {
    pub buckets: Vec<Bucket>,
}

/// A listing of a bucket. `common_prefixes` is reserved: it is always empty.
pub struct ListObjectsResponse {
    pub bucket_name: String,
    pub prefix: Option<String>,
    pub common_prefixes: Vec<String>,
    pub delimiter: Option<String>,
    pub marker: Option<String>,
    pub next_marker: Option<String>,
    pub max_keys: u64,
    pub truncated: bool,
    pub object_summaries: Vec<ObjectSummary>,
}

pub struct GetObjectResponse {
    pub content: Vec<u8>,
}

/// Among `cs`, in order, each element named `outer` in the service's
/// namespace, by the text of its first child named `inner`; the first such
/// element without that child fails with `missing`.
pub open spec fn texts_of(cs: Seq<XmlChild>, outer: Seq<char>, inner: Seq<char>, missing: Field) -> Result<
    Seq<String>,
    Error,
>
    decreases cs.len(),
{
    if cs.len() == 0 {
        Ok(Seq::empty())
    } else {
        match texts_of(cs.drop_last(), outer, inner, missing) {
            Err(e) => Err(e),
            Ok(v) => if !is_s3_child(cs.last(), outer) {
                Ok(v)
            } else {
                match child_text(cs.last()->Element_0, inner) {
                    Some(t) => Ok(v.push(t)),
                    None => Err(Error::RequiredFieldMissing(missing)),
                }
            },
        }
    }
}

/// The bucket names of a ListBuckets document.
pub open spec fn bucket_names_of(root: XmlNode) -> Result<Seq<String>, Error> {
    match child(root, "Buckets"@) {
        None => Err(Error::RequiredFieldMissing(Field::Buckets)),
        Some(b) => texts_of(b.children@, "Bucket"@, "Name"@, Field::Name),
    }
}

/// The object keys of a ListObjects document.
pub open spec fn object_keys_of(root: XmlNode) -> Result<Seq<String>, Error> {
    texts_of(root.children@, "Contents"@, "Key"@, Field::Key)
}

/// A required field of the document, parsed.
pub open spec fn required_u64(root: XmlNode, name: Seq<char>) -> Option<u64> {
    match child_text(root, name) {
        Some(t) => u64_of_text(t@),
        None => None,
    }
}

pub open spec fn required_bool(root: XmlNode, name: Seq<char>) -> Option<bool> {
    match child_text(root, name) {
        Some(t) => bool_of_text(t@),
        None => None,
    }
}

/// The first failure in reading a ListObjects document, if any: `Name`
/// absent; `MaxKeys` absent or not an unsigned integer; `IsTruncated` absent
/// or not a boolean; a `Contents` element without `Key`.
pub open spec fn list_objects_failure(root: XmlNode) -> Option<Error> {
    if child(root, "Name"@) is None {
        Some(Error::RequiredFieldMissing(Field::Name))
    } else if child(root, "MaxKeys"@) is None {
        Some(Error::RequiredFieldMissing(Field::MaxKeys))
    } else if required_u64(root, "MaxKeys"@) is None {
        Some(Error::FieldInvalid(Field::MaxKeys))
    } else if child(root, "IsTruncated"@) is None {
        Some(Error::RequiredFieldMissing(Field::IsTruncated))
    } else if required_bool(root, "IsTruncated"@) is None {
        Some(Error::FieldInvalid(Field::IsTruncated))
    } else {
        match object_keys_of(root) {
            Err(e) => Some(e),
            Ok(_) => None,
        }
    }
}

/// `v` holds what a ListObjects document holds.
pub open spec fn list_objects_read(v: ListObjectsResponse, root: XmlNode) -> bool {
    &&& Some(v.bucket_name) == child_text(root, "Name"@)
    &&& v.prefix == child_text(root, "Prefix"@)
    &&& v.delimiter == child_text(root, "Delimiter"@)
    &&& v.marker == child_text(root, "Marker"@)
    &&& v.next_marker == child_text(root, "NextMarker"@)
    &&& Some(v.max_keys) == required_u64(root, "MaxKeys"@)
    &&& Some(v.truncated) == required_bool(root, "IsTruncated"@)
    &&& object_keys_of(root) == Ok::<Seq<String>, Error>(
        v.object_summaries@.map_values(|o: ObjectSummary| o.key),
    )
    &&& v.common_prefixes@.len() == 0
}

proof fn lemma_texts_err_stays(
    cs: Seq<XmlChild>,
    outer: Seq<char>,
    inner: Seq<char>,
    missing: Field,
    k: int,
    m: int,
)
    requires
        0 <= k <= m <= cs.len(),
        texts_of(cs.take(k), outer, inner, missing) is Err,
    ensures
        texts_of(cs.take(m), outer, inner, missing) == texts_of(cs.take(k), outer, inner, missing),
    decreases m - k,
{
    if m > k {
        lemma_texts_err_stays(cs, outer, inner, missing, k, m - 1);
        assert(cs.take(m).drop_last() =~= cs.take(m - 1));
    }
}

/// The texts of the first `inner` child of each `outer` element of `cs`.
pub fn collect_texts(cs: &Vec<XmlChild>, outer: &str, inner: &str, missing: Field) -> (r: Result<
    Vec<String>,
    Error,
>)
    ensures
        match texts_of(cs@, outer@, inner@, missing) {
            Ok(t) => r is Ok && r->Ok_0@ == t,
            Err(e) => r == Err::<Vec<String>, Error>(e),
        },
{
    let mut out: Vec<String> = Vec::new();
    let mut i: usize = 0;
    while i < cs.len()
        invariant
            i <= cs@.len(),
            texts_of(cs@.take(i as int), outer@, inner@, missing) == Ok::<Seq<String>, Error>(out@),
        decreases cs@.len() - i,
    {
        proof {
            assert(cs@.take(i + 1).drop_last() =~= cs@.take(i as int));
        }
        if let XmlChild::Element(e) = &cs[i] {
            if is_s3_child_element(&cs[i], outer) {
                match find_child_text(e, inner) {
                    Some(t) => {
                        out.push(t);
                    },
                    None => {
                        proof {
                            lemma_texts_err_stays(
                                cs@,
                                outer@,
                                inner@,
                                missing,
                                i + 1,
                                cs@.len() as int,
                            );
                            assert(cs@.take(cs@.len() as int) =~= cs@);
                        }
                        return Err(Error::RequiredFieldMissing(missing));
                    },
                }
            }
        }
        i = i + 1;
    }
    assert(cs@.take(cs@.len() as int) =~= cs@);
    Ok(out)
}

impl ListBucketsResponse {
    /// The buckets of a ListBuckets document, in document order.
    pub fn from_document(root: &XmlNode) -> (r: Result<ListBucketsResponse, Error>)
        ensures
            match bucket_names_of(*root) {
                Ok(names) => r is Ok && r->Ok_0.buckets@.map_values(|b: Bucket| b.name) == names,
                Err(e) => r == Err::<ListBucketsResponse, Error>(e),
            },
    {
        let list = match find_child(root, "Buckets") {
            Some(c) => c,
            None => {
                return Err(Error::RequiredFieldMissing(Field::Buckets));
            },
        };
        let names = match collect_texts(&list.children, "Bucket", "Name", Field::Name) {
            Ok(n) => n,
            Err(e) => {
                return Err(e);
            },
        };
        let mut buckets: Vec<Bucket> = Vec::new();
        let mut i: usize = 0;
        while i < names.len()
            invariant
                i <= names@.len(),
                buckets@.len() == i,
                forall|j: int| 0 <= j < i ==> (#[trigger] buckets@[j]).name == names@[j],
            decreases names@.len() - i,
        {
            buckets.push(Bucket { name: names[i].clone() });
            i = i + 1;
        }
        assert(buckets@.map_values(|b: Bucket| b.name) =~= names@);
        Ok(ListBucketsResponse { buckets })
    }

    /// The buckets listed in a response's body.
    pub fn from_raw(resp: &Response) -> (r: Result<ListBucketsResponse, Error>)
        ensures
            match document_of(resp.body@) {
                Err(e) => r == Err::<ListBucketsResponse, Error>(e),
                Ok(root) => match bucket_names_of(root) {
                    Ok(names) => r is Ok && r->Ok_0.buckets@.map_values(|b: Bucket| b.name)
                        == names,
                    Err(e) => r == Err::<ListBucketsResponse, Error>(e),
                },
            },
    {
        match resp.xml_body() {
            Ok(root) => ListBucketsResponse::from_document(&root),
            Err(e) => Err(e),
        }
    }
}

/// `r` is what a ListBuckets response with this body reads as.
pub open spec fn list_buckets_read(body: Seq<u8>, r: Result<ListBucketsResponse, Error>) -> bool {
    match document_of(body) {
        Err(e) => r == Err::<ListBucketsResponse, Error>(e),
        Ok(root) => match bucket_names_of(root) {
            Ok(names) => r is Ok && r->Ok_0.buckets@.map_values(|b: Bucket| b.name) == names,
            Err(e) => r == Err::<ListBucketsResponse, Error>(e),
        },
    }
}

impl FromResponse for ListBucketsResponse {
    open spec fn read_from(body: Seq<u8>, r: Result<ListBucketsResponse, Error>) -> bool {
        list_buckets_read(body, r)
    }

    fn from_response(resp: &Response) -> (r: Result<ListBucketsResponse, Error>)
        ensures
            list_buckets_read(resp.body@, r),
    {
        ListBucketsResponse::from_raw(resp)
    }
}

impl ListObjectsResponse {
    /// The listing in a ListObjects document; the first failure aborts it.
    pub fn from_document(root: &XmlNode) -> (r: Result<ListObjectsResponse, Error>)
        ensures
            match list_objects_failure(*root) {
                Some(e) => r == Err::<ListObjectsResponse, Error>(e),
                None => r is Ok && list_objects_read(r->Ok_0, *root),
            },
    {
        let bucket_name = match find_child_text(root, "Name") {
            Some(t) => t,
            None => {
                return Err(Error::RequiredFieldMissing(Field::Name));
            },
        };
        let prefix = find_child_text(root, "Prefix");
        let delimiter = find_child_text(root, "Delimiter");
        let marker = find_child_text(root, "Marker");
        let next_marker = find_child_text(root, "NextMarker");
        let max_keys = match find_child_text(root, "MaxKeys") {
            None => {
                return Err(Error::RequiredFieldMissing(Field::MaxKeys));
            },
            Some(t) => match parse_u64(t.as_str()) {
                Some(v) => v,
                None => {
                    return Err(Error::FieldInvalid(Field::MaxKeys));
                },
            },
        };
        let truncated = match find_child_text(root, "IsTruncated") {
            None => {
                return Err(Error::RequiredFieldMissing(Field::IsTruncated));
            },
            Some(t) => match parse_bool(t.as_str()) {
                Some(v) => v,
                None => {
                    return Err(Error::FieldInvalid(Field::IsTruncated));
                },
            },
        };
        let keys = match collect_texts(&root.children, "Contents", "Key", Field::Key) {
            Ok(k) => k,
            Err(e) => {
                return Err(e);
            },
        };
        let mut object_summaries: Vec<ObjectSummary> = Vec::new();
        let mut i: usize = 0;
        while i < keys.len()
            invariant
                i <= keys@.len(),
                object_summaries@.len() == i,
                forall|j: int| 0 <= j < i ==> (#[trigger] object_summaries@[j]).key == keys@[j],
            decreases keys@.len() - i,
        {
            object_summaries.push(ObjectSummary { key: keys[i].clone() });
            i = i + 1;
        }
        assert(object_summaries@.map_values(|o: ObjectSummary| o.key) =~= keys@);
        Ok(
            ListObjectsResponse {
                bucket_name,
                prefix,
                common_prefixes: Vec::new(),
                delimiter,
                marker,
                next_marker,
                max_keys,
                truncated,
                object_summaries,
            },
        )
    }

    /// The listing in a response's body.
    pub fn from_raw(resp: &Response) -> (r: Result<ListObjectsResponse, Error>)
        ensures
            match document_of(resp.body@) {
                Err(e) => r == Err::<ListObjectsResponse, Error>(e),
                Ok(root) => match list_objects_failure(root) {
                    Some(e) => r == Err::<ListObjectsResponse, Error>(e),
                    None => r is Ok && list_objects_read(r->Ok_0, root),
                },
            },
    {
        match resp.xml_body() {
            Ok(root) => ListObjectsResponse::from_document(&root),
            Err(e) => Err(e),
        }
    }
}

/// `r` is what a ListObjects response with this body reads as.
pub open spec fn list_objects_read_body(body: Seq<u8>, r: Result<ListObjectsResponse, Error>) -> bool {
    match document_of(body) {
        Err(e) => r == Err::<ListObjectsResponse, Error>(e),
        Ok(root) => match list_objects_failure(root) {
            Some(e) => r == Err::<ListObjectsResponse, Error>(e),
            None => r is Ok && list_objects_read(r->Ok_0, root),
        },
    }
}

impl FromResponse for ListObjectsResponse {
    open spec fn read_from(body: Seq<u8>, r: Result<ListObjectsResponse, Error>) -> bool {
        list_objects_read_body(body, r)
    }

    fn from_response(resp: &Response) -> (r: Result<ListObjectsResponse, Error>)
        ensures
            list_objects_read_body(resp.body@, r),
    {
        ListObjectsResponse::from_raw(resp)
    }
}

impl GetObjectResponse {
    /// The object's content: the body, byte for byte.
    pub fn from_raw(resp: &Response) -> (r: GetObjectResponse)
        ensures
            r.content@ == resp.body@,
    {
        GetObjectResponse { content: resp.body.clone() }
    }
}

impl FromResponse for GetObjectResponse {
    open spec fn read_from(body: Seq<u8>, r: Result<GetObjectResponse, Error>) -> bool {
        r is Ok && r->Ok_0.content@ == body
    }

    fn from_response(resp: &Response) -> (r: Result<GetObjectResponse, Error>)
        ensures
            r is Ok && r->Ok_0.content@ == resp.body@,
    {
        Ok(GetObjectResponse::from_raw(resp))
    }
}

/// The service's host.
pub const S3_HOST: &'static str = "s3.amazonaws.com";

/// The region that requests are signed for.
pub const S3_REGION: &'static str = "us-east-1";

/// A GET of the service's host with an empty body, signed for the region.
pub open spec fn is_plain_get(d: RequestDescriptor) -> bool {
    &&& d.method == Method::Get
    &&& d.host@ == S3_HOST@
    &&& d.body@.len() == 0
    &&& d.region@ == S3_REGION@
}

/// The query pairs' texts.
pub open spec fn pairs_view(q: Seq<(String, String)>) -> Seq<(Seq<char>, Seq<char>)> {
    q.map_values(|p: (String, String)| (p.0@, p.1@))
}

/// One pair where the value is present, none where it is absent.
pub open spec fn optional_pair(name: Seq<char>, value: Option<Seq<char>>) -> Seq<
    (Seq<char>, Seq<char>),
> {
    match value {
        Some(v) => seq![(name, v)],
        None => Seq::empty(),
    }
}

pub open spec fn opt_view(v: Option<&str>) -> Option<Seq<char>> {
    match v {
        Some(s) => Some(s@),
        None => None,
    }
}

pub open spec fn opt_decimal(v: Option<u64>) -> Option<Seq<char>> {
    match v {
        Some(n) => Some(decimal_text(n as nat)),
        None => None,
    }
}

pub open spec fn is_list_buckets_descriptor(d: RequestDescriptor) -> bool {
    &&& is_plain_get(d)
    &&& d.path@ == "/"@
    &&& d.query@.len() == 0
}

pub open spec fn is_list_objects_descriptor(
    d: RequestDescriptor,
    bucket: Seq<char>,
    prefix: Option<Seq<char>>,
    marker: Option<Seq<char>>,
    delimiter: Option<Seq<char>>,
    max_keys: Option<u64>,
) -> bool {
    &&& is_plain_get(d)
    &&& d.path@ == "/"@ + bucket
    &&& pairs_view(d.query@) == optional_pair("delimiter"@, delimiter) + optional_pair(
        "marker"@,
        marker,
    ) + optional_pair("max-keys"@, opt_decimal(max_keys)) + optional_pair("prefix"@, prefix)
}

pub open spec fn is_get_object_descriptor(d: RequestDescriptor, bucket: Seq<char>, key: Seq<char>) -> bool {
    &&& is_plain_get(d)
    &&& d.path@ == "/"@ + bucket + "/"@ + key
    &&& d.query@.len() == 0
}

fn plain_get(path: String, query: Vec<(String, String)>) -> (r: RequestDescriptor)
    ensures
        is_plain_get(r),
        r.path == path,
        r.query == query,
{
    RequestDescriptor {
        method: Method::Get,
        host: S3_HOST.to_owned(),
        path,
        query,
        body: Vec::new(),
        region: S3_REGION.to_owned(),
    }
}

/// The ListBuckets request: the service root.
pub fn list_buckets_descriptor() -> (r: RequestDescriptor)
    ensures
        is_list_buckets_descriptor(r),
{
    plain_get("/".to_owned(), Vec::new())
}

fn push_optional(q: &mut Vec<(String, String)>, name: &str, value: Option<String>)
    ensures
        pairs_view(final(q)@) == pairs_view(old(q)@) + optional_pair(
            name@,
            match value {
                Some(v) => Some(v@),
                None => None,
            },
        ),
{
    match value {
        Some(v) => {
            q.push((name.to_owned(), v));
        },
        None => {},
    }
    assert(pairs_view(q@) =~= pairs_view(old(q)@) + optional_pair(
        name@,
        match value {
            Some(v) => Some(v@),
            None => None,
        },
    ));
}

fn owned(v: Option<&str>) -> (r: Option<String>)
    ensures
        match r {
            Some(s) => v is Some && s@ == v->0@,
            None => v is None,
        },
{
    match v {
        Some(s) => Some(s.to_owned()),
        None => None,
    }
}

/// The ListObjects request: the bucket's path, with a query pair for each
/// filter that is present.
pub fn list_objects_descriptor(
    bucket_name: &str,
    prefix: Option<&str>,
    marker: Option<&str>,
    delimiter: Option<&str>,
    max_keys: Option<u64>,
) -> (r: RequestDescriptor)
    ensures
        is_list_objects_descriptor(
            r,
            bucket_name@,
            opt_view(prefix),
            opt_view(marker),
            opt_view(delimiter),
            max_keys,
        ),
{
    let mut query: Vec<(String, String)> = Vec::new();
    assert(pairs_view(query@) =~= Seq::empty());
    push_optional(&mut query, "delimiter", owned(delimiter));
    push_optional(&mut query, "marker", owned(marker));
    let mk = match max_keys {
        Some(n) => Some(decimal(n)),
        None => None,
    };
    push_optional(&mut query, "max-keys", mk);
    push_optional(&mut query, "prefix", owned(prefix));
    let mut path = "/".to_owned();
    path.append(bucket_name);
    let d = plain_get(path, query);
    assert(pairs_view(d.query@) =~= optional_pair("delimiter"@, opt_view(delimiter))
        + optional_pair("marker"@, opt_view(marker)) + optional_pair(
        "max-keys"@,
        opt_decimal(max_keys),
    ) + optional_pair("prefix"@, opt_view(prefix)));
    d
}

/// The GetObject request: the path `/bucket/key`.
pub fn get_object_descriptor(bucket_name: &str, key: &str) -> (r: RequestDescriptor)
    ensures
        is_get_object_descriptor(r, bucket_name@, key@),
{
    let mut path = "/".to_owned();
    path.append(bucket_name);
    path.append("/");
    path.append(key);
    plain_get(path, Vec::new())
}

/// A client of the service. An operation fetches credentials anew and
/// returns the signed request; the caller's transport sends it, `receive`
/// turns its reply into a `Response`, and the result type reads that.
pub struct S3Connection<C> {
    pub credentials_provider: C,
}

/// The descriptor signed with the credentials, or the error that came
/// instead of them, unchanged.
pub fn sign_request(creds: Result<Credentials, Error>, d: &RequestDescriptor, now: &Timestamp) -> (r:
    Result<Request, Error>)
    ensures
        match creds {
            Ok(c) => r is Ok && is_signed(r->Ok_0, *d, c, *now),
            Err(e) => r == Err::<Request, Error>(e),
        },
{
    match creds {
        Ok(c) => Ok(sign(d, &c, now)),
        Err(e) => Err(e),
    }
}

/// `r` is the descriptor signed with credentials that the provider gives,
/// or an error that the provider gives.
pub open spec fn signed_by<C: CredentialsProvider>(
    p: C,
    d: RequestDescriptor,
    now: Timestamp,
    r: Result<Request, Error>,
) -> bool {
    match r {
        Ok(req) => exists|c: Credentials| p.provides(Ok(c)) && #[trigger] is_signed(req, d, c, now),
        Err(e) => p.provides(Err(e)),
    }
}

impl<C: CredentialsProvider> S3Connection<C> {
    fn signed(&mut self, d: &RequestDescriptor, now: &Timestamp) -> (r: Result<Request, Error>)
        ensures
            signed_by(old(self).credentials_provider, *d, *now, r),
    {
        let creds = self.credentials_provider.get_credentials();
        let r = sign_request(creds, d, now);
        proof {
            if r is Ok {
                assert(is_signed(r->Ok_0, *d, creds->Ok_0, *now));
            }
        }
        r
    }

    pub fn new(credentials_provider: C) -> (r: S3Connection<C>)
        ensures
            r.credentials_provider == credentials_provider,
    {
        S3Connection { credentials_provider }
    }

    /// The signed ListBuckets request, or the provider's error.
    pub fn list_buckets(&mut self, now: &Timestamp) -> (r: Result<Request, Error>)
        ensures
            exists|d: RequestDescriptor|
                is_list_buckets_descriptor(d) && #[trigger] signed_by(
                    old(self).credentials_provider,
                    d,
                    *now,
                    r,
                ),
    {
        let d = list_buckets_descriptor();
        self.signed(&d, now)
    }

    /// The signed ListObjects request for the bucket and the filters that
    /// are present, or the provider's error.
    pub fn list_objects(
        &mut self,
        bucket_name: &str,
        prefix: Option<&str>,
        marker: Option<&str>,
        delimiter: Option<&str>,
        max_keys: Option<u64>,
        now: &Timestamp,
    ) -> (r: Result<Request, Error>)
        ensures
            exists|d: RequestDescriptor|
                is_list_objects_descriptor(
                    d,
                    bucket_name@,
                    opt_view(prefix),
                    opt_view(marker),
                    opt_view(delimiter),
                    max_keys,
                ) && #[trigger] signed_by(old(self).credentials_provider, d, *now, r),
    {
        let d = list_objects_descriptor(bucket_name, prefix, marker, delimiter, max_keys);
        self.signed(&d, now)
    }

    /// The signed GetObject request for the bucket and key, or the
    /// provider's error.
    pub fn get_object(&mut self, bucket_name: &str, key: &str, now: &Timestamp) -> (r: Result<
        Request,
        Error,
    >)
        ensures
            exists|d: RequestDescriptor|
                is_get_object_descriptor(d, bucket_name@, key@) && #[trigger] signed_by(
                    old(self).credentials_provider,
                    d,
                    *now,
                    r,
                ),
    {
        let d = get_object_descriptor(bucket_name, key);
        self.signed(&d, now)
    }
}

impl ListBucketsResponse {
    /// The transport's reply read as a ListBuckets result; the first failure
    /// aborts.
    pub fn from_reply(reply: Result<http::Response, String>) -> (r: Result<ListBucketsResponse, Error>)
        ensures
            match reply_error(reply) {
                Some(e) => r == Err::<ListBucketsResponse, Error>(e),
                None => list_buckets_read(body_of(reply->Ok_0), r),
            },
    {
        match receive(reply) {
            Ok(resp) => ListBucketsResponse::from_raw(&resp),
            Err(e) => Err(e),
        }
    }
}

impl ListObjectsResponse {
    /// The transport's reply read as a ListObjects result; the first failure
    /// aborts.
    pub fn from_reply(reply: Result<http::Response, String>) -> (r: Result<ListObjectsResponse, Error>)
        ensures
            match reply_error(reply) {
                Some(e) => r == Err::<ListObjectsResponse, Error>(e),
                None => list_objects_read_body(body_of(reply->Ok_0), r),
            },
    {
        match receive(reply) {
            Ok(resp) => ListObjectsResponse::from_raw(&resp),
            Err(e) => Err(e),
        }
    }
}

impl GetObjectResponse {
    /// The transport's reply read as a GetObject result: the body of a reply
    /// with status 200, byte for byte.
    pub fn from_reply(reply: Result<http::Response, String>) -> (r: Result<GetObjectResponse, Error>)
        ensures
            match reply_error(reply) {
                Some(e) => r == Err::<GetObjectResponse, Error>(e),
                None => r is Ok && r->Ok_0.content@ == body_of(reply->Ok_0),
            },
    {
        match receive(reply) {
            Ok(resp) => Ok(GetObjectResponse::from_raw(&resp)),
            Err(e) => Err(e),
        }
    }
}

} // verus!
