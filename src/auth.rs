//! Credentials and the capability that supplies them.
use vstd::prelude::*;
use crate::error::Error;

verus! {

/// An access key id and its secret.
pub enum Credentials {
    BasicCredentials(String, String),
}

impl Credentials {
    pub open spec fn key_id(&self) -> Seq<char> {
        self->BasicCredentials_0@
    }

    pub open spec fn secret(&self) -> Seq<char> {
        self->BasicCredentials_1@
    }

    /// The access key id.
    pub fn aws_access_key_id(&self) -> (r: &str)
        ensures
            r@ == self.key_id(),
    {
        match self {
            Credentials::BasicCredentials(key, _) => key.as_str(),
        }
    }

    /// The secret access key.
    pub fn aws_secret_access_key(&self) -> (r: &str)
        ensures
            r@ == self.secret(),
    {
        match self {
            Credentials::BasicCredentials(_, secret) => secret.as_str(),
        }
    }
}

/// A source of credentials: fixed values, a profile, a role, ...
pub trait CredentialsProvider {
    /// `r` is an outcome this provider may give.
    spec fn provides(&self, r: Result<Credentials, Error>) -> bool;

    fn get_credentials(&mut self) -> (r: Result<Credentials, Error>)
        ensures
            old(self).provides(r),
    ;
}

/// Credentials from the two values `AWS_ACCESS_KEY_ID` and
/// `AWS_SECRET_ACCESS_KEY`, as looked up by the caller.
pub struct DefaultCredentialsProvider {
    pub access_key_id: Option<String>,
    pub secret_access_key: Option<String>,
}

impl DefaultCredentialsProvider {
    pub fn new(access_key_id: Option<String>, secret_access_key: Option<String>) -> (r: Self)
        ensures
            r.access_key_id == access_key_id,
            r.secret_access_key == secret_access_key,
    {
        DefaultCredentialsProvider { access_key_id, secret_access_key }
    }

    /// Both values as credentials; an error where either is absent.
    pub fn resolve(&self) -> (r: Result<Credentials, Error>)
        ensures
            match (self.access_key_id, self.secret_access_key) {
                (Some(k), Some(s)) => r == Ok::<Credentials, Error>(
                    Credentials::BasicCredentials(k, s),
                ),
                _ => r is Err && r->Err_0 is Credentials,
            },
    {
        match (&self.access_key_id, &self.secret_access_key) {
            (Some(k), Some(s)) => Ok(Credentials::BasicCredentials(k.clone(), s.clone())),
            _ => Err(Error::Credentials("Could not find AWS credentials".to_owned())),
        }
    }
}

/// The outcome of `resolve` on these values.
pub open spec fn default_provides(p: DefaultCredentialsProvider, r: Result<Credentials, Error>) -> bool {
    match (p.access_key_id, p.secret_access_key) {
        (Some(k), Some(s)) => r == Ok::<Credentials, Error>(Credentials::BasicCredentials(k, s)),
        _ => r is Err && r->Err_0 is Credentials,
    }
}

impl CredentialsProvider for DefaultCredentialsProvider {
    open spec fn provides(&self, r: Result<Credentials, Error>) -> bool {
        default_provides(*self, r)
    }

    fn get_credentials(&mut self) -> (r: Result<Credentials, Error>)
        ensures
            *final(self) == *old(self),
            match (old(self).access_key_id, old(self).secret_access_key) {
                (Some(k), Some(s)) => r == Ok::<Credentials, Error>(
                    Credentials::BasicCredentials(k, s),
                ),
                _ => r is Err && r->Err_0 is Credentials,
            },
    {
        self.resolve()
    }
}

} // verus!
