//! TLS configuration for the client.

use vstd::prelude::*;
use vstd::slice::slice_to_vec;
use crate::error::NatsError;

verus! {

/// Calls `native_tls::Identity::from_pkcs12` and keeps whether the archive
/// was accepted; a refusal is given in words. What is accepted depends on
/// the TLS library of the machine, so nothing is said of the answer.
#[verifier::external_body]
fn check_pkcs12(der: &[u8], password: &str) -> Result<(), String> {
    native_tls::Identity::from_pkcs12(der, password).map(|_| ()).map_err(|e| e.to_string())
}

/// Calls `native_tls::Certificate::from_der` and keeps whether the
/// certificate was accepted; a refusal is given in words. What is accepted
/// depends on the TLS library of the machine, so nothing is said of the
/// answer.
#[verifier::external_body]
fn check_certificate(der: &[u8]) -> Result<(), String> {
    native_tls::Certificate::from_der(der).map(|_| ()).map_err(|e| e.to_string())
}

/// TLS configuration for the client. It holds a password, and so has no
/// `Debug`: what may be shown of it is whether an identity and a root
/// certificate are set.
#[derive(Clone)]
pub struct NatsClientTlsConfig {
    identity: Option<(Vec<u8>, String)>,
    root_cert: Option<Vec<u8>>,
}

impl NatsClientTlsConfig {
    /// The identity that was set: the bytes of the archive and the
    /// password.
    pub closed spec fn identity(&self) -> Option<(Seq<u8>, Seq<char>)> {
        match self.identity {
            Some(id) => Some((id.0@, id.1@)),
            None => None,
        }
    }

    /// The root certificate that was set.
    pub closed spec fn root_cert(&self) -> Option<Seq<u8>> {
        match self.root_cert {
            Some(c) => Some(c@),
            None => None,
        }
    }

    /// A configuration without identity and without root certificate.
    pub fn new() -> (r: Self)
        ensures
            r.identity() is None,
            r.root_cert() is None,
    {
        NatsClientTlsConfig { identity: None, root_cert: None }
    }

    /// Sets the identity, given what the TLS library said of the archive:
    /// an archive that it refused is an error, and its words are the
    /// error's.
    pub fn with_identity(
        self,
        der_bytes: &[u8],
        password: &str,
        checked: Result<(), String>,
    ) -> (r: Result<Self, NatsError>)
        ensures
            match checked {
                Ok(_) => r matches Ok(c) && c.identity() == Some((der_bytes@, password@))
                    && c.root_cert() == self.root_cert(),
                Err(words) => r == Err::<Self, NatsError>(NatsError::TlsError(words)),
            },
    {
        match checked {
            Ok(_) => {
                let mut config = self;
                config.identity = Some((slice_to_vec(der_bytes), password.to_owned()));
                Ok(config)
            },
            Err(words) => Err(NatsError::TlsError(words)),
        }
    }

    /// Sets the root certificate, given what the TLS library said of it: a
    /// certificate that it refused is an error, and its words are the
    /// error's.
    pub fn with_root_cert(self, der_bytes: &[u8], checked: Result<(), String>) -> (r: Result<
        Self,
        NatsError,
    >)
        ensures
            match checked {
                Ok(_) => r matches Ok(c) && c.root_cert() == Some(der_bytes@) && c.identity()
                    == self.identity(),
                Err(words) => r == Err::<Self, NatsError>(NatsError::TlsError(words)),
            },
    {
        match checked {
            Ok(_) => {
                let mut config = self;
                config.root_cert = Some(slice_to_vec(der_bytes));
                Ok(config)
            },
            Err(words) => Err(NatsError::TlsError(words)),
        }
    }

    /// Set the identity from a DER-formatted PKCS #12 archive using the the given password to
    /// decrypt the key. The archive is handed to the TLS library, and only
    /// an archive that it accepts is kept.
    pub fn pkcs12_identity(self, der_bytes: &[u8], password: &str) -> (r: Result<Self, NatsError>)
        ensures
            match r {
                Ok(c) => c.identity() == Some((der_bytes@, password@)) && c.root_cert()
                    == self.root_cert(),
                Err(e) => e is TlsError,
            },
    {
        let checked = check_pkcs12(der_bytes, password);
        self.with_identity(der_bytes, password, checked)
    }

    /// Set the root certificate in DER-format. The certificate is handed to
    /// the TLS library, and only a certificate that it accepts is kept.
    pub fn root_cert_der(self, der_bytes: &[u8]) -> (r: Result<Self, NatsError>)
        ensures
            match r {
                Ok(c) => c.root_cert() == Some(der_bytes@) && c.identity() == self.identity(),
                Err(e) => e is TlsError,
            },
    {
        let checked = check_certificate(der_bytes);
        self.with_root_cert(der_bytes, checked)
    }

    /// Whether an identity is set.
    pub fn identity_exists(&self) -> (r: bool)
        ensures
            r == (self.identity() is Some),
    {
        self.identity.is_some()
    }

    /// Whether a root certificate is set.
    pub fn root_cert_exists(&self) -> (r: bool)
        ensures
            r == (self.root_cert() is Some),
    {
        self.root_cert.is_some()
    }

    /// The bytes of the archive and the password, if an identity was set.
    pub fn identity_parts(&self) -> (r: Option<(&[u8], &str)>)
        ensures
            match r {
                Some(parts) => self.identity() == Some((parts.0@, parts.1@)),
                None => self.identity() is None,
            },
    {
        match &self.identity {
            Some(id) => Some((id.0.as_slice(), id.1.as_str())),
            None => None,
        }
    }

    /// The bytes of the root certificate, if one was set.
    pub fn root_cert_bytes(&self) -> (r: Option<&[u8]>)
        ensures
            match r {
                Some(bytes) => self.root_cert() == Some(bytes@),
                None => self.root_cert() is None,
            },
    {
        match &self.root_cert {
            Some(c) => Some(c.as_slice()),
            None => None,
        }
    }
}

impl Default for NatsClientTlsConfig {
    fn default() -> (r: Self)
        ensures
            r.identity() is None,
            r.root_cert() is None,
    {
        NatsClientTlsConfig::new()
    }
}

} // verus!
