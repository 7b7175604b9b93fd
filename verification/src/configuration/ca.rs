use vstd::prelude::*;
use vstd::string::StringExecFns;
use crate::configuration::network::clone_opt;

verus! {

// ---------------------------------------------------------------------------
// Declared openssl types and the names their values carry.
// ---------------------------------------------------------------------------

#[verifier::external_type_specification]
#[verifier::external_body]
pub struct ExX509(openssl::x509::X509);

#[verifier::external_type_specification]
#[verifier::external_body]
#[verifier::reject_recursive_types(T)]
pub struct ExPKey<T>(openssl::pkey::PKey<T>);

#[verifier::external_type_specification]
#[verifier::external_body]
pub struct ExPublic(openssl::pkey::Public);

#[verifier::external_type_specification]
#[verifier::external_body]
pub struct ExPrivate(openssl::pkey::Private);

/// The PEM text a parsed certificate came from.
pub uninterp spec fn x509_model(c: openssl::x509::X509) -> Seq<char>;

/// The PEM text a parsed private key came from.
pub uninterp spec fn pkey_model(k: openssl::pkey::PKey<openssl::pkey::Private>) -> Seq<char>;

/// The certificate PEM a public key was extracted from.
pub uninterp spec fn pubkey_model(k: openssl::pkey::PKey<openssl::pkey::Public>) -> Seq<char>;

/// Whether openssl parses this text as a PEM certificate.
pub uninterp spec fn x509_pem_ok(pem: Seq<char>) -> bool;

/// Whether openssl parses this text as a PEM private key.
pub uninterp spec fn pkey_pem_ok(pem: Seq<char>) -> bool;

/// Whether openssl can extract the public key of this certificate.
pub uninterp spec fn x509_pubkey_ok(cert_pem: Seq<char>) -> bool;

/// Whether the private key of one PEM matches the public key of the other:
/// what openssl's public-key comparison answers for them.
pub uninterp spec fn spec_key_matches(key_pem: Seq<char>, cert_pem: Seq<char>) -> bool;

/// Relies on openssl::x509::X509::from_pem: whether a text parses is a
/// function of the text alone.
#[verifier::external_body]
fn parse_x509_pem(pem: &str) -> (r: Option<openssl::x509::X509>)
    ensures
        r is Some <==> x509_pem_ok(pem@),
        r matches Some(c) ==> x509_model(c) == pem@,
{
    openssl::x509::X509::from_pem(pem.as_bytes()).ok()
}

/// Relies on openssl::pkey::PKey::private_key_from_pem: whether a text
/// parses is a function of the text alone.
#[verifier::external_body]
fn parse_pkey_pem(pem: &str) -> (r: Option<openssl::pkey::PKey<openssl::pkey::Private>>)
    ensures
        r is Some <==> pkey_pem_ok(pem@),
        r matches Some(k) ==> pkey_model(k) == pem@,
{
    openssl::pkey::PKey::private_key_from_pem(pem.as_bytes()).ok()
}

/// Relies on openssl::x509::X509Ref::public_key: success and the key depend
/// on the certificate alone.
#[verifier::external_body]
fn cert_public_key(c: &openssl::x509::X509) -> (r: Option<
    openssl::pkey::PKey<openssl::pkey::Public>,
>)
    ensures
        r is Some <==> x509_pubkey_ok(x509_model(*c)),
        r matches Some(k) ==> pubkey_model(k) == x509_model(*c),
{
    c.public_key().ok()
}

/// Relies on openssl::pkey::PKeyRef::public_eq: whether the public halves
/// agree is a function of the two keys alone.
#[verifier::external_body]
fn keys_public_eq(
    private_key: &openssl::pkey::PKey<openssl::pkey::Private>,
    public_key: &openssl::pkey::PKey<openssl::pkey::Public>,
) -> (r: bool)
    ensures
        r == spec_key_matches(pkey_model(*private_key), pubkey_model(*public_key)),
{
    private_key.public_eq(public_key)
}

// ---------------------------------------------------------------------------
// The CA section of the configuration.
// ---------------------------------------------------------------------------

/// Where the CA material lives: inline PEM text, or a file path.
#[derive(Debug, Clone, PartialEq, Eq)]
pub struct Ca {
    /// The CA certificate, PEM, inline.
    pub ca_certificate: Option<String>,
    /// The CA private key, PEM, inline.
    pub ca_private_key: Option<String>,
    /// Path of a file holding the CA certificate.
    pub ca_certificate_path: Option<String>,
    /// Path of a file holding the CA private key.
    pub ca_private_key_path: Option<String>,
}

/// What can be wrong with the CA material.
#[derive(Debug, Clone)]
pub enum CaError {
    CaCertificateNotFound(String),
    CaPrivateKeyNotFound(String),
    CaPrivateKeyError(String),
    PrivateKeyMismatch,
}

/// Where one PEM value comes from.
#[derive(Debug, Clone, PartialEq, Eq)]
pub enum PemSource {
    /// Read the file at this path.
    Path(String),
    /// Use this inline text.
    Inline(String),
    /// Nothing is configured.
    Missing,
}

/// What storing a new PEM value asks of the caller.
#[derive(Debug, Clone, PartialEq, Eq)]
pub enum StoreOutcome {
    /// A path is configured: write the text to the file at this path.
    WriteFile(String),
    /// The text was stored inline.
    StoredInline,
}

impl Ca {
    /// Where the certificate comes from: a configured path wins over inline
    /// text.
    pub fn certificate_source(&self) -> (r: PemSource)
        ensures
            self.ca_certificate_path matches Some(p) ==> r == PemSource::Path(p),
            self.ca_certificate_path is None ==> (self.ca_certificate matches Some(s) ==> r
                == PemSource::Inline(s)),
            self.ca_certificate_path is None && self.ca_certificate is None ==> r
                == PemSource::Missing,
    {
        match &self.ca_certificate_path {
            Some(p) => PemSource::Path(p.clone()),
            None => match &self.ca_certificate {
                Some(s) => PemSource::Inline(s.clone()),
                None => PemSource::Missing,
            },
        }
    }

    /// Where the private key comes from: a configured path wins over inline
    /// text.
    pub fn private_key_source(&self) -> (r: PemSource)
        ensures
            self.ca_private_key_path matches Some(p) ==> r == PemSource::Path(p),
            self.ca_private_key_path is None ==> (self.ca_private_key matches Some(s) ==> r
                == PemSource::Inline(s)),
            self.ca_private_key_path is None && self.ca_private_key is None ==> r
                == PemSource::Missing,
    {
        match &self.ca_private_key_path {
            Some(p) => PemSource::Path(p.clone()),
            None => match &self.ca_private_key {
                Some(s) => PemSource::Inline(s.clone()),
                None => PemSource::Missing,
            },
        }
    }

    /// Stores a new certificate: into the configured file when a path is
    /// set, the caller performing the write, else inline.
    pub fn set_ca_certificate(&mut self, pem: &str) -> (r: StoreOutcome)
        ensures
            old(self).ca_certificate_path matches Some(p) ==> r == StoreOutcome::WriteFile(p)
                && *final(self) == *old(self),
            old(self).ca_certificate_path is None ==> r == StoreOutcome::StoredInline && (final(self).ca_certificate matches Some(s) && s@ == pem@) && final(self).ca_private_key == old(self).ca_private_key && final(self).ca_certificate_path == old(self).ca_certificate_path
                && final(self).ca_private_key_path == old(self).ca_private_key_path,
    {
        match &self.ca_certificate_path {
            Some(p) => StoreOutcome::WriteFile(p.clone()),
            None => {
                self.ca_certificate = Some(pem.to_owned());
                StoreOutcome::StoredInline
            },
        }
    }

    /// Stores a new private key: into the configured file when a path is
    /// set, the caller performing the write, else inline.
    pub fn set_ca_private_key(&mut self, pem: &str) -> (r: StoreOutcome)
        ensures
            old(self).ca_private_key_path matches Some(p) ==> r == StoreOutcome::WriteFile(p)
                && *final(self) == *old(self),
            old(self).ca_private_key_path is None ==> r == StoreOutcome::StoredInline && (final(self).ca_private_key matches Some(s) && s@ == pem@) && final(self).ca_certificate == old(self).ca_certificate && final(self).ca_certificate_path == old(self).ca_certificate_path
                && final(self).ca_private_key_path == old(self).ca_private_key_path,
    {
        match &self.ca_private_key_path {
            Some(p) => StoreOutcome::WriteFile(p.clone()),
            None => {
                self.ca_private_key = Some(pem.to_owned());
                StoreOutcome::StoredInline
            },
        }
    }

    /// A field-identical copy.
    pub fn duplicate(&self) -> (r: Ca)
        ensures
            r == *self,
    {
        Ca {
            ca_certificate: clone_opt(&self.ca_certificate),
            ca_private_key: clone_opt(&self.ca_private_key),
            ca_certificate_path: clone_opt(&self.ca_certificate_path),
            ca_private_key_path: clone_opt(&self.ca_private_key_path),
        }
    }
}

/// Validates CA material already read into memory: the certificate must
/// parse, the key must parse, the certificate's public key must be
/// extractable, and the key pair must match. The first failure names the
/// error.
pub fn validate_ca_pems(cert_pem: &str, key_pem: &str) -> (r: Result<
    (),
    super::ConfigurationError,
>)
    ensures
        !x509_pem_ok(cert_pem@) <==> (r matches Err(e) && e matches
            super::ConfigurationError::CaError(CaError::CaCertificateNotFound(_))),
        x509_pem_ok(cert_pem@) && !pkey_pem_ok(key_pem@) <==> (r matches Err(e) && e matches
            super::ConfigurationError::CaError(CaError::CaPrivateKeyNotFound(_))),
        x509_pem_ok(cert_pem@) && pkey_pem_ok(key_pem@) && !x509_pubkey_ok(cert_pem@) <==> (
        r matches Err(e) && e matches super::ConfigurationError::CaError(
            CaError::CaPrivateKeyError(_),
        )),
        x509_pem_ok(cert_pem@) && pkey_pem_ok(key_pem@) && x509_pubkey_ok(cert_pem@)
            && !spec_key_matches(key_pem@, cert_pem@) <==> (r matches Err(e) && e matches
            super::ConfigurationError::CaError(CaError::PrivateKeyMismatch)),
        r is Ok <==> x509_pem_ok(cert_pem@) && pkey_pem_ok(key_pem@) && x509_pubkey_ok(cert_pem@)
            && spec_key_matches(key_pem@, cert_pem@),
{
    let cert = match parse_x509_pem(cert_pem) {
        Some(c) => c,
        None => {
            return Err(
                super::ConfigurationError::CaError(
                    CaError::CaCertificateNotFound(
                        String::from_str("Failed to read CA certificate"),
                    ),
                ),
            );
        },
    };
    let key = match parse_pkey_pem(key_pem) {
        Some(k) => k,
        None => {
            return Err(
                super::ConfigurationError::CaError(
                    CaError::CaPrivateKeyNotFound(
                        String::from_str("Failed to read CA private key"),
                    ),
                ),
            );
        },
    };
    let public_key = match cert_public_key(&cert) {
        Some(k) => k,
        None => {
            return Err(
                super::ConfigurationError::CaError(
                    CaError::CaPrivateKeyError(
                        String::from_str("Failed to extract the certificate's public key"),
                    ),
                ),
            );
        },
    };
    if keys_public_eq(&key, &public_key) {
        Ok(())
    } else {
        Err(super::ConfigurationError::CaError(CaError::PrivateKeyMismatch))
    }
}

} // verus!
