//! Loading the controller's certificate chain and private key, PEM or DER.
use vstd::prelude::*;
use rustls::pki_types::PrivateKeyDer;

verus! {

/// How a credential file is encoded.
#[derive(Debug, Clone, Copy, PartialEq, Eq, Structural)]
pub enum Encoding {
    /// Binary: the file is one DER object.
    Der,
    /// Text: the file holds PEM blocks.
    Pem,
}

/// The form of a DER private key.
#[derive(Debug, Clone, Copy, PartialEq, Eq, Structural)]
pub enum KeyFormat {
    Pkcs1,
    Sec1,
    Pkcs8,
}

/// An unencrypted private key: its form and its DER bytes.
#[derive(Debug)]
pub struct PrivateKey {
    pub format: KeyFormat,
    pub der: Vec<u8>,
}

pub struct PrivateKeyView {
    pub format: KeyFormat,
    pub der: Seq<u8>,
}

impl View for PrivateKey {
    type V = PrivateKeyView;

    open spec fn view(&self) -> PrivateKeyView {
        PrivateKeyView { format: self.format, der: self.der@ }
    }
}

/// A certificate chain, leaf first, in DER, and the leaf's private key.
#[derive(Debug)]
pub struct CredentialMaterial {
    pub chain: Vec<Vec<u8>>,
    pub key: PrivateKey,
}

/// Why credential material could not be loaded.
#[derive(Debug, Clone, Copy, PartialEq, Eq, Structural)]
pub enum IdentityError {
    /// A PEM key file could not be read as PEM.
    MalformedPrivateKey,
    /// A PEM key file holds no private key.
    NoPrivateKeyFound,
    /// A PEM certificate file holds a block that is no valid certificate.
    InvalidCertificateChain,
}

/// A file whose extension is exactly `der` (ASCII) is DER; any other is PEM.
pub open spec fn encoding_of_extension(ext: Seq<u8>) -> Encoding {
    if ext == seq![0x64u8, 0x65u8, 0x72u8] {
        Encoding::Der
    } else {
        Encoding::Pem
    }
}

/// The encoding of a credential file with extension `ext` (empty where the
/// file name has none).
pub fn file_encoding(ext: &[u8]) -> (r: Encoding)
    ensures
        r == encoding_of_extension(ext@),
{
    if ext.len() == 3 && ext[0] == 0x64 && ext[1] == 0x65 && ext[2] == 0x72 {
        assert(ext@ =~= seq![0x64u8, 0x65u8, 0x72u8]);
        Encoding::Der
    } else {
        Encoding::Pem
    }
}

/// The first private key among the PEM blocks of `pem`: `None` where the
/// blocks cannot be read, `Some(None)` where none is a private key.
pub uninterp spec fn pem_first_key(pem: Seq<u8>) -> Option<Option<PrivateKeyView>>;

/// The certificates among the PEM blocks of `pem`, in order: `None` where
/// the blocks cannot be read.
pub uninterp spec fn pem_certificates(pem: Seq<u8>) -> Option<Seq<Seq<u8>>>;

/// Relies on rustls_pemfile::private_key, which returns the first PKCS#1,
/// SEC1 or PKCS#8 key among the PEM blocks, and on PrivateKeyDer::secret_der
/// for its bytes.
#[verifier::external_body]
fn read_pem_key(pem: &[u8]) -> (r: Option<Option<PrivateKey>>)
    ensures
        match pem_first_key(pem@) {
            None => r is None,
            Some(None) => r == Some(None::<PrivateKey>),
            Some(Some(k)) => r matches Some(Some(x)) && x@ == k,
        },
{
    let mut rd = pem;
    let key = match rustls_pemfile::private_key(&mut rd) {
        Ok(Some(k)) => k,
        Ok(None) => return Some(None),
        Err(_) => return None,
    };
    let format = match &key {
        PrivateKeyDer::Pkcs1(_) => KeyFormat::Pkcs1,
        PrivateKeyDer::Sec1(_) => KeyFormat::Sec1,
        PrivateKeyDer::Pkcs8(_) => KeyFormat::Pkcs8,
        _ => return None,
    };
    Some(Some(PrivateKey { format, der: key.secret_der().to_vec() }))
}

/// Relies on rustls_pemfile::certs, which yields each certificate block's
/// DER bytes in order, or an error for a block it cannot read.
#[verifier::external_body]
fn read_pem_certificates(pem: &[u8]) -> (r: Option<Vec<Vec<u8>>>)
    ensures
        r.deep_view() == pem_certificates(pem@),
{
    let mut rd = pem;
    rustls_pemfile::certs(&mut rd).map(|c| c.map(|c| c.to_vec())).collect::<Result<_, _>>().ok()
}

/// What loading a private key from a file's bytes gives.
pub open spec fn key_load(encoding: Encoding, bytes: Seq<u8>) -> Result<PrivateKeyView, IdentityError> {
    match encoding {
        Encoding::Der => Ok(PrivateKeyView { format: KeyFormat::Pkcs8, der: bytes }),
        Encoding::Pem => match pem_first_key(bytes) {
            None => Err(IdentityError::MalformedPrivateKey),
            Some(None) => Err(IdentityError::NoPrivateKeyFound),
            Some(Some(k)) => Ok(k),
        },
    }
}

/// What loading a certificate chain from a file's bytes gives.
pub open spec fn chain_load(encoding: Encoding, bytes: Seq<u8>) -> Result<Seq<Seq<u8>>, IdentityError> {
    match encoding {
        Encoding::Der => Ok(seq![bytes]),
        Encoding::Pem => match pem_certificates(bytes) {
            None => Err(IdentityError::InvalidCertificateChain),
            Some(c) => Ok(c),
        },
    }
}

/// Loads a private key: a DER file is taken whole as a PKCS#8 key; a PEM
/// file gives its first private key.
pub fn load_private_key(encoding: Encoding, bytes: Vec<u8>) -> (r: Result<PrivateKey, IdentityError>)
    ensures
        match r {
            Ok(k) => key_load(encoding, bytes@) == Ok::<PrivateKeyView, IdentityError>(k@),
            Err(e) => key_load(encoding, bytes@) == Err::<PrivateKeyView, IdentityError>(e),
        },
{
    match encoding {
        Encoding::Der => Ok(PrivateKey { format: KeyFormat::Pkcs8, der: bytes }),
        Encoding::Pem => match read_pem_key(bytes.as_slice()) {
            None => Err(IdentityError::MalformedPrivateKey),
            Some(None) => Err(IdentityError::NoPrivateKeyFound),
            Some(Some(k)) => Ok(k),
        },
    }
}

/// Loads a certificate chain: a DER file is one certificate; a PEM file
/// gives each of its certificate blocks, in order.
pub fn load_certificate_chain(encoding: Encoding, bytes: Vec<u8>) -> (r: Result<
    Vec<Vec<u8>>,
    IdentityError,
>)
    ensures
        match r {
            Ok(c) => chain_load(encoding, bytes@) == Ok::<Seq<Seq<u8>>, IdentityError>(
                c.deep_view(),
            ),
            Err(e) => chain_load(encoding, bytes@) == Err::<Seq<Seq<u8>>, IdentityError>(e),
        },
{
    match encoding {
        Encoding::Der => {
            let ghost b = bytes@;
            assert(bytes.deep_view() =~= b);
            let mut chain: Vec<Vec<u8>> = Vec::new();
            chain.push(bytes);
            assert(chain.deep_view()[0] == b);
            assert(chain.deep_view() =~= seq![b]);
            Ok(chain)
        },
        Encoding::Pem => match read_pem_certificates(bytes.as_slice()) {
            None => Err(IdentityError::InvalidCertificateChain),
            Some(c) => Ok(c),
        },
    }
}

/// Loads the key, then the certificate chain; the first failure is returned.
pub fn load_credentials(
    key_encoding: Encoding,
    key_bytes: Vec<u8>,
    cert_encoding: Encoding,
    cert_bytes: Vec<u8>,
) -> (r: Result<CredentialMaterial, IdentityError>)
    ensures
        match r {
            Ok(m) => key_load(key_encoding, key_bytes@) == Ok::<PrivateKeyView, IdentityError>(
                m.key@,
            ) && chain_load(cert_encoding, cert_bytes@) == Ok::<Seq<Seq<u8>>, IdentityError>(
                m.chain.deep_view(),
            ),
            Err(e) => match key_load(key_encoding, key_bytes@) {
                Err(k) => e == k,
                Ok(_) => chain_load(cert_encoding, cert_bytes@) == Err::<
                    Seq<Seq<u8>>,
                    IdentityError,
                >(e),
            },
        },
{
    let key = match load_private_key(key_encoding, key_bytes) {
        Ok(k) => k,
        Err(e) => return Err(e),
    };
    let chain = match load_certificate_chain(cert_encoding, cert_bytes) {
        Ok(c) => c,
        Err(e) => return Err(e),
    };
    Ok(CredentialMaterial { chain, key })
}

} // verus!
