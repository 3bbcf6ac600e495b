//! TLS configuration: certificates, keys and roots, where they come from and
//! which of them is used.
//!
//! Files are read by the application, which hands over what it read or why it
//! could not. Certificates and keys are handled as DER bytes.

use crate::base16::{encode, hex_text};
use crate::text::texts;
use rcgen::Error as RcgenFailure;
use rustls::crypto::CryptoProvider;
use rustls::pki_types::pem::Error as PemFailure;
use rustls::pki_types::pem::PemObject;
use rustls::pki_types::{CertificateDer, PrivateKeyDer, ServerName};
use rustls::server::ServerConfig as TlsServerConfig;
use rustls::version::{TLS12, TLS13};
use rustls::Error as RustlsFailure;
use rustls::{ClientConfig, RootCertStore};
use std::io::Error as IoFailure;
use std::path::PathBuf;
use std::sync::Arc;
use vstd::prelude::*;

verus! {

// Outside types

/// `std::path::PathBuf`, where a file is.
#[verifier::external_type_specification]
#[verifier::external_body]
pub struct ExPathBuf(std::path::PathBuf);

/// `PathBuf::clone`: the same path.
pub assume_specification[ <PathBuf as Clone>::clone ](path: &PathBuf) -> (r: PathBuf)
    ensures
        r == *path,
;

/// `std::io::Error`, why a file could not be read.
#[verifier::external_type_specification]
#[verifier::external_body]
pub struct ExIoFailure(IoFailure);

/// `rustls::pki_types::pem::Error`, why a file is not PEM.
#[verifier::external_type_specification]
#[verifier::external_body]
pub struct ExPemFailure(PemFailure);

/// `rustls::Error`, why a certificate or a key was turned down.
#[verifier::external_type_specification]
#[verifier::external_body]
pub struct ExRustlsFailure(RustlsFailure);

/// `rcgen::Error`, why no certificate could be generated.
#[verifier::external_type_specification]
#[verifier::external_body]
pub struct ExRcgenFailure(RcgenFailure);

/// `rustls::RootCertStore`, a collection of trust anchors.
#[verifier::external_type_specification]
#[verifier::external_body]
pub struct ExRootCertStore(rustls::RootCertStore);

/// `rustls::ClientConfig`, what a client connects with.
#[verifier::external_type_specification]
#[verifier::external_body]
pub struct ExClientConfig(rustls::ClientConfig);

/// `rustls::ServerConfig`, what a server accepts connections with.
#[verifier::external_type_specification]
#[verifier::external_body]
pub struct ExTlsServerConfig(TlsServerConfig);

/// `rustls::crypto::CryptoProvider`, an implementation of the cryptography.
#[verifier::external_type_specification]
#[verifier::external_body]
pub struct ExCryptoProvider(rustls::crypto::CryptoProvider);

// Errors

/// Errors loading or generating certificates and keys.
#[derive(Debug)]
pub enum Error {
    /// Failed to open a certificate file.
    Open(IoFailure),
    /// Failed to read a file.
    ReadFile(IoFailure),
    /// Failed to read certificates.
    Read(PemFailure),
    /// Failed to parse a private key.
    Key(PemFailure),
    /// No certificates found.
    Empty,
    /// No roots found in a file.
    EmptyRoots(PathBuf),
    /// Failed to add a root certificate.
    AddRoot(RustlsFailure),
    /// Failed to configure the client certificate.
    ClientAuth(RustlsFailure),
    /// A client certificate comes with its key, and a key with its certificate.
    IncompleteClientAuth,
    /// Certificates and keys come in pairs.
    CertKeyCountMismatch,
    /// There is neither a pair of certificate and key nor a name to generate
    /// one for.
    NoCertSource,
    /// The private key doesn't match the certificate.
    KeyMismatch { key: PathBuf, cert: PathBuf, source: RustlsFailure },
    /// A certificate, a key or a setting was turned down.
    Rustls(RustlsFailure),
    /// No certificate could be generated.
    Rcgen(RcgenFailure),
    /// The clock is at the end of the calendar, so that no validity period can
    /// be given.
    Clock,
}

// PEM files

/// What was read of a certificate file.
#[derive(Debug)]
pub enum CertFile {
    /// It could not be opened.
    Unopened(IoFailure),
    /// It could not be read to the end.
    Unread(PemFailure),
    Bytes(Vec<u8>),
}

/// What was read of a key file.
#[derive(Debug)]
pub enum KeyFile {
    /// It could not be read.
    Unread(PemFailure),
    Bytes(Vec<u8>),
}

/// What was read of a file of the client's identity.
#[derive(Debug)]
pub enum IdentityFile {
    /// It could not be read.
    Unread(IoFailure),
    Bytes(Vec<u8>),
}

/// How a private key is encoded.
#[derive(Clone, Copy, Debug, PartialEq, Eq, Structural)]
pub enum KeyFormat {
    Pkcs1,
    Sec1,
    Pkcs8,
}

/// A private key.
#[derive(Clone)]
pub struct PrivateKey {
    pub format: KeyFormat,
    pub der: Vec<u8>,
}

/// The bytes of each certificate of a list.
pub open spec fn ders(certs: Seq<Vec<u8>>) -> Seq<Seq<u8>> {
    certs.map_values(|c: Vec<u8>| c@)
}

/// The name of what `CertificateDer::pem_slice_iter` finds: the certificates of
/// a PEM text, or none where a section of it is malformed.
pub uninterp spec fn certificates(pem: Seq<u8>) -> Option<Seq<Seq<u8>>>;

/// `CertificateDer::pem_slice_iter`, collected: the certificates of a PEM text,
/// in order, or the error of its first malformed section.
#[verifier::external_body]
fn pem_certificates(pem: &[u8]) -> (r: Result<Vec<Vec<u8>>, PemFailure>)
    ensures
        r matches Ok(certs) ==> certificates(pem@) == Some(ders(certs@)),
        r is Err ==> certificates(pem@) is None,
{
    CertificateDer::pem_slice_iter(pem).map(|c| c.map(|c| c.to_vec())).collect()
}

/// The name of what `PrivateKeyDer::from_pem_slice` finds: the first private
/// key of a PEM text, or none where there is none or a section before it is
/// malformed.
pub uninterp spec fn private_key(pem: Seq<u8>) -> Option<(KeyFormat, Seq<u8>)>;

/// `PrivateKeyDer::from_pem_slice`: the first private key of a PEM text.
#[verifier::external_body]
fn pem_private_key(pem: &[u8]) -> (r: Result<Option<PrivateKey>, PemFailure>)
    ensures
        r matches Ok(Some(key)) ==> private_key(pem@) == Some((key.format, key.der@)),
        r matches Err(_) ==> private_key(pem@) is None,
        !(r matches Ok(None)),
{
    PrivateKeyDer::from_pem_slice(pem).map(|key| match key {
        PrivateKeyDer::Pkcs1(k) => Some(PrivateKey { format: KeyFormat::Pkcs1, der: k.secret_pkcs1_der().to_vec() }),
        PrivateKeyDer::Sec1(k) => Some(PrivateKey { format: KeyFormat::Sec1, der: k.secret_sec1_der().to_vec() }),
        PrivateKeyDer::Pkcs8(k) => Some(PrivateKey { format: KeyFormat::Pkcs8, der: k.secret_pkcs8_der().to_vec() }),
        _ => None,
    })
}

/// Whether a certificate file was read and holds certificates, and which.
pub open spec fn file_certificates(file: CertFile) -> Option<Seq<Seq<u8>>> {
    match file {
        CertFile::Bytes(pem) => certificates(pem@),
        _ => None,
    }
}

/// Whether an error is the one for a certificate file that holds no list of
/// certificates.
pub open spec fn unreadable(file: CertFile, e: Error) -> bool {
    match file {
        CertFile::Unopened(why) => e == Error::Open(why),
        CertFile::Unread(why) => e == Error::Read(why),
        CertFile::Bytes(_) => e is Read,
    }
}

/// Read a PEM file into its list of certificates.
pub fn read_certs(file: CertFile) -> (r: Result<Vec<Vec<u8>>, Error>)
    ensures
        r is Ok <==> file_certificates(file) is Some,
        r matches Ok(certs) ==> file_certificates(file) == Some(ders(certs@)),
        r matches Err(e) ==> unreadable(file, e),
{
    match file {
        CertFile::Unopened(why) => Err(Error::Open(why)),
        CertFile::Unread(why) => Err(Error::Read(why)),
        CertFile::Bytes(pem) => match pem_certificates(pem.as_slice()) {
            Ok(certs) => Ok(certs),
            Err(why) => Err(Error::Read(why)),
        },
    }
}

/// Whether a key file was read and holds a private key, and which.
pub open spec fn file_key(file: KeyFile) -> Option<(KeyFormat, Seq<u8>)> {
    match file {
        KeyFile::Bytes(pem) => private_key(pem@),
        _ => None,
    }
}

/// Read a PEM file into its private key.
pub fn read_key(file: KeyFile) -> (r: Result<PrivateKey, Error>)
    ensures
        r is Ok <==> file_key(file) is Some,
        r matches Ok(key) ==> file_key(file) == Some((key.format, key.der@)),
        r matches Err(e) ==> match file {
            KeyFile::Unread(why) => e == Error::Key(why),
            KeyFile::Bytes(_) => e is Key,
        },
{
    match file {
        KeyFile::Unread(why) => Err(Error::Key(why)),
        KeyFile::Bytes(pem) => match pem_private_key(pem.as_slice()) {
            Ok(Some(key)) => Ok(key),
            Ok(None) => {
                assert(false);
                Err(Error::Empty)
            },
            Err(why) => Err(Error::Key(why)),
        },
    }
}

// Roots

/// A trust anchor: its subject, its public key and its name constraints.
pub type Anchor = (Seq<u8>, Seq<u8>, Option<Seq<u8>>);

/// The trust anchors of a store, in order.
pub uninterp spec fn anchors(store: RootCertStore) -> Seq<Anchor>;

/// The name of what `RootCertStore::add` makes of a certificate: a trust anchor,
/// or none where the certificate cannot be one.
pub uninterp spec fn anchor_of(der: Seq<u8>) -> Option<Anchor>;

/// `RootCertStore::empty`: a store without trust anchors.
#[verifier::external_body]
fn empty_store() -> (r: RootCertStore)
    ensures
        anchors(r) == Seq::<Anchor>::empty(),
{
    RootCertStore::empty()
}

/// `RootCertStore::add`: the trust anchor made of a certificate goes to the end
/// of the store. A certificate that cannot be one is an error, and changes
/// nothing.
#[verifier::external_body]
fn add_root(store: &mut RootCertStore, der: &Vec<u8>) -> (r: Result<(), RustlsFailure>)
    ensures
        r is Ok <==> anchor_of(der@) is Some,
        r is Ok ==> anchors(*final(store)) == anchors(*old(store)).push(anchor_of(der@)->Some_0),
        r is Err ==> anchors(*final(store)) == anchors(*old(store)),
{
    store.add(CertificateDer::from(der.clone()))
}

/// Whether every certificate can be a trust anchor.
pub open spec fn all_anchors(certs: Seq<Seq<u8>>) -> bool {
    forall|i: int| 0 <= i < certs.len() ==> anchor_of(#[trigger] certs[i]) is Some
}

/// The trust anchors that certificates make.
pub open spec fn anchors_of(certs: Seq<Seq<u8>>) -> Seq<Anchor> {
    certs.map_values(|c: Seq<u8>| anchor_of(c)->Some_0)
}

fn add_roots(store: &mut RootCertStore, certs: &Vec<Vec<u8>>) -> (r: Result<(), Error>)
    ensures
        r is Ok <==> all_anchors(ders(certs@)),
        r is Ok ==> anchors(*final(store)) == anchors(*old(store)) + anchors_of(ders(certs@)),
        r matches Err(e) ==> e is AddRoot,
{
    let ghost all = ders(certs@);
    let ghost before = anchors(*store);
    let mut i: usize = 0;
    assert(before + anchors_of(all.take(0)) =~= before);
    while i < certs.len()
        invariant
            i <= certs@.len(),
            all == ders(certs@),
            forall|k: int| 0 <= k < i ==> anchor_of(#[trigger] all[k]) is Some,
            anchors(*store) == before + anchors_of(all.take(i as int)),
        decreases certs@.len() - i,
    {
        match add_root(store, &certs[i]) {
            Ok(_) => {
                assert(anchors_of(all.take(i + 1)) =~= anchors_of(all.take(i as int)).push(
                    anchor_of(all[i as int])->Some_0,
                ));
            },
            Err(why) => {
                assert(anchor_of(all[i as int]) is None);
                return Err(Error::AddRoot(why));
            },
        }
        i += 1;
    }
    assert(all.take(all.len() as int) =~= all);
    Ok(())
}

/// Whether a file holds roots: it holds certificates, and each can be a trust
/// anchor.
pub open spec fn holds_roots(file: CertFile) -> bool {
    file_certificates(file) matches Some(certs) && certs.len() > 0 && all_anchors(certs)
}

/// Whether every file holds roots.
pub open spec fn all_hold_roots(files: Seq<CertFile>) -> bool {
    forall|i: int| 0 <= i < files.len() ==> holds_roots(#[trigger] files[i])
}

/// The trust anchors of files that hold roots.
pub open spec fn roots_in(files: Seq<CertFile>) -> Seq<Anchor>
    decreases files.len(),
{
    if files.len() == 0 {
        Seq::empty()
    } else {
        roots_in(files.drop_last()) + anchors_of(file_certificates(files.last())->Some_0)
    }
}

/// Whether an error is the one for a file that holds no roots, where `empty` is
/// the one for a file without certificates.
pub open spec fn rootless(file: CertFile, e: Error, empty: Error) -> bool {
    match file_certificates(file) {
        None => unreadable(file, e),
        Some(certs) => if certs.len() == 0 {
            e == empty
        } else {
            e is AddRoot
        },
    }
}

/// Whether an error is the one for the first of the files that holds no roots.
pub open spec fn first_rootless(files: Seq<CertFile>, e: Error, empty: spec_fn(int) -> Error) -> bool {
    exists|i: int|
        {
            &&& 0 <= i < files.len()
            &&& !holds_roots(#[trigger] files[i])
            &&& rootless(files[i], e, empty(i))
            &&& forall|j: int| 0 <= j < i ==> holds_roots(#[trigger] files[j])
        }
}

fn load_root_files(files: Vec<CertFile>, paths: &Vec<PathBuf>, name_empty: bool) -> (r: Result<
    RootCertStore,
    Error,
>)
    requires
        files@.len() == paths@.len(),
    ensures
        r is Ok <==> forall|i: int| 0 <= i < files@.len() ==> holds_roots(#[trigger] files@[i]),
        r matches Ok(store) ==> anchors(store) == roots_in(files@),
        r matches Err(e) ==> first_rootless(
            files@,
            e,
            |i: int|
                if name_empty {
                    Error::EmptyRoots(paths@[i])
                } else {
                    Error::Empty
                },
        ),
{
    let ghost all = files@;
    let ghost empty = |i: int|
        if name_empty {
            Error::EmptyRoots(paths@[i])
        } else {
            Error::Empty
        };
    let mut rest = files;
    let mut store = empty_store();
    let mut i: usize = 0;
    assert(all.skip(0) =~= all);
    while i < paths.len()
        invariant
            i <= paths@.len() == all.len(),
            all == files@,
            rest@ == all.skip(i as int),
            empty == |i: int|
                if name_empty {
                    Error::EmptyRoots(paths@[i])
                } else {
                    Error::Empty
                },
            forall|k: int| 0 <= k < i ==> holds_roots(#[trigger] all[k]),
            anchors(store) == roots_in(all.take(i as int)),
        decreases paths@.len() - i,
    {
        let ghost now = all[i as int];
        let file = rest.remove(0);
        assert(file == now);
        assert(rest@ =~= all.skip(i + 1));
        let certs = match read_certs(file) {
            Ok(certs) => certs,
            Err(e) => {
                assert(!holds_roots(all[i as int]));
                assert(rootless(all[i as int], e, empty(i as int)));
                return Err(e);
            },
        };
        assert(ders(certs@).len() == certs@.len());
        if certs.len() == 0 {
            assert(!holds_roots(all[i as int]));
            let e = if name_empty {
                Error::EmptyRoots(paths[i].clone())
            } else {
                Error::Empty
            };
            assert(rootless(all[i as int], e, empty(i as int)));
            return Err(e);
        }
        match add_roots(&mut store, &certs) {
            Ok(_) => {},
            Err(e) => {
                assert(!holds_roots(all[i as int]));
                assert(rootless(all[i as int], e, empty(i as int)));
                return Err(e);
            },
        }
        proof {
            assert(all.take(i + 1).drop_last() =~= all.take(i as int));
            assert(all.take(i + 1).last() == now);
            assert(holds_roots(all[i as int]));
        }
        i += 1;
    }
    assert(all.take(all.len() as int) =~= all);
    Ok(store)
}

// The client

/// TLS configuration for the client.
#[derive(Clone, Debug, Default)]
pub struct Client {
    /// Use the TLS roots in these PEM files. If there are none, the system
    /// roots are used instead.
    pub root: Vec<PathBuf>,
    /// PEM file with the client certificate chain for mTLS. Comes with `key`.
    pub cert: Option<PathBuf>,
    /// PEM file with the private key for mTLS. Comes with `cert`.
    pub key: Option<PathBuf>,
    /// Danger: disable TLS certificate verification.
    pub disable_verify: Option<bool>,
}

/// What a client presents itself with.
pub struct Identity {
    pub chain: Vec<Vec<u8>>,
    pub key: PrivateKey,
}

/// What a client connection is made of.
pub struct ClientPlan {
    /// Whom to trust.
    pub roots: RootCertStore,
    /// What to present, if anything.
    pub identity: Option<Identity>,
    /// Whether server certificates are verified.
    pub verify: bool,
}

/// What was read for a client.
pub struct ClientFiles {
    /// The root files, one for each path.
    pub roots: Vec<CertFile>,
    /// The system roots, which matter where no root file is configured.
    pub native: Vec<Vec<u8>>,
    /// The certificate file, which matters where certificate and key are
    /// configured.
    pub cert: IdentityFile,
    /// The key file, which matters where certificate and key are configured.
    pub key: IdentityFile,
}

/// Whether an identity file was read and holds certificates, and which.
pub open spec fn identity_certificates(file: IdentityFile) -> Option<Seq<Seq<u8>>> {
    match file {
        IdentityFile::Bytes(pem) => certificates(pem@),
        IdentityFile::Unread(_) => None,
    }
}

/// Whether an identity file was read and holds a private key, and which.
pub open spec fn identity_key(file: IdentityFile) -> Option<(KeyFormat, Seq<u8>)> {
    match file {
        IdentityFile::Bytes(pem) => private_key(pem@),
        IdentityFile::Unread(_) => None,
    }
}

/// Whether two files hold an identity: a chain of certificates and a key.
pub open spec fn holds_identity(cert: IdentityFile, key: IdentityFile) -> bool {
    &&& identity_certificates(cert) matches Some(chain) && chain.len() > 0
    &&& identity_key(key) is Some
}

/// Whether an error is the one for two files that hold no identity. The
/// certificates come before the key.
pub open spec fn no_identity(cert: IdentityFile, key: IdentityFile, e: Error) -> bool {
    match cert {
        IdentityFile::Unread(why) => e == Error::ReadFile(why),
        IdentityFile::Bytes(pem) => match certificates(pem@) {
            None => e is Read,
            Some(chain) => if chain.len() == 0 {
                e is Empty
            } else {
                match key {
                    IdentityFile::Unread(why) => e == Error::ReadFile(why),
                    IdentityFile::Bytes(_) => e is Key,
                }
            },
        },
    }
}

/// Reads an identity out of its two files.
pub fn read_identity(cert: IdentityFile, key: IdentityFile) -> (r: Result<Identity, Error>)
    ensures
        r is Ok <==> holds_identity(cert, key),
        r matches Ok(identity) ==> {
            &&& identity_certificates(cert) == Some(ders(identity.chain@))
            &&& identity_key(key) == Some((identity.key.format, identity.key.der@))
            &&& identity.chain@.len() > 0
        },
        r matches Err(e) ==> no_identity(cert, key, e),
{
    let chain = match cert {
        IdentityFile::Unread(why) => return Err(Error::ReadFile(why)),
        IdentityFile::Bytes(pem) => match pem_certificates(pem.as_slice()) {
            Ok(chain) => chain,
            Err(why) => return Err(Error::Read(why)),
        },
    };
    assert(ders(chain@).len() == chain@.len());
    if chain.len() == 0 {
        return Err(Error::Empty);
    }
    let key = match key {
        IdentityFile::Unread(why) => return Err(Error::ReadFile(why)),
        IdentityFile::Bytes(pem) => read_key(KeyFile::Bytes(pem))?,
    };
    Ok(Identity { chain, key })
}

impl Client {
    /// Whether the configured roots, or else the system's, can be trusted.
    pub open spec fn has_roots(self, files: ClientFiles) -> bool {
        if self.root@.len() == 0 {
            all_anchors(ders(files.native@))
        } else {
            forall|i: int| 0 <= i < files.roots@.len() ==> holds_roots(#[trigger] files.roots@[i])
        }
    }

    /// The trust anchors of the configured roots, or else of the system's.
    pub open spec fn trusted(self, files: ClientFiles) -> Seq<Anchor> {
        if self.root@.len() == 0 {
            anchors_of(ders(files.native@))
        } else {
            roots_in(files.roots@)
        }
    }

    /// Whether an error is the one for roots that cannot be trusted.
    pub open spec fn untrusted(self, files: ClientFiles, e: Error) -> bool {
        if self.root@.len() == 0 {
            e is AddRoot
        } else {
            first_rootless(files.roots@, e, |i: int| Error::EmptyRoots(self.root@[i]))
        }
    }

    /// Whether the identity is configured completely, or not at all, and can be
    /// had.
    pub open spec fn has_identity(self, files: ClientFiles) -> bool {
        ||| self.cert is None && self.key is None
        ||| self.cert is Some && self.key is Some && holds_identity(files.cert, files.key)
    }

    /// The chain of certificates and the key that the files hold, if the
    /// configuration names any.
    pub open spec fn identity(self, files: ClientFiles) -> Option<
        (Seq<Seq<u8>>, KeyFormat, Seq<u8>),
    > {
        if self.cert is Some {
            let key = identity_key(files.key)->Some_0;
            Some((identity_certificates(files.cert)->Some_0, key.0, key.1))
        } else {
            None
        }
    }

    /// Whether a plan is the one by this configuration.
    pub open spec fn planned(self, files: ClientFiles, plan: ClientPlan) -> bool {
        &&& anchors(plan.roots) == self.trusted(files)
        &&& plan.verify == (self.disable_verify != Some(true))
        &&& plan.identity is Some <==> self.cert is Some
        &&& plan.identity matches Some(identity) ==> {
            &&& identity_certificates(files.cert) == Some(ders(identity.chain@))
            &&& identity_key(files.key) == Some((identity.key.format, identity.key.der@))
            &&& identity.chain@.len() > 0
        }
    }

    /// Whether an error is the one for a configuration that makes no plan. The
    /// roots come before the identity.
    pub open spec fn unplanned(self, files: ClientFiles, e: Error) -> bool {
        if !self.has_roots(files) {
            self.untrusted(files, e)
        } else if self.cert is Some && self.key is Some {
            no_identity(files.cert, files.key, e)
        } else {
            e is IncompleteClientAuth
        }
    }

    /// Decides what a connection is made of, from what was read of the files.
    pub fn plan(&self, files: ClientFiles) -> (r: Result<ClientPlan, Error>)
        requires
            files.roots@.len() == self.root@.len(),
        ensures
            r is Ok <==> self.has_roots(files) && self.has_identity(files),
            r matches Ok(plan) ==> self.planned(files, plan),
            r matches Err(e) ==> self.unplanned(files, e),
    {
        let ClientFiles { roots: root_files, native, cert, key } = files;
        let roots = if self.root.len() == 0 {
            let mut store = empty_store();
            match add_roots(&mut store, &native) {
                Ok(_) => {},
                Err(e) => return Err(e),
            }
            assert(Seq::<Anchor>::empty() + anchors_of(ders(native@)) =~= anchors_of(ders(native@)));
            store
        } else {
            match load_root_files(root_files, &self.root, true) {
                Ok(store) => store,
                Err(e) => return Err(e),
            }
        };
        let identity = match (&self.cert, &self.key) {
            (Some(_), Some(_)) => match read_identity(cert, key) {
                Ok(identity) => Some(identity),
                Err(e) => return Err(e),
            },
            (None, None) => None,
            _ => return Err(Error::IncompleteClientAuth),
        };
        let verify = match self.disable_verify {
            Some(disabled) => !disabled,
            None => true,
        };
        Ok(ClientPlan { roots, identity, verify })
    }

    /// Build what a client connects with.
    ///
    /// Returns it together with whether server certificates are verified: where
    /// they are not, the application puts a verifier in place that accepts any.
    pub fn build(&self, files: ClientFiles) -> (r: Result<(ClientConfig, bool), Error>)
        requires
            files.roots@.len() == self.root@.len(),
        ensures
            !self.has_roots(files) || !self.has_identity(files) ==> (r matches Err(e)
                && self.unplanned(files, e)),
            self.has_roots(files) && self.has_identity(files) ==> match r {
                Ok(built) => {
                    &&& client_speaks(built.0) == spoken()
                    &&& verifies_by(built.0) == self.trusted(files)
                    &&& presents(built.0) == self.identity(files)
                    &&& presents(built.0) matches Some(pair) ==> own_key(pair)
                    &&& built.1 == (self.disable_verify != Some(true))
                },
                Err(e) => e is ClientAuth && self.cert is Some,
            },
    {
        let plan = match self.plan(files) {
            Ok(plan) => plan,
            Err(e) => return Err(e),
        };
        let ClientPlan { roots, identity, verify } = plan;
        let versions = spoken_versions();
        let built = match identity {
            Some(identity) => {
                assert(ders(identity.chain@)[0] == identity.chain@[0]@);
                identified_client(roots, &versions, identity)
            },
            None => anonymous_client(roots, &versions),
        };
        client_built(built, verify)
    }
}

/// Why no client configuration could be made.
pub enum ClientFailure {
    /// The protocol versions were turned down.
    Versions(RustlsFailure),
    /// The identity was turned down.
    Identity(RustlsFailure),
}

/// Names what made no client configuration as the client's error.
pub fn client_built(built: Result<ClientConfig, ClientFailure>, verify: bool) -> (r: Result<
    (ClientConfig, bool),
    Error,
>)
    ensures
        match built {
            Ok(config) => r == Ok::<(ClientConfig, bool), Error>((config, verify)),
            Err(ClientFailure::Versions(why)) => r == Err::<(ClientConfig, bool), Error>(
                Error::Rustls(why),
            ),
            Err(ClientFailure::Identity(why)) => r == Err::<(ClientConfig, bool), Error>(
                Error::ClientAuth(why),
            ),
        },
{
    match built {
        Ok(config) => Ok((config, verify)),
        Err(ClientFailure::Versions(why)) => Err(Error::Rustls(why)),
        Err(ClientFailure::Identity(why)) => Err(Error::ClientAuth(why)),
    }
}

/// A version of the protocol.
#[derive(Clone, Copy, Debug, PartialEq, Eq, Structural)]
pub enum TlsVersion {
    Tls13,
    Tls12,
}

/// The versions that are spoken: TLS 1.3, and TLS 1.2 for the sake of WebSocket.
/// QUIC takes TLS 1.3 in any case.
pub open spec fn spoken() -> Set<TlsVersion> {
    set![TlsVersion::Tls13, TlsVersion::Tls12]
}

/// The versions that are spoken, in order of preference.
fn spoken_versions() -> (r: Vec<TlsVersion>)
    ensures
        r@.to_set() == spoken(),
        r@.len() > 0,
{
    let mut versions: Vec<TlsVersion> = Vec::new();
    versions.push(TlsVersion::Tls13);
    versions.push(TlsVersion::Tls12);
    proof {
        assert(versions@ =~= seq![TlsVersion::Tls13, TlsVersion::Tls12]);
        assert(versions@[0] == TlsVersion::Tls13);
        assert(versions@[1] == TlsVersion::Tls12);
        assert(versions@.to_set() =~= spoken());
    }
    versions
}

/// The versions of the protocol that a client configuration was made with.
pub uninterp spec fn client_speaks(config: ClientConfig) -> Set<TlsVersion>;

/// The trust anchors that a client configuration was made with: servers are
/// verified against them.
pub uninterp spec fn verifies_by(config: ClientConfig) -> Seq<Anchor>;

/// The chain of certificates and the key that a client configuration was made
/// with, if any: they are presented to servers that ask for them.
pub uninterp spec fn presents(config: ClientConfig) -> Option<(Seq<Seq<u8>>, KeyFormat, Seq<u8>)>;

/// The chain of certificates and the key of an identity, if there is one.
pub open spec fn identity_view(identity: Option<Identity>) -> Option<
    (Seq<Seq<u8>>, KeyFormat, Seq<u8>),
> {
    match identity {
        Some(i) => Some((ders(i.chain@), i.key.format, i.key.der@)),
        None => None,
    }
}

/// `rustls::ClientConfig`'s builder with the *ring* provider, and then
/// `with_no_client_auth`: what speaks these versions, verifies servers by these
/// roots and presents nothing. The provider has suites for every version, so
/// that none is turned down.
#[verifier::external_body]
fn anonymous_client(roots: RootCertStore, versions: &Vec<TlsVersion>) -> (r: Result<ClientConfig, ClientFailure>)
    requires
        versions@.len() > 0,
    ensures
        r is Ok,
        r matches Ok(config) ==> client_speaks(config) == versions@.to_set(),
        r matches Ok(config) ==> verifies_by(config) == anchors(roots),
        r matches Ok(config) ==> presents(config) is None,
{
    let provider = Arc::new(rustls::crypto::ring::default_provider());
    let versions: Vec<_> = versions.iter().map(|v| match v {
        TlsVersion::Tls13 => &TLS13,
        TlsVersion::Tls12 => &TLS12,
    }).collect();
    let builder = ClientConfig::builder_with_provider(provider).with_protocol_versions(&versions);
    Ok(builder.map_err(ClientFailure::Versions)?.with_root_certificates(roots).with_no_client_auth())
}

/// `rustls::ClientConfig`'s builder with the *ring* provider, and then
/// `with_client_auth_cert`: what speaks these versions, verifies servers by
/// these roots and presents this identity. The identity is turned down where its
/// key cannot be loaded, which takes randomness, or where `keys_match` finds it
/// not to be that of its first certificate. Every key that *ring* loads can be
/// compared.
#[verifier::external_body]
fn identified_client(roots: RootCertStore, versions: &Vec<TlsVersion>, identity: Identity) -> (r: Result<ClientConfig, ClientFailure>)
    requires
        versions@.len() > 0,
        identity.chain@.len() > 0,
    ensures
        r matches Ok(config) ==> client_speaks(config) == versions@.to_set(),
        r matches Ok(config) ==> verifies_by(config) == anchors(roots),
        r matches Ok(config) ==> presents(config) == identity_view(Some(identity)),
        r is Ok ==> key_fits(identity.chain@[0]@, identity.key.format, identity.key.der@),
        r matches Err(why) ==> why is Identity,
{
    let provider = Arc::new(rustls::crypto::ring::default_provider());
    let versions: Vec<_> = versions.iter().map(|v| match v {
        TlsVersion::Tls13 => &TLS13,
        TlsVersion::Tls12 => &TLS12,
    }).collect();
    let builder = ClientConfig::builder_with_provider(provider).with_protocol_versions(&versions);
    let key = match identity.key.format {
        KeyFormat::Pkcs1 => PrivateKeyDer::Pkcs1(identity.key.der.into()),
        KeyFormat::Sec1 => PrivateKeyDer::Sec1(identity.key.der.into()),
        KeyFormat::Pkcs8 => PrivateKeyDer::Pkcs8(identity.key.der.into()),
    };
    let chain = identity.chain.into_iter().map(CertificateDer::from).collect();
    builder.map_err(ClientFailure::Versions)?.with_root_certificates(roots).with_client_auth_cert(chain, key).map_err(ClientFailure::Identity)
}

// The server

/// TLS configuration for the server.
///
/// Certificates and keys are files on disk. Alternatively a self-signed
/// certificate is generated for a list of hostnames.
#[derive(Clone, Debug, Default)]
pub struct Server {
    /// Certificate files.
    pub cert: Vec<PathBuf>,
    /// Key files, one for each certificate file.
    pub key: Vec<PathBuf>,
    /// Or generate a new certificate and key with the given hostnames. This
    /// won't be valid unless the client uses the fingerprint or disables
    /// verification.
    pub generate: Vec<String>,
    /// PEM files of root CAs for validating optional client certificates.
    pub root: Vec<PathBuf>,
}

/// A certificate chain and the key of its first certificate.
pub struct CertifiedKey {
    pub chain: Vec<Vec<u8>>,
    pub key: PrivateKey,
}

impl CertifiedKey {
    /// There is a first certificate.
    pub open spec fn wf(self) -> bool {
        self.chain@.len() > 0
    }
}

/// What was read of a pair of certificate and key files.
pub struct PairFiles {
    pub cert: CertFile,
    pub key: KeyFile,
}

/// Whether a pair of files holds a chain of certificates and a key.
pub open spec fn holds_pair(files: PairFiles) -> bool {
    &&& file_certificates(files.cert) matches Some(chain) && chain.len() > 0
    &&& file_key(files.key) is Some
}

/// Whether an error is the one for a pair of files that holds no chain of
/// certificates and a key. The certificates come before the key.
pub open spec fn no_pair(files: PairFiles, e: Error) -> bool {
    match file_certificates(files.cert) {
        None => unreadable(files.cert, e),
        Some(chain) => if chain.len() == 0 {
            e is Empty
        } else {
            match files.key {
                KeyFile::Unread(why) => e == Error::Key(why),
                KeyFile::Bytes(_) => e is Key,
            }
        },
    }
}

/// Whether a certified key is what a pair of files holds.
pub open spec fn pair_read(files: PairFiles, ck: CertifiedKey) -> bool {
    &&& file_certificates(files.cert) == Some(ders(ck.chain@))
    &&& file_key(files.key) == Some((ck.key.format, ck.key.der@))
    &&& ck.wf()
}

/// Reads a pair of certificate and key files.
pub fn read_pair(files: PairFiles) -> (r: Result<CertifiedKey, Error>)
    ensures
        r is Ok <==> holds_pair(files),
        r matches Ok(ck) ==> pair_read(files, ck),
        r matches Err(e) ==> no_pair(files, e),
{
    let chain = match read_certs(files.cert) {
        Ok(chain) => chain,
        Err(e) => return Err(e),
    };
    assert(ders(chain@).len() == chain@.len());
    if chain.len() == 0 {
        return Err(Error::Empty);
    }
    let key = match read_key(files.key) {
        Ok(key) => key,
        Err(e) => return Err(e),
    };
    Ok(CertifiedKey { chain, key })
}

/// The name of what `rustls::sign::CertifiedKey::keys_match` finds: whether a
/// key is that of a certificate.
pub uninterp spec fn key_fits(cert: Seq<u8>, format: KeyFormat, key: Seq<u8>) -> bool;

/// The versions of the protocol that a server configuration was made with.
pub uninterp spec fn server_speaks(config: TlsServerConfig) -> Set<TlsVersion>;

/// Whether a server configuration was made to ask clients for certificates.
pub uninterp spec fn asks_for_certificates(config: TlsServerConfig) -> bool;

/// The chain of certificates and the key that a server configuration was made
/// with: every client is served with them.
pub uninterp spec fn serves_with(config: TlsServerConfig) -> (Seq<Seq<u8>>, KeyFormat, Seq<u8>);

/// The chain of certificates and the key of a certified key.
pub open spec fn chain_and_key(ck: CertifiedKey) -> (Seq<Seq<u8>>, KeyFormat, Seq<u8>) {
    (ders(ck.chain@), ck.key.format, ck.key.der@)
}

/// The chain of certificates and the key that a pair of files holds.
pub open spec fn files_chain_and_key(files: PairFiles) -> (Seq<Seq<u8>>, KeyFormat, Seq<u8>) {
    let key = file_key(files.key)->Some_0;
    (file_certificates(files.cert)->Some_0, key.0, key.1)
}

/// Whether a key is that of the first certificate of a chain.
pub open spec fn own_key(pair: (Seq<Seq<u8>>, KeyFormat, Seq<u8>)) -> bool {
    key_fits(pair.0[0], pair.1, pair.2)
}

/// `rustls::ServerConfig`'s builder with the *ring* provider, then
/// `with_no_client_auth` and `with_single_cert`: what speaks these versions,
/// asks for no certificates and serves every client with this chain and key. A
/// key that cannot be loaded, which takes randomness, is turned down, and so is
/// one that `keys_match` finds not to be that of the first certificate.
#[verifier::external_body]
fn server_config(ck: CertifiedKey, versions: &Vec<TlsVersion>) -> (r: Result<TlsServerConfig, RustlsFailure>)
    requires
        ck.wf(),
        versions@.len() > 0,
    ensures
        r matches Ok(config) ==> server_speaks(config) == versions@.to_set(),
        r matches Ok(config) ==> !asks_for_certificates(config),
        r matches Ok(config) ==> serves_with(config) == chain_and_key(ck),
        r is Ok ==> key_fits(ck.chain@[0]@, ck.key.format, ck.key.der@),
{
    let provider = Arc::new(rustls::crypto::ring::default_provider());
    let versions: Vec<_> = versions.iter().map(|v| match v {
        TlsVersion::Tls13 => &TLS13,
        TlsVersion::Tls12 => &TLS12,
    }).collect();
    let key = match ck.key.format {
        KeyFormat::Pkcs1 => PrivateKeyDer::Pkcs1(ck.key.der.into()),
        KeyFormat::Sec1 => PrivateKeyDer::Sec1(ck.key.der.into()),
        KeyFormat::Pkcs8 => PrivateKeyDer::Pkcs8(ck.key.der.into()),
    };
    let builder = TlsServerConfig::builder_with_provider(provider).with_protocol_versions(&versions)?;
    builder.with_no_client_auth().with_single_cert(ck.chain.into_iter().map(CertificateDer::from).collect(), key)
}

// Generated certificates

/// Nanoseconds in a day.
pub const DAY_NANOS: i128 = 86_400_000_000_000;

/// The start of year 0, in nanoseconds since the Unix epoch.
pub const CALENDAR_START: i128 = -62_167_219_200_000_000_000;

/// The end of year 9999, in nanoseconds since the Unix epoch.
pub const CALENDAR_END: i128 = 253_402_300_799_999_999_999;

/// Whether a time can be written into a certificate.
pub open spec fn on_calendar(nanos: i128) -> bool {
    CALENDAR_START <= nanos <= CALENDAR_END
}

/// `OffsetDateTime::now_utc`, in nanoseconds since the Unix epoch. Nothing is
/// promised of a clock reading.
#[verifier::external_body]
fn now_utc() -> (r: i128) {
    time::OffsetDateTime::now_utc().unix_timestamp_nanos()
}

/// When a generated certificate is valid: for two weeks, starting yesterday in
/// case of clock drift. WebTransport certificates must be valid for two weeks
/// at most. At either end of the calendar there is no such time.
pub open spec fn validity(now: i128) -> Option<(i128, i128)> {
    let from = now - DAY_NANOS;
    let to = from + 14 * DAY_NANOS;
    if CALENDAR_START <= from && to <= CALENDAR_END {
        Some((from as i128, to as i128))
    } else {
        None
    }
}

/// When a certificate that is generated now is valid.
pub fn validity_at(now: i128) -> (r: Option<(i128, i128)>)
    ensures
        r == validity(now),
        r matches Some(span) ==> on_calendar(span.0) && on_calendar(span.1),
{
    if now < CALENDAR_START + DAY_NANOS || CALENDAR_END - 13 * DAY_NANOS < now {
        return None;
    }
    let from: i128 = now - DAY_NANOS;
    Some((from, from + 14 * DAY_NANOS))
}

/// Whether a certificate is one by `rcgen::CertificateParams::self_signed`: for
/// the public half of this key, for these hostnames, and valid between these
/// times, each to the second.
pub uninterp spec fn issued(
    cert: Seq<u8>,
    key: Seq<u8>,
    hostnames: Seq<Seq<char>>,
    from: i128,
    to: i128,
) -> bool;

/// Whether all texts are made of ASCII characters.
pub open spec fn all_ascii(hostnames: Seq<Seq<char>>) -> bool {
    forall|i: int| 0 <= i < hostnames.len() ==> vstd::utf8::is_ascii_chars(#[trigger] hostnames[i])
}

/// A new key pair by `rcgen::KeyPair::generate`, and a certificate for it by
/// `rcgen::CertificateParams::self_signed`, for these hostnames and valid
/// between these times. Hostnames in other than ASCII are turned down. The key
/// is random, so that beyond this nothing is promised of either.
#[verifier::external_body]
fn self_signed(hostnames: &Vec<String>, from: i128, to: i128) -> (r: Result<(Vec<u8>, Vec<u8>), RcgenFailure>)
    requires
        on_calendar(from),
        on_calendar(to),
    ensures
        r matches Ok((cert, key)) ==> issued(cert@, key@, texts(hostnames@), from, to),
        r is Ok ==> all_ascii(texts(hostnames@)),
{
    let key = rcgen::KeyPair::generate()?;
    let mut params = rcgen::CertificateParams::new(hostnames.clone())?;
    params.not_before = time::OffsetDateTime::from_unix_timestamp_nanos(from).unwrap();
    params.not_after = time::OffsetDateTime::from_unix_timestamp_nanos(to).unwrap();
    let cert = params.self_signed(&key)?;
    Ok((cert.der().to_vec(), key.serialized_der().to_vec()))
}

/// The certified key made of what was generated: a chain of one certificate,
/// and its key, which is in PKCS #8.
pub fn generated(made: Result<(Vec<u8>, Vec<u8>), RcgenFailure>) -> (r: Result<CertifiedKey, Error>)
    ensures
        match made {
            Ok((cert, key)) => r matches Ok(ck) && is_generated(ck) && ders(ck.chain@) == seq![cert@]
                && ck.key.der@ == key@,
            Err(why) => r == Err::<CertifiedKey, Error>(Error::Rcgen(why)),
        },
{
    match made {
        Ok((cert, key)) => {
            let mut chain: Vec<Vec<u8>> = Vec::new();
            chain.push(cert);
            assert(ders(chain@) =~= seq![cert@]);
            Ok(CertifiedKey { chain, key: PrivateKey { format: KeyFormat::Pkcs8, der: key } })
        },
        Err(why) => Err(Error::Rcgen(why)),
    }
}

/// Whether a certified key has the form of a generated one: a single
/// certificate, and a key in PKCS #8.
pub open spec fn is_generated(ck: CertifiedKey) -> bool {
    ck.chain@.len() == 1 && ck.key.format is Pkcs8
}

/// Whether a certified key was generated for these hostnames at this time.
pub open spec fn generated_at(ck: CertifiedKey, hostnames: Seq<Seq<char>>, now: i128) -> bool {
    &&& is_generated(ck)
    &&& validity(now) matches Some(span) && issued(
        ck.chain@[0]@,
        ck.key.der@,
        hostnames,
        span.0,
        span.1,
    )
}

/// Whether a certified key was generated for these hostnames.
pub open spec fn generated_for(ck: CertifiedKey, hostnames: Seq<Seq<char>>) -> bool {
    exists|now: i128| #[trigger] generated_at(ck, hostnames, now)
}

/// Generate a self-signed certificate for these hostnames and its key, at this
/// time. The certificate is valid from a day ago for two weeks.
pub fn generate_at(hostnames: &Vec<String>, now: i128) -> (r: Result<CertifiedKey, Error>)
    ensures
        r matches Ok(ck) ==> generated_at(ck, texts(hostnames@), now) && all_ascii(
            texts(hostnames@),
        ),
        r matches Err(e) ==> e is Rcgen || e is Clock,
        r matches Err(Error::Clock) <==> validity(now) is None,
{
    match validity_at(now) {
        Some((from, to)) => match generated(self_signed(hostnames, from, to)) {
            Ok(ck) => {
                assert(ders(ck.chain@)[0] == ck.chain@[0]@);
                Ok(ck)
            },
            Err(e) => Err(e),
        },
        None => Err(Error::Clock),
    }
}

/// Generate a self-signed certificate for these hostnames and its key, now.
pub fn generate(hostnames: &Vec<String>) -> (r: Result<CertifiedKey, Error>)
    ensures
        r matches Ok(ck) ==> generated_for(ck, texts(hostnames@)) && all_ascii(texts(hostnames@)),
        r matches Err(e) ==> e is Rcgen || e is Clock,
{
    generate_at(hostnames, now_utc())
}

impl Server {
    /// Load all configured root CAs.
    pub fn load_roots(&self, files: Vec<CertFile>) -> (r: Result<RootCertStore, Error>)
        requires
            files@.len() == self.root@.len(),
        ensures
            r is Ok <==> forall|i: int| 0 <= i < files@.len() ==> holds_roots(#[trigger] files@[i]),
            r matches Ok(store) ==> anchors(store) == roots_in(files@),
            r matches Err(e) ==> first_rootless(files@, e, |i: int| Error::Empty),
            r is Ok <==> all_hold_roots(files@),
    {
        load_root_files(files, &self.root, false)
    }

    /// Generate a self-signed certificate and private key for the configured
    /// hostnames.
    pub fn generate_cert_and_key(&self) -> (r: Result<CertifiedKey, Error>)
        ensures
            r matches Ok(ck) ==> generated_for(ck, texts(self.generate@)) && all_ascii(
                texts(self.generate@),
            ),
            r matches Err(e) ==> e is Rcgen || e is Clock,
    {
        generate(&self.generate)
    }

    /// Chooses what a server presents: the first pair of files where there are
    /// any, else a generated certificate.
    ///
    /// `first` is what was read of the first pair of files.
    pub fn choose_certificate(&self, first: Option<PairFiles>) -> (r: Result<CertifiedKey, Error>)
        requires
            self.cert@.len() > 0 ==> first is Some,
        ensures
            self.cert@.len() > 0 && self.cert@.len() != self.key@.len() ==> (r matches Err(e)
                && e is CertKeyCountMismatch),
            self.cert@.len() > 0 && self.cert@.len() == self.key@.len() ==> {
                &&& r is Ok <==> holds_pair(first->Some_0)
                &&& r matches Ok(ck) ==> pair_read(first->Some_0, ck)
                &&& r matches Err(e) ==> no_pair(first->Some_0, e)
            },
            self.cert@.len() == 0 && self.generate@.len() > 0 ==> match r {
                Ok(ck) => generated_for(ck, texts(self.generate@)) && all_ascii(
                    texts(self.generate@),
                ),
                Err(e) => e is Rcgen || e is Clock,
            },
            self.cert@.len() == 0 && self.generate@.len() == 0 ==> (r matches Err(e)
                && e is NoCertSource),
    {
        if self.cert.len() > 0 {
            if self.cert.len() != self.key.len() {
                return Err(Error::CertKeyCountMismatch);
            }
            match first {
                Some(files) => read_pair(files),
                None => {
                    assert(false);
                    Err(Error::NoCertSource)
                },
            }
        } else if self.generate.len() > 0 {
            self.generate_cert_and_key()
        } else {
            Err(Error::NoCertSource)
        }
    }

    /// Build what a server accepts connections with: the first pair of files
    /// where there are any, else a generated certificate, with TLS 1.3 and 1.2
    /// and no client authentication.
    pub fn build_server_config(&self, first: Option<PairFiles>) -> (r: Result<
        TlsServerConfig,
        Error,
    >)
        requires
            self.cert@.len() > 0 ==> first is Some,
        ensures
            self.cert@.len() > 0 && self.cert@.len() != self.key@.len() ==> (r matches Err(e)
                && e is CertKeyCountMismatch),
            self.cert@.len() > 0 && self.cert@.len() == self.key@.len() ==> {
                &&& !holds_pair(first->Some_0) ==> (r matches Err(e) && no_pair(first->Some_0, e))
                &&& holds_pair(first->Some_0) ==> match r {
                    Ok(config) => serves_with(config) == files_chain_and_key(first->Some_0),
                    Err(e) => e is Rustls,
                }
            },
            self.cert@.len() == 0 && self.generate@.len() > 0 ==> match r {
                Ok(config) => exists|ck: CertifiedKey|
                    {
                        &&& #[trigger] generated_for(ck, texts(self.generate@))
                        &&& serves_with(config) == chain_and_key(ck)
                        &&& all_ascii(texts(self.generate@))
                    },
                Err(e) => e is Rcgen || e is Clock || e is Rustls,
            },
            self.cert@.len() == 0 && self.generate@.len() == 0 ==> (r matches Err(e)
                && e is NoCertSource),
            r matches Ok(config) ==> {
                &&& server_speaks(config) == spoken()
                &&& !asks_for_certificates(config)
                &&& own_key(serves_with(config))
            },
    {
        let ck = match self.choose_certificate(first) {
            Ok(ck) => ck,
            Err(e) => return Err(e),
        };
        assert(ders(ck.chain@)[0] == ck.chain@[0]@);
        match server_config(ck, &spoken_versions()) {
            Ok(config) => Ok(config),
            Err(why) => Err(Error::Rustls(why)),
        }
    }
}

// Fingerprints

/// The name of the SHA-256 hash.
pub uninterp spec fn sha256(data: Seq<u8>) -> Seq<u8>;

/// The hash of the TLS 1.3 suite `TLS13_AES_128_GCM_SHA256` of *ring*, which is
/// SHA-256: a hash of 32 bytes.
#[verifier::external_body]
fn sha256_of(data: &[u8]) -> (r: Vec<u8>)
    ensures
        r@ == sha256(data@),
        r@.len() == 32,
{
    let suite = rustls::crypto::ring::cipher_suite::TLS13_AES_128_GCM_SHA256.tls13().unwrap();
    suite.common.hash_provider.hash(data).as_ref().to_vec()
}

/// The fingerprint of a certificate, as it is published.
pub open spec fn fingerprint(der: Seq<u8>) -> Seq<char> {
    hex_text(sha256(der))
}

fn same_bytes(a: &Vec<u8>, b: &Vec<u8>) -> (r: bool)
    ensures
        r == (a@ == b@),
{
    if a.len() != b.len() {
        return false;
    }
    let mut i: usize = 0;
    while i < a.len()
        invariant
            i <= a@.len() == b@.len(),
            forall|k: int| 0 <= k < i ==> a@[k] == b@[k],
        decreases a@.len() - i,
    {
        if a[i] != b[i] {
            return false;
        }
        i += 1;
    }
    assert(a@ =~= b@);
    true
}

/// A server certificate has another fingerprint than the one that is expected.
#[derive(Clone, Copy, Debug, PartialEq, Eq, Structural)]
pub struct FingerprintMismatch;

/// Accepts the one server certificate that has the expected fingerprint.
pub struct FingerprintVerifier {
    /// What handshake signatures are verified with.
    pub provider: Arc<CryptoProvider>,
    /// The SHA-256 hash of the certificate.
    pub fingerprint: Vec<u8>,
}

impl FingerprintVerifier {
    /// A verifier that expects a fingerprint.
    pub fn new(provider: Arc<CryptoProvider>, fingerprint: Vec<u8>) -> (r: Self)
        ensures
            r.provider == provider,
            r.fingerprint == fingerprint,
    {
        FingerprintVerifier { provider, fingerprint }
    }

    /// Accept a server certificate if it has the expected fingerprint, whatever
    /// else it says. A fingerprint has 32 bytes: one of another length fits no
    /// certificate.
    pub fn verify_server_cert(&self, end_entity: &[u8]) -> (r: Result<(), FingerprintMismatch>)
        ensures
            r is Ok <==> sha256(end_entity@) == self.fingerprint@,
            sha256(end_entity@).len() == 32,
            self.fingerprint@.len() != 32 ==> r is Err,
    {
        let fingerprint = sha256_of(end_entity);
        if same_bytes(&fingerprint, &self.fingerprint) {
            Ok(())
        } else {
            Err(FingerprintMismatch)
        }
    }
}

// The certificates that are served

/// The certificates that are served, and their fingerprints.
pub struct Info {
    pub certs: Vec<CertifiedKey>,
    pub fingerprints: Vec<String>,
}

impl Info {
    /// Each certificate goes with its fingerprint.
    pub open spec fn wf(self) -> bool {
        &&& self.fingerprints@.len() == self.certs@.len()
        &&& forall|i: int| 0 <= i < self.certs@.len() ==> (#[trigger] self.certs@[i]).wf()
        &&& forall|i: int|
            0 <= i < self.certs@.len() ==> (#[trigger] self.fingerprints@[i])@ == fingerprint(
                self.certs@[i].chain@[0]@,
            )
    }
}

/// Why a key cannot be served with its certificate.
pub enum PairFailure {
    /// The key cannot be used at all.
    Unusable(RustlsFailure),
    /// The key is another one than the certificate's.
    Mismatch(RustlsFailure),
}

/// The name of whether `webpki::EndEntityCert` can parse a certificate.
pub uninterp spec fn parses(der: Seq<u8>) -> bool;

/// `webpki::EndEntityCert::try_from`: whether a certificate can be parsed.
#[verifier::external_body]
fn can_parse(der: &Vec<u8>) -> (r: bool)
    ensures
        r == parses(der@),
{
    webpki::EndEntityCert::try_from(&CertificateDer::from(der.as_slice())).is_ok()
}

/// Loading the key with *ring*'s `any_supported_type`, and then
/// `rustls::sign::CertifiedKey::keys_match`: whether the key can be used, and
/// whether it is that of the first certificate, which is parsed for it. Loading
/// takes randomness, so that whether a key can be used is not promised.
#[verifier::external_body]
fn check_pair(ck: &CertifiedKey) -> (r: Result<(), PairFailure>)
    requires
        ck.wf(),
    ensures
        r is Ok ==> parses(ck.chain@[0]@) && key_fits(ck.chain@[0]@, ck.key.format, ck.key.der@),
        r matches Err(PairFailure::Mismatch(_)) ==> !key_fits(
            ck.chain@[0]@,
            ck.key.format,
            ck.key.der@,
        ),
{
    let der = ck.key.der.clone();
    let key = match ck.key.format {
        KeyFormat::Pkcs1 => PrivateKeyDer::Pkcs1(der.into()),
        KeyFormat::Sec1 => PrivateKeyDer::Sec1(der.into()),
        KeyFormat::Pkcs8 => PrivateKeyDer::Pkcs8(der.into()),
    };
    let key = rustls::crypto::ring::sign::any_supported_type(&key).map_err(PairFailure::Unusable)?;
    let chain = ck.chain.iter().map(|c| CertificateDer::from(c.clone())).collect();
    rustls::sign::CertifiedKey::new(chain, key).keys_match().map_err(PairFailure::Mismatch)
}

/// Names what came of checking a pair as the error that it is.
pub fn checked(ck: CertifiedKey, cert: &PathBuf, key: &PathBuf, check: Result<(), PairFailure>) -> (r: Result<
    CertifiedKey,
    Error,
>)
    ensures
        match check {
            Ok(_) => r == Ok::<CertifiedKey, Error>(ck),
            Err(PairFailure::Unusable(why)) => r == Err::<CertifiedKey, Error>(Error::Rustls(why)),
            Err(PairFailure::Mismatch(why)) => r == Err::<CertifiedKey, Error>(
                Error::KeyMismatch { key: *key, cert: *cert, source: why },
            ),
        },
{
    match check {
        Ok(_) => Ok(ck),
        Err(PairFailure::Unusable(why)) => Err(Error::Rustls(why)),
        Err(PairFailure::Mismatch(why)) => Err(
            Error::KeyMismatch { key: key.clone(), cert: cert.clone(), source: why },
        ),
    }
}

/// What came of checking a generated pair: a key that cannot be used with its
/// certificate is an error of rustls.
pub fn checked_generated(ck: CertifiedKey, check: Result<(), PairFailure>) -> (r: Result<
    CertifiedKey,
    Error,
>)
    ensures
        match check {
            Ok(_) => r == Ok::<CertifiedKey, Error>(ck),
            Err(PairFailure::Unusable(why)) => r == Err::<CertifiedKey, Error>(Error::Rustls(why)),
            Err(PairFailure::Mismatch(why)) => r == Err::<CertifiedKey, Error>(Error::Rustls(why)),
        },
{
    match check {
        Ok(_) => Ok(ck),
        Err(PairFailure::Unusable(why)) => Err(Error::Rustls(why)),
        Err(PairFailure::Mismatch(why)) => Err(Error::Rustls(why)),
    }
}

/// Whether an error is one for a pair of files that is not served.
pub open spec fn not_served(files: PairFiles, cert: PathBuf, key: PathBuf, e: Error) -> bool {
    if holds_pair(files) {
        e is Rustls || (e matches Error::KeyMismatch { key: k, cert: c, source: _ } && k == key && c
            == cert && !own_key(files_chain_and_key(files)))
    } else {
        no_pair(files, e)
    }
}

/// Whether all certificates of a list were loaded.
pub open spec fn all_loaded(loaded: Seq<Result<CertifiedKey, Error>>) -> bool {
    forall|i: int| 0 <= i < loaded.len() ==> (#[trigger] loaded[i]) is Ok
}

/// Whether an error is that of the first certificate of a list that was not
/// loaded.
pub open spec fn first_unloaded(loaded: Seq<Result<CertifiedKey, Error>>, e: Error) -> bool {
    exists|i: int|
        {
            &&& 0 <= i < loaded.len()
            &&& #[trigger] loaded[i] == Err::<CertifiedKey, Error>(e)
            &&& forall|j: int| 0 <= j < i ==> (#[trigger] loaded[j]) is Ok
        }
}

/// Serves certificates.
pub struct ServeCerts {
    pub info: Info,
}

/// The fingerprints of certificates, one for each.
fn fingerprints_of(certs: &Vec<CertifiedKey>) -> (r: Vec<String>)
    requires
        forall|i: int| 0 <= i < certs@.len() ==> (#[trigger] certs@[i]).wf(),
    ensures
        r@.len() == certs@.len(),
        forall|i: int|
            0 <= i < certs@.len() ==> (#[trigger] r@[i])@ == fingerprint(certs@[i].chain@[0]@),
{
    let mut out: Vec<String> = Vec::new();
    let mut i: usize = 0;
    while i < certs.len()
        invariant
            i <= certs@.len(),
            out@.len() == i,
            forall|k: int| 0 <= k < certs@.len() ==> (#[trigger] certs@[k]).wf(),
            forall|k: int|
                0 <= k < i ==> (#[trigger] out@[k])@ == fingerprint(certs@[k].chain@[0]@),
        decreases certs@.len() - i,
    {
        assert(certs@[i as int].wf());
        let hash = sha256_of(certs[i].chain[0].as_slice());
        out.push(encode(hash.as_slice()));
        i += 1;
    }
    out
}

impl ServeCerts {
    /// Serves nothing yet.
    pub fn new() -> (r: Self)
        ensures
            r.info.wf(),
            r.info.certs@.len() == 0,
            r.info.fingerprints@.len() == 0,
    {
        ServeCerts { info: Info { certs: Vec::new(), fingerprints: Vec::new() } }
    }

    /// Load a certificate and its key from a pair of files.
    pub fn load(cert: &PathBuf, key: &PathBuf, files: PairFiles) -> (r: Result<CertifiedKey, Error>)
        ensures
            r matches Ok(ck) ==> pair_read(files, ck) && parses(ck.chain@[0]@) && own_key(
                chain_and_key(ck),
            ),
            r matches Err(e) ==> not_served(files, *cert, *key, e),
            !holds_pair(files) ==> r is Err,
    {
        let ck = match read_pair(files) {
            Ok(ck) => ck,
            Err(e) => return Err(e),
        };
        let check = check_pair(&ck);
        checked(ck, cert, key, check)
    }

    /// Generate a certificate for these hostnames and its key, and load the key.
    pub fn generate(hostnames: &Vec<String>) -> (r: Result<CertifiedKey, Error>)
        ensures
            r matches Ok(ck) ==> ServeCerts::serves_generated(ck, texts(hostnames@)),
            r matches Err(e) ==> e is Rcgen || e is Clock || e is Rustls,
    {
        let ck = match generate(hostnames) {
            Ok(ck) => ck,
            Err(e) => return Err(e),
        };
        assert(ders(ck.chain@)[0] == ck.chain@[0]@);
        let check = check_pair(&ck);
        checked_generated(ck, check)
    }

    /// Replace the certificates.
    pub fn set_certs(&mut self, certs: Vec<CertifiedKey>)
        requires
            forall|i: int| 0 <= i < certs@.len() ==> (#[trigger] certs@[i]).wf(),
        ensures
            final(self).info.wf(),
            final(self).info.certs == certs,
    {
        let fingerprints = fingerprints_of(&certs);
        self.info = Info { certs, fingerprints };
    }

    /// Whether a pair of files gave a certificate that can be served.
    pub open spec fn serves_pair(files: PairFiles, ck: CertifiedKey) -> bool {
        &&& pair_read(files, ck)
        &&& parses(ck.chain@[0]@)
        &&& own_key(chain_and_key(ck))
    }

    /// Whether a certificate was generated for these hostnames and can be
    /// served.
    pub open spec fn serves_generated(ck: CertifiedKey, hostnames: Seq<Seq<char>>) -> bool {
        &&& generated_for(ck, hostnames)
        &&& all_ascii(hostnames)
        &&& parses(ck.chain@[0]@)
        &&& own_key(chain_and_key(ck))
    }

    /// Whether certificates are those of a configuration: those of the pairs of
    /// files, in order, and then a generated one if names are configured for
    /// it.
    pub open spec fn configured(config: Server, files: Seq<PairFiles>, certs: Seq<CertifiedKey>) -> bool {
        let n = files.len() as int;
        &&& certs.len() == n + if config.generate@.len() > 0 {
            1int
        } else {
            0int
        }
        &&& forall|i: int| 0 <= i < n ==> ServeCerts::serves_pair(files[i], #[trigger] certs[i])
        &&& config.generate@.len() > 0 ==> ServeCerts::serves_generated(
            certs[n],
            texts(config.generate@),
        )
    }

    /// Replace the ones that are served by these, if all of them were loaded.
    ///
    /// A failure leaves the ones that are served in place.
    pub fn install(&mut self, loaded: Vec<Result<CertifiedKey, Error>>) -> (r: Result<(), Error>)
        requires
            forall|i: int|
                0 <= i < loaded@.len() ==> ((#[trigger] loaded@[i]) matches Ok(ck) ==> ck.wf()),
        ensures
            r is Ok <==> all_loaded(loaded@),
            r is Ok ==> {
                &&& final(self).info.wf()
                &&& final(self).info.certs@.len() == loaded@.len()
                &&& forall|i: int|
                    0 <= i < loaded@.len() ==> loaded@[i] == Ok::<CertifiedKey, Error>(
                        #[trigger] final(self).info.certs@[i],
                    )
            },
            r matches Err(e) ==> first_unloaded(loaded@, e) && *final(self) == *old(self),
    {
        let ghost all = loaded@;
        let mut rest = loaded;
        let mut certs: Vec<CertifiedKey> = Vec::new();
        assert(all.skip(0) =~= all);
        while rest.len() > 0
            invariant
                all == loaded@,
                certs@.len() <= all.len(),
                rest@ == all.skip(certs@.len() as int),
                *self == *old(self),
                forall|i: int|
                    0 <= i < all.len() ==> ((#[trigger] all[i]) matches Ok(ck) ==> ck.wf()),
                forall|i: int|
                    0 <= i < certs@.len() ==> all[i] == Ok::<CertifiedKey, Error>(
                        #[trigger] certs@[i],
                    ),
            decreases rest@.len(),
        {
            let ghost n = certs@.len() as int;
            let next = rest.remove(0);
            assert(next == all[n]);
            assert(rest@ =~= all.skip(n + 1));
            match next {
                Ok(ck) => {
                    certs.push(ck);
                },
                Err(e) => {
                    assert forall|j: int| 0 <= j < n implies (#[trigger] all[j]) is Ok by {
                        assert(all[j] == Ok::<CertifiedKey, Error>(certs@[j]));
                    }
                    assert(all[n] == Err::<CertifiedKey, Error>(e));
                    return Err(e);
                },
            }
        }
        assert(certs@.len() == all.len());
        assert forall|i: int| 0 <= i < all.len() implies (#[trigger] all[i]) is Ok by {
            assert(all[i] == Ok::<CertifiedKey, Error>(certs@[i]));
        }
        assert forall|i: int| 0 <= i < certs@.len() implies (#[trigger] certs@[i]).wf() by {
            assert(all[i] == Ok::<CertifiedKey, Error>(certs@[i]));
        }
        self.set_certs(certs);
        Ok(())
    }

    /// Load the configured certificates, and replace the ones that are served.
    ///
    /// A failure leaves the ones that are served in place.
    pub fn load_certs(&mut self, config: &Server, files: Vec<PairFiles>) -> (r: Result<(), Error>)
        requires
            old(self).info.wf(),
            files@.len() == config.cert@.len(),
        ensures
            final(self).info.wf(),
            r is Err ==> *final(self) == *old(self),
            config.cert@.len() != config.key@.len() ==> (r matches Err(e) && e is CertKeyCountMismatch),
            config.cert@.len() == config.key@.len() && config.cert@.len() == 0
                && config.generate@.len() == 0 ==> (r matches Err(e) && e is NoCertSource),
            config.cert@.len() == config.key@.len() && (config.cert@.len() > 0
                || config.generate@.len() > 0) ==> match r {
                Ok(_) => {
                    &&& ServeCerts::configured(*config, files@, final(self).info.certs@)
                    &&& forall|i: int| 0 <= i < files@.len() ==> holds_pair(#[trigger] files@[i])
                },
                Err(e) => {
                    ||| config.generate@.len() > 0 && (e is Rcgen || e is Clock || e is Rustls)
                        && forall|i: int|
                        0 <= i < files@.len() ==> holds_pair(#[trigger] files@[i])
                    ||| exists|i: int|
                        {
                            &&& 0 <= i < files@.len()
                            &&& not_served(
                                #[trigger] files@[i],
                                config.cert@[i],
                                config.key@[i],
                                e,
                            )
                            &&& forall|j: int| 0 <= j < i ==> holds_pair(#[trigger] files@[j])
                        }
                },
            },
    {
        if config.cert.len() != config.key.len() {
            return Err(Error::CertKeyCountMismatch);
        }
        if config.cert.len() == 0 && config.generate.len() == 0 {
            return Err(Error::NoCertSource);
        }
        let ghost all = files@;
        let mut rest = files;
        let mut loaded: Vec<Result<CertifiedKey, Error>> = Vec::new();
        let mut failed = false;
        let mut i: usize = 0;
        assert(all.skip(0) =~= all);
        while i < config.cert.len() && !failed
            invariant
                all == files@,
                i <= config.cert@.len() == config.key@.len(),
                config.cert@.len() == all.len(),
                rest@ == all.skip(i as int),
                *self == *old(self),
                loaded@.len() == i,
                failed ==> i > 0,
                forall|k: int|
                    0 <= k < (if failed {
                        i - 1
                    } else {
                        i as int
                    }) ==> {
                        &&& holds_pair(all[k])
                        &&& (#[trigger] loaded@[k]) matches Ok(ck) && ServeCerts::serves_pair(
                            all[k],
                            ck,
                        )
                    },
                failed ==> (loaded@[i - 1] matches Err(e) && not_served(
                    all[i - 1],
                    config.cert@[i - 1],
                    config.key@[i - 1],
                    e,
                )),
            decreases config.cert@.len() - i,
        {
            let ghost now = all[i as int];
            let pair = rest.remove(0);
            assert(pair == now);
            assert(rest@ =~= all.skip(i + 1));
            let result = ServeCerts::load(&config.cert[i], &config.key[i], pair);
            failed = result.is_err();
            loaded.push(result);
            i += 1;
        }
        if config.generate.len() > 0 && !failed {
            loaded.push(ServeCerts::generate(&config.generate));
        }
        let ghost given = loaded@;
        let r = self.install(loaded);
        proof {
            let n = all.len() as int;
            if r is Ok {
                if failed {
                    assert(given[i - 1] is Ok);
                }
                assert forall|k: int| 0 <= k < n implies ServeCerts::serves_pair(
                    all[k],
                    #[trigger] self.info.certs@[k],
                ) by {
                    assert(given[k] == Ok::<CertifiedKey, Error>(self.info.certs@[k]));
                }
                assert forall|k: int| 0 <= k < n implies holds_pair(#[trigger] all[k]) by {
                    assert(given[k] is Ok);
                }
                if config.generate@.len() > 0 {
                    assert(given[n] == Ok::<CertifiedKey, Error>(self.info.certs@[n]));
                }
            } else {
                let e = r->Err_0;
                let k = choose|k: int|
                    {
                        &&& 0 <= k < given.len()
                        &&& #[trigger] given[k] == Err::<CertifiedKey, Error>(e)
                        &&& forall|j: int| 0 <= j < k ==> (#[trigger] given[j]) is Ok
                    };
                assert forall|j: int| 0 <= j < n && j < k implies holds_pair(
                    #[trigger] all[j],
                ) by {
                    assert(given[j] is Ok);
                }
                if failed {
                    assert(given[i - 1] is Err);
                    assert(k == i - 1);
                    assert(not_served(all[k], config.cert@[k], config.key@[k], e));
                } else {
                    assert(k == n);
                }
            }
        }
        r
    }
}

/// The files to watch for changes: the certificates and the keys. There is
/// nothing to watch where all certificates are generated.
pub fn watched(config: &Server) -> (r: Option<Vec<PathBuf>>)
    ensures
        r is None <==> config.cert@.len() + config.key@.len() == 0,
        r matches Some(paths) ==> paths@ == config.cert@ + config.key@,
{
    if config.cert.len() == 0 && config.key.len() == 0 {
        return None;
    }
    let mut paths: Vec<PathBuf> = Vec::new();
    let mut i: usize = 0;
    while i < config.cert.len()
        invariant
            i <= config.cert@.len(),
            paths@ == config.cert@.take(i as int),
        decreases config.cert@.len() - i,
    {
        paths.push(config.cert[i].clone());
        assert(paths@ =~= config.cert@.take(i + 1));
        i += 1;
    }
    assert(config.cert@.take(config.cert@.len() as int) + config.key@.take(0) =~= config.cert@);
    let mut k: usize = 0;
    while k < config.key.len()
        invariant
            k <= config.key@.len(),
            paths@ == config.cert@ + config.key@.take(k as int),
        decreases config.key@.len() - k,
    {
        paths.push(config.key[k].clone());
        assert(paths@ =~= config.cert@ + config.key@.take(k + 1));
        k += 1;
    }
    assert(config.key@.take(config.key@.len() as int) =~= config.key@);
    Some(paths)
}

// Choosing a certificate for a client

/// The name of whether `ServerName` accepts a text: a DNS name or an IP address.
pub uninterp spec fn server_name_ok(name: Seq<char>) -> bool;

/// `ServerName::try_from`: whether a text is a DNS name or an IP address.
#[verifier::external_body]
fn is_server_name(name: &str) -> (r: bool)
    ensures
        r == server_name_ok(name@),
{
    ServerName::try_from(name).is_ok()
}

/// The name of whether a certificate is valid for a server name.
pub uninterp spec fn covers(der: Seq<u8>, name: Seq<char>) -> bool;

/// `EndEntityCert::verify_is_valid_for_subject_name`: whether a certificate is
/// valid for a server name.
#[verifier::external_body]
fn is_valid_for(der: &Vec<u8>, name: &str) -> (r: bool)
    requires
        parses(der@),
        server_name_ok(name@),
    ensures
        r == covers(der@, name@),
{
    let der = CertificateDer::from(der.as_slice());
    let name = ServerName::try_from(name).unwrap();
    webpki::EndEntityCert::try_from(&der).unwrap().verify_is_valid_for_subject_name(&name).is_ok()
}

/// What came of choosing a certificate.
#[derive(Clone, Copy, Debug, PartialEq, Eq, Structural)]
pub enum Resolved {
    /// Serve the certificate with this number.
    Certificate(usize),
    /// There is no certificate.
    Nothing,
    /// A certificate had to be looked into that cannot be parsed.
    Unreadable,
}

/// The first certificate of each chain.
pub open spec fn leaf(certs: Seq<CertifiedKey>, i: int) -> Seq<u8> {
    certs[i].chain@[0]@
}

/// Whether the certificate with this number is the first that is valid for a
/// name.
pub open spec fn first_valid(certs: Seq<CertifiedKey>, name: Seq<char>, i: int) -> bool {
    &&& 0 <= i < certs.len()
    &&& covers(leaf(certs, i), name)
    &&& forall|j: int| 0 <= j < i ==> !covers(#[trigger] leaf(certs, j), name)
}

/// Whether no certificate is valid for a name.
pub open spec fn covers_nowhere(certs: Seq<CertifiedKey>, name: Seq<char>) -> bool {
    forall|i: int| 0 <= i < certs.len() ==> !covers(#[trigger] leaf(certs, i), name)
}

/// Whether every certificate that has to be looked into for a name can be
/// parsed: those up to the first that is valid for it.
pub open spec fn readable_for(certs: Seq<CertifiedKey>, name: Seq<char>) -> bool {
    forall|i: int|
        0 <= i < certs.len() && (forall|j: int| 0 <= j < i ==> !covers(#[trigger] leaf(certs, j), name))
            ==> parses(#[trigger] leaf(certs, i))
}

impl ServeCerts {
    fn is_readable_for(&self, name: &str) -> (r: bool)
        requires
            self.info.wf(),
            server_name_ok(name@),
        ensures
            r == readable_for(self.info.certs@, name@),
    {
        let ghost certs = self.info.certs@;
        let mut i: usize = 0;
        while i < self.info.certs.len()
            invariant
                certs == self.info.certs@,
                i <= certs.len(),
                self.info.wf(),
                server_name_ok(name@),
                forall|j: int| 0 <= j < i ==> !covers(#[trigger] leaf(certs, j), name@),
                forall|j: int| 0 <= j < i ==> parses(#[trigger] leaf(certs, j)),
            decreases certs.len() - i,
        {
            assert(self.info.certs@[i as int].wf());
            assert(leaf(certs, i as int) == self.info.certs@[i as int].chain@[0]@);
            let der = &self.info.certs[i].chain[0];
            if !can_parse(der) {
                return false;
            }
            if is_valid_for(der, name) {
                return true;
            }
            i += 1;
        }
        true
    }

    /// The first certificate that is valid for the name that a client asks for,
    /// if it asks for one.
    pub fn best_certificate(&self, server_name: Option<&str>) -> (r: Option<usize>)
        requires
            self.info.wf(),
            server_name matches Some(name) ==> server_name_ok(name@) ==> readable_for(
                self.info.certs@,
                name@,
            ),
        ensures
            r is Some ==> server_name is Some && server_name_ok(server_name->Some_0@),
            server_name matches Some(name) ==> server_name_ok(name@) ==> match r {
                Some(i) => first_valid(self.info.certs@, name@, i as int),
                None => covers_nowhere(self.info.certs@, name@),
            },
    {
        let name = match server_name {
            Some(name) => name,
            None => return None,
        };
        if !is_server_name(name) {
            return None;
        }
        let ghost certs = self.info.certs@;
        let mut i: usize = 0;
        while i < self.info.certs.len()
            invariant
                certs == self.info.certs@,
                i <= certs.len(),
                self.info.wf(),
                server_name == Some(name),
                server_name_ok(name@),
                readable_for(certs, name@),
                forall|j: int| 0 <= j < i ==> !covers(#[trigger] leaf(certs, j), name@),
            decreases certs.len() - i,
        {
            assert(self.info.certs@[i as int].wf());
            assert(parses(leaf(certs, i as int)));
            if is_valid_for(&self.info.certs[i].chain[0], name) {
                return Some(i);
            }
            i += 1;
        }
        None
    }

    /// The certificate to serve to a client: the first that is valid for the
    /// name that it asks for, else the first of all.
    pub fn resolve(&self, server_name: Option<&str>) -> (r: Resolved)
        requires
            self.info.wf(),
        ensures
            server_name is None || !server_name_ok(server_name->Some_0@) ==> r == (
            if self.info.certs@.len() == 0 {
                Resolved::Nothing
            } else {
                Resolved::Certificate(0)
            }),
            server_name matches Some(name) ==> server_name_ok(name@) ==> match r {
                Resolved::Unreadable => !readable_for(self.info.certs@, name@),
                Resolved::Nothing => self.info.certs@.len() == 0,
                Resolved::Certificate(i) => readable_for(self.info.certs@, name@) && (first_valid(
                    self.info.certs@,
                    name@,
                    i as int,
                ) || (i == 0 && self.info.certs@.len() > 0 && forall|j: int|
                    0 <= j < self.info.certs@.len() ==> !covers(
                        #[trigger] leaf(self.info.certs@, j),
                        name@,
                    ))),
            },
    {
        if let Some(name) = server_name {
            if is_server_name(name) && !self.is_readable_for(name) {
                return Resolved::Unreadable;
            }
        }
        match self.best_certificate(server_name) {
            Some(i) => Resolved::Certificate(i),
            None => if self.info.certs.len() == 0 {
                Resolved::Nothing
            } else {
                Resolved::Certificate(0)
            },
        }
    }
}

// Laws

/// A published fingerprint identifies its certificate to a client: a verifier
/// that expects the published fingerprint, read back from its text, accepts the
/// certificate, and it accepts no certificate of another hash.
pub proof fn law_published_fingerprint_verifies(der: Seq<u8>, other: Seq<u8>)
    ensures
        crate::base16::is_hex(fingerprint(der)),
        crate::base16::hex_bytes(fingerprint(der)) == sha256(der),
        sha256(other) == crate::base16::hex_bytes(fingerprint(der)) <==> sha256(other) == sha256(der),
        fingerprint(other) == fingerprint(der) <==> sha256(other) == sha256(der),
{
    crate::base16::law_hex_reads_back(sha256(der));
    crate::base16::law_hex_distinguishes(sha256(other), sha256(der));
}

/// A generated certificate is valid when it is generated, and for two weeks
/// altogether.
pub proof fn law_generated_certificate_is_valid_now(now: i128)
    requires
        validity(now) is Some,
    ensures
        validity(now)->Some_0.0 <= now <= validity(now)->Some_0.1,
        validity(now)->Some_0.1 - validity(now)->Some_0.0 == 14 * DAY_NANOS,
        now - validity(now)->Some_0.0 == DAY_NANOS,
{
}

/// Loading the certificates of files that hold roots one after another trusts
/// what each of them holds, in order: the roots of a list of files followed by
/// another are the roots of the one followed by those of the other.
pub proof fn law_roots_add_up(a: Seq<CertFile>, b: Seq<CertFile>)
    ensures
        roots_in(a + b) == roots_in(a) + roots_in(b),
    decreases b.len(),
{
    if b.len() == 0 {
        assert(a + b =~= a);
        assert(roots_in(a) + roots_in(b) =~= roots_in(a));
    } else {
        law_roots_add_up(a, b.drop_last());
        assert((a + b).drop_last() =~= a + b.drop_last());
        assert((a + b).last() == b.last());
        assert(roots_in(a + b) =~= roots_in(a) + roots_in(b));
    }
}

/// A certificate that is generated is valid from a day ago, for two weeks, and
/// none is generated exactly if either of these is not in the years 0 to 9999.
pub proof fn law_generated_certificates_last_two_weeks(now: i128, r: Option<(i128, i128)>)
    requires
        call_ensures(validity_at, (now,), r),
    ensures
        r matches Some(span) ==> {
            &&& now - span.0 == 24 * 60 * 60 * 1_000_000_000
            &&& span.1 - span.0 == 14 * 24 * 60 * 60 * 1_000_000_000
        },
        r is None <==> now - 86_400_000_000_000 < -62_167_219_200_000_000_000 || now
            + 1_123_200_000_000_000 > 253_402_300_799_999_999_999,
{
}

/// What a certificate file and a key file hold is read, and a file that cannot be
/// read says why.
pub proof fn law_files_are_read(
    cert: CertFile,
    key: KeyFile,
    certs: Result<Vec<Vec<u8>>, Error>,
    read: Result<PrivateKey, Error>,
)
    requires
        call_ensures(read_certs, (cert,), certs),
        call_ensures(read_key, (key,), read),
    ensures
        cert matches CertFile::Unopened(why) ==> certs == Err::<Vec<Vec<u8>>, Error>(Error::Open(why)),
        cert matches CertFile::Unread(why) ==> certs == Err::<Vec<Vec<u8>>, Error>(Error::Read(why)),
        cert matches CertFile::Bytes(pem) ==> match certificates(pem@) {
            Some(found) => certs matches Ok(v) && ders(v@) == found,
            None => certs matches Err(Error::Read(_)),
        },
        key matches KeyFile::Unread(why) ==> read == Err::<PrivateKey, Error>(Error::Key(why)),
        key matches KeyFile::Bytes(pem) ==> match private_key(pem@) {
            Some(found) => read matches Ok(k) && k.format == found.0 && k.der@ == found.1,
            None => read matches Err(Error::Key(_)),
        },
{
}

/// A pair of files is read as its certificates and its key, each from its own
/// file. What is wrong with the certificates is reported before what is wrong
/// with the key.
pub proof fn law_pairs_are_read(
    files: PairFiles,
    certs: Result<Vec<Vec<u8>>, Error>,
    key: Result<PrivateKey, Error>,
    r: Result<CertifiedKey, Error>,
)
    requires
        call_ensures(read_certs, (files.cert,), certs),
        call_ensures(read_key, (files.key,), key),
        call_ensures(read_pair, (files,), r),
    ensures
        certs is Err ==> r is Err && (r->Err_0 is Open <==> certs->Err_0 is Open) && (r->Err_0 is Read
            <==> certs->Err_0 is Read),
        certs matches Ok(v) ==> v@.len() == 0 ==> r == Err::<CertifiedKey, Error>(Error::Empty),
        certs matches Ok(v) ==> v@.len() > 0 && key is Err ==> (r matches Err(Error::Key(_))),
        certs matches Ok(v) ==> key matches Ok(k) ==> v@.len() > 0 ==> (r matches Ok(ck) && {
            &&& ders(ck.chain@) == ders(v@)
            &&& ck.key.format == k.format
            &&& ck.key.der@ == k.der@
        }),
{
    if let Ok(v) = certs {
        assert(ders(v@).len() == v@.len());
    }
    if let Ok(ck) = r {
        assert(ders(ck.chain@).len() == ck.chain@.len());
    }
}

/// A client's identity is its certificates and its key, each from its own file.
pub proof fn law_identities_are_read(
    cert: IdentityFile,
    key: IdentityFile,
    r: Result<Identity, Error>,
)
    requires
        call_ensures(read_identity, (cert, key), r),
    ensures
        cert matches IdentityFile::Unread(why) ==> r == Err::<Identity, Error>(Error::ReadFile(why)),
        cert matches IdentityFile::Bytes(pem) ==> certificates(pem@) is None ==> (r matches Err(
            Error::Read(_),
        )),
        cert matches IdentityFile::Bytes(pem) ==> certificates(pem@) matches Some(chain) ==> {
            &&& chain.len() == 0 ==> r == Err::<Identity, Error>(Error::Empty)
            &&& chain.len() > 0 ==> (key matches IdentityFile::Unread(why) ==> r == Err::<
                Identity,
                Error,
            >(Error::ReadFile(why)))
            &&& chain.len() > 0 ==> (key matches IdentityFile::Bytes(text) ==> match private_key(
                text@,
            ) {
                None => r matches Err(Error::Key(_)),
                Some(found) => r matches Ok(identity) && {
                    &&& ders(identity.chain@) == chain
                    &&& identity.key.format == found.0
                    &&& identity.key.der@ == found.1
                },
            })
        },
{
}

/// The trust anchors of one file: those of all its certificates.
pub open spec fn file_anchors(file: CertFile) -> Seq<Anchor> {
    match file {
        CertFile::Bytes(pem) => certificates(pem@)->Some_0.map_values(
            |c: Seq<u8>| anchor_of(c)->Some_0,
        ),
        _ => Seq::empty(),
    }
}

/// Whether every certificate of a file is a trust anchor, and there is one.
pub open spec fn is_root_file(file: CertFile) -> bool {
    file matches CertFile::Bytes(pem) && certificates(pem@) matches Some(certs) && certs.len() > 0
        && forall|i: int| 0 <= i < certs.len() ==> anchor_of(#[trigger] certs[i]) is Some
}

/// Whether every file is one of roots.
pub open spec fn all_root_files(files: Seq<CertFile>) -> bool {
    forall|i: int| 0 <= i < files.len() ==> is_root_file(#[trigger] files[i])
}

proof fn lemma_roots_in(files: Seq<CertFile>)
    requires
        forall|i: int| 0 <= i < files.len() ==> holds_roots(#[trigger] files[i]),
    ensures
        roots_in(files) == files.map_values(|f: CertFile| file_anchors(f)).flatten(),
    decreases files.len(),
{
    let f = |f: CertFile| file_anchors(f);
    if files.len() > 0 {
        let front = files.drop_last();
        assert forall|i: int| 0 <= i < front.len() implies holds_roots(#[trigger] front[i]) by {
            assert(front[i] == files[i]);
        }
        lemma_roots_in(front);
        assert(holds_roots(files[files.len() - 1]));
        assert(files.map_values(f) =~= front.map_values(f).push(f(files.last())));
        front.map_values(f).lemma_flatten_push(f(files.last()));
    } else {
        assert(files.map_values(f).len() == 0);
        assert(roots_in(files) =~= files.map_values(f).flatten());
    }
}

/// A server trusts exactly the certificates of all its root files, in order, if
/// each of them holds roots and nothing else.
pub proof fn law_servers_trust_their_roots(
    server: &Server,
    files: Vec<CertFile>,
    r: Result<RootCertStore, Error>,
)
    requires
        call_ensures(Server::load_roots, (server, files), r),
    ensures
        r matches Ok(store) ==> anchors(store) == files@.map_values(
            |f: CertFile| file_anchors(f),
        ).flatten(),
        r is Ok ==> all_root_files(files@),
        all_root_files(files@) ==> r is Ok,
{
    if all_root_files(files@) {
        assert forall|i: int| 0 <= i < files@.len() implies holds_roots(#[trigger] files@[i]) by {
            assert(is_root_file(files@[i]));
        }
        assert(all_hold_roots(files@));
    }
    if r is Ok {
        assert forall|i: int| 0 <= i < files@.len() implies is_root_file(#[trigger] files@[i]) by {
            assert(holds_roots(files@[i]));
        }
        lemma_roots_in(files@);
    }
}

/// A client trusts the certificates of its root files, and those of the system
/// exactly if it has none. It verifies whom it connects to unless that is
/// disabled. It presents itself exactly if a certificate and a key are
/// configured, and one without the other is an error.
pub proof fn law_clients_connect_as_configured(
    client: &Client,
    files: ClientFiles,
    r: Result<ClientPlan, Error>,
)
    requires
        call_ensures(Client::plan, (client, files), r),
    ensures
        r matches Ok(plan) ==> {
            &&& client.root@.len() > 0 ==> anchors(plan.roots) == files.roots@.map_values(
                |f: CertFile| file_anchors(f),
            ).flatten()
            &&& client.root@.len() == 0 ==> anchors(plan.roots) == files.native@.map_values(
                |c: Vec<u8>| anchor_of(c@)->Some_0,
            )
            &&& client.disable_verify is None ==> plan.verify
            &&& client.disable_verify matches Some(disabled) ==> plan.verify == !disabled
            &&& plan.identity is Some <==> client.cert is Some && client.key is Some
            &&& plan.identity is None <==> client.cert is None && client.key is None
        },
        (client.cert is Some) != (client.key is Some) ==> r is Err,
        client.root@.len() == 0 && all_anchors(ders(files.native@)) && client.cert is None
            && client.key is None ==> r is Ok,
        client.root@.len() > 0 && all_root_files(files.roots@) && client.cert is None && client.key is None
            ==> r is Ok,
{
    if client.root@.len() > 0 && all_root_files(files.roots@) {
        assert forall|i: int| 0 <= i < files.roots@.len() implies holds_roots(
            #[trigger] files.roots@[i],
        ) by {
            assert(is_root_file(files.roots@[i]));
        }
        assert(client.has_roots(files));
    }
    if let Ok(plan) = r {
        if client.root@.len() > 0 {
            lemma_roots_in(files.roots@);
        } else {
            assert(anchors(plan.roots) =~= files.native@.map_values(
                |c: Vec<u8>| anchor_of(c@)->Some_0,
            ));
        }
    }
}

/// A server presents the first pair of files wherever certificates are
/// configured, and otherwise a certificate for the names that are configured. It
/// needs as many keys as certificates, and one of the two sources.
pub proof fn law_servers_present_a_certificate(
    server: &Server,
    first: PairFiles,
    read: Result<CertifiedKey, Error>,
    r: Result<CertifiedKey, Error>,
)
    requires
        call_ensures(read_pair, (first,), read),
        call_ensures(Server::choose_certificate, (server, Some(first)), r),
    ensures
        server.cert@.len() > 0 && server.cert@.len() != server.key@.len() ==> r == Err::<
            CertifiedKey,
            Error,
        >(Error::CertKeyCountMismatch),
        server.cert@.len() > 0 && server.cert@.len() == server.key@.len() ==> {
            &&& r is Ok <==> read is Ok
            &&& read matches Ok(a) ==> (r matches Ok(b) && ders(a.chain@) == ders(b.chain@)
                && a.key.format == b.key.format && a.key.der@ == b.key.der@)
        },
        server.cert@.len() == 0 && server.generate@.len() == 0 ==> r == Err::<CertifiedKey, Error>(
            Error::NoCertSource,
        ),
        server.cert@.len() == 0 && server.generate@.len() > 0 ==> (r matches Ok(ck) ==> {
            &&& ck.chain@.len() == 1
            &&& exists|from: i128, to: i128|
                {
                    &&& #[trigger] issued(
                        ck.chain@[0]@,
                        ck.key.der@,
                        texts(server.generate@),
                        from,
                        to,
                    )
                    &&& to - from == 14 * 24 * 60 * 60 * 1_000_000_000
                }
        }),
{
    if server.cert@.len() == 0 && server.generate@.len() > 0 {
        if let Ok(ck) = r {
            let now = choose|now: i128| #[trigger]
                generated_at(ck, texts(server.generate@), now);
            assert(generated_at(ck, texts(server.generate@), now));
            let span = validity(now)->Some_0;
            assert(issued(
                ck.chain@[0]@,
                ck.key.der@,
                texts(server.generate@),
                span.0,
                span.1,
            ));
        }
    }
}

/// A client that expects the published fingerprint of a certificate that is
/// served accepts this certificate, and no other of another hash.
pub proof fn law_served_certificates_are_accepted(
    served: &mut ServeCerts,
    certs: Vec<CertifiedKey>,
    i: int,
    text: &str,
    bytes: Vec<u8>,
    provider: Arc<CryptoProvider>,
    verifier: FingerprintVerifier,
    der: &[u8],
    r: Result<(), FingerprintMismatch>,
)
    requires
        call_ensures(ServeCerts::set_certs, (served, certs), ()),
        0 <= i < certs@.len(),
        text@ == final(served).info.fingerprints@[i]@,
        bytes@ == crate::base16::hex_bytes(text@),
        call_ensures(FingerprintVerifier::new, (provider, bytes), verifier),
        call_ensures(FingerprintVerifier::verify_server_cert, (&verifier, der), r),
    ensures
        crate::base16::is_hex(text@),
        final(served).info.certs@ == certs@,
        final(served).info.fingerprints@.len() == certs@.len(),
        der@ == certs@[i].chain@[0]@ ==> r is Ok,
        sha256(der@) != sha256(certs@[i].chain@[0]@) ==> r is Err,
        text@.len() == 2 * sha256(certs@[i].chain@[0]@).len(),
{
    crate::base16::law_hex_reads_back(sha256(certs@[i].chain@[0]@));
}

/// The best certificate for a client is the first for the name that it asks for,
/// and there is none exactly if no certificate is valid for this name or it asks
/// for none.
pub proof fn law_the_best_certificate(
    served: &ServeCerts,
    name: Option<&str>,
    r: Option<usize>,
    i: int,
)
    requires
        call_ensures(ServeCerts::best_certificate, (served, name), r),
    ensures
        name is None ==> r is None,
        name matches Some(n) ==> !server_name_ok(n@) ==> r is None,
        name matches Some(n) ==> covers_nowhere(served.info.certs@, n@) ==> r is None,
        name matches Some(n) ==> server_name_ok(n@) && 0 <= i < served.info.certs@.len() && covers(
            served.info.certs@[i].chain@[0]@,
            n@,
        ) ==> (r matches Some(k) && k <= i && covers(
            served.info.certs@[k as int].chain@[0]@,
            n@,
        )),
{
    let certs = served.info.certs@;
    assert(leaf(certs, i) == certs[i].chain@[0]@);
    if let Some(k) = r {
        assert(leaf(certs, k as int) == certs[k as int].chain@[0]@);
    }
}

/// A client that asks for a name is served the first certificate for this name,
/// and every other client the first certificate of all.
pub proof fn law_clients_get_their_certificate(
    served: &ServeCerts,
    name: Option<&str>,
    r: Resolved,
    i: int,
)
    requires
        call_ensures(ServeCerts::resolve, (served, name), r),
        forall|j: int| 0 <= j < served.info.certs@.len() ==> parses(#[trigger] leaf(
            served.info.certs@,
            j,
        )),
    ensures
        served.info.certs@.len() == 0 ==> r == Resolved::Nothing,
        name is None && served.info.certs@.len() > 0 ==> r == Resolved::Certificate(0),
        name matches Some(n) ==> !server_name_ok(n@) && served.info.certs@.len() > 0 ==> r
            == Resolved::Certificate(0),
        name matches Some(n) ==> server_name_ok(n@) && 0 <= i < served.info.certs@.len() && covers(
            served.info.certs@[i].chain@[0]@,
            n@,
        ) ==> (r matches Resolved::Certificate(k) && k <= i && covers(
            served.info.certs@[k as int].chain@[0]@,
            n@,
        )),
        name matches Some(n) ==> served.info.certs@.len() > 0 && covers_nowhere(
            served.info.certs@,
            n@,
        ) ==> r == Resolved::Certificate(0),
{
    let certs = served.info.certs@;
    if let Some(n) = name {
        assert(readable_for(certs, n@));
        assert(leaf(certs, i) == certs[i].chain@[0]@);
        if let Resolved::Certificate(k) = r {
            assert(leaf(certs, k as int) == certs[k as int].chain@[0]@);
        }
    }
}

/// The certificates that are served are replaced by those that were loaded, in
/// order, exactly if all were; otherwise they stay.
pub proof fn law_certificates_are_replaced_together(
    served: &mut ServeCerts,
    loaded: Vec<Result<CertifiedKey, Error>>,
    r: Result<(), Error>,
    i: int,
)
    requires
        call_ensures(ServeCerts::install, (served, loaded), r),
        0 <= i < loaded@.len(),
    ensures
        loaded@[i] is Err ==> r is Err,
        r is Err ==> final(served).info == old(served).info,
        r is Ok ==> final(served).info.certs@.len() == loaded@.len(),
        r is Ok ==> loaded@[i] == Ok::<CertifiedKey, Error>(final(served).info.certs@[i]),
        loaded@[i] is Err && all_loaded(loaded@.take(i)) ==> r is Err && r->Err_0 == loaded@[i]->Err_0,
        all_loaded(loaded@) ==> r is Ok,
{
    if loaded@[i] is Err && all_loaded(loaded@.take(i)) {
        assert(loaded@[i] is Err);
        assert(!all_loaded(loaded@));
        let e = r->Err_0;
        assert(first_unloaded(loaded@, e));
        let k = choose|k: int|
            {
                &&& 0 <= k < loaded@.len()
                &&& #[trigger] loaded@[k] == Err::<CertifiedKey, Error>(e)
                &&& forall|j: int| 0 <= j < k ==> (#[trigger] loaded@[j]) is Ok
            };
        if k < i {
            assert(loaded@.take(i)[k] is Ok);
        }
        if i < k {
            assert(loaded@[i] is Ok);
        }
    }
    if r is Ok {
        assert(all_loaded(loaded@));
        assert(loaded@[i] is Ok);
        let ck = final(served).info.certs@[i];
        assert(loaded@[i] == Ok::<CertifiedKey, Error>(ck));
    }
}

/// Every certificate file and every key file is watched, and nothing else.
pub proof fn law_files_are_watched(config: &Server, r: Option<Vec<PathBuf>>, i: int)
    requires
        call_ensures(watched, (config,), r),
    ensures
        r is None <==> config.cert@.len() == 0 && config.key@.len() == 0,
        r matches Some(paths) ==> paths@.len() == config.cert@.len() + config.key@.len(),
        r matches Some(paths) ==> 0 <= i < config.cert@.len() ==> paths@[i] == config.cert@[i],
        r matches Some(paths) ==> 0 <= i < config.key@.len() ==> paths@[config.cert@.len() + i]
            == config.key@[i],
{
}

/// What came of making a client, of generating a certificate and of checking a pair
/// is handed on as it is, and what went wrong under the name that tells what it
/// was: an identity, a version, a key, or the pair of files that do not fit.
pub proof fn law_outcomes_are_handed_on(
    client: Result<ClientConfig, ClientFailure>,
    verify: bool,
    made: Result<(Vec<u8>, Vec<u8>), RcgenFailure>,
    ck: CertifiedKey,
    cert: &PathBuf,
    key: &PathBuf,
    check: Result<(), PairFailure>,
    a: Result<(ClientConfig, bool), Error>,
    b: Result<CertifiedKey, Error>,
    c: Result<CertifiedKey, Error>,
    d: Result<CertifiedKey, Error>,
)
    requires
        call_ensures(client_built, (client, verify), a),
        call_ensures(generated, (made,), b),
        call_ensures(checked, (ck, cert, key, check), c),
        call_ensures(checked_generated, (ck, check), d),
    ensures
        a is Ok <==> client is Ok,
        a matches Ok(built) ==> client == Ok::<ClientConfig, ClientFailure>(built.0) && built.1
            == verify,
        a matches Err(Error::ClientAuth(why)) <==> client matches Err(ClientFailure::Identity(_)),
        a matches Err(Error::Rustls(why)) <==> client matches Err(ClientFailure::Versions(_)),
        b is Ok <==> made is Ok,
        b matches Ok(pair) ==> {
            &&& pair.chain@.len() == 1
            &&& pair.chain@[0]@ == made->Ok_0.0@
            &&& pair.key.der@ == made->Ok_0.1@
            &&& pair.key.format == KeyFormat::Pkcs8
        },
        b matches Err(e) ==> e is Rcgen,
        c is Ok <==> check is Ok,
        c matches Ok(pair) ==> pair == ck,
        c matches Err(Error::Rustls(_)) <==> check matches Err(PairFailure::Unusable(_)),
        c matches Err(Error::KeyMismatch { key: k, cert: f, source: _ }) ==> k == *key && f == *cert,
        c matches Err(Error::KeyMismatch { .. }) <==> check matches Err(PairFailure::Mismatch(_)),
        d is Ok <==> check is Ok,
        d matches Ok(pair) ==> pair == ck,
        d matches Err(e) ==> e is Rustls,
{
    if let Ok(pair) = b {
        assert(ders(pair.chain@)[0] == pair.chain@[0]@);
    }
}

/// A pair of files is served only if its key is that of its certificate, as it was
/// read from the files.
pub proof fn law_only_fitting_pairs_are_loaded(
    cert: &PathBuf,
    key: &PathBuf,
    files: PairFiles,
    read: Result<CertifiedKey, Error>,
    r: Result<CertifiedKey, Error>,
)
    requires
        call_ensures(read_pair, (files,), read),
        call_ensures(ServeCerts::load, (cert, key, files), r),
    ensures
        read is Err ==> r is Err,
        r matches Ok(ck) ==> {
            &&& key_fits(ck.chain@[0]@, ck.key.format, ck.key.der@)
            &&& parses(ck.chain@[0]@)
            &&& ders(ck.chain@) == ders(read->Ok_0.chain@)
            &&& ck.key.format == read->Ok_0.key.format
            &&& ck.key.der@ == read->Ok_0.key.der@
        },
        r matches Err(Error::KeyMismatch { key: k, cert: c, source: _ }) ==> {
            &&& k == *key
            &&& c == *cert
            &&& read is Ok
        },
{
    if let Ok(ck) = r {
        assert(ders(ck.chain@)[0] == ck.chain@[0]@);
    }
}

/// After the certificates of a configuration were loaded, the certificate of each
/// pair of files is served at its place, a generated one after them exactly if
/// names are configured, and nothing else. What cannot be loaded changes nothing.
pub proof fn law_configured_certificates_are_served(
    served: &mut ServeCerts,
    config: &Server,
    files: Vec<PairFiles>,
    r: Result<(), Error>,
    i: int,
)
    requires
        call_ensures(ServeCerts::load_certs, (served, config, files), r),
        files@.len() == config.cert@.len(),
    ensures
        r is Err ==> final(served).info == old(served).info,
        config.cert@.len() != config.key@.len() ==> r == Err::<(), Error>(
            Error::CertKeyCountMismatch,
        ),
        config.cert@.len() == config.key@.len() && config.cert@.len() == 0 && config.generate@.len()
            == 0 ==> r == Err::<(), Error>(Error::NoCertSource),
        r is Ok ==> {
            let certs = final(served).info.certs@;
            let n = config.cert@.len() as int;
            &&& config.generate@.len() == 0 ==> certs.len() == n
            &&& config.generate@.len() > 0 ==> certs.len() == n + 1
            &&& 0 <= i < n ==> file_certificates(files@[i].cert) == Some(ders(certs[i].chain@))
            &&& 0 <= i < n ==> file_key(files@[i].key) == Some(
                (certs[i].key.format, certs[i].key.der@),
            )
            &&& 0 <= i < certs.len() ==> final(served).info.fingerprints@[i]@ == hex_text(
                sha256(certs[i].chain@[0]@),
            )
        },
{
    if r is Ok {
        let certs = final(served).info.certs@;
        assert(ServeCerts::configured(*config, files@, certs));
        if 0 <= i < files@.len() {
            assert(ServeCerts::serves_pair(files@[i], certs[i]));
        }
        if 0 <= i < certs.len() {
            let text = final(served).info.fingerprints@[i];
            assert(text@ == fingerprint(certs[i].chain@[0]@));
        }
    }
}

/// What a server accepts connections with speaks TLS 1.3 and TLS 1.2, asks clients
/// for nothing, and presents the first pair of files wherever certificates are
/// configured, with a key that is the certificate's own.
pub proof fn law_server_configurations(
    server: &Server,
    first: PairFiles,
    read: Result<CertifiedKey, Error>,
    r: Result<TlsServerConfig, Error>,
)
    requires
        call_ensures(read_pair, (first,), read),
        call_ensures(Server::build_server_config, (server, Some(first)), r),
    ensures
        server.cert@.len() > 0 && server.cert@.len() != server.key@.len() ==> r == Err::<
            TlsServerConfig,
            Error,
        >(Error::CertKeyCountMismatch),
        server.cert@.len() == 0 && server.generate@.len() == 0 ==> r == Err::<
            TlsServerConfig,
            Error,
        >(Error::NoCertSource),
        r matches Ok(config) ==> {
            let pair = serves_with(config);
            &&& server_speaks(config).contains(TlsVersion::Tls13)
            &&& server_speaks(config).contains(TlsVersion::Tls12)
            &&& !asks_for_certificates(config)
            &&& key_fits(pair.0[0], pair.1, pair.2)
            &&& server.cert@.len() > 0 ==> (read matches Ok(ck) && {
                &&& pair.0 == ders(ck.chain@)
                &&& pair.1 == ck.key.format
                &&& pair.2 == ck.key.der@
            })
        },
{
}

/// A client speaks TLS 1.3 and TLS 1.2, trusts whom it is configured to trust, and
/// presents the chain and the key of the files that are configured, if any are.
pub proof fn law_client_configurations(
    client: &Client,
    files: ClientFiles,
    plan: Result<ClientPlan, Error>,
    identity: Result<Identity, Error>,
    r: Result<(ClientConfig, bool), Error>,
)
    requires
        call_ensures(Client::plan, (client, files), plan),
        call_ensures(read_identity, (files.cert, files.key), identity),
        call_ensures(Client::build, (client, files), r),
    ensures
        plan is Err ==> r is Err,
        plan is Ok && client.cert is None ==> r is Ok,
        r matches Ok(built) ==> {
            &&& client_speaks(built.0).contains(TlsVersion::Tls13)
            &&& client_speaks(built.0).contains(TlsVersion::Tls12)
            &&& verifies_by(built.0) == anchors(plan->Ok_0.roots)
            &&& built.1 == plan->Ok_0.verify
            &&& client.cert is None ==> presents(built.0) is None
            &&& client.cert is Some ==> (presents(built.0) matches Some(pair)
                && identity matches Ok(own) && {
                &&& pair.0 == ders(own.chain@)
                &&& pair.1 == own.key.format
                &&& pair.2 == own.key.der@
            })
        },
{
}

} // verus!
