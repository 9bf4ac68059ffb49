//! Certificates and keys out of PEM files.
use vstd::prelude::*;

verus! {

/// The encoding of a private key.
#[derive(Debug, Clone, Copy, PartialEq, Eq, Structural)]
pub enum KeyKind {
    Pkcs1,
    Sec1,
    Pkcs8,
    Other,
}

/// A private key in DER.
pub struct PrivateKey {
    pub kind: KeyKind,
    pub der: Vec<u8>,
}

impl View for PrivateKey {
    type V = (KeyKind, Seq<u8>);

    open spec fn view(&self) -> (KeyKind, Seq<u8>) {
        (self.kind, self.der@)
    }
}

/// What a TLS server proves its name with.
pub struct ServerIdentity {
    pub certs: Vec<Vec<u8>>,
    pub key: PrivateKey,
}

/// The certificates in a PEM file, each in DER, or what is wrong with the file.
pub uninterp spec fn pem_certs(pem: Seq<u8>) -> Result<Seq<Seq<u8>>, Seq<char>>;

/// The first private key in a PEM file, if there is one, or what is wrong with
/// the file.
pub uninterp spec fn pem_private_key(pem: Seq<u8>) -> Result<
    Option<(KeyKind, Seq<u8>)>,
    Seq<char>,
>;

/// Certificates as sequences.
pub open spec fn certs_view(r: Result<Vec<Vec<u8>>, String>) -> Result<Seq<Seq<u8>>, Seq<char>> {
    match r {
        Ok(certs) => Ok(certs@.map_values(|c: Vec<u8>| c@)),
        Err(e) => Err(e@),
    }
}

/// A private key as a sequence.
pub open spec fn key_view(r: Result<Option<PrivateKey>, String>) -> Result<
    Option<(KeyKind, Seq<u8>)>,
    Seq<char>,
> {
    match r {
        Ok(Some(key)) => Ok(Some(key@)),
        Ok(None) => Ok(None),
        Err(e) => Err(e@),
    }
}

/// `rustls_pemfile::certs` on the bytes of a file: the certificates in it, in
/// their order, or the text of the first error. It depends on the bytes alone.
#[verifier::external_body]
fn read_certs(pem: &[u8]) -> (r: Result<Vec<Vec<u8>>, String>)
    ensures
        certs_view(r) == pem_certs(pem@),
{
    rustls_pemfile::certs(&mut &*pem)
        .map(|cert| cert.map(|c| c.to_vec()).map_err(|e| e.to_string()))
        .collect()
}

/// `rustls_pemfile::private_key` on the bytes of a file: the first private key
/// in it, or the text of the error. It depends on the bytes alone.
#[verifier::external_body]
fn read_private_key(pem: &[u8]) -> (r: Result<Option<PrivateKey>, String>)
    ensures
        key_view(r) == pem_private_key(pem@),
{
    match rustls_pemfile::private_key(&mut &*pem) {
        Ok(None) => Ok(None),
        Ok(Some(key)) => {
            let kind = match &key {
                rustls::pki_types::PrivateKeyDer::Pkcs1(_) => KeyKind::Pkcs1,
                rustls::pki_types::PrivateKeyDer::Sec1(_) => KeyKind::Sec1,
                rustls::pki_types::PrivateKeyDer::Pkcs8(_) => KeyKind::Pkcs8,
                _ => KeyKind::Other,
            };
            Ok(Some(PrivateKey { kind, der: key.secret_der().to_vec() }))
        },
        Err(e) => Err(e.to_string()),
    }
}

/// `r` is the identity that the certificates and the key make up: a fault in
/// the certificates counts first, and a key must be there.
pub open spec fn identity_result(
    certs: Result<Seq<Seq<u8>>, Seq<char>>,
    key: Result<Option<(KeyKind, Seq<u8>)>, Seq<char>>,
    r: Result<ServerIdentity, String>,
) -> bool {
    match certs {
        Err(e) => r matches Err(why) && why@ == e,
        Ok(list) => match key {
            Err(e) => r matches Err(why) && why@ == e,
            Ok(None) => r matches Err(why) && why@ == "no private key found"@,
            Ok(Some(k)) => r matches Ok(identity) && identity.key@ == k
                && identity.certs@.map_values(|c: Vec<u8>| c@) == list,
        },
    }
}

/// The identity of a server from its two PEM files.
pub fn build_server_tls_config(cert_pem: &[u8], key_pem: &[u8]) -> (r: Result<
    ServerIdentity,
    String,
>)
    ensures
        identity_result(pem_certs(cert_pem@), pem_private_key(key_pem@), r),
{
    server_identity(read_certs(cert_pem), read_private_key(key_pem))
}

/// `build_server_tls_config` with what the files hold.
pub fn server_identity(
    certs: Result<Vec<Vec<u8>>, String>,
    key: Result<Option<PrivateKey>, String>,
) -> (r: Result<ServerIdentity, String>)
    ensures
        identity_result(certs_view(certs), key_view(key), r),
{
    match certs {
        Err(e) => Err(e),
        Ok(certs) => match key {
            Err(e) => Err(e),
            Ok(None) => Err("no private key found".to_owned()),
            Ok(Some(key)) => Ok(ServerIdentity { certs, key }),
        },
    }
}

/// The certificates that a client trusts, from a PEM file.
pub fn trust_anchors(cert_pem: &[u8]) -> (r: Result<Vec<Vec<u8>>, String>)
    ensures
        certs_view(r) == pem_certs(cert_pem@),
{
    read_certs(cert_pem)
}

/// An identity is made up exactly where both files can be read and there is a
/// key; then it has every certificate, in turn, and the key. Otherwise the error
/// is that of the certificates, or else that of the key.
pub proof fn law_identity(
    certs: Result<Seq<Seq<u8>>, Seq<char>>,
    key: Result<Option<(KeyKind, Seq<u8>)>, Seq<char>>,
    r: Result<ServerIdentity, String>,
)
    requires
        identity_result(certs, key, r),
    ensures
        certs matches Err(e) ==> (r matches Err(why) && why@ == e),
        certs is Ok ==> (key matches Err(e) ==> (r matches Err(why) && why@ == e)),
        certs is Ok ==> (key matches Ok(None) ==> (r matches Err(why) && why@
            == "no private key found"@)),
        certs matches Ok(list) ==> (key matches Ok(Some(k)) ==> {
            &&& r matches Ok(identity)
            &&& identity.key.kind == k.0
            &&& identity.key.der@ == k.1
            &&& identity.certs@.len() == list.len()
            &&& forall|i: int|
                0 <= i < list.len() ==> (#[trigger] identity.certs@[i])@ == list[i]
        }),
{
    if let Ok(list) = certs {
        if let Ok(Some(_)) = key {
            let own = r->Ok_0.certs@;
            let seen = own.map_values(|c: Vec<u8>| c@);
            assert(seen.len() == own.len());
            assert forall|i: int| 0 <= i < list.len() implies (#[trigger] own[i])@ == list[i] by {
                assert(seen[i] == own[i]@);
            }
        }
    }
}

/// `server_identity` makes up an identity exactly where both files can be read and
/// there is a key; then it has every certificate and the key.
pub proof fn law_server_identity(
    certs: Result<Vec<Vec<u8>>, String>,
    key: Result<Option<PrivateKey>, String>,
    r: Result<ServerIdentity, String>,
)
    requires
        call_ensures(server_identity, (certs, key), r),
    ensures
        match certs {
            Err(e) => r matches Err(why) && why@ == e@,
            Ok(list) => match key {
                Err(e) => r matches Err(why) && why@ == e@,
                Ok(None) => r matches Err(why) && why@ == "no private key found"@,
                Ok(Some(k)) => {
                    &&& r matches Ok(identity)
                    &&& identity.key.kind == k.kind
                    &&& identity.key.der@ == k.der@
                    &&& identity.certs@.len() == list@.len()
                    &&& forall|i: int|
                        0 <= i < list@.len() ==> (#[trigger] identity.certs@[i])@ == list@[i]@
                },
            },
        },
{
    law_identity(certs_view(certs), key_view(key), r);
    if let Ok(list) = certs {
        let seen = list@.map_values(|c: Vec<u8>| c@);
        assert(seen.len() == list@.len());
        assert(forall|i: int| 0 <= i < list@.len() ==> #[trigger] seen[i] == list@[i]@);
    }
}

/// `build_server_tls_config` does so with what its two files hold, and
/// `trust_anchors` gives the certificates of its file, in turn.
pub proof fn law_files_are_read(
    cert_pem: &[u8],
    key_pem: &[u8],
    r: Result<ServerIdentity, String>,
    anchors: Result<Vec<Vec<u8>>, String>,
)
    requires
        call_ensures(build_server_tls_config, (cert_pem, key_pem), r),
        call_ensures(trust_anchors, (cert_pem,), anchors),
    ensures
        r is Ok <==> pem_certs(cert_pem@) is Ok && (pem_private_key(key_pem@) matches Ok(Some(_))),
        r matches Ok(identity) ==> {
            &&& pem_private_key(key_pem@) == Ok::<Option<(KeyKind, Seq<u8>)>, Seq<char>>(
                Some((identity.key.kind, identity.key.der@)),
            )
            &&& anchors matches Ok(list)
            &&& identity.certs@.len() == list@.len()
            &&& forall|i: int|
                0 <= i < list@.len() ==> (#[trigger] identity.certs@[i])@ == list@[i]@
        },
        anchors is Ok <==> pem_certs(cert_pem@) is Ok,
        pem_certs(cert_pem@) matches Err(e) ==> (anchors matches Err(why) && why@ == e),
{
    law_identity(pem_certs(cert_pem@), pem_private_key(key_pem@), r);
    if let Ok(list) = anchors {
        let seen = list@.map_values(|c: Vec<u8>| c@);
        assert(seen.len() == list@.len());
        assert(forall|i: int| 0 <= i < list@.len() ==> #[trigger] seen[i] == list@[i]@);
    }
}

} // verus!
