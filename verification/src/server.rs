use vstd::prelude::*;

verus! {

/// The largest request body the server takes: 20 MiB.
pub const BODY_LIMIT_BYTES: usize = 20971520;
/// How many requests the server handles at once.
pub const CONCURRENCY_LIMIT: usize = 1024;
/// How long a request may take, in seconds.
pub const REQUEST_TIMEOUT_SECS: u64 = 60;
/// How long a graceful shutdown waits for open connections, in seconds.
pub const SHUTDOWN_GRACE_SECS: u64 = 30;
/// How many entries each cache of file hashes keeps.
pub const CACHE_CAPACITY: u64 = 100000;
/// How many connections the database pool opens at most.
pub const DB_MAX_CONNECTIONS: u32 = 20;
/// How long the database pool waits to connect or acquire, in seconds.
pub const DB_TIMEOUT_SECS: u64 = 3;

/// `h2`, then `http/1.1`, as bytes.
pub open spec fn alpn_list() -> Seq<Seq<u8>> {
    seq![seq![104u8, 50u8], seq![104u8, 116u8, 116u8, 112u8, 47u8, 49u8, 46u8, 49u8]]
}

/// The protocols that TLS offers, most preferred first: HTTP/2, then
/// HTTP/1.1.
pub fn alpn_protocols() -> (res: Vec<Vec<u8>>)
    ensures
        res@.len() == 2,
        res@[0]@ == alpn_list()[0],
        res@[1]@ == alpn_list()[1],
{
    let h2: Vec<u8> = vec![104u8, 50u8];
    let http11: Vec<u8> = vec![104u8, 116u8, 116u8, 112u8, 47u8, 49u8, 46u8, 49u8];
    let mut res = Vec::new();
    res.push(h2);
    res.push(http11);
    res
}

/// The private key that TLS uses out of those a key file holds: the first,
/// or none where the file holds none.
pub fn select_private_key(keys: Vec<Vec<u8>>) -> (res: Option<Vec<u8>>)
    ensures
        keys@.len() == 0 ==> res is None,
        keys@.len() > 0 ==> res == Some(keys@[0]),
{
    let mut keys = keys;
    if keys.len() == 0 {
        None
    } else {
        Some(keys.swap_remove(0))
    }
}

/// The DER certificates that `rustls_pemfile::certs` finds in the PEM text
/// `pem`, in order, or `None` where it cannot read the text.
pub uninterp spec fn pem_certificates(pem: Seq<u8>) -> Option<Seq<Seq<u8>>>;

/// The DER PKCS#8 private keys that `rustls_pemfile::pkcs8_private_keys`
/// finds in the PEM text `pem`, in order, or `None` where it cannot read
/// the text.
pub uninterp spec fn pem_pkcs8_keys(pem: Seq<u8>) -> Option<Seq<Seq<u8>>>;

/// `rustls_pemfile::certs` over the bytes of a PEM file: the certificates
/// it holds (none is no error), or `None` where reading fails. Which
/// certificates a text holds is only named.
#[verifier::external_body]
fn parse_pem_certificates(pem: &[u8]) -> (res: Option<Vec<Vec<u8>>>)
    ensures
        res matches Some(v) ==> pem_certificates(pem@) == Some(v.deep_view()),
        res is None <==> pem_certificates(pem@) is None,
{
    let mut rd: &[u8] = pem;
    rustls_pemfile::certs(&mut rd).ok()
}

/// `rustls_pemfile::pkcs8_private_keys` over the bytes of a PEM file: the
/// PKCS#8 keys it holds (none is no error), or `None` where reading fails.
/// Which keys a text holds is only named.
#[verifier::external_body]
fn parse_pem_pkcs8_keys(pem: &[u8]) -> (res: Option<Vec<Vec<u8>>>)
    ensures
        res matches Some(v) ==> pem_pkcs8_keys(pem@) == Some(v.deep_view()),
        res is None <==> pem_pkcs8_keys(pem@) is None,
{
    let mut rd: &[u8] = pem;
    rustls_pemfile::pkcs8_private_keys(&mut rd).ok()
}

/// The certificate chain and the private key that TLS is set up with, from
/// the texts of the certificate file and the key file: all certificates of
/// the first, and the first PKCS#8 key of the second. `None` where a file
/// cannot be read as PEM or the key file holds no PKCS#8 key.
pub fn tls_key_material(cert_pem: &[u8], key_pem: &[u8]) -> (res: Option<(Vec<Vec<u8>>, Vec<u8>)>)
    ensures
        res matches Some((c, k)) ==> (pem_certificates(cert_pem@) == Some(c.deep_view()) && (pem_pkcs8_keys(
            key_pem@,
        ) matches Some(ks) && ks.len() > 0 && k@ == ks[0])),
        res is None <==> (pem_certificates(cert_pem@) is None || pem_pkcs8_keys(key_pem@) is None
            || pem_pkcs8_keys(key_pem@)->0.len() == 0),
{
    let certs = match parse_pem_certificates(cert_pem) {
        Some(c) => c,
        None => return None,
    };
    let keys = match parse_pem_pkcs8_keys(key_pem) {
        Some(k) => k,
        None => return None,
    };
    let ghost key_views = keys.deep_view();
    match select_private_key(keys) {
        Some(k) => {
            assert(k@ == key_views[0]);
            Some((certs, k))
        },
        None => None,
    }
}

} // verus!
