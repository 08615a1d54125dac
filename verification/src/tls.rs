//! TLS configuration of a backend.

use std::sync::Arc;
use std::time::Duration;

use rustls::client::WebPkiServerVerifier;
use rustls::pki_types::{
    CertificateDer, DnsName, PrivateKeyDer, PrivatePkcs1KeyDer, PrivatePkcs8KeyDer,
    PrivateSec1KeyDer,
};
use rustls::{ClientConfig, RootCertStore};
use vstd::prelude::*;

use crate::constants::default_alpn_protocols;
use crate::error::{Error, ErrorView};

verus! {

/// rustls's set of root certificates.
#[verifier::external_type_specification]
#[verifier::external_body]
pub struct ExRootCertStore(rustls::RootCertStore);

/// rustls's check of server certificates against root certificates.
#[verifier::external_type_specification]
#[verifier::external_body]
pub struct ExWebPkiServerVerifier(rustls::client::WebPkiServerVerifier);

/// rustls's setup of a client.
#[verifier::external_type_specification]
#[verifier::external_body]
pub struct ExClientConfig(rustls::ClientConfig);

/// The trust anchors in a root store, in order. Each is the subject, the
/// public key info and the name constraints of a root certificate, as DER.
pub uninterp spec fn root_anchors(store: RootCertStore) -> Seq<
    (Seq<u8>, Seq<u8>, Option<Seq<u8>>),
>;

/// The trust anchors that a verifier holds, in order.
pub uninterp spec fn verifier_anchors(verifier: WebPkiServerVerifier) -> Seq<
    (Seq<u8>, Seq<u8>, Option<Seq<u8>>),
>;

/// The trust anchor that rustls reads from a DER certificate, or what it says
/// of one it cannot read.
pub uninterp spec fn read_anchor(der: Seq<u8>) -> Result<
    (Seq<u8>, Seq<u8>, Option<Seq<u8>>),
    Seq<char>,
>;

/// `RootCertStore::empty`: a store without anchors.
#[verifier::external_body]
fn empty_store() -> (store: RootCertStore)
    ensures
        root_anchors(store) == Seq::<(Seq<u8>, Seq<u8>, Option<Seq<u8>>)>::empty(),
{
    RootCertStore::empty()
}

/// `RootCertStore::add`: reads a certificate and adds its anchor at the end.
/// One that cannot be read leaves the store as it is, and the error's text
/// comes back.
#[verifier::external_body]
fn add_root(store: &mut RootCertStore, der: &Vec<u8>) -> (result: Result<(), String>)
    ensures
        match read_anchor(der@) {
            Ok(anchor) => result is Ok && root_anchors(*final(store)) == root_anchors(
                *old(store),
            ).push(anchor),
            Err(text) => result matches Err(detail) && detail@ == text && root_anchors(
                *final(store),
            ) == root_anchors(*old(store)),
        },
{
    store.add(CertificateDer::from(der.as_slice())).map_err(|e| format!("{}", e))
}

/// `WebPkiServerVerifier::builder(..).build()`: a verifier that holds the
/// store's anchors, or, for a store without any, the text of the error that
/// says so. Without revocation lists there is no other error.
///
/// The signature algorithms are those of the process's crypto provider, and
/// nothing is claimed of them. rustls panics if it cannot tell which provider
/// to take; with `ring` as the only one compiled in, it can.
#[verifier::external_body]
fn server_verifier(store: RootCertStore) -> (result: Result<Arc<WebPkiServerVerifier>, String>)
    ensures
        match result {
            Ok(verifier) => root_anchors(store).len() > 0 && verifier_anchors(*verifier)
                == root_anchors(store),
            Err(detail) => root_anchors(store).len() == 0 && detail@
                == "no root trust anchors were provided"@,
        },
{
    WebPkiServerVerifier::builder(Arc::new(store)).build().map_err(|e| format!("{}", e))
}

/// A private key, as DER.
#[derive(Debug)]
pub enum PrivateKey {
    /// A PKCS#1 RSA key.
    Pkcs1(Vec<u8>),
    /// A SEC1 elliptic-curve key.
    Sec1(Vec<u8>),
    /// A PKCS#8 key.
    Pkcs8(Vec<u8>),
}

/// What a client is set up with.
#[verifier::ext_equal]
pub struct ClientSetup {
    /// The trust anchors that server certificates are checked against.
    pub anchors: Seq<(Seq<u8>, Seq<u8>, Option<Seq<u8>>)>,
    /// The certificate chain that the client presents, if it has one.
    pub chain: Option<Seq<Seq<u8>>>,
    /// The ALPN protocols it offers.
    pub alpn: Seq<Seq<u8>>,
    /// Whether it sends the server's name along.
    pub sni: bool,
}

/// Byte strings, as sequences.
pub open spec fn bytes_view(list: Seq<Vec<u8>>) -> Seq<Seq<u8>> {
    list.map_values(|b: Vec<u8>| b@)
}

/// What a `ClientConfig` holds: the roots of its verifier, the chain of its
/// certificate resolver, and its fields `alpn_protocols` and `enable_sni`.
pub uninterp spec fn client_setup(config: ClientConfig) -> ClientSetup;

/// `ClientConfig::builder()`, with the verifier as
/// `with_custom_certificate_verifier` and then `with_no_client_auth`: a client
/// that checks servers against the verifier's anchors and presents no
/// certificate. It offers no ALPN protocols yet, and sends the server's name.
///
/// rustls panics if it cannot tell which crypto provider to take; with `ring`
/// as the only one compiled in, it can.
#[verifier::external_body]
fn anonymous_client(verifier: Arc<WebPkiServerVerifier>) -> (config: ClientConfig)
    ensures
        client_setup(config) == (ClientSetup {
            anchors: verifier_anchors(*verifier),
            chain: None,
            alpn: Seq::empty(),
            sni: true,
        }),
{
    let builder = ClientConfig::builder().dangerous();
    builder.with_custom_certificate_verifier(verifier).with_no_client_auth()
}

/// The same, with `with_client_auth_cert` in place of `with_no_client_auth`: a
/// client that presents this chain and signs with this key, or the text of
/// rustls's error where it does not take them.
///
/// Which keys are taken, and what is said of the others, is up to the crypto
/// provider of the process, so nothing is claimed of it.
#[verifier::external_body]
pub fn authenticated_client(
    verifier: Arc<WebPkiServerVerifier>,
    chain: Vec<Vec<u8>>,
    key: PrivateKey,
) -> (result: Result<ClientConfig, String>)
    ensures
        result matches Ok(config) ==> client_setup(config) == (ClientSetup {
            anchors: verifier_anchors(*verifier),
            chain: Some(bytes_view(chain@)),
            alpn: Seq::empty(),
            sni: true,
        }),
{
    let certs = chain.into_iter().map(CertificateDer::from).collect();
    let key = match key {
        PrivateKey::Pkcs1(der) => PrivateKeyDer::Pkcs1(PrivatePkcs1KeyDer::from(der)),
        PrivateKey::Sec1(der) => PrivateKeyDer::Sec1(PrivateSec1KeyDer::from(der)),
        PrivateKey::Pkcs8(der) => PrivateKeyDer::Pkcs8(PrivatePkcs8KeyDer::from(der)),
    };
    let builder = ClientConfig::builder().dangerous().with_custom_certificate_verifier(verifier);
    builder.with_client_auth_cert(certs, key).map_err(|e| format!("{}", e))
}

/// The field `alpn_protocols` of a `ClientConfig`: the protocols it offers.
#[verifier::external_body]
fn offer_protocols(config: &mut ClientConfig, protocols: Vec<Vec<u8>>)
    ensures
        client_setup(*final(config)) == (ClientSetup {
            alpn: bytes_view(protocols@),
            ..client_setup(*old(config))
        }),
{
    config.alpn_protocols = protocols;
}

/// A character of a label: a letter, a digit, a hyphen or an underscore.
pub open spec fn is_label_char(c: char) -> bool {
    ||| 'a' <= c <= 'z'
    ||| 'A' <= c <= 'Z'
    ||| '0' <= c <= '9'
    ||| c == '-'
    ||| c == '_'
}

/// Labels with dots between them. No label is empty, longer than 63
/// characters, or begins or ends with a hyphen, and the last one is not made
/// of digits alone.
pub open spec fn is_label_list(s: Seq<char>) -> bool {
    &&& s.len() > 0
    &&& forall|i: int| 0 <= i < s.len() ==> #[trigger] s[i] == '.' || is_label_char(s[i])
    &&& forall|i: int|
        0 <= i < s.len() && (i == 0 || s[i - 1] == '.') ==> #[trigger] s[i] != '.' && s[i] != '-'
    &&& forall|i: int|
        0 <= i < s.len() && (i == s.len() - 1 || s[i + 1] == '.') ==> #[trigger] s[i] != '.'
            && s[i] != '-'
    &&& forall|i: int|
        0 <= i <= s.len() - 64 ==> (#[trigger] s.subrange(i, i + 64)).contains('.')
    &&& exists|i: int|
        {
            &&& 0 <= i < s.len()
            &&& !('0' <= #[trigger] s[i] <= '9')
            &&& !s.skip(i).contains('.')
        }
}

/// A DNS name: at most 253 characters that make up a list of labels, behind
/// which one more dot may stand.
pub open spec fn is_dns_name(name: Seq<char>) -> bool {
    &&& 0 < name.len() <= 253
    &&& is_label_list(
        if name.last() == '.' {
            name.drop_last()
        } else {
            name
        },
    )
}

/// `DnsName::try_from` on a `str`: whether the text is a DNS name. All others
/// get one and the same error, whose text comes back.
#[verifier::external_body]
fn parse_dns_name(name: &str) -> (result: Result<(), String>)
    ensures
        match result {
            Ok(()) => is_dns_name(name@),
            Err(detail) => !is_dns_name(name@) && detail@ == "invalid dns name"@,
        },
{
    DnsName::try_from(name).map(|_| ()).map_err(|e| format!("{}", e))
}

/// Check that a server can be asked for by this name: only a DNS name will do.
pub fn check_server_name(name: &str) -> (result: Result<(), Error>)
    ensures
        match result {
            Ok(()) => is_dns_name(name@),
            Err(e) => !is_dns_name(name@) && e@ == ErrorView::Backend(
                "invalid server name"@ + ": "@ + "invalid dns name"@,
            ),
        },
{
    match parse_dns_name(name) {
        Ok(()) => Ok(()),
        Err(detail) => Err(Error::backend_with("invalid server name", detail.as_str())),
    }
}

/// TLS configuration for a backend.
#[derive(Debug)]
pub struct TlsConfig {
    /// Server name for SNI and certificate verification.
    pub server_name: String,
    /// Custom root certificates (CA bundle), as DER. If None, uses system
    /// trust store.
    pub root_certs: Option<Vec<Vec<u8>>>,
    /// Client certificate chain and private key for mTLS.
    pub client_cert: Option<(Vec<Vec<u8>>, PrivateKey)>,
    /// Whether to verify the server certificate hostname.
    pub verify_hostname: bool,
    /// Connection timeout.
    pub connect_timeout: Option<Duration>,
    /// ALPN protocols to negotiate.
    pub alpn_protocols: Vec<Vec<u8>>,
}

/// What a client is set up from.
#[derive(Debug)]
pub struct TlsPlan {
    /// The check of the server's certificate, down to a trusted root.
    pub verifier: Arc<WebPkiServerVerifier>,
    /// Whether the server's name is to be checked as well. The chain always
    /// is.
    pub verify_hostname: bool,
    /// The client's own certificate chain and key, for mTLS.
    pub client_cert: Option<(Vec<Vec<u8>>, PrivateKey)>,
    /// ALPN protocols to negotiate.
    pub alpn_protocols: Vec<Vec<u8>>,
}

/// Reading failed at certificate `k`, and nowhere before.
pub open spec fn first_bad_cert(certs: Seq<Vec<u8>>, k: int) -> bool {
    &&& 0 <= k < certs.len()
    &&& read_anchor(certs[k]@) is Err
    &&& forall|j: int| 0 <= j < k ==> read_anchor((#[trigger] certs[j])@) is Ok
}

/// `anchors` are those of `certs`, one for one.
pub open spec fn anchors_of(
    certs: Seq<Vec<u8>>,
    anchors: Seq<(Seq<u8>, Seq<u8>, Option<Seq<u8>>)>,
) -> bool {
    &&& anchors.len() == certs.len()
    &&& forall|j: int|
        0 <= j < certs.len() ==> read_anchor((#[trigger] certs[j])@) == Ok::<
            (Seq<u8>, Seq<u8>, Option<Seq<u8>>),
            Seq<char>,
        >(anchors[j])
}

/// `e` is the complaint about the first certificate that cannot be read.
pub open spec fn is_bad_cert_error(certs: Seq<Vec<u8>>, e: ErrorView) -> bool {
    exists|k: int| #[trigger]
        first_bad_cert(certs, k) && e == ErrorView::Backend(
            "failed to add root cert"@ + ": "@ + read_anchor(certs[k]@)->Err_0,
        )
}

/// The certificates that are trusted: the custom ones, or else the system's,
/// if those could be read.
pub open spec fn chosen_roots(
    custom: Option<Vec<Vec<u8>>>,
    native: Result<Vec<Vec<u8>>, String>,
) -> Result<Seq<Vec<u8>>, Seq<char>> {
    match custom {
        Some(certs) => Ok(certs@),
        None => match native {
            Ok(certs) => Ok(certs@),
            Err(detail) => Err(detail@),
        },
    }
}

/// The complaint about a certificate that could not be read.
pub fn bad_root_cert(detail: &str) -> (e: Error)
    ensures
        e@ == ErrorView::Backend("failed to add root cert"@ + ": "@ + detail@),
{
    Error::backend_with("failed to add root cert", detail)
}

/// Fill a root store with certificates, up to the first that cannot be read.
fn fill_store(certs: &Vec<Vec<u8>>) -> (result: Result<RootCertStore, Error>)
    ensures
        match result {
            Ok(store) => anchors_of(certs@, root_anchors(store)),
            Err(e) => is_bad_cert_error(certs@, e@),
        },
{
    let mut store = empty_store();
    let mut i: usize = 0;
    while i < certs.len()
        invariant
            i <= certs@.len(),
            root_anchors(store).len() == i,
            forall|j: int|
                0 <= j < i ==> read_anchor((#[trigger] certs@[j])@) == Ok::<
                    (Seq<u8>, Seq<u8>, Option<Seq<u8>>),
                    Seq<char>,
                >(root_anchors(store)[j]),
        decreases certs.len() - i,
    {
        match add_root(&mut store, &certs[i]) {
            Ok(()) => {},
            Err(detail) => {
                assert(first_bad_cert(certs@, i as int));
                return Err(bad_root_cert(detail.as_str()));
            },
        }
        i += 1;
    }
    Ok(store)
}

impl TlsConfig {
    /// Create a new TLS config with just a server name.
    pub fn new(server_name: String) -> (c: Self)
        ensures
            c.server_name == server_name,
            c.root_certs is None,
            c.client_cert is None,
            c.verify_hostname,
            c.connect_timeout is None,
            c.alpn_protocols@.len() == 2,
            c.alpn_protocols@[0]@ == seq![0x68u8, 0x32u8],
            c.alpn_protocols@[1]@ == seq![
                0x68u8,
                0x74u8,
                0x74u8,
                0x70u8,
                0x2fu8,
                0x31u8,
                0x2eu8,
                0x31u8,
            ],
    {
        TlsConfig {
            server_name,
            root_certs: None,
            client_cert: None,
            verify_hostname: true,
            connect_timeout: None,
            alpn_protocols: default_alpn_protocols(),
        }
    }

    /// Add custom root certificates (CA bundle).
    #[must_use]
    pub fn with_root_certs(self, certs: Vec<Vec<u8>>) -> (c: Self)
        ensures
            c == (TlsConfig { root_certs: Some(certs), ..self }),
    {
        let mut c = self;
        c.root_certs = Some(certs);
        c
    }

    /// Add client certificate and private key for mTLS.
    #[must_use]
    pub fn with_client_cert(self, certs: Vec<Vec<u8>>, key: PrivateKey) -> (c: Self)
        ensures
            c == (TlsConfig { client_cert: Some((certs, key)), ..self }),
    {
        let mut c = self;
        c.client_cert = Some((certs, key));
        c
    }

    /// Disable hostname verification (for testing only).
    #[must_use]
    pub fn danger_bypass_hostname_check_only(self) -> (c: Self)
        ensures
            c == (TlsConfig { verify_hostname: false, ..self }),
    {
        let mut c = self;
        c.verify_hostname = false;
        c
    }

    /// Disable hostname verification (for testing only). The same as
    /// [`danger_bypass_hostname_check_only`](Self::danger_bypass_hostname_check_only).
    #[must_use]
    pub fn danger_disable_hostname_verification(self) -> (c: Self)
        ensures
            c == (TlsConfig { verify_hostname: false, ..self }),
    {
        self.danger_bypass_hostname_check_only()
    }

    /// Set connection timeout.
    #[must_use]
    pub fn with_connect_timeout(self, timeout: Duration) -> (c: Self)
        ensures
            c == (TlsConfig { connect_timeout: Some(timeout), ..self }),
    {
        let mut c = self;
        c.connect_timeout = Some(timeout);
        c
    }

    /// Set ALPN protocols.
    #[must_use]
    pub fn with_alpn_protocols(self, protocols: Vec<Vec<u8>>) -> (c: Self)
        ensures
            c == (TlsConfig { alpn_protocols: protocols, ..self }),
    {
        let mut c = self;
        c.alpn_protocols = protocols;
        c
    }

    /// Whether the system's trust store has to be read.
    pub fn needs_native_certs(&self) -> (needed: bool)
        ensures
            needed == (self.root_certs is None),
    {
        self.root_certs.is_none()
    }

    /// Settle what a client is set up from. `native_certs` is what reading the
    /// system's trust store gave; it is used only without custom root
    /// certificates.
    ///
    /// SNI (Server Name Indication) is always enabled. If `verify_hostname` is
    /// false, only the name on the certificate goes unchecked.
    pub fn build_client_config(self, native_certs: Result<Vec<Vec<u8>>, String>) -> (result: Result<
        TlsPlan,
        Error,
    >)
        ensures
            match (chosen_roots(self.root_certs, native_certs), result) {
                (Err(detail), Err(e)) => e@ == ErrorView::Backend(
                    "failed to load native certs"@ + ": "@ + detail,
                ),
                (Ok(certs), Ok(plan)) => {
                    &&& certs.len() > 0
                    &&& anchors_of(certs, verifier_anchors(*plan.verifier))
                    &&& plan.verify_hostname == self.verify_hostname
                    &&& plan.client_cert == self.client_cert
                    &&& plan.alpn_protocols == self.alpn_protocols
                },
                (Ok(certs), Err(e)) => if certs.len() == 0 {
                    e@ == ErrorView::Backend(
                        "verifier builder"@ + ": "@ + "no root trust anchors were provided"@,
                    )
                } else {
                    is_bad_cert_error(certs, e@)
                },
                _ => false,
            },
    {
        let certs: Vec<Vec<u8>> = match self.root_certs {
            Some(certs) => certs,
            None => match native_certs {
                Ok(certs) => certs,
                Err(detail) => {
                    return Err(
                        Error::backend_with("failed to load native certs", detail.as_str()),
                    );
                },
            },
        };
        let root_store = match fill_store(&certs) {
            Ok(store) => store,
            Err(e) => {
                return Err(e);
            },
        };
        match server_verifier(root_store) {
            Ok(verifier) => Ok(
                TlsPlan {
                    verifier,
                    verify_hostname: self.verify_hostname,
                    client_cert: self.client_cert,
                    alpn_protocols: self.alpn_protocols,
                },
            ),
            Err(detail) => Err(Error::backend_with("verifier builder", detail.as_str())),
        }
    }
}

/// What a client is set up with by this plan.
pub open spec fn planned_setup(plan: TlsPlan) -> ClientSetup {
    ClientSetup {
        anchors: verifier_anchors(*plan.verifier),
        chain: match plan.client_cert {
            Some((chain, _)) => Some(bytes_view(chain@)),
            None => None,
        },
        alpn: bytes_view(plan.alpn_protocols@),
        sni: true,
    }
}

/// Whether setting a client up may end in `result`, given what
/// [`authenticated_client`] made of the client's chain and key.
pub open spec fn client_outcome(
    plan: TlsPlan,
    authenticated: Result<ClientConfig, String>,
    result: Result<ClientConfig, Error>,
) -> bool {
    match (authenticated, result) {
        (Ok(_), Ok(config)) => client_setup(config) == planned_setup(plan),
        (Err(detail), Err(e)) => e@ == ErrorView::Backend("client cert"@ + ": "@ + detail@),
        _ => false,
    }
}

/// Set a client up by a plan. Without a certificate of its own that always
/// works; with one, it works if rustls takes the chain and the key. The
/// server's name is checked by the client that comes out; where the plan says
/// otherwise, its verifier is still to be exchanged.
pub fn client_config(plan: TlsPlan) -> (result: Result<ClientConfig, Error>)
    ensures
        match plan.client_cert {
            None => result matches Ok(config) && client_setup(config) == planned_setup(plan),
            Some((chain, key)) => exists|authenticated: Result<ClientConfig, String>|
                {
                    &&& #[trigger] call_ensures(
                        authenticated_client,
                        (plan.verifier, chain, key),
                        authenticated,
                    )
                    &&& client_outcome(plan, authenticated, result)
                },
        },
{
    let ghost asked = plan;
    let mut config: ClientConfig = match plan.client_cert {
        None => anonymous_client(plan.verifier),
        Some((chain, key)) => {
            let authenticated = authenticated_client(plan.verifier, chain, key);
            assert(call_ensures(authenticated_client, (plan.verifier, chain, key), authenticated));
            match authenticated {
                Ok(config) => config,
                Err(detail) => {
                    let failed: Result<ClientConfig, Error> = Err(
                        Error::backend_with("client cert", detail.as_str()),
                    );
                    assert(client_outcome(asked, authenticated, failed));
                    return failed;
                },
            }
        },
    };
    let ghost made: Result<ClientConfig, String> = Ok(config);
    offer_protocols(&mut config, plan.alpn_protocols);
    let result: Result<ClientConfig, Error> = Ok(config);
    assert(client_setup(config) =~= planned_setup(asked));
    assert(asked.client_cert is Some ==> client_outcome(asked, made, result));
    result
}

/// Skipping the hostname check changes nothing about which roots are trusted.
pub proof fn bypassing_the_hostname_keeps_the_roots(
    checked: TlsPlan,
    bypassed: TlsPlan,
    certs: Seq<Vec<u8>>,
)
    requires
        anchors_of(certs, verifier_anchors(*checked.verifier)),
        anchors_of(certs, verifier_anchors(*bypassed.verifier)),
    ensures
        verifier_anchors(*checked.verifier) == verifier_anchors(*bypassed.verifier),
{
    assert forall|j: int| 0 <= j < certs.len() implies verifier_anchors(*checked.verifier)[j]
        == verifier_anchors(*bypassed.verifier)[j] by {
        assert(read_anchor(certs[j]@) == Ok::<
            (Seq<u8>, Seq<u8>, Option<Seq<u8>>),
            Seq<char>,
        >(verifier_anchors(*checked.verifier)[j]));
    }
    assert(verifier_anchors(*checked.verifier) =~= verifier_anchors(*bypassed.verifier));
}

/// A new configuration checks the server's name, trusts the system's roots and
/// offers `h2` and `http/1.1`.
pub proof fn a_new_configuration_is_strict(name: String, c: TlsConfig, needed: bool)
    requires
        call_ensures(TlsConfig::new, (name,), c),
        call_ensures(TlsConfig::needs_native_certs, (&c,), needed),
    ensures
        c.server_name@ == name@,
        c.verify_hostname,
        c.root_certs is None,
        needed,
        c.client_cert is None,
        c.connect_timeout is None,
        c.alpn_protocols@.len() == 2,
        c.alpn_protocols@[0]@.len() == 2,
        c.alpn_protocols@[0]@[0] == 104,
        c.alpn_protocols@[0]@[1] == 50,
        c.alpn_protocols@[1]@.len() == 8,
        c.alpn_protocols@[1]@[0] == 104,
        c.alpn_protocols@[1]@[7] == 49,
{
}

/// Every setter sets what it is named after and leaves the rest. Nothing but
/// the two that say so lifts the check of the server's name.
pub proof fn tls_setters_set_one_thing(
    c: TlsConfig,
    certs: Vec<Vec<u8>>,
    key: PrivateKey,
    timeout: Duration,
    after: TlsConfig,
)
    ensures
        call_ensures(TlsConfig::with_root_certs, (c, certs), after) ==> {
            &&& after.root_certs == Some(certs)
            &&& after.server_name == c.server_name
            &&& after.client_cert == c.client_cert
            &&& after.verify_hostname == c.verify_hostname
            &&& after.connect_timeout == c.connect_timeout
            &&& after.alpn_protocols == c.alpn_protocols
        },
        call_ensures(TlsConfig::with_client_cert, (c, certs, key), after) ==> {
            &&& after.client_cert == Some((certs, key))
            &&& after.server_name == c.server_name
            &&& after.root_certs == c.root_certs
            &&& after.verify_hostname == c.verify_hostname
            &&& after.connect_timeout == c.connect_timeout
            &&& after.alpn_protocols == c.alpn_protocols
        },
        call_ensures(TlsConfig::danger_bypass_hostname_check_only, (c,), after) ==> {
            &&& !after.verify_hostname
            &&& after.server_name == c.server_name
            &&& after.root_certs == c.root_certs
            &&& after.client_cert == c.client_cert
            &&& after.connect_timeout == c.connect_timeout
            &&& after.alpn_protocols == c.alpn_protocols
        },
        call_ensures(TlsConfig::danger_disable_hostname_verification, (c,), after) ==> {
            &&& !after.verify_hostname
            &&& after.server_name == c.server_name
            &&& after.root_certs == c.root_certs
            &&& after.client_cert == c.client_cert
            &&& after.connect_timeout == c.connect_timeout
            &&& after.alpn_protocols == c.alpn_protocols
        },
        call_ensures(TlsConfig::with_connect_timeout, (c, timeout), after) ==> {
            &&& after.connect_timeout == Some(timeout)
            &&& after.server_name == c.server_name
            &&& after.root_certs == c.root_certs
            &&& after.client_cert == c.client_cert
            &&& after.verify_hostname == c.verify_hostname
            &&& after.alpn_protocols == c.alpn_protocols
        },
        call_ensures(TlsConfig::with_alpn_protocols, (c, certs), after) ==> {
            &&& after.alpn_protocols == certs
            &&& after.server_name == c.server_name
            &&& after.root_certs == c.root_certs
            &&& after.client_cert == c.client_cert
            &&& after.verify_hostname == c.verify_hostname
            &&& after.connect_timeout == c.connect_timeout
        },
{
}

/// Custom roots are trusted in place of the system's, whatever became of those.
pub proof fn custom_roots_are_trusted(
    c: TlsConfig,
    certs: Vec<Vec<u8>>,
    native: Result<Vec<Vec<u8>>, String>,
    result: Result<TlsPlan, Error>,
    needed: bool,
    i: int,
)
    requires
        c.root_certs == Some(certs),
        call_ensures(TlsConfig::build_client_config, (c, native), result),
        call_ensures(TlsConfig::needs_native_certs, (&c,), needed),
        certs@.len() > 0,
        forall|j: int| 0 <= j < certs@.len() ==> read_anchor((#[trigger] certs@[j])@) is Ok,
        0 <= i < certs@.len(),
    ensures
        !needed,
        result matches Ok(plan) && verifier_anchors(*plan.verifier).len() == certs@.len()
            && verifier_anchors(*plan.verifier)[i] == read_anchor(certs@[i]@)->Ok_0
            && plan.verify_hostname == c.verify_hostname && plan.client_cert == c.client_cert
            && plan.alpn_protocols == c.alpn_protocols,
{
    if let Err(e) = result {
        assert(is_bad_cert_error(certs@, e@));
        let k = choose|k: int| first_bad_cert(certs@, k);
        assert(read_anchor(certs@[k]@) is Err);
    }
    if let Ok(plan) = result {
        assert(read_anchor(certs@[i]@) == Ok::<(Seq<u8>, Seq<u8>, Option<Seq<u8>>), Seq<char>>(
            verifier_anchors(*plan.verifier)[i],
        ));
    }
}

/// Without custom roots the system's are trusted, and if those could not be
/// read, the error says why.
pub proof fn system_roots_are_the_default(
    c: TlsConfig,
    certs: Vec<Vec<u8>>,
    detail: String,
    native: Result<Vec<Vec<u8>>, String>,
    result: Result<TlsPlan, Error>,
    i: int,
)
    requires
        c.root_certs is None,
        call_ensures(TlsConfig::build_client_config, (c, native), result),
        certs@.len() > 0,
        forall|j: int| 0 <= j < certs@.len() ==> read_anchor((#[trigger] certs@[j])@) is Ok,
        0 <= i < certs@.len(),
    ensures
        native == Ok::<Vec<Vec<u8>>, String>(certs) ==> (result matches Ok(plan)
            && verifier_anchors(*plan.verifier).len() == certs@.len() && verifier_anchors(
            *plan.verifier,
        )[i] == read_anchor(certs@[i]@)->Ok_0 && plan.verify_hostname == c.verify_hostname
            && plan.client_cert == c.client_cert && plan.alpn_protocols == c.alpn_protocols),
        native == Err::<Vec<Vec<u8>>, String>(detail) ==> (result matches Err(e) && e@
            == ErrorView::Backend("failed to load native certs"@ + ": "@ + detail@)),
{
    if native == Ok::<Vec<Vec<u8>>, String>(certs) {
        if let Err(e) = result {
            assert(is_bad_cert_error(certs@, e@));
            let k = choose|k: int| first_bad_cert(certs@, k);
            assert(read_anchor(certs@[k]@) is Err);
        }
        if let Ok(plan) = result {
            assert(read_anchor(certs@[i]@) == Ok::<
                (Seq<u8>, Seq<u8>, Option<Seq<u8>>),
                Seq<char>,
            >(verifier_anchors(*plan.verifier)[i]));
        }
    }
}

/// The first root that cannot be read is complained about, and so is an empty
/// set of roots.
pub proof fn bad_roots_are_refused(
    c: TlsConfig,
    certs: Vec<Vec<u8>>,
    native: Result<Vec<Vec<u8>>, String>,
    result: Result<TlsPlan, Error>,
    bad: int,
)
    requires
        c.root_certs == Some(certs) || c.root_certs is None && native == Ok::<
            Vec<Vec<u8>>,
            String,
        >(certs),
        call_ensures(TlsConfig::build_client_config, (c, native), result),
    ensures
        certs@.len() == 0 ==> (result matches Err(e) && e@ == ErrorView::Backend(
            "verifier builder"@ + ": "@ + "no root trust anchors were provided"@,
        )),
        0 <= bad < certs@.len() && read_anchor(certs@[bad]@) is Err && (forall|j: int|
            0 <= j < bad ==> read_anchor((#[trigger] certs@[j])@) is Ok) ==> (
        result matches Err(e) && e@ == ErrorView::Backend(
            "failed to add root cert"@ + ": "@ + read_anchor(certs@[bad]@)->Err_0,
        )),
{
    if 0 <= bad < certs@.len() && read_anchor(certs@[bad]@) is Err && (forall|j: int|
        0 <= j < bad ==> read_anchor((#[trigger] certs@[j])@) is Ok) {
        if let Ok(plan) = result {
            assert(anchors_of(certs@, verifier_anchors(*plan.verifier)));
            assert(read_anchor(certs@[bad]@) is Ok);
        }
        if let Err(e) = result {
            let k = choose|k: int| #[trigger]
                first_bad_cert(certs@, k) && e@ == ErrorView::Backend(
                    "failed to add root cert"@ + ": "@ + read_anchor(certs@[k]@)->Err_0,
                );
            assert(k == bad) by {
                if k < bad {
                    assert(read_anchor(certs@[k]@) is Ok);
                }
                if bad < k {
                    assert(read_anchor(certs@[bad]@) is Ok);
                }
            }
        }
    }
}

/// A client without a certificate of its own is always set up. It checks
/// servers against the plan's roots, presents nothing, offers the plan's
/// protocols and sends the server's name.
pub proof fn anonymous_clients_are_set_up(
    plan: TlsPlan,
    result: Result<ClientConfig, Error>,
    i: int,
)
    requires
        plan.client_cert is None,
        call_ensures(client_config, (plan,), result),
    ensures
        result matches Ok(config) && client_setup(config).anchors == verifier_anchors(
            *plan.verifier,
        ) && client_setup(config).chain is None && client_setup(config).sni && client_setup(
            config,
        ).alpn.len() == plan.alpn_protocols@.len() && (0 <= i < plan.alpn_protocols@.len()
            ==> client_setup(config).alpn[i] == plan.alpn_protocols@[i]@),
{
}

/// A client with a certificate presents that one, if it is set up at all. If
/// it is not, the error says why the certificate was not taken.
pub proof fn certified_clients_present_their_chain(
    plan: TlsPlan,
    chain: Vec<Vec<u8>>,
    key: PrivateKey,
    result: Result<ClientConfig, Error>,
    i: int,
)
    requires
        plan.client_cert == Some((chain, key)),
        call_ensures(client_config, (plan,), result),
    ensures
        result matches Ok(config) ==> {
            &&& client_setup(config).anchors == verifier_anchors(*plan.verifier)
            &&& client_setup(config).sni
            &&& client_setup(config).chain matches Some(shown)
            &&& shown.len() == chain@.len()
            &&& 0 <= i < chain@.len() ==> shown[i] == chain@[i]@
            &&& client_setup(config).alpn.len() == plan.alpn_protocols@.len()
            &&& 0 <= i < plan.alpn_protocols@.len() ==> client_setup(config).alpn[i]
                == plan.alpn_protocols@[i]@
        },
        result matches Err(e) ==> exists|detail: String|
            {
                &&& #[trigger] call_ensures(
                    authenticated_client,
                    (plan.verifier, chain, key),
                    Err(detail),
                )
                &&& e@ == ErrorView::Backend("client cert"@ + ": "@ + detail@)
            },
{
    let authenticated = choose|authenticated: Result<ClientConfig, String>|
        {
            &&& #[trigger] call_ensures(
                authenticated_client,
                (plan.verifier, chain, key),
                authenticated,
            )
            &&& client_outcome(plan, authenticated, result)
        };
    if let Err(e) = result {
        let detail = authenticated->Err_0;
        assert(authenticated == Err::<ClientConfig, String>(detail));
    }
}

/// A name that is too long, has a character that no label has, or is empty is
/// refused, and always with the same words.
pub proof fn odd_server_names_are_refused(name: &str, result: Result<(), Error>, i: int)
    requires
        call_ensures(check_server_name, (name,), result),
        name@.len() == 0 || name@.len() > 253 || 0 <= i < name@.len() && !('a' <= name@[i]
            && name@[i] <= 'z') && !('A' <= name@[i] && name@[i] <= 'Z') && !('0' <= name@[i]
            && name@[i] <= '9') && name@[i] != '-' && name@[i] != '_' && name@[i] != '.',
    ensures
        result matches Err(e) && e@ == ErrorView::Backend(
            "invalid server name"@ + ": "@ + "invalid dns name"@,
        ),
{
    if is_dns_name(name@) {
        let labels = if name@.last() == '.' {
            name@.drop_last()
        } else {
            name@
        };
        if i < labels.len() {
            assert(labels[i] == '.' || is_label_char(labels[i]));
        }
    }
}

/// A certificate that cannot be read is complained about with what was said of
/// it.
pub proof fn bad_certificates_are_named(detail: &str, e: Error)
    requires
        call_ensures(bad_root_cert, (detail,), e),
    ensures
        e@ == ErrorView::Backend("failed to add root cert"@ + ": "@ + detail@),
{
}

} // verus!
