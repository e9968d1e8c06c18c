//! The handshake: the upgrade request that opens a connection, the response
//! that accepts one, and what the response says about the client's identity.

use vstd::prelude::*;
use vstd::slice::slice_to_vec;
use vstd::utf8::encode_utf8;
use base64::Engine;
use sha1::Digest;
use crate::errors::{ClientError, ClientErrorView};
use crate::json::str_eq;
use crate::messages::{IdentityTokenJson, IdentityTokenView};

verus! {

/// What the socket is upgraded to.
pub const PROTO_WEBSOCKET: &'static str = "websocket";

/// The sub-protocol of a connection: frames of JSON text, or binary frames.
#[derive(PartialEq, Eq, Clone, Copy, Hash, Debug, Structural)]
pub enum Protocol {
    Text,
    Binary,
}

/// Why a socket could not be upgraded.
#[derive(PartialEq, Eq, Clone, Copy, Debug, Structural)]
pub enum ErrorWs {
    Connect,
}

/// The configuration of one connection attempt. It does not change once it is
/// built; after authentication a new one is built from it.
#[derive(Debug, Clone, PartialEq, Eq)]
pub struct BuildConnection {
    pub(crate) protocol: Protocol,
    pub(crate) auth: Option<IdentityTokenJson>,
    pub(crate) url: String,
}

pub struct BuildConnectionView {
    pub protocol: Protocol,
    pub auth: Option<IdentityTokenView>,
    pub url: Seq<char>,
}

impl View for BuildConnection {
    type V = BuildConnectionView;

    closed spec fn view(&self) -> BuildConnectionView {
        BuildConnectionView {
            protocol: self.protocol,
            auth: match self.auth {
                Some(a) => Some(a@),
                None => None,
            },
            url: self.url@,
        }
    }
}

impl BuildConnection {
    /// A connection to `url` with frames of text and no identity.
    pub fn new(url: String) -> (r: Self)
        ensures
            r@ == (BuildConnectionView { protocol: Protocol::Text, auth: None, url: url@ }),
    {
        Self { protocol: Protocol::Text, auth: None, url }
    }

    /// The same connection, with the identity that a handshake returned.
    pub fn with_auth(self, auth: IdentityTokenJson) -> (r: Self)
        ensures
            r@ == (BuildConnectionView { auth: Some(auth@), ..self@ }),
    {
        let mut x = self;
        x.auth = Some(auth);
        x
    }

    /// The same connection, with another sub-protocol.
    pub fn with_protocol(self, protocol: Protocol) -> (r: Self)
        ensures
            r@ == (BuildConnectionView { protocol, ..self@ }),
    {
        let mut x = self;
        x.protocol = protocol;
        x
    }

    pub fn protocol(&self) -> (r: Protocol)
        ensures
            r == self@.protocol,
    {
        self.protocol
    }

    pub fn auth(&self) -> (r: &Option<IdentityTokenJson>)
        ensures
            match r {
                Some(a) => self@.auth == Some(a@),
                None => self@.auth is None,
            },
    {
        &self.auth
    }

    pub fn url(&self) -> (r: &String)
        ensures
            r@ == self@.url,
    {
        &self.url
    }
}

/// The SHA-1 digest of a byte string.
pub uninterp spec fn sha1_digest(data: Seq<u8>) -> Seq<u8>;

/// The base64 form of a byte string, standard alphabet, with padding.
pub uninterp spec fn base64_standard(data: Seq<u8>) -> Seq<char>;

/// The host that `http::Uri` finds in a URL: nothing where the URL does not
/// parse, or parses and names no host.
pub uninterp spec fn uri_host(url: Seq<char>) -> Option<Seq<char>>;

/// `Sha1::new`, one `update` with all of `data`, `finalize`: the digest, a
/// function of the bytes alone, named [`sha1_digest`].
#[verifier::external_body]
fn sha1(data: &[u8]) -> (digest: Vec<u8>)
    ensures
        digest@ == sha1_digest(data@),
{
    let mut hasher = sha1::Sha1::new();
    hasher.update(data);
    hasher.finalize().to_vec()
}

/// `Engine::encode` of base64's `STANDARD` engine: a function of the bytes
/// alone, named [`base64_standard`]. It panics only where four thirds of the
/// input's length overflow `usize`, which no slice reaches.
#[verifier::external_body]
fn base64_encode(data: &[u8]) -> (text: String)
    ensures
        text@ == base64_standard(data@),
{
    base64::engine::general_purpose::STANDARD.encode(data)
}

/// `str::parse` at `http::Uri`, then `Uri::host`: a function of the text
/// alone, named [`uri_host`].
#[verifier::external_body]
fn host_of(url: &str) -> (r: Option<String>)
    ensures
        match r {
            Some(host) => uri_host(url@) == Some(host@),
            None => uri_host(url@) is None,
        },
{
    url.parse::<tungstenite::http::Uri>().ok().and_then(|uri| uri.host().map(|h| h.to_owned()))
}

/// `tungstenite::handshake::client::generate_key`: a fresh random key for the
/// `Sec-WebSocket-Key` header. Nothing is claimed of it.
#[verifier::external_body]
fn generate_key() -> String {
    tungstenite::handshake::client::generate_key()
}

/// The fixed identifier that the protocol appends to a key before hashing.
pub open spec fn ws_guid() -> Seq<u8> {
    encode_utf8("258EAFA5-E914-47DA-95CA-C5AB0DC85B11"@)
}

/// The accept key of a client key: the base64 form of the SHA-1 digest of the
/// key followed by the protocol's identifier.
pub open spec fn accept_key_spec(key: Seq<u8>) -> Seq<char> {
    base64_standard(sha1_digest(key + ws_guid()))
}

/// Computes the accept key of a client key.
pub fn accept_key(key: &[u8]) -> (r: String)
    ensures
        r@ == accept_key_spec(key@),
{
    let mut data = slice_to_vec(key);
    let mut guid = slice_to_vec("258EAFA5-E914-47DA-95CA-C5AB0DC85B11".as_bytes());
    data.append(&mut guid);
    let digest = sha1(data.as_slice());
    base64_encode(digest.as_slice())
}

/// The views of a list of headers, in order.
pub open spec fn headers_view(headers: Seq<(String, String)>) -> Seq<(Seq<char>, Seq<char>)> {
    headers.map_values(|h: (String, String)| (h.0@, h.1@))
}

/// An upgrade request, as plain values: what goes on the wire is built from
/// these by the transport.
#[derive(Debug, Clone, PartialEq, Eq)]
pub struct UpgradeRequest {
    pub method: String,
    pub uri: String,
    /// Name and value of each header, in the order in which they were added.
    pub headers: Vec<(String, String)>,
}

pub struct UpgradeRequestView {
    pub method: Seq<char>,
    pub uri: Seq<char>,
    pub headers: Seq<(Seq<char>, Seq<char>)>,
}

impl View for UpgradeRequest {
    type V = UpgradeRequestView;

    open spec fn view(&self) -> UpgradeRequestView {
        UpgradeRequestView {
            method: self.method@,
            uri: self.uri@,
            headers: headers_view(self.headers@),
        }
    }
}

/// The response that accepts an upgrade, as plain values.
#[derive(Debug, Clone, PartialEq, Eq)]
pub struct UpgradeResponse {
    pub status: u16,
    pub headers: Vec<(String, String)>,
}

pub struct UpgradeResponseView {
    pub status: u16,
    pub headers: Seq<(Seq<char>, Seq<char>)>,
}

impl View for UpgradeResponse {
    type V = UpgradeResponseView;

    open spec fn view(&self) -> UpgradeResponseView {
        UpgradeResponseView { status: self.status, headers: headers_view(self.headers@) }
    }
}

/// The name of a sub-protocol, as the service knows it.
pub open spec fn protocol_name(protocol: Protocol) -> Seq<char> {
    match protocol {
        Protocol::Text => "v1.text.spacetimedb"@,
        Protocol::Binary => "v1.bin.spacetimedb"@,
    }
}

/// The value of the `Authorization` header for a token: `Basic`, then the
/// base64 form of `token:` followed by the token.
pub open spec fn authorization(token: Seq<char>) -> Seq<char> {
    "Basic "@ + base64_standard(encode_utf8("token:"@ + token))
}

/// The headers of an upgrade request, in order.
pub open spec fn upgrade_headers(con: BuildConnectionView, host: Seq<char>, key: Seq<char>) -> Seq<
    (Seq<char>, Seq<char>),
> {
    let fixed = seq![
        ("Connection"@, "upgrade"@),
        ("Sec-WebSocket-Protocol"@, protocol_name(con.protocol)),
        ("Upgrade"@, "websocket"@),
        ("Sec-WebSocket-Version"@, "13"@),
        ("Sec-WebSocket-Accept"@, accept_key_spec(encode_utf8(key))),
        ("Sec-WebSocket-Key"@, key),
    ];
    let authorized = match con.auth {
        Some(auth) => fixed.push(("Authorization"@, authorization(auth.token))),
        None => fixed,
    };
    authorized.push(("Host"@, host))
}

/// The upgrade request of a connection for a given key, given the host that
/// its URL names: a configuration error where it names none.
pub open spec fn upgrade_request(
    con: BuildConnectionView,
    host: Option<Seq<char>>,
    key: Seq<char>,
) -> Result<UpgradeRequestView, ClientErrorView> {
    match host {
        None => Err(ClientErrorView::Configuration),
        Some(h) => Ok(
            UpgradeRequestView { method: "GET"@, uri: con.url, headers: upgrade_headers(con, h, key) },
        ),
    }
}

fn header(name: &str, value: String) -> (r: (String, String))
    ensures
        r.0@ == name@,
        r.1@ == value@,
{
    (name.to_owned(), value)
}

/// Builds the upgrade request of a connection for a given key, with the host
/// that was found in its URL.
pub fn upgrade_request_for(con: &BuildConnection, host: Option<String>, key: &str) -> (r: Result<
    UpgradeRequest,
    ClientError,
>)
    ensures
        match r {
            Ok(request) => upgrade_request(
                con@,
                match host {
                    Some(h) => Some(h@),
                    None => None,
                },
                key@,
            ) == Ok::<UpgradeRequestView, ClientErrorView>(request@),
            Err(e) => upgrade_request(
                con@,
                match host {
                    Some(h) => Some(h@),
                    None => None,
                },
                key@,
            ) == Err::<UpgradeRequestView, ClientErrorView>(e@),
        },
{
    let host = match host {
        None => {
            return Err(ClientError::Configuration);
        },
        Some(h) => h,
    };
    let protocol = match con.protocol {
        Protocol::Text => "v1.text.spacetimedb",
        Protocol::Binary => "v1.bin.spacetimedb",
    };
    let mut headers: Vec<(String, String)> = Vec::new();
    headers.push(header("Connection", "upgrade".to_owned()));
    headers.push(header("Sec-WebSocket-Protocol", protocol.to_owned()));
    headers.push(header("Upgrade", PROTO_WEBSOCKET.to_owned()));
    headers.push(header("Sec-WebSocket-Version", "13".to_owned()));
    headers.push(header("Sec-WebSocket-Accept", accept_key(key.as_bytes())));
    headers.push(header("Sec-WebSocket-Key", key.to_owned()));
    match &con.auth {
        Some(auth) => {
            let credentials = "token:".to_owned().concat(auth.token.as_str());
            let encoded = base64_encode(credentials.as_str().as_bytes());
            headers.push(header("Authorization", "Basic ".to_owned().concat(encoded.as_str())));
        },
        None => {},
    }
    headers.push(header("Host", host));
    let request = UpgradeRequest { method: "GET".to_owned(), uri: con.url.clone(), headers };
    assert(request@.headers =~= upgrade_headers(con@, host@, key@));
    Ok(request)
}

/// Builds the upgrade request of a connection for a given key.
///
/// The host is the one that `http::Uri` finds in the URL; a URL that does not
/// parse, or names no host, is a configuration error.
pub fn build_req_with_key(con: &BuildConnection, key: &str) -> (r: Result<
    UpgradeRequest,
    ClientError,
>)
    ensures
        match r {
            Ok(request) => upgrade_request(con@, uri_host(con@.url), key@) == Ok::<
                UpgradeRequestView,
                ClientErrorView,
            >(request@),
            Err(e) => upgrade_request(con@, uri_host(con@.url), key@) == Err::<
                UpgradeRequestView,
                ClientErrorView,
            >(e@),
        },
{
    let host = host_of(con.url.as_str());
    upgrade_request_for(con, host, key)
}

/// Builds the upgrade request of a connection, with a fresh random key.
///
/// It fails exactly where the URL names no host; otherwise the request is the
/// one of [`build_req_with_key`] for some key.
pub fn build_req(con: &BuildConnection) -> (r: Result<UpgradeRequest, ClientError>)
    ensures
        uri_host(con@.url) is None <==> r is Err,
        r matches Err(e) ==> e@ == ClientErrorView::Configuration,
        r matches Ok(request) ==> exists|key: Seq<char>|
            upgrade_request(con@, uri_host(con@.url), key) == Ok::<
                UpgradeRequestView,
                ClientErrorView,
            >(request@),
{
    let key = generate_key();
    build_req_with_key(con, key.as_str())
}

/// The headers of the response that accepts an upgrade: the fixed four, then
/// the caller's own, in the order given.
pub open spec fn accept_headers(
    key: Seq<char>,
    protocol: Seq<char>,
    custom: Seq<(Seq<char>, Seq<char>)>,
) -> Seq<(Seq<char>, Seq<char>)> {
    seq![
        ("Upgrade"@, "websocket"@),
        ("Connection"@, "upgrade"@),
        ("Sec-WebSocket-Accept"@, accept_key_spec(encode_utf8(key))),
        ("Sec-WebSocket-Protocol"@, protocol),
    ] + custom
}

/// The response with which a server accepts the upgrade asked for with `key`:
/// status 101 and the headers of [`accept_headers`].
pub fn accept_ws_res(key: &str, protocol: &str, custom_headers: Vec<(String, String)>) -> (r:
    UpgradeResponse)
    ensures
        r@.status == 101,
        r@.headers == accept_headers(key@, protocol@, headers_view(custom_headers@)),
{
    let mut headers: Vec<(String, String)> = Vec::new();
    headers.push(header("Upgrade", PROTO_WEBSOCKET.to_owned()));
    headers.push(header("Connection", "upgrade".to_owned()));
    headers.push(header("Sec-WebSocket-Accept", accept_key(key.as_bytes())));
    headers.push(header("Sec-WebSocket-Protocol", protocol.to_owned()));
    let ghost fixed = headers_view(headers@);
    let mut custom = custom_headers;
    headers.append(&mut custom);
    let r = UpgradeResponse { status: SWITCHING_PROTOCOLS, headers };
    assert(r@.headers =~= fixed + headers_view(custom_headers@));
    assert(fixed =~= accept_headers(key@, protocol@, Seq::empty()));
    r
}

/// The value of the first header named `name`.
pub open spec fn header_value(headers: Seq<(Seq<char>, Seq<char>)>, name: Seq<char>) -> Option<
    Seq<char>,
>
    decreases headers.len(),
{
    if headers.len() == 0 {
        None
    } else if headers[0].0 == name {
        Some(headers[0].1)
    } else {
        header_value(headers.drop_first(), name)
    }
}

proof fn lemma_header_value_skip(headers: Seq<(Seq<char>, Seq<char>)>, name: Seq<char>, i: int)
    requires
        0 <= i <= headers.len(),
        forall|k: int| 0 <= k < i ==> (#[trigger] headers[k]).0 != name,
    ensures
        header_value(headers, name) == header_value(headers.skip(i), name),
    decreases i,
{
    if i == 0 {
        assert(headers.skip(0) =~= headers);
    } else {
        lemma_header_value_skip(headers, name, i - 1);
        let rest = headers.skip(i - 1);
        assert(rest[0] == headers[i - 1]);
        assert(rest.drop_first() =~= headers.skip(i));
    }
}

/// Finds the value of the first header named `name`.
pub fn find_header<'a>(headers: &'a Vec<(String, String)>, name: &str) -> (r: Option<&'a String>)
    ensures
        match r {
            Some(value) => header_value(headers_view(headers@), name@) == Some(value@),
            None => header_value(headers_view(headers@), name@) is None,
        },
{
    let ghost all = headers_view(headers@);
    let mut i: usize = 0;
    while i < headers.len()
        invariant
            i <= headers.len(),
            all == headers_view(headers@),
            forall|k: int| 0 <= k < i ==> (#[trigger] all[k]).0 != name@,
        decreases headers.len() - i,
    {
        if str_eq(headers[i].0.as_str(), name) {
            proof {
                lemma_header_value_skip(all, name@, i as int);
                assert(all.skip(i as int)[0] == all[i as int]);
            }
            return Some(&headers[i].1);
        }
        i += 1;
    }
    proof {
        lemma_header_value_skip(all, name@, i as int);
    }
    None
}

/// The identity that the headers of an upgrade response carry: both the
/// token and the identity must be there.
pub open spec fn identity_of(headers: Seq<(Seq<char>, Seq<char>)>) -> Option<IdentityTokenView> {
    match (
        header_value(headers, "spacetime-identity-token"@),
        header_value(headers, "spacetime-identity"@),
    ) {
        (Some(token), Some(identity)) => Some(IdentityTokenView { identity, token }),
        _ => None,
    }
}

/// The status of a response that accepts an upgrade.
pub const SWITCHING_PROTOCOLS: u16 = 101;

/// What the response to a handshake makes of a connection: with any status
/// but 101 the handshake failed, which is a transport error; with status 101
/// and both identity headers it is the same connection with that identity;
/// without them it is an authentication error.
pub open spec fn authenticated(con: BuildConnectionView, response: UpgradeResponseView) -> Result<
    BuildConnectionView,
    ClientErrorView,
> {
    if response.status != SWITCHING_PROTOCOLS {
        Err(ClientErrorView::Transport("the upgrade was not accepted"@))
    } else {
        match identity_of(response.headers) {
            Some(auth) => Ok(BuildConnectionView { auth: Some(auth), ..con }),
            None => Err(ClientErrorView::Auth),
        }
    }
}

/// Takes the identity out of the response to a first handshake, for the
/// connections that follow.
pub fn authenticate(con: BuildConnection, response: &UpgradeResponse) -> (r: Result<
    BuildConnection,
    ClientError,
>)
    ensures
        match r {
            Ok(next) => authenticated(con@, response@) == Ok::<
                BuildConnectionView,
                ClientErrorView,
            >(next@),
            Err(e) => authenticated(con@, response@) == Err::<BuildConnectionView, ClientErrorView>(
                e@,
            ),
        },
{
    if response.status != SWITCHING_PROTOCOLS {
        return Err(ClientError::Transport("the upgrade was not accepted".to_owned()));
    }
    let token = find_header(&response.headers, "spacetime-identity-token");
    let identity = find_header(&response.headers, "spacetime-identity");
    match (token, identity) {
        (Some(token), Some(identity)) => {
            let auth = IdentityTokenJson::new(identity.as_str(), token.as_str());
            Ok(con.with_auth(auth))
        },
        _ => Err(ClientError::Auth),
    }
}

/// Whether a URL is one that a connection can be made to: it parses and names
/// a host.
pub fn has_host(url: &str) -> (r: bool)
    ensures
        r == uri_host(url@).is_some(),
{
    host_of(url).is_some()
}

} // verus!
