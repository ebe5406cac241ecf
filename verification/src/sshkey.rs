//! How to authenticate at a hop: which credentials are offered, and what the
//! server's answer means.

use russh::keys::ssh_key::{Certificate, LineEnding, PrivateKey};
use vstd::prelude::*;
use vstd::slice::slice_to_vec;
use vstd::string::*;
use vstd::utf8::*;

use crate::error::{Error, ErrorView};
use crate::models::{AuthKind, ResolvedServer, ResolvedServerView};
use crate::text::{from_utf8, join2, owned, trim, trimmed};

verus! {

/// The private key that `PrivateKey::from_openssh` reads in the text, as
/// `PrivateKey::to_openssh` writes it, or the text of the error.
pub uninterp spec fn openssh_key(pem: Seq<char>) -> Result<Seq<char>, Seq<char>>;

/// Whether `PrivateKey::is_encrypted` holds of the private key in the text.
pub uninterp spec fn openssh_encrypted(pem: Seq<char>) -> bool;

/// The private key that `PrivateKey::decrypt` makes of the encrypted one in the
/// text, as `PrivateKey::to_openssh` writes it, or the text of the error.
pub uninterp spec fn openssh_decrypted(pem: Seq<char>, passphrase: Seq<u8>) -> Result<
    Seq<char>,
    Seq<char>,
>;

/// The certificate that `Certificate::from_openssh` reads in the text, as
/// `Certificate::to_openssh` writes it, or the text of the error.
pub uninterp spec fn openssh_certificate(text: Seq<char>) -> Result<Seq<char>, Seq<char>>;

/// A text or the text of an error, as a value.
pub open spec fn text_result(r: Result<String, String>) -> Result<Seq<char>, Seq<char>> {
    match r {
        Ok(s) => Ok(s@),
        Err(m) => Err(m@),
    }
}

/// `PrivateKey::from_openssh` of ssh-key: reads a private key. It comes back in
/// the form that `PrivateKey::to_openssh` gives it.
#[verifier::external_body]
fn parse_key(pem: &str) -> (r: Result<String, String>)
    ensures
        text_result(r) == openssh_key(pem@),
{
    let parsed = PrivateKey::from_openssh(pem).and_then(|k| k.to_openssh(LineEnding::LF));
    parsed.map(|t| t.to_string()).map_err(|e| e.to_string())
}

/// `PrivateKey::is_encrypted` of ssh-key, of the private key in the text; false
/// of a text that holds none.
#[verifier::external_body]
fn key_is_encrypted(pem: &str) -> (r: bool)
    ensures
        r == openssh_encrypted(pem@),
{
    PrivateKey::from_openssh(pem).map_or(false, |k| k.is_encrypted())
}

/// `PrivateKey::decrypt` of ssh-key, of the private key in the text. The key comes
/// back in the form that `PrivateKey::to_openssh` gives it.
#[verifier::external_body]
fn decrypt_key(pem: &str, passphrase: &[u8]) -> (r: Result<String, String>)
    ensures
        text_result(r) == openssh_decrypted(pem@, passphrase@),
{
    let opened = PrivateKey::from_openssh(pem).and_then(|k| k.decrypt(passphrase));
    let written = opened.and_then(|k| k.to_openssh(LineEnding::LF));
    written.map(|t| t.to_string()).map_err(|e| e.to_string())
}

/// `Certificate::from_openssh` of ssh-key: reads a certificate. It comes back in
/// the form that `Certificate::to_openssh` gives it.
#[verifier::external_body]
fn parse_certificate(text: &str) -> (r: Result<String, String>)
    ensures
        text_result(r) == openssh_certificate(text@),
{
    Certificate::from_openssh(text).and_then(|c| c.to_openssh()).map_err(|e| e.to_string())
}

/// The passphrase that applies to a key: only an encrypted key has use for one,
/// and one that is not valid UTF-8 is passed over.
pub open spec fn passphrase_for(encrypted: bool, passphrase: Option<Seq<u8>>) -> Option<Seq<u8>> {
    match passphrase {
        Some(p) => if encrypted && valid_utf8(p) {
            Some(p)
        } else {
            None
        },
        None => None,
    }
}

/// Picks the passphrase that applies to a key.
pub fn applicable_passphrase(encrypted: bool, passphrase: &Option<Vec<u8>>) -> (r: Option<Vec<u8>>)
    ensures
        crate::text::opt_bytes(r) == passphrase_for(
            encrypted,
            crate::text::opt_bytes(*passphrase),
        ),
{
    match passphrase {
        Some(p) => {
            if encrypted && from_utf8(p.as_slice()).is_some() {
                Some(slice_to_vec(p.as_slice()))
            } else {
                None
            }
        },
        None => None,
    }
}

/// Says what an attempt of ssh-key to read or decrypt something amounts to: what
/// it gave, or an error that names the step.
pub fn attempted(step: &str, outcome: Result<String, String>) -> (r: Result<String, Error>)
    ensures
        match (outcome, r) {
            (Ok(t), Ok(s)) => s@ == t@,
            (Err(m), Err(e)) => e@ == ErrorView::Invalid(step@ + m@),
            _ => false,
        },
{
    match outcome {
        Ok(t) => Ok(t),
        Err(m) => Err(Error::Invalid(join2(step, m.as_str()))),
    }
}

/// The private key of a hop, in OpenSSH form, or the error.
pub open spec fn private_key_of(hop: ResolvedServerView) -> Result<Seq<char>, ErrorView> {
    if !valid_utf8(hop.secret) {
        Err(ErrorView::Invalid("key not utf8"@))
    } else {
        match openssh_key(decode_utf8(hop.secret)) {
            Err(m) => Err(ErrorView::Invalid("parse key: "@ + m)),
            Ok(pem) => match passphrase_for(openssh_encrypted(pem), hop.key_passphrase) {
                None => Ok(pem),
                Some(p) => match openssh_decrypted(pem, p) {
                    Err(m) => Err(ErrorView::Invalid("decrypt key: "@ + m)),
                    Ok(opened) => Ok(opened),
                },
            },
        }
    }
}

/// Parse the OpenSSH private key in `hop.secret`, decrypting it with
/// `hop.key_passphrase` when the key is encrypted. Shared by `Key` and `Cert`.
pub fn load_private_key(hop: &ResolvedServer) -> (r: Result<String, Error>)
    ensures
        match (r, private_key_of(hop@)) {
            (Ok(k), Ok(v)) => k@ == v,
            (Err(e), Err(v)) => e@ == v,
            _ => false,
        },
{
    let pem: &str = match from_utf8(hop.secret.as_slice()) {
        Some(s) => s,
        None => {
            return Err(Error::Invalid(owned("key not utf8")));
        },
    };
    let key: String = match attempted("parse key: ", parse_key(pem)) {
        Ok(k) => k,
        Err(e) => {
            return Err(e);
        },
    };
    let encrypted = key_is_encrypted(key.as_str());
    match applicable_passphrase(encrypted, &hop.key_passphrase) {
        Some(p) => attempted("decrypt key: ", decrypt_key(key.as_str(), p.as_slice())),
        None => Ok(key),
    }
}

/// The credentials that are offered at a hop.
pub enum AuthRequest {
    Password { username: String, password: String },
    /// A private key in OpenSSH form.
    PublicKey { username: String, key: String },
    /// A private key and a certificate for it, both in OpenSSH form.
    Certificate { username: String, key: String, certificate: String },
}

/// An [`AuthRequest`] as a value.
pub enum AuthRequestView {
    Password { username: Seq<char>, password: Seq<char> },
    PublicKey { username: Seq<char>, key: Seq<char> },
    Certificate { username: Seq<char>, key: Seq<char>, certificate: Seq<char> },
}

impl View for AuthRequest {
    type V = AuthRequestView;

    open spec fn view(&self) -> AuthRequestView {
        match *self {
            AuthRequest::Password { username, password } => AuthRequestView::Password {
                username: username@,
                password: password@,
            },
            AuthRequest::PublicKey { username, key } => AuthRequestView::PublicKey {
                username: username@,
                key: key@,
            },
            AuthRequest::Certificate { username, key, certificate } => AuthRequestView::Certificate {
                username: username@,
                key: key@,
                certificate: certificate@,
            },
        }
    }
}

/// The certificate of a hop, in OpenSSH form, or the error.
pub open spec fn certificate_of(hop: ResolvedServerView) -> Result<Seq<char>, ErrorView> {
    match hop.certificate {
        None => Err(ErrorView::Invalid("cert auth without certificate"@)),
        Some(c) => if !valid_utf8(c) {
            Err(ErrorView::Invalid("certificate not utf8"@))
        } else {
            match openssh_certificate(trimmed(decode_utf8(c))) {
                Err(m) => Err(ErrorView::Invalid("parse certificate: "@ + m)),
                Ok(cert) => Ok(cert),
            }
        },
    }
}

/// The credentials that a hop calls for, or the error where they cannot be used.
pub open spec fn auth_request_of(hop: ResolvedServerView) -> Result<AuthRequestView, ErrorView> {
    match hop.auth_kind {
        AuthKind::Password => if !valid_utf8(hop.secret) {
            Err(ErrorView::Invalid("password not utf8"@))
        } else {
            Ok(
                AuthRequestView::Password {
                    username: hop.username,
                    password: decode_utf8(hop.secret),
                },
            )
        },
        AuthKind::Key => match private_key_of(hop) {
            Err(e) => Err(e),
            Ok(key) => Ok(AuthRequestView::PublicKey { username: hop.username, key }),
        },
        AuthKind::Cert => match private_key_of(hop) {
            Err(e) => Err(e),
            Ok(key) => match certificate_of(hop) {
                Err(e) => Err(e),
                Ok(certificate) => Ok(
                    AuthRequestView::Certificate { username: hop.username, key, certificate },
                ),
            },
        },
    }
}

/// Reads the certificate of a hop.
fn load_certificate(hop: &ResolvedServer) -> (r: Result<String, Error>)
    ensures
        match (r, certificate_of(hop@)) {
            (Ok(c), Ok(v)) => c@ == v,
            (Err(e), Err(v)) => e@ == v,
            _ => false,
        },
{
    match &hop.certificate {
        None => Err(Error::Invalid(owned("cert auth without certificate"))),
        Some(bytes) => match from_utf8(bytes.as_slice()) {
            None => Err(Error::Invalid(owned("certificate not utf8"))),
            Some(text) => attempted("parse certificate: ", parse_certificate(trim(text))),
        },
    }
}

/// Works out the credentials to offer at a hop.
pub fn authenticate(hop: &ResolvedServer) -> (r: Result<AuthRequest, Error>)
    ensures
        match (r, auth_request_of(hop@)) {
            (Ok(q), Ok(v)) => q@ == v,
            (Err(e), Err(v)) => e@ == v,
            _ => false,
        },
{
    match hop.auth_kind {
        AuthKind::Password => match from_utf8(hop.secret.as_slice()) {
            None => Err(Error::Invalid(owned("password not utf8"))),
            Some(password) => Ok(
                AuthRequest::Password {
                    username: hop.username.clone(),
                    password: owned(password),
                },
            ),
        },
        AuthKind::Key => match load_private_key(hop) {
            Err(e) => Err(e),
            Ok(key) => Ok(AuthRequest::PublicKey { username: hop.username.clone(), key }),
        },
        AuthKind::Cert => match load_private_key(hop) {
            Err(e) => Err(e),
            Ok(key) => match load_certificate(hop) {
                Err(e) => Err(e),
                Ok(certificate) => Ok(
                    AuthRequest::Certificate {
                        username: hop.username.clone(),
                        key,
                        certificate,
                    },
                ),
            },
        },
    }
}

/// How the exchange with the server went.
pub enum AuthReply {
    Accepted,
    Rejected,
    /// Asking for the server's RSA hash algorithms failed.
    RsaHashFailed(String),
    /// The exchange itself failed.
    Failed(String),
}

/// The error that a reply amounts to; nothing where the hop let us in.
pub open spec fn auth_failure(hop: ResolvedServerView, reply: AuthReply) -> Option<ErrorView> {
    match reply {
        AuthReply::Accepted => None,
        AuthReply::Rejected => Some(
            ErrorView::Unauthorized(
                "ssh authentication rejected for "@ + hop.username + "@"@ + hop.host,
            ),
        ),
        AuthReply::RsaHashFailed(e) => Some(ErrorView::Other("rsa hash: "@ + e@)),
        AuthReply::Failed(e) => Some(ErrorView::Other("auth: "@ + e@)),
    }
}

/// Says what the reply of a hop amounts to.
pub fn auth_outcome(hop: &ResolvedServer, reply: AuthReply) -> (r: Result<(), Error>)
    ensures
        match (r, auth_failure(hop@, reply)) {
            (Ok(()), None) => true,
            (Err(e), Some(v)) => e@ == v,
            _ => false,
        },
{
    match reply {
        AuthReply::Accepted => Ok(()),
        AuthReply::Rejected => {
            let mut text = owned("ssh authentication rejected for ");
            text.append(hop.username.as_str());
            text.append("@");
            text.append(hop.host.as_str());
            Err(Error::Unauthorized(text))
        },
        AuthReply::RsaHashFailed(e) => Err(Error::Other(join2("rsa hash: ", e.as_str()))),
        AuthReply::Failed(e) => Err(Error::Other(join2("auth: ", e.as_str()))),
    }
}

/// The user name that a request logs in with.
pub open spec fn login_name(request: AuthRequestView) -> Seq<char> {
    match request {
        AuthRequestView::Password { username, .. } => username,
        AuthRequestView::PublicKey { username, .. } => username,
        AuthRequestView::Certificate { username, .. } => username,
    }
}

/// Whatever is offered at a hop is offered under the user name of that hop, and in the
/// way that the hop calls for.
pub proof fn law_login_is_the_hops(hop: ResolvedServerView)
    requires
        auth_request_of(hop) is Ok,
    ensures
        login_name(auth_request_of(hop)->Ok_0) == hop.username,
        auth_request_of(hop)->Ok_0 is Password <==> hop.auth_kind == AuthKind::Password,
        auth_request_of(hop)->Ok_0 is PublicKey <==> hop.auth_kind == AuthKind::Key,
        auth_request_of(hop)->Ok_0 is Certificate <==> hop.auth_kind == AuthKind::Cert,
{
}

/// A hop that takes a password is offered the stored secret itself: the password is the
/// text whose bytes the secret is. A secret that is no text cannot be offered.
pub proof fn law_password_is_the_secret(hop: ResolvedServerView)
    requires
        hop.auth_kind == AuthKind::Password,
    ensures
        valid_utf8(hop.secret) <==> auth_request_of(hop) is Ok,
        auth_request_of(hop) matches Ok(request) ==> {
            &&& request is Password
            &&& request->Password_username == hop.username
            &&& request->password == decode_utf8(hop.secret)
            &&& encode_utf8(request->password) == hop.secret
        },
        !valid_utf8(hop.secret) ==> auth_request_of(hop) == Err::<AuthRequestView, ErrorView>(
            ErrorView::Invalid("password not utf8"@),
        ),
{
    if valid_utf8(hop.secret) {
        decode_utf8_encode_utf8(hop.secret);
    }
}

/// A hop that takes a key is offered the key in the stored secret. A key that is not
/// encrypted is offered as it was read, whatever passphrase is stored; one that is
/// encrypted is opened with the stored passphrase.
pub proof fn law_key_is_the_stored_one(hop: ResolvedServerView, pem: Seq<char>)
    requires
        valid_utf8(hop.secret),
        openssh_key(decode_utf8(hop.secret)) == Ok::<Seq<char>, Seq<char>>(pem),
    ensures
        !openssh_encrypted(pem) ==> private_key_of(hop) == Ok::<Seq<char>, ErrorView>(pem),
        hop.key_passphrase is None ==> private_key_of(hop) == Ok::<Seq<char>, ErrorView>(pem),
        openssh_encrypted(pem) && hop.key_passphrase is Some && valid_utf8(hop.key_passphrase->0)
            ==> match openssh_decrypted(pem, hop.key_passphrase->0) {
            Ok(opened) => private_key_of(hop) == Ok::<Seq<char>, ErrorView>(opened),
            Err(m) => private_key_of(hop) == Err::<Seq<char>, ErrorView>(
                ErrorView::Invalid("decrypt key: "@ + m),
            ),
        },
{
}

/// A secret that holds no key is told as such, with the cause.
pub proof fn law_unreadable_key_is_refused(hop: ResolvedServerView)
    ensures
        !valid_utf8(hop.secret) ==> private_key_of(hop) == Err::<Seq<char>, ErrorView>(
            ErrorView::Invalid("key not utf8"@),
        ),
        valid_utf8(hop.secret) ==> (openssh_key(decode_utf8(hop.secret)) matches Err(m)
            ==> private_key_of(hop) == Err::<Seq<char>, ErrorView>(
            ErrorView::Invalid("parse key: "@ + m),
        )),
{
}

/// A hop that takes a key is offered that key; one that takes a certificate is offered
/// the key and the certificate that is stored with it.
pub proof fn law_key_and_certificate_are_offered(hop: ResolvedServerView)
    ensures
        hop.auth_kind == AuthKind::Key ==> {
            &&& auth_request_of(hop) is Ok <==> private_key_of(hop) is Ok
            &&& auth_request_of(hop) matches Ok(request) ==> request is PublicKey
                && request->PublicKey_key == private_key_of(hop)->Ok_0
                && request->PublicKey_username == hop.username
            &&& private_key_of(hop) matches Err(e) ==> auth_request_of(hop) == Err::<
                AuthRequestView,
                ErrorView,
            >(e)
        },
        hop.auth_kind == AuthKind::Cert ==> {
            &&& auth_request_of(hop) is Ok <==> private_key_of(hop) is Ok && certificate_of(
                hop,
            ) is Ok
            &&& auth_request_of(hop) matches Ok(request) ==> request is Certificate
                && request->Certificate_key == private_key_of(hop)->Ok_0
                && request->certificate == certificate_of(hop)->Ok_0
                && request->Certificate_username == hop.username
        },
{
}

/// The certificate of a hop is the one in its stored text, without the white space around
/// it; a hop without one, or with one that cannot be read, is told as such.
pub proof fn law_certificate_is_the_stored_one(hop: ResolvedServerView)
    ensures
        hop.certificate is None ==> certificate_of(hop) == Err::<Seq<char>, ErrorView>(
            ErrorView::Invalid("cert auth without certificate"@),
        ),
        hop.certificate matches Some(c) ==> !valid_utf8(c) ==> certificate_of(hop) == Err::<
            Seq<char>,
            ErrorView,
        >(ErrorView::Invalid("certificate not utf8"@)),
        hop.certificate matches Some(c) ==> valid_utf8(c) ==> match openssh_certificate(
            trimmed(decode_utf8(c)),
        ) {
            Ok(cert) => certificate_of(hop) == Ok::<Seq<char>, ErrorView>(cert),
            Err(m) => certificate_of(hop) == Err::<Seq<char>, ErrorView>(
                ErrorView::Invalid("parse certificate: "@ + m),
            ),
        },
{
}

/// A hop that lets us in is no failure; every other reply is one. A rejection is told as
/// a lack of authorization, with the user and the host; everything else with its cause.
pub proof fn law_rejections_are_told(hop: ResolvedServerView, reply: AuthReply)
    ensures
        auth_failure(hop, reply) is None <==> reply is Accepted,
        reply is Rejected ==> auth_failure(hop, reply) == Some(
            ErrorView::Unauthorized(
                "ssh authentication rejected for "@ + hop.username + "@"@ + hop.host,
            ),
        ),
        reply matches AuthReply::RsaHashFailed(e) ==> auth_failure(hop, reply) == Some(
            ErrorView::Other("rsa hash: "@ + e@),
        ),
        reply matches AuthReply::Failed(e) ==> auth_failure(hop, reply) == Some(
            ErrorView::Other("auth: "@ + e@),
        ),
{
}

/// A request, taken as a value, offers what it holds.
pub proof fn law_request_is_of_its_fields(request: AuthRequest)
    ensures
        request matches AuthRequest::Password { username, password } ==> request@
            == (AuthRequestView::Password { username: username@, password: password@ }),
        request matches AuthRequest::PublicKey { username, key } ==> request@
            == (AuthRequestView::PublicKey { username: username@, key: key@ }),
        request matches AuthRequest::Certificate { username, key, certificate } ==> request@ == (
        AuthRequestView::Certificate {
            username: username@,
            key: key@,
            certificate: certificate@,
        }),
{
}

} // verus!
