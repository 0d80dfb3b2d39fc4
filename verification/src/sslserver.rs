//! Client-certificate authentication: which peers the TLS server admits.

use vstd::prelude::*;
use vstd::string::StringExecFns;

use crate::config::Config;
use crate::text::{ascii_lowercase, spec_to_lowercase};
use crate::text::to_lowercase;

verus! {

/// The hexadecimal digit for `n` (0 to 15), lowercase.
pub open spec fn hex_digit(n: int) -> char {
    if n < 10 {
        (48 + n) as char
    } else {
        (97 + n - 10) as char
    }
}

/// Lowercase hexadecimal text of a byte sequence, two digits per byte, high nibble first.
pub open spec fn spec_hex_lower(bytes: Seq<u8>) -> Seq<char>
    decreases bytes.len(),
{
    if bytes.len() == 0 {
        seq![]
    } else {
        seq![hex_digit(bytes[0] as int / 16), hex_digit(bytes[0] as int % 16)] + spec_hex_lower(
            bytes.drop_first(),
        )
    }
}

/// `hex::encode`: the lowercase hexadecimal text of the bytes, two digits per
/// byte with the high nibble first (as the crate's documentation and its
/// `BytesToHexChars` iterator show).
#[verifier::external_body]
fn hex_encode(data: &[u8]) -> (res: String)
    ensures
        res@ == spec_hex_lower(data@),
{
    hex::encode(data)
}

/// The last entry of a certificate's subject name, as the server reads it.
#[derive(Clone, Debug)]
pub enum SubjectEntry {
    /// The subject name has no entries.
    Missing,
    /// The last entry is not valid UTF-8.
    Unreadable,
    /// The text of the last entry.
    Text(String),
}

/// What the server reads from the certificate a TLS peer presented.
#[derive(Debug)]
pub struct PeerCertificate {
    /// Whether the certificate's signature verifies under its own public key
    /// (`Err` holds the verifier's error message).
    pub signature_check: Result<bool, String>,
    /// The SHA-1 digest of the certificate (`Err` holds the digest error message).
    pub sha1_digest: Result<Vec<u8>, String>,
    /// The last entry of the subject name.
    pub last_subject_entry: SubjectEntry,
}

/// Why authentication could not reach a verdict.
#[derive(Clone, Debug)]
pub enum AuthError {
    /// Checking the certificate's own signature failed with this message.
    PeerVerifyFailed(String),
    /// Computing the certificate's digest failed with this message.
    DigestFailed(String),
}

/// The result of authenticating a peer: the text to send it, if any, and the verdict.
#[derive(Debug)]
pub struct AuthOutcome {
    pub reply: Option<String>,
    pub authenticated: Result<bool, AuthError>,
}

/// What `openssl::sha::sha1` gives for a byte sequence: its SHA-1 digest.
pub uninterp spec fn spec_sha1(data: Seq<u8>) -> Seq<u8>;

/// `openssl::sha::sha1`: the SHA-1 digest of the bytes, 20 bytes long. The
/// digest function itself is taken as given (named `spec_sha1`).
#[verifier::external_body]
pub(crate) fn sha1_digest(data: &[u8]) -> (res: Vec<u8>)
    ensures
        res@ == spec_sha1(data@),
        res@.len() == 20,
{
    openssl::sha::sha1(data).to_vec()
}

/// A self-signature check may answer `verdict` for the DER certificate `der`
/// (`Some(b)` for a verdict, `None` for an error). This is a relation, not a
/// function: on another machine, or another OpenSSL configuration, the same
/// bytes may give another answer.
pub uninterp spec fn spec_self_signature_outcome(der: Seq<u8>, verdict: Option<bool>) -> bool;

/// A signature check as a plain value: `Some(b)` for a verdict, `None` for an error.
pub open spec fn verdict_of(check: Result<bool, String>) -> Option<bool> {
    match check {
        Ok(b) => Some(b),
        Err(_) => None,
    }
}

/// `X509::from_der`, then `X509::public_key` and `X509::verify` with that key:
/// checks a DER certificate's signature under its own public key, every error
/// becoming `Err` with its debug text. The outcome is one that check allows for
/// these bytes (`spec_self_signature_outcome`); which one rests on the linked
/// OpenSSL and its configuration (providers, FIPS mode, system crypto policy),
/// not on the bytes alone, so nothing more is claimed.
#[verifier::external_body]
pub(crate) fn certificate_self_signature(der: &[u8]) -> (res: Result<bool, String>)
    ensures
        spec_self_signature_outcome(der@, verdict_of(res)),
{
    let cert = match openssl::x509::X509::from_der(der) {
        Ok(c) => c,
        Err(e) => return Err(format!("{:?}", e)),
    };
    let key = match cert.public_key() {
        Ok(k) => k,
        Err(e) => return Err(format!("{:?}", e)),
    };
    match cert.verify(&key) {
        Ok(b) => Ok(b),
        Err(e) => Err(format!("{:?}", e)),
    }
}

/// The last entry of a DER certificate's subject name: `None` when there is
/// none (or the bytes are not a certificate), `Some(None)` when it is not
/// UTF-8, else its text.
pub uninterp spec fn spec_last_subject_entry(der: Seq<u8>) -> Option<Option<Seq<char>>>;

/// How a `SubjectEntry` reads as a plain value.
pub open spec fn subject_entry_view(e: SubjectEntry) -> Option<Option<Seq<char>>> {
    match e {
        SubjectEntry::Missing => None,
        SubjectEntry::Unreadable => Some(None),
        SubjectEntry::Text(s) => Some(Some(s@)),
    }
}

/// `X509::from_der`, then `subject_name().entries().last()` and
/// `data().as_utf8()`: reads the last subject-name entry of a DER certificate.
/// Bytes that are not a certificate read as `Missing`. Which entry that is, and
/// its text, are taken as given (named `spec_last_subject_entry`).
#[verifier::external_body]
pub(crate) fn certificate_last_subject_entry(der: &[u8]) -> (res: SubjectEntry)
    ensures
        subject_entry_view(res) == spec_last_subject_entry(der@),
{
    match openssl::x509::X509::from_der(der) {
        Err(_) => SubjectEntry::Missing,
        Ok(cert) => match cert.subject_name().entries().last() {
            None => SubjectEntry::Missing,
            Some(entry) => match entry.data().as_utf8() {
                Ok(text) => SubjectEntry::Text(text.to_string()),
                Err(_) => SubjectEntry::Unreadable,
            },
        },
    }
}

/// `p` holds what the server reads from the DER certificate `der`: its digest,
/// its last subject entry, and an answer the self-signature check gives for
/// those bytes.
pub open spec fn peer_reads_der(p: PeerCertificate, der: Seq<u8>) -> bool {
    &&& spec_self_signature_outcome(der, verdict_of(p.signature_check))
    &&& p.sha1_digest matches Ok(d) && d@ == spec_sha1(der)
    &&& subject_entry_view(p.last_subject_entry) == spec_last_subject_entry(der)
}

/// What the server reads from the certificate a peer presented, given as DER:
/// its SHA-1 digest, its self-signature check and its last subject entry. The
/// self-signature check is an answer the linked OpenSSL gives for those bytes.
pub fn peer_from_der(der: &[u8]) -> (p: PeerCertificate)
    ensures
        peer_reads_der(p, der@),
{
    PeerCertificate {
        signature_check: certificate_self_signature(der),
        sha1_digest: Ok(sha1_digest(der)),
        last_subject_entry: certificate_last_subject_entry(der),
    }
}

/// An authentication outcome as plain values: the reply text and the verdict.
pub open spec fn outcome_view(out: AuthOutcome) -> (Option<Seq<char>>, Result<bool, AuthError>) {
    (
        match out.reply {
            Some(r) => Some(r@),
            None => None,
        },
        out.authenticated,
    )
}

/// The authentication policy of the TLS server.
#[derive(Clone, Debug)]
pub struct Server {
    /// Thumbprints (lowercase hex SHA-1) of the certificates admitted by thumbprint.
    pub allowed_certs_thumbprints: Vec<String>,
    /// Admit peers whose certificate verifies under its own key.
    pub host_by_cert: bool,
    /// Admit peers whose certificate thumbprint is allowed.
    pub host_by_thumbprint: bool,
}

/// A configured thumbprint lowercased: character by character when it is ASCII
/// (as hex thumbprints are), by the Unicode mapping otherwise.
pub open spec fn thumbprint_key(t: Seq<char>) -> Seq<char> {
    if vstd::utf8::is_ascii_chars(t) {
        ascii_lowercase(t)
    } else {
        spec_to_lowercase(t)
    }
}

/// The thumbprints a configuration allows, lowercased.
pub open spec fn lowered_thumbprints(ts: Seq<String>) -> Set<Seq<char>> {
    Set::new(|t: Seq<char>| exists|i: int| 0 <= i < ts.len() && t == thumbprint_key(#[trigger] ts[i]@))
}

/// The message sent to a peer that presented no certificate.
pub open spec fn no_certificate_reply() -> Seq<char> {
    "ERR No certificate was provided\r\n"@
}

/// The message sent to a peer whose thumbprint is not allowed.
pub open spec fn unknown_thumbprint_reply(name: Seq<char>, thumbprint: Seq<char>) -> Seq<char> {
    "ERR certificate ("@ + name + ") thumbprint '"@ + thumbprint + "' is unknown\r\n"@
}

/// The name by which a certificate is called in messages.
pub open spec fn spec_friendly_name(entry: SubjectEntry) -> Seq<char> {
    match entry {
        SubjectEntry::Missing => "<Unknown>"@,
        SubjectEntry::Unreadable => ""@,
        SubjectEntry::Text(s) => s@,
    }
}

/// The name by which a certificate is called in messages: the text of the last
/// subject-name entry, `""` if it is not UTF-8, `"<Unknown>"` if there is none.
pub fn friendly_name(entry: &SubjectEntry) -> (name: String)
    ensures
        name@ == spec_friendly_name(*entry),
{
    match entry {
        SubjectEntry::Missing => String::from_str("<Unknown>"),
        SubjectEntry::Unreadable => String::from_str(""),
        SubjectEntry::Text(s) => s.clone(),
    }
}

/// The texts held by a sequence of strings.
pub open spec fn string_views(v: Seq<String>) -> Seq<Seq<char>> {
    v.map_values(|s: String| s@)
}

/// Whether `s` is among the strings of `v`.
fn contains_string(v: &Vec<String>, s: &String) -> (res: bool)
    ensures
        res == string_views(v@).contains(s@),
{
    let n: usize = v.len();
    let mut i: usize = 0;
    while i < n
        invariant
            n == v@.len(),
            i <= n,
            forall|k: int| 0 <= k < i ==> (#[trigger] v@[k])@ != s@,
        decreases n - i,
    {
        if v[i] == *s {
            assert(string_views(v@)[i as int] == s@);
            return true;
        }
        i = i + 1;
    }
    false
}

impl Server {
    /// The set of allowed thumbprints.
    pub open spec fn allowed_thumbprints(&self) -> Set<Seq<char>> {
        string_views(self.allowed_certs_thumbprints@).to_set()
    }

    /// The authentication policy of a configuration: its thumbprints, lowercased
    /// and kept once each, and its two admission switches.
    pub fn new(config: &Config) -> (server: Server)
        ensures
            server.host_by_cert == config.host_by_cert,
            server.host_by_thumbprint == config.host_by_thumbprint,
            server.allowed_thumbprints() == lowered_thumbprints(config.allowed_cert_thumbprints@),
            string_views(server.allowed_certs_thumbprints@).no_duplicates(),
    {
        let ts = &config.allowed_cert_thumbprints;
        let mut allowed: Vec<String> = Vec::new();
        let n: usize = ts.len();
        let mut i: usize = 0;
        while i < n
            invariant
                n == ts@.len(),
                i <= n,
                string_views(allowed@).to_set() == lowered_thumbprints(ts@.take(i as int)),
                string_views(allowed@).no_duplicates(),
            decreases n - i,
        {
            let lowered = to_lowercase(ts[i].as_str());
            assert(lowered@ == thumbprint_key(ts@[i as int]@));
            let ghost before = allowed@;
            if !contains_string(&allowed, &lowered) {
                allowed.push(lowered);
                assert(string_views(allowed@) =~= string_views(before).push(lowered@));
                proof {
                    string_views(before).lemma_push_to_set_commute(lowered@);
                }
            } else {
                assert(string_views(allowed@).to_set() =~= string_views(allowed@).to_set().insert(
                    lowered@,
                ));
            }
            assert(lowered_thumbprints(ts@.take(i + 1)) =~= lowered_thumbprints(
                ts@.take(i as int),
            ).insert(lowered@)) by {
                assert forall|t: Seq<char>|
                    lowered_thumbprints(ts@.take(i + 1)).contains(t) implies lowered_thumbprints(
                    ts@.take(i as int),
                ).insert(lowered@).contains(t) by {
                    let k: int = choose|k: int|
                        0 <= k < i + 1 && t == thumbprint_key(#[trigger] ts@.take(i + 1)[k]@);
                    if k < i {
                        assert(ts@.take(i as int)[k] == ts@.take(i + 1)[k]);
                    }
                }
                assert forall|t: Seq<char>|
                    lowered_thumbprints(ts@.take(i as int)).insert(lowered@).contains(
                        t,
                    ) implies lowered_thumbprints(ts@.take(i + 1)).contains(t) by {
                    if t == lowered@ {
                        assert(ts@.take(i + 1)[i as int] == ts@[i as int]);
                    } else {
                        let k: int = choose|k: int|
                            0 <= k < i && t == thumbprint_key(#[trigger] ts@.take(i as int)[k]@);
                        assert(ts@.take(i as int)[k] == ts@.take(i + 1)[k]);
                    }
                }
            }
            i = i + 1;
        }
        assert(ts@.take(n as int) =~= ts@);
        Server {
            allowed_certs_thumbprints: allowed,
            host_by_cert: config.host_by_cert,
            host_by_thumbprint: config.host_by_thumbprint,
        }
    }

    /// The outcome of authenticating a peer under this policy.
    pub open spec fn spec_authenticate(&self, peer: Option<PeerCertificate>) -> (Option<Seq<char>>, Result<bool, AuthError>) {
        match peer {
            None => (Some(no_certificate_reply()), Ok(false)),
            Some(p) => if self.host_by_cert {
                match p.signature_check {
                    Ok(verified) => (None, Ok(verified)),
                    Err(e) => (None, Err(AuthError::PeerVerifyFailed(e))),
                }
            } else if self.host_by_thumbprint {
                match p.sha1_digest {
                    Err(e) => (None, Err(AuthError::DigestFailed(e))),
                    Ok(digest) => {
                        let thumbprint = spec_hex_lower(digest@);
                        if self.allowed_thumbprints().contains(thumbprint) {
                            (None, Ok(true))
                        } else {
                            (
                                Some(
                                    unknown_thumbprint_reply(
                                        spec_friendly_name(p.last_subject_entry),
                                        thumbprint,
                                    ),
                                ),
                                Ok(false),
                            )
                        }
                    },
                }
            } else {
                (None, Ok(true))
            },
        }
    }

    /// Authenticates the certificate a TLS peer presented.
    ///
    /// No certificate: refused, with a message. Otherwise, by certificate: the
    /// verdict of the certificate's own signature check; by thumbprint: admitted
    /// when the lowercase hex SHA-1 of the certificate is allowed, else refused
    /// with a message naming the certificate and its thumbprint; with neither
    /// switch: admitted.
    pub fn authenticate_certificate(&self, peer: &Option<PeerCertificate>) -> (out: AuthOutcome)
        ensures
            outcome_view(out) == self.spec_authenticate(*peer),
    {
        match peer {
            None => {
                AuthOutcome {
                    reply: Some(String::from_str("ERR No certificate was provided\r\n")),
                    authenticated: Ok(false),
                }
            },
            Some(p) => {
                if self.host_by_cert {
                    let verdict = match &p.signature_check {
                        Ok(verified) => Ok(*verified),
                        Err(e) => Err(AuthError::PeerVerifyFailed(e.clone())),
                    };
                    AuthOutcome { reply: None, authenticated: verdict }
                } else if self.host_by_thumbprint {
                    match &p.sha1_digest {
                        Err(e) => AuthOutcome {
                            reply: None,
                            authenticated: Err(AuthError::DigestFailed(e.clone())),
                        },
                        Ok(digest) => {
                            let thumbprint = hex_encode(digest.as_slice());
                            if contains_string(&self.allowed_certs_thumbprints, &thumbprint) {
                                AuthOutcome { reply: None, authenticated: Ok(true) }
                            } else {
                                let name = friendly_name(&p.last_subject_entry);
                                let mut msg = String::from_str("ERR certificate (");
                                msg.append(name.as_str());
                                msg.append(") thumbprint '");
                                msg.append(thumbprint.as_str());
                                msg.append("' is unknown\r\n");
                                AuthOutcome { reply: Some(msg), authenticated: Ok(false) }
                            }
                        },
                    }
                } else {
                    AuthOutcome { reply: None, authenticated: Ok(true) }
                }
            },
        }
    }

    /// `out` is the outcome of authenticating a peer that presented the DER
    /// certificate `der`: its digest and subject entry are read from those
    /// bytes; its signature check is an answer OpenSSL gives for them.
    pub open spec fn spec_authenticate_der(&self, der: Seq<u8>, out: AuthOutcome) -> bool {
        exists|p: PeerCertificate|
            #[trigger] peer_reads_der(p, der) && outcome_view(out) == self.spec_authenticate(
                Some(p),
            )
    }

    /// Authenticates the certificate a TLS peer presented, given as DER bytes.
    pub fn authenticate_presented(&self, der: Option<&[u8]>) -> (out: AuthOutcome)
        ensures
            match der {
                Some(d) => self.spec_authenticate_der(d@, out),
                None => outcome_view(out) == self.spec_authenticate(None),
            },
    {
        match der {
            None => self.authenticate_certificate(&None),
            Some(d) => {
                let p = peer_from_der(d);
                let ghost gp = p;
                let out = self.authenticate_certificate(&Some(p));
                assert(peer_reads_der(gp, d@) && outcome_view(out) == self.spec_authenticate(
                    Some(gp),
                ));
                out
            },
        }
    }

    /// Decides on a new connection: with `auth_ssl` off every connection is
    /// served without a check; with it on, the presented certificate is
    /// authenticated and the connection is served only when admitted.
    pub fn admit_connection(&self, auth_ssl: bool, der: Option<&[u8]>) -> (out: AuthOutcome)
        ensures
            !auth_ssl ==> out.reply is None && out.authenticated == Ok::<bool, AuthError>(true),
            auth_ssl ==> match der {
                Some(d) => self.spec_authenticate_der(d@, out),
                None => outcome_view(out) == self.spec_authenticate(None),
            },
    {
        if auth_ssl {
            self.authenticate_presented(der)
        } else {
            AuthOutcome { reply: None, authenticated: Ok(true) }
        }
    }
}

/// Law: a thumbprint is lowercase hexadecimal text twice as long as the digest.
pub proof fn law_thumbprint_is_lowercase_hex(digest: Seq<u8>)
    ensures
        spec_hex_lower(digest).len() == 2 * digest.len(),
        forall|k: int|
            0 <= k < spec_hex_lower(digest).len() ==> {
                let c = #[trigger] spec_hex_lower(digest)[k];
                ('0' <= c <= '9') || ('a' <= c <= 'f')
            },
    decreases digest.len(),
{
    if digest.len() > 0 {
        law_thumbprint_is_lowercase_hex(digest.drop_first());
        let head = seq![hex_digit(digest[0] as int / 16), hex_digit(digest[0] as int % 16)];
        assert forall|k: int| 0 <= k < spec_hex_lower(digest).len() implies {
            let c = #[trigger] spec_hex_lower(digest)[k];
            ('0' <= c <= '9') || ('a' <= c <= 'f')
        } by {
            if k >= 2 {
                assert(spec_hex_lower(digest)[k] == spec_hex_lower(digest.drop_first())[k - 2]);
            }
        }
    }
}

/// Law: a peer that presents no certificate is never admitted, and is told why.
pub proof fn law_no_certificate_never_admitted(server: Server)
    ensures
        server.spec_authenticate(None).1 == Ok::<bool, AuthError>(false),
        server.spec_authenticate(None).0 == Some(no_certificate_reply()),
{
}

/// Law: an admitted peer is sent nothing by authentication.
pub proof fn law_admitted_peer_gets_no_reply(server: Server, peer: Option<PeerCertificate>)
    requires
        server.spec_authenticate(peer).1 == Ok::<bool, AuthError>(true),
    ensures
        server.spec_authenticate(peer).0 is None,
{
}

/// Law: for a server built from a configuration that admits by thumbprint only,
/// a certificate whose digest could be computed is admitted exactly when some
/// configured thumbprint, lowercased, is the lowercase hex of that digest.
pub proof fn law_thumbprint_admission(
    config: Config,
    server: Server,
    peer: PeerCertificate,
    digest: Vec<u8>,
)
    requires
        server.allowed_thumbprints() == lowered_thumbprints(config.allowed_cert_thumbprints@),
        !server.host_by_cert,
        server.host_by_thumbprint,
        peer.sha1_digest == Ok::<Vec<u8>, String>(digest),
    ensures
        server.spec_authenticate(Some(peer)).1 == Ok::<bool, AuthError>(
            exists|i: int|
                0 <= i < config.allowed_cert_thumbprints@.len() && thumbprint_key(
                    #[trigger] config.allowed_cert_thumbprints@[i]@,
                ) == spec_hex_lower(digest@),
        ),
{
    let tp = spec_hex_lower(digest@);
    assert(lowered_thumbprints(config.allowed_cert_thumbprints@).contains(tp) == exists|i: int|
        0 <= i < config.allowed_cert_thumbprints@.len() && thumbprint_key(
            #[trigger] config.allowed_cert_thumbprints@[i]@,
        ) == tp);
}

/// Law: thumbprints are matched regardless of the case in which they are
/// configured: a configured ASCII thumbprint whose ASCII-lowercase form is the
/// hex SHA-1 of the presented certificate (for instance that hex in upper case)
/// admits it, and nothing is sent.
pub proof fn law_thumbprint_case_insensitive(
    config: Config,
    server: Server,
    peer: PeerCertificate,
    digest: Vec<u8>,
    i: int,
)
    requires
        server.allowed_thumbprints() == lowered_thumbprints(config.allowed_cert_thumbprints@),
        !server.host_by_cert,
        server.host_by_thumbprint,
        peer.sha1_digest == Ok::<Vec<u8>, String>(digest),
        0 <= i < config.allowed_cert_thumbprints@.len(),
        vstd::utf8::is_ascii_chars(config.allowed_cert_thumbprints@[i]@),
        ascii_lowercase(config.allowed_cert_thumbprints@[i]@) == spec_hex_lower(digest@),
    ensures
        server.spec_authenticate(Some(peer)).1 == Ok::<bool, AuthError>(true),
        server.spec_authenticate(Some(peer)).0 is None,
{
    let tp = spec_hex_lower(digest@);
    assert(thumbprint_key(config.allowed_cert_thumbprints@[i]@) == tp);
    assert(lowered_thumbprints(config.allowed_cert_thumbprints@).contains(tp));
}

/// Law: when admission by certificate is on and a certificate is presented, the
/// verdict is exactly that certificate's own signature check (a check error
/// becomes `PeerVerifyFailed` with its message) and nothing is sent, whatever
/// the thumbprint switch and the allowed thumbprints are.
pub proof fn law_by_cert_verdict_is_signature_check(server: Server, other: Server, p: PeerCertificate)
    requires
        server.host_by_cert,
        other.host_by_cert,
    ensures
        server.spec_authenticate(Some(p)).0 is None,
        p.signature_check matches Ok(b) ==> server.spec_authenticate(Some(p)).1 == Ok::<
            bool,
            AuthError,
        >(b),
        p.signature_check matches Err(e) ==> server.spec_authenticate(Some(p)).1 == Err::<
            bool,
            AuthError,
        >(AuthError::PeerVerifyFailed(e)),
        server.spec_authenticate(Some(p)) == other.spec_authenticate(Some(p)),
{
}

/// Law: with admission by certificate off and by thumbprint on, the signature
/// check plays no part: two certificates with the same digest and subject are
/// treated alike.
pub proof fn law_by_thumbprint_ignores_signature(server: Server, p: PeerCertificate, q: PeerCertificate)
    requires
        !server.host_by_cert,
        server.host_by_thumbprint,
        p.sha1_digest == q.sha1_digest,
        p.last_subject_entry == q.last_subject_entry,
    ensures
        server.spec_authenticate(Some(p)) == server.spec_authenticate(Some(q)),
{
}

/// Law: with both admission switches off, every presented certificate is
/// admitted and nothing is sent.
pub proof fn law_no_switch_admits_all(server: Server, p: PeerCertificate)
    requires
        !server.host_by_cert,
        !server.host_by_thumbprint,
    ensures
        server.spec_authenticate(Some(p)) == (None::<Seq<char>>, Ok::<bool, AuthError>(true)),
{
}

} // verus!
