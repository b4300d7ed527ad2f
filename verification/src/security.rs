use vstd::prelude::*;

use crate::crypto::{
    base64_url_decode, base64_url_encode, base64_url_no_pad, base64_url_no_pad_decoded, hex_encode, hex_lower,
    p256_public_key_spki_der, p256_secret_is_valid, p256_signature_der, public_key_spki_der, random_bytes,
    random_secret_key, secret_key_is_valid, sha256, sha256_digest, sign_der,
};
use crate::text::{concat, decimal, decimal_string, signed_decimal, signed_decimal_string};

verus! {

/// The platform name the device reports.
pub const PLATFORM: &'static str = "desktop";

/// The client risk summary the device reports.
pub const RISK_SNAPSHOT: &'static str = "v=1;root=0;debug=0;hook=0;emu=0;tamper=0";

/// How many random bytes an install id or a request nonce holds.
pub const NONCE_BYTES: usize = 18;

/// Why the device identity could not act.
#[derive(Debug)]
pub enum SecurityError {
    NotProvisioned,
    CounterOverflow,
    InvalidChallenge,
    InvalidKey,
    Io(String),
    Encode(String),
    Decode(String),
    UnsafeIdentity,
}

/// The text a user sees for each security error.
pub open spec fn security_error_text(error: SecurityError) -> Seq<char> {
    match error {
        SecurityError::NotProvisioned => "device credential is not provisioned"@,
        SecurityError::CounterOverflow => "device request counter overflowed"@,
        SecurityError::InvalidChallenge => "invalid provisioning challenge"@,
        SecurityError::InvalidKey => "invalid device key"@,
        SecurityError::Io(detail) => "identity I/O failed: "@ + detail@,
        SecurityError::Encode(detail) => "identity encoding failed: "@ + detail@,
        SecurityError::Decode(detail) => "identity decoding failed: "@ + detail@,
        SecurityError::UnsafeIdentity => "identity file is unsafe"@,
    }
}

impl SecurityError {
    /// The human-readable description of the error.
    pub fn message(&self) -> (text: String)
        ensures
            text@ == security_error_text(*self),
    {
        match self {
            SecurityError::NotProvisioned => "device credential is not provisioned".to_owned(),
            SecurityError::CounterOverflow => "device request counter overflowed".to_owned(),
            SecurityError::InvalidChallenge => "invalid provisioning challenge".to_owned(),
            SecurityError::InvalidKey => "invalid device key".to_owned(),
            SecurityError::Io(detail) => concat("identity I/O failed: ", detail.as_str()),
            SecurityError::Encode(detail) => concat("identity encoding failed: ", detail.as_str()),
            SecurityError::Decode(detail) => concat("identity decoding failed: ", detail.as_str()),
            SecurityError::UnsafeIdentity => "identity file is unsafe".to_owned(),
        }
    }
}

/// An API request before it is signed.
#[derive(Debug)]
pub struct RequestToSign {
    pub method: String,
    pub host: String,
    pub canonical_path: String,
    pub raw_query: String,
    pub body: Vec<u8>,
}

impl RequestToSign {
    /// A body-less GET request.
    pub fn get(host: &str, canonical_path: &str, raw_query: &str) -> (request: RequestToSign)
        ensures
            request.method@ == "GET"@,
            request.host@ == host@,
            request.canonical_path@ == canonical_path@,
            request.raw_query@ == raw_query@,
            request.body@.len() == 0,
    {
        RequestToSign {
            method: "GET".to_owned(),
            host: host.to_owned(),
            canonical_path: canonical_path.to_owned(),
            raw_query: raw_query.to_owned(),
            body: Vec::new(),
        }
    }

    /// A request with any method and a body.
    pub fn with_body(method: &str, host: &str, canonical_path: &str, raw_query: &str, body: Vec<u8>) -> (request: RequestToSign)
        ensures
            request.method@ == method@,
            request.host@ == host@,
            request.canonical_path@ == canonical_path@,
            request.raw_query@ == raw_query@,
            request.body == body,
    {
        RequestToSign {
            method: method.to_owned(),
            host: host.to_owned(),
            canonical_path: canonical_path.to_owned(),
            raw_query: raw_query.to_owned(),
            body,
        }
    }
}

/// A signed request: the canonical text that was signed and the headers to send,
/// ordered by name.
#[derive(Debug)]
pub struct SignedRequest {
    pub canonical: String,
    pub headers: Vec<(String, String)>,
}

/// The text of each header pair.
pub open spec fn header_view(headers: Seq<(String, String)>) -> Seq<(Seq<char>, Seq<char>)> {
    headers.map_values(|h: (String, String)| (h.0@, h.1@))
}

impl SignedRequest {
    /// The value of the header called `name`.
    pub fn header(&self, name: &str) -> (value: Option<&str>)
        ensures
            match value {
                Some(v) => exists|i: int| 0 <= i < self.headers@.len() && self.headers@[i].0@ == name@ && self.headers@[i].1@ == v@,
                None => forall|i: int| 0 <= i < self.headers@.len() ==> self.headers@[i].0@ != name@,
            },
    {
        let wanted = name.to_owned();
        for i in 0..self.headers.len()
            invariant
                wanted@ == name@,
                forall|j: int| 0 <= j < i ==> self.headers@[j].0@ != name@,
        {
            if self.headers[i].0.eq(&wanted) {
                return Some(self.headers[i].1.as_str());
            }
        }
        None
    }
}

/// `parts` joined with `separator` between neighbours.
pub open spec fn joined(parts: Seq<Seq<char>>, separator: Seq<char>) -> Seq<char>
    decreases parts.len(),
{
    if parts.len() == 0 {
        Seq::empty()
    } else if parts.len() == 1 {
        parts[0]
    } else {
        joined(parts.drop_last(), separator) + separator + parts.last()
    }
}

/// The SHA-256 of a request body in lowercase hex, or nothing for an empty body.
pub open spec fn body_hash_view(body: Seq<u8>) -> Seq<char> {
    if body.len() == 0 { Seq::empty() } else { hex_lower(sha256_digest(body)) }
}

/// `s` with every trailing `=` removed.
pub open spec fn without_trailing_padding(s: Seq<char>) -> Seq<char>
    decreases s.len(),
{
    if s.len() > 0 && s.last() == '=' { without_trailing_padding(s.drop_last()) } else { s }
}

/// The uppercase form of text, as `str::to_uppercase` gives it.
pub uninterp spec fn unicode_uppercase(s: Seq<char>) -> Seq<char>;

/// The lowercase form of text, as `str::to_lowercase` gives it.
pub uninterp spec fn unicode_lowercase(s: Seq<char>) -> Seq<char>;

/// `str::to_uppercase`: the Unicode uppercase form of `s`.
#[verifier::external_body]
fn to_uppercase(s: &str) -> (upper: String)
    ensures
        upper@ == unicode_uppercase(s@),
{
    s.to_uppercase()
}

/// `str::to_lowercase`: the Unicode lowercase form of `s`.
#[verifier::external_body]
fn to_lowercase(s: &str) -> (lower: String)
    ensures
        lower@ == unicode_lowercase(s@),
{
    s.to_lowercase()
}

/// The fields of a version-5 signature, in the order they are joined.
pub open spec fn canonical_fields(
    method: Seq<char>,
    host: Seq<char>,
    canonical_path: Seq<char>,
    raw_query: Seq<char>,
    device_id: Seq<char>,
    app_version: Seq<char>,
    key_version: u32,
    request_time_ms: i64,
    nonce: Seq<char>,
    counter: u64,
    body_hash: Seq<char>,
) -> Seq<Seq<char>> {
    seq![
        "zerobeat-v5"@,
        unicode_uppercase(method),
        "https://"@ + unicode_lowercase(host),
        canonical_path,
        raw_query,
        device_id,
        PLATFORM@,
        app_version,
        decimal(key_version as nat),
        signed_decimal(request_time_ms as int),
        nonce,
        decimal(counter as nat),
        RISK_SNAPSHOT@,
        body_hash,
    ]
}

/// The headers of a signed request, ordered by name.
pub open spec fn signed_headers(
    device_id: Seq<char>,
    key_version: u32,
    app_version: Seq<char>,
    host: Seq<char>,
    canonical_path: Seq<char>,
    request_time_ms: i64,
    nonce: Seq<char>,
    counter: u64,
    body_hash: Seq<char>,
    signature: Seq<char>,
) -> Seq<(Seq<char>, Seq<char>)> {
    seq![
        ("X-ZeroBeat-App-Version"@, app_version),
        ("X-ZeroBeat-Body-SHA256"@, body_hash),
        ("X-ZeroBeat-Canonical-Host"@, unicode_lowercase(host)),
        ("X-ZeroBeat-Canonical-Path"@, canonical_path),
        ("X-ZeroBeat-Client-Risk"@, RISK_SNAPSHOT@),
        ("X-ZeroBeat-Device-ID"@, device_id),
        ("X-ZeroBeat-Key-Version"@, decimal(key_version as nat)),
        ("X-ZeroBeat-Platform"@, PLATFORM@),
        ("X-ZeroBeat-Request-Counter"@, decimal(counter as nat)),
        ("X-ZeroBeat-Request-Nonce"@, nonce),
        ("X-ZeroBeat-Request-Signature"@, signature),
        ("X-ZeroBeat-Request-Time"@, signed_decimal(request_time_ms as int)),
        ("X-ZeroBeat-Signature-Version"@, "v5"@),
    ]
}

/// The identity as it is kept on disk.
#[derive(Debug)]
pub struct StoredIdentity {
    pub format_version: u8,
    pub install_id: String,
    pub app_version: String,
    pub private_key: Vec<u8>,
    pub device_id: Option<String>,
    pub key_version: u32,
    pub counter: u64,
}

/// The identity that a stored form describes.
pub open spec fn stored_view(stored: StoredIdentity) -> DeviceIdentityView {
    DeviceIdentityView {
        install_id: stored.install_id@,
        app_version: stored.app_version@,
        secret: stored.private_key@,
        device_id: match stored.device_id {
            Some(d) => Some(d@),
            None => None,
        },
        key_version: stored.key_version,
        counter: stored.counter,
    }
}

/// Whether a stored form can be read back: format one with a valid 32-byte key.
pub open spec fn is_restorable(stored: StoredIdentity) -> bool {
    &&& stored.format_version == 1
    &&& stored.private_key@.len() == 32
    &&& p256_secret_is_valid(stored.private_key@)
}

/// The abstract state of a device identity.
pub struct DeviceIdentityView {
    pub install_id: Seq<char>,
    pub app_version: Seq<char>,
    pub secret: Seq<u8>,
    pub device_id: Option<Seq<char>>,
    pub key_version: u32,
    pub counter: u64,
}

/// This installation's key pair, its server credential, and the counter that makes
/// every signed request unique.
#[derive(Debug)]
pub struct DeviceIdentity {
    install_id: String,
    app_version: String,
    secret: Vec<u8>,
    device_id: Option<String>,
    key_version: u32,
    counter: u64,
}

impl View for DeviceIdentity {
    type V = DeviceIdentityView;

    closed spec fn view(&self) -> DeviceIdentityView {
        DeviceIdentityView {
            install_id: self.install_id@,
            app_version: self.app_version@,
            secret: self.secret@,
            device_id: match self.device_id {
                Some(d) => Some(d@),
                None => None,
            },
            key_version: self.key_version,
            counter: self.counter,
        }
    }
}

/// The text of a signature, as it is sent.
pub open spec fn signature_text(secret: Seq<u8>, message: Seq<char>) -> Option<Seq<char>> {
    match p256_signature_der(secret, vstd::utf8::encode_utf8(message)) {
        Some(der) => Some(base64_url_no_pad(der)),
        None => None,
    }
}

/// `parts` joined with `separator` between neighbours.
pub fn join_with(parts: &Vec<String>, separator: &str) -> (text: String)
    ensures
        text@ == joined(parts@.map_values(|p: String| p@), separator@),
{
    let mut text = String::new();
    let ghost views = parts@.map_values(|p: String| p@);
    for i in 0..parts.len()
        invariant
            views == parts@.map_values(|p: String| p@),
            text@ == joined(views.subrange(0, i as int), separator@),
    {
        let ghost before = views.subrange(0, i as int);
        let ghost after = views.subrange(0, i + 1);
        assert(after.drop_last() =~= before);
        if i > 0 {
            text.append(separator);
        }
        text.append(parts[i].as_str());
        proof {
            if i == 0 {
                assert(text@ =~= after[0]);
            } else {
                assert(text@ =~= joined(before, separator@) + separator@ + after.last());
            }
        }
    }
    assert(views.subrange(0, parts@.len() as int) =~= views);
    text
}

/// `s` with every trailing `=` removed.
fn strip_padding(s: &str) -> (stripped: String)
    ensures
        stripped@ == without_trailing_padding(s@),
{
    let n = s.unicode_len();
    let mut end = n;
    assert(s@.subrange(0, n as int) =~= s@);
    while end > 0 && s.get_char(end - 1) == '='
        invariant
            end <= n == s@.len(),
            without_trailing_padding(s@) == without_trailing_padding(s@.subrange(0, end as int)),
        decreases end,
    {
        assert(s@.subrange(0, end as int).drop_last() =~= s@.subrange(0, end - 1));
        end = end - 1;
    }
    proof {
        if end > 0 {
            assert(s@.subrange(0, end as int).last() == s@[end - 1]);
        }
    }
    s.substring_char(0, end).to_owned()
}

impl DeviceIdentity {
    #[verifier::type_invariant]
    spec fn well_formed(self) -> bool {
        &&& self.secret@.len() == 32
        &&& p256_secret_is_valid(self.secret@)
    }

    /// A fresh identity: a random install id, a new key pair, no credential yet,
    /// key version one and counter zero.
    pub fn generate(app_version: &str) -> (identity: Result<DeviceIdentity, SecurityError>)
        ensures
            identity matches Ok(id) && {
                &&& exists|bytes: Seq<u8>| bytes.len() == NONCE_BYTES && id@.install_id == base64_url_no_pad(bytes)
                &&& id@.app_version == app_version@
                &&& id@.device_id is None
                &&& id@.key_version == 1
                &&& id@.counter == 0
                &&& p256_secret_is_valid(id@.secret)
            },
    {
        let install = random_bytes(NONCE_BYTES);
        let install_id = base64_url_encode(install.as_slice());
        let secret = random_secret_key();
        Ok(DeviceIdentity {
            install_id,
            app_version: app_version.to_owned(),
            secret,
            device_id: None,
            key_version: 1,
            counter: 0,
        })
    }

    /// Rebuilds an identity from its stored form. Only format one with a valid
    /// 32-byte key is accepted.
    pub fn from_stored(stored: StoredIdentity) -> (identity: Result<DeviceIdentity, SecurityError>)
        ensures
            identity is Ok <==> is_restorable(stored),
            identity is Err ==> identity->Err_0 is InvalidKey,
            identity matches Ok(id) ==> id@ == stored_view(stored),
    {
        if stored.format_version != 1 || stored.private_key.len() != 32 {
            return Err(SecurityError::InvalidKey);
        }
        if !secret_key_is_valid(stored.private_key.as_slice()) {
            return Err(SecurityError::InvalidKey);
        }
        Ok(DeviceIdentity {
            install_id: stored.install_id,
            app_version: stored.app_version,
            secret: stored.private_key,
            device_id: stored.device_id,
            key_version: stored.key_version,
            counter: stored.counter,
        })
    }

    /// The stored form of this identity, format one.
    pub fn to_stored(&self) -> (stored: StoredIdentity)
        ensures
            stored.format_version == 1,
            stored_view(stored) == self@,
            is_restorable(stored),
    {
        proof {
            use_type_invariant(self);
        }
        StoredIdentity {
            format_version: 1,
            install_id: self.install_id.clone(),
            app_version: self.app_version.clone(),
            private_key: self.secret.clone(),
            device_id: match &self.device_id {
                Some(d) => Some(d.clone()),
                None => None,
            },
            key_version: self.key_version,
            counter: self.counter,
        }
    }

    pub fn install_id(&self) -> (id: &str)
        ensures
            id@ == self@.install_id,
    {
        self.install_id.as_str()
    }

    pub fn app_version(&self) -> (version: &str)
        ensures
            version@ == self@.app_version,
    {
        self.app_version.as_str()
    }

    pub fn device_id(&self) -> (id: Option<&str>)
        ensures
            match self@.device_id {
                Some(d) => id matches Some(i) && i@ == d,
                None => id is None,
            },
    {
        match &self.device_id {
            Some(d) => Some(d.as_str()),
            None => None,
        }
    }

    pub fn key_version(&self) -> (version: u32)
        ensures
            version == self@.key_version,
    {
        self.key_version
    }

    pub fn counter(&self) -> (counter: u64)
        ensures
            counter == self@.counter,
    {
        self.counter
    }

    /// The DER SubjectPublicKeyInfo of the public key.
    pub fn public_key_spki_der(&self) -> (der: Result<Vec<u8>, SecurityError>)
        ensures
            match p256_public_key_spki_der(self@.secret) {
                Some(d) => der matches Ok(v) && v@ == d,
                None => der matches Err(SecurityError::InvalidKey),
            },
    {
        proof {
            use_type_invariant(self);
        }
        match public_key_spki_der(self.secret.as_slice()) {
            Some(der) => Ok(der),
            None => Err(SecurityError::InvalidKey),
        }
    }

    /// The public key as URL-safe, unpadded Base64 of its SubjectPublicKeyInfo.
    pub fn public_key_spki_base64(&self) -> (text: Result<String, SecurityError>)
        ensures
            match p256_public_key_spki_der(self@.secret) {
                Some(d) => text matches Ok(t) && t@ == base64_url_no_pad(d),
                None => text matches Err(SecurityError::InvalidKey),
            },
    {
        let der = self.public_key_spki_der()?;
        Ok(base64_url_encode(der.as_slice()))
    }

    /// Proves possession of the key: signs the bytes of a Base64 challenge (trailing
    /// padding ignored) and returns the signature in Base64.
    pub fn sign_challenge(&self, challenge: &str) -> (proof_text: Result<String, SecurityError>)
        ensures
            match base64_url_no_pad_decoded(without_trailing_padding(challenge@)) {
                None => proof_text matches Err(SecurityError::InvalidChallenge),
                Some(bytes) => match p256_signature_der(self@.secret, bytes) {
                    Some(der) => proof_text matches Ok(t) && t@ == base64_url_no_pad(der),
                    None => proof_text matches Err(SecurityError::InvalidKey),
                },
            },
    {
        proof {
            use_type_invariant(self);
        }
        let stripped = strip_padding(challenge);
        let bytes = match base64_url_decode(stripped.as_str()) {
            Some(bytes) => bytes,
            None => return Err(SecurityError::InvalidChallenge),
        };
        match sign_der(self.secret.as_slice(), bytes.as_slice()) {
            Some(der) => Ok(base64_url_encode(der.as_slice())),
            None => Err(SecurityError::InvalidKey),
        }
    }

    /// Stores the credential the server issued; the key version is at least one and
    /// the request counter starts again.
    pub fn bind_credential(&mut self, device_id: &str, key_version: u32)
        ensures
            final(self)@ == (DeviceIdentityView {
                device_id: Some(device_id@),
                key_version: if key_version > 1 { key_version } else { 1 },
                counter: 0,
                ..old(self)@
            }),
    {
        proof {
            use_type_invariant(&*self);
        }
        self.device_id = Some(device_id.to_owned());
        self.key_version = if key_version > 1 { key_version } else { 1 };
        self.counter = 0;
    }

    /// Signs `request` at `request_time_ms` with `nonce`. Without a credential the
    /// request is refused and nothing changes; a counter at its limit is refused the
    /// same way. Otherwise the counter moves on, and the signature covers the
    /// canonical text of every field.
    pub fn sign_request_with_nonce(&mut self, request: RequestToSign, request_time_ms: i64, nonce: &str) -> (signed: Result<SignedRequest, SecurityError>)
        ensures
            old(self)@.device_id is None ==> (signed matches Err(SecurityError::NotProvisioned)) && final(self)@ == old(self)@,
            old(self)@.device_id is Some && old(self)@.counter == u64::MAX ==> (signed matches Err(SecurityError::CounterOverflow))
                && final(self)@ == old(self)@,
            old(self)@.device_id is Some && old(self)@.counter < u64::MAX ==> {
                let counter = (old(self)@.counter + 1) as u64;
                let body_hash = body_hash_view(request.body@);
                let canonical = joined(canonical_fields(
                    request.method@,
                    request.host@,
                    request.canonical_path@,
                    request.raw_query@,
                    old(self)@.device_id.unwrap(),
                    old(self)@.app_version,
                    old(self)@.key_version,
                    request_time_ms,
                    nonce@,
                    counter,
                    body_hash,
                ), seq!['\n']);
                &&& final(self)@ == (DeviceIdentityView { counter, ..old(self)@ })
                &&& match signature_text(old(self)@.secret, canonical) {
                    None => signed matches Err(SecurityError::InvalidKey),
                    Some(signature) => signed matches Ok(s) && s.canonical@ == canonical && header_view(s.headers@)
                        == signed_headers(
                        old(self)@.device_id.unwrap(),
                        old(self)@.key_version,
                        old(self)@.app_version,
                        request.host@,
                        request.canonical_path@,
                        request_time_ms,
                        nonce@,
                        counter,
                        body_hash,
                        signature,
                    ),
                }
            },
    {
        proof {
            use_type_invariant(&*self);
        }
        let device_id = match &self.device_id {
            Some(id) => id.clone(),
            None => return Err(SecurityError::NotProvisioned),
        };
        if self.counter == u64::MAX {
            return Err(SecurityError::CounterOverflow);
        }
        self.counter = self.counter + 1;
        let body_hash = if request.body.len() == 0 {
            String::new()
        } else {
            let digest = sha256(request.body.as_slice());
            hex_encode(digest.as_slice())
        };
        let method = to_uppercase(request.method.as_str());
        let host = to_lowercase(request.host.as_str());
        let mut origin = "https://".to_owned();
        origin.append(host.as_str());
        let mut parts: Vec<String> = Vec::new();
        parts.push("zerobeat-v5".to_owned());
        parts.push(method);
        parts.push(origin);
        parts.push(request.canonical_path.clone());
        parts.push(request.raw_query.clone());
        parts.push(device_id.clone());
        parts.push(PLATFORM.to_owned());
        parts.push(self.app_version.clone());
        parts.push(decimal_string(self.key_version as u64));
        parts.push(signed_decimal_string(request_time_ms));
        parts.push(nonce.to_owned());
        parts.push(decimal_string(self.counter));
        parts.push(RISK_SNAPSHOT.to_owned());
        parts.push(body_hash.clone());
        let ghost fields = canonical_fields(
            request.method@,
            request.host@,
            request.canonical_path@,
            request.raw_query@,
            device_id@,
            self.app_version@,
            self.key_version,
            request_time_ms,
            nonce@,
            self.counter,
            body_hash@,
        );
        assert(parts@.map_values(|p: String| p@) =~= fields);
        proof {
            reveal_strlit("\n");
            assert("\n"@ =~= seq!['\n']);
        }
        let canonical = join_with(&parts, "\n");
        let der = match sign_der(self.secret.as_slice(), canonical.as_str().as_bytes()) {
            Some(der) => der,
            None => return Err(SecurityError::InvalidKey),
        };
        let signature = base64_url_encode(der.as_slice());
        let mut headers: Vec<(String, String)> = Vec::new();
        headers.push(("X-ZeroBeat-App-Version".to_owned(), self.app_version.clone()));
        headers.push(("X-ZeroBeat-Body-SHA256".to_owned(), body_hash));
        headers.push(("X-ZeroBeat-Canonical-Host".to_owned(), host));
        headers.push(("X-ZeroBeat-Canonical-Path".to_owned(), request.canonical_path));
        headers.push(("X-ZeroBeat-Client-Risk".to_owned(), RISK_SNAPSHOT.to_owned()));
        headers.push(("X-ZeroBeat-Device-ID".to_owned(), device_id));
        headers.push(("X-ZeroBeat-Key-Version".to_owned(), decimal_string(self.key_version as u64)));
        headers.push(("X-ZeroBeat-Platform".to_owned(), PLATFORM.to_owned()));
        headers.push(("X-ZeroBeat-Request-Counter".to_owned(), decimal_string(self.counter)));
        headers.push(("X-ZeroBeat-Request-Nonce".to_owned(), nonce.to_owned()));
        headers.push(("X-ZeroBeat-Request-Signature".to_owned(), signature));
        headers.push(("X-ZeroBeat-Request-Time".to_owned(), signed_decimal_string(request_time_ms)));
        headers.push(("X-ZeroBeat-Signature-Version".to_owned(), "v5".to_owned()));
        let ghost expected = signed_headers(
            device_id@,
            self.key_version,
            self.app_version@,
            request.host@,
            request.canonical_path@,
            request_time_ms,
            nonce@,
            self.counter,
            body_hash@,
            signature@,
        );
        assert(header_view(headers@) =~= expected);
        Ok(SignedRequest { canonical, headers })
    }

    /// Signs `request` at `request_time_ms` with a fresh random nonce: the URL-safe
    /// Base64 of eighteen random bytes.
    pub fn sign_request(&mut self, request: RequestToSign, request_time_ms: i64) -> (signed: Result<SignedRequest, SecurityError>)
        ensures
            old(self)@.device_id is None ==> (signed matches Err(SecurityError::NotProvisioned)) && final(self)@ == old(self)@,
            old(self)@.device_id is Some && old(self)@.counter == u64::MAX ==> (signed matches Err(SecurityError::CounterOverflow))
                && final(self)@ == old(self)@,
            old(self)@.device_id is Some && old(self)@.counter < u64::MAX ==> {
                let counter = (old(self)@.counter + 1) as u64;
                &&& final(self)@ == (DeviceIdentityView { counter, ..old(self)@ })
                &&& exists|nonce_bytes: Seq<u8>| #![trigger base64_url_no_pad(nonce_bytes)] {
                    let nonce = base64_url_no_pad(nonce_bytes);
                    let body_hash = body_hash_view(request.body@);
                    let canonical = joined(canonical_fields(
                        request.method@,
                        request.host@,
                        request.canonical_path@,
                        request.raw_query@,
                        old(self)@.device_id.unwrap(),
                        old(self)@.app_version,
                        old(self)@.key_version,
                        request_time_ms,
                        nonce,
                        counter,
                        body_hash,
                    ), seq!['\n']);
                    &&& nonce_bytes.len() == NONCE_BYTES
                    &&& match signature_text(old(self)@.secret, canonical) {
                        None => signed matches Err(SecurityError::InvalidKey),
                        Some(signature) => signed matches Ok(s) && s.canonical@ == canonical && header_view(s.headers@)
                            == signed_headers(
                            old(self)@.device_id.unwrap(),
                            old(self)@.key_version,
                            old(self)@.app_version,
                            request.host@,
                            request.canonical_path@,
                            request_time_ms,
                            nonce,
                            counter,
                            body_hash,
                            signature,
                        ),
                    }
                }
            },
    {
        let nonce_bytes = random_bytes(NONCE_BYTES);
        let nonce = base64_url_encode(nonce_bytes.as_slice());
        self.sign_request_with_nonce(request, request_time_ms, nonce.as_str())
    }
}

/// Whether an identity file may be read or kept: a regular file, not a link,
/// owned by the current user.
pub fn check_identity_file(is_file: bool, is_symlink: bool, owned_by_user: bool) -> (checked: Result<(), SecurityError>)
    ensures
        is_file && !is_symlink && owned_by_user ==> checked is Ok,
        !(is_file && !is_symlink && owned_by_user) ==> (checked matches Err(SecurityError::UnsafeIdentity)),
{
    if is_file && !is_symlink && owned_by_user {
        Ok(())
    } else {
        Err(SecurityError::UnsafeIdentity)
    }
}

/// The signed canonical text has the fourteen version-5 fields, the version tag
/// first, and its last field is the body hash that the `X-ZeroBeat-Body-SHA256`
/// header carries, so the signature binds the body; an empty body has an empty
/// hash. Every other field that a header also carries is signed as that header
/// sends it (the host with its scheme).
pub proof fn lemma_signature_binds_the_body(
    method: Seq<char>,
    host: Seq<char>,
    canonical_path: Seq<char>,
    raw_query: Seq<char>,
    device_id: Seq<char>,
    app_version: Seq<char>,
    key_version: u32,
    request_time_ms: i64,
    nonce: Seq<char>,
    counter: u64,
    body: Seq<u8>,
    signature: Seq<char>,
)
    ensures
        ({
            let body_hash = body_hash_view(body);
            let fields = canonical_fields(
                method,
                host,
                canonical_path,
                raw_query,
                device_id,
                app_version,
                key_version,
                request_time_ms,
                nonce,
                counter,
                body_hash,
            );
            let headers = signed_headers(
                device_id,
                key_version,
                app_version,
                host,
                canonical_path,
                request_time_ms,
                nonce,
                counter,
                body_hash,
                signature,
            );
            &&& fields.len() == 14
            &&& fields[0] == "zerobeat-v5"@
            &&& fields[13] == body_hash
            &&& headers[1].0 == "X-ZeroBeat-Body-SHA256"@
            &&& fields[13] == headers[1].1
            &&& body.len() == 0 ==> fields[13].len() == 0
            &&& fields[2] == "https://"@ + headers[2].1
            &&& fields[3] == headers[3].1
            &&& fields[12] == headers[4].1
            &&& fields[5] == headers[5].1
            &&& fields[8] == headers[6].1
            &&& fields[6] == headers[7].1
            &&& fields[11] == headers[8].1
            &&& fields[10] == headers[9].1
            &&& fields[9] == headers[11].1
            &&& fields[7] == headers[0].1
        }),
{
}

} // verus!
