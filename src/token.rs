use crate::errors::AppError;
use crate::text::{contains_text, owned};
use chacha20poly1305::aead::{Aead, KeyInit};
use chacha20poly1305::{Key, XChaCha20Poly1305, XNonce};
use vstd::prelude::*;
use vstd::string::*;
use vstd::utf8::*;

verus! {

/// The character of a hexadecimal digit value, lower case.
pub open spec fn lower_hex_char(v: int) -> char {
    if v < 10 {
        crate::query::digit_char(v as nat)
    } else if v == 10 {
        'a'
    } else if v == 11 {
        'b'
    } else if v == 12 {
        'c'
    } else if v == 13 {
        'd'
    } else if v == 14 {
        'e'
    } else {
        'f'
    }
}

/// Bytes written as two lower-case hexadecimal digits each, high nibble first.
pub open spec fn hex_text(b: Seq<u8>) -> Seq<char> {
    Seq::new(
        2 * b.len(),
        |i: int|
            if i % 2 == 0 {
                lower_hex_char(b[i / 2] as int / 16)
            } else {
                lower_hex_char(b[i / 2] as int % 16)
            },
    )
}

pub open spec fn is_hex_char(c: char) -> bool {
    ('0' <= c && c <= '9') || ('a' <= c && c <= 'f') || ('A' <= c && c <= 'F')
}

/// The value of a hexadecimal digit of either case.
pub open spec fn hex_value(c: char) -> int {
    if '0' <= c && c <= '9' {
        c as int - '0' as int
    } else if 'a' <= c && c <= 'f' {
        c as int - 'a' as int + 10
    } else {
        c as int - 'A' as int + 10
    }
}

/// `s` spells the bytes `b` in hexadecimal, digits of either case.
pub open spec fn hex_spells(s: Seq<char>, b: Seq<u8>) -> bool {
    &&& s.len() == 2 * b.len()
    &&& forall|i: int|
        0 <= i < b.len() ==> is_hex_char(#[trigger] s[2 * i]) && is_hex_char(s[2 * i + 1])
            && hex_value(s[2 * i]) * 16 + hex_value(s[2 * i + 1]) == b[i]
}

/// Whether `s` is made of hexadecimal digits, an even number of them.
pub open spec fn is_hex_text(s: Seq<char>) -> bool {
    s.len() % 2 == 0 && forall|i: int| 0 <= i < s.len() ==> is_hex_char(#[trigger] s[i])
}

/// The XChaCha20-Poly1305 ciphertext, tag included, of `msg` under `key` and `nonce`.
pub uninterp spec fn sealed(key: Seq<u8>, nonce: Seq<u8>, msg: Seq<u8>) -> Seq<u8>;

/// Whether the cipher accepts a message of this length (fewer than 2^32 - 1 blocks).
pub open spec fn sealable(msg: Seq<u8>) -> bool {
    msg.len() / 64 < 4294967295
}

/// Relies on hex::encode: two lower-case digits per byte, high nibble first.
#[verifier::external_body]
fn hex_encode(b: &[u8]) -> (r: String)
    ensures
        r@ == hex_text(b@),
{
    hex::encode(b)
}

/// Relies on hex::decode: it accepts an even number of digits of either case and
/// nothing else, and reads each pair as one byte, high nibble first.
#[verifier::external_body]
fn hex_decode(s: &str) -> (r: Option<Vec<u8>>)
    ensures
        r is Some <==> is_hex_text(s@),
        r is Some ==> hex_spells(s@, r->Some_0@),
{
    hex::decode(s).ok()
}

/// Relies on XChaCha20Poly1305::encrypt (no associated data): it fails only on a
/// message of 2^32 - 1 blocks of 64 bytes or more.
#[verifier::external_body]
fn seal(key: &[u8], nonce: &[u8], msg: &[u8]) -> (r: Option<Vec<u8>>)
    requires
        key@.len() == 32,
        nonce@.len() == 24,
    ensures
        r is Some <==> sealable(msg@),
        r is Some ==> r->Some_0@ == sealed(key@, nonce@, msg@),
{
    let cipher = XChaCha20Poly1305::new(Key::from_slice(key));
    cipher.encrypt(XNonce::from_slice(nonce), msg).ok()
}

/// Relies on XChaCha20Poly1305::decrypt (no associated data): it returns a message
/// exactly when the tag authenticates the rest, and the cipher is deterministic for a
/// fixed key and nonce, so the message returned encrypts back to the input and every
/// ciphertext made by `encrypt` decrypts to its message.
#[verifier::external_body]
fn unseal(key: &[u8], nonce: &[u8], ct: &[u8]) -> (r: Option<Vec<u8>>)
    requires
        key@.len() == 32,
        nonce@.len() == 24,
    ensures
        r is Some ==> ct@ == sealed(key@, nonce@, r->Some_0@),
        forall|m: Seq<u8>|
            sealable(m) && ct@ == #[trigger] sealed(key@, nonce@, m) ==> r is Some && r->Some_0@ == m,
{
    let cipher = XChaCha20Poly1305::new(Key::from_slice(key));
    cipher.decrypt(XNonce::from_slice(nonce), ct).ok()
}

/// Relies on String::from_utf8: it succeeds exactly on valid UTF-8 and decodes it.
#[verifier::external_body]
fn utf8_text(v: Vec<u8>) -> (r: Option<String>)
    ensures
        r is Some <==> valid_utf8(v@),
        r is Some ==> r->Some_0@ == decode_utf8(v@),
{
    String::from_utf8(v).ok()
}

/// The hyphenated form of a UUID: 36 characters, hyphens at 8, 13, 18 and 23,
/// lower-case hexadecimal digits elsewhere.
pub open spec fn is_hyphenated_uuid(s: Seq<char>) -> bool {
    &&& s.len() == 36
    &&& forall|i: int|
        0 <= i < 36 ==> if i == 8 || i == 13 || i == 18 || i == 23 {
            #[trigger] s[i] == '-'
        } else {
            ('0' <= s[i] && s[i] <= '9') || ('a' <= s[i] && s[i] <= 'f')
        }
}

/// Relies on uuid::Uuid::new_v4 and its `Display`, which writes the hyphenated
/// lower-case form: a random identifier in that form.
#[verifier::external_body]
fn fresh_client_id() -> (r: String)
    ensures
        is_hyphenated_uuid(r@),
{
    uuid::Uuid::new_v4().to_string()
}


/// The token that identifies client `id`: its UTF-8 bytes sealed under the process
/// key and nonce, written in hexadecimal.
pub open spec fn client_token(key: Seq<u8>, nonce: Seq<u8>, id: Seq<char>) -> Seq<char> {
    hex_text(sealed(key, nonce, encode_utf8(id)))
}

/// Whether `token` is, up to the case of its digits, the token of client `id`.
pub open spec fn token_names(key: Seq<u8>, nonce: Seq<u8>, token: Seq<char>, id: Seq<char>) -> bool {
    hex_spells(token, sealed(key, nonce, encode_utf8(id)))
}

proof fn lemma_hex_char(v: int)
    requires
        0 <= v < 16,
    ensures
        is_hex_char(lower_hex_char(v)),
        hex_value(lower_hex_char(v)) == v,
{
}

/// Hexadecimal text made by the encoder reads back as the bytes it was made from, and
/// as no other bytes.
proof fn lemma_hex_text(b: Seq<u8>)
    ensures
        is_hex_text(hex_text(b)),
        hex_spells(hex_text(b), b),
        forall|c: Seq<u8>| hex_spells(hex_text(b), c) ==> c == b,
{
    let s = hex_text(b);
    assert forall|i: int| 0 <= i < s.len() implies is_hex_char(#[trigger] s[i]) by {
        let x = b[i / 2] as int;
        if i % 2 == 0 {
            lemma_hex_char(x / 16);
        } else {
            lemma_hex_char(x % 16);
        }
    }
    assert forall|i: int| 0 <= i < b.len() implies is_hex_char(#[trigger] s[2 * i]) && is_hex_char(
        s[2 * i + 1],
    ) && hex_value(s[2 * i]) * 16 + hex_value(s[2 * i + 1]) == b[i] by {
        let x = b[i] as int;
        assert((2 * i) / 2 == i);
        assert((2 * i + 1) / 2 == i);
        lemma_hex_char(x / 16);
        lemma_hex_char(x % 16);
    }
    assert forall|c: Seq<u8>| hex_spells(s, c) implies c == b by {
        assert forall|i: int| 0 <= i < b.len() implies c[i] == b[i] by {
            assert(is_hex_char(s[2 * i]));
        }
        assert(c =~= b);
    }
}

/// The token issued for a client is read back as naming that client, under the same
/// key and nonce.
pub proof fn lemma_token_names_its_client(key: Seq<u8>, nonce: Seq<u8>, id: Seq<char>)
    ensures
        token_names(key, nonce, client_token(key, nonce, id), id),
{
    lemma_hex_text(sealed(key, nonce, encode_utf8(id)));
}

proof fn lemma_utf8_length(s: Seq<char>)
    ensures
        encode_utf8(s).len() <= 4 * s.len(),
    decreases s.len(),
{
    if s.len() > 0 {
        lemma_utf8_length(s.drop_first());
    }
}

/// The process-wide secrets: the 32-byte key and 24-byte nonce that seal client
/// tokens, and the secret that signs session tokens.
pub struct AppSecrets {
    secret_key: Vec<u8>,
    nonce: Vec<u8>,
    jwt_secret: Vec<u8>,
}

impl AppSecrets {
    pub closed spec fn key(&self) -> Seq<u8> {
        self.secret_key@
    }

    pub closed spec fn nonce_bytes(&self) -> Seq<u8> {
        self.nonce@
    }

    pub closed spec fn signing_secret(&self) -> Seq<u8> {
        self.jwt_secret@
    }

    /// The key and nonce have the sizes the cipher needs.
    pub open spec fn wf(&self) -> bool {
        self.key().len() == 32 && self.nonce_bytes().len() == 24
    }

    /// Secrets from their bytes; a key other than 32 bytes or a nonce other than 24
    /// bytes is an initialisation error.
    pub fn new(secret_key: Vec<u8>, nonce: Vec<u8>, jwt_secret: Vec<u8>) -> (r: Result<
        AppSecrets,
        AppError,
    >)
        ensures
            r is Ok <==> secret_key@.len() == 32 && nonce@.len() == 24,
            r is Ok ==> r->Ok_0.key() == secret_key@ && r->Ok_0.nonce_bytes() == nonce@
                && r->Ok_0.signing_secret() == jwt_secret@ && r->Ok_0.wf(),
            r is Err ==> r->Err_0 is InitError,
    {
        if secret_key.len() != 32 || nonce.len() != 24 {
            return Err(AppError::InitError(owned("secret key must be 32 bytes and nonce 24 bytes")));
        }
        Ok(AppSecrets { secret_key, nonce, jwt_secret })
    }

    pub fn secret_key(&self) -> (r: &[u8])
        ensures
            r@ == self.key(),
    {
        self.secret_key.as_slice()
    }

    pub fn nonce(&self) -> (r: &[u8])
        ensures
            r@ == self.nonce_bytes(),
    {
        self.nonce.as_slice()
    }

    pub fn jwt_secret(&self) -> (r: &[u8])
        ensures
            r@ == self.signing_secret(),
    {
        self.jwt_secret.as_slice()
    }
}

/// The token of client `client_id`. Sealing fails only for an identifier too long for
/// the cipher, reported as an internal error.
pub fn generate_token(secrets: &AppSecrets, client_id: &str) -> (r: Result<String, AppError>)
    requires
        secrets.wf(),
    ensures
        r is Ok <==> sealable(encode_utf8(client_id@)),
        r is Ok ==> r->Ok_0@ == client_token(secrets.key(), secrets.nonce_bytes(), client_id@),
        r is Err ==> r->Err_0 is InternalServerError,
{
    let bytes = client_id.as_bytes_vec();
    match seal(secrets.secret_key(), secrets.nonce(), bytes.as_slice()) {
        Some(ct) => Ok(hex_encode(ct.as_slice())),
        None => Err(AppError::InternalServerError(owned("unable to seal client identifier"))),
    }
}

/// The client identifier that `token` carries: hex-decoded, authenticated and
/// decrypted, read as UTF-8. Any failure on the way is an authorization error. The
/// token of a client always yields that client.
pub fn client_id_of(secrets: &AppSecrets, token: &str) -> (r: Result<String, AppError>)
    requires
        secrets.wf(),
    ensures
        r is Err ==> r->Err_0 is AuthorizationError,
        r is Ok ==> token_names(secrets.key(), secrets.nonce_bytes(), token@, r->Ok_0@),
        forall|id: Seq<char>|
            sealable(encode_utf8(id)) && token@ == #[trigger] client_token(
                secrets.key(),
                secrets.nonce_bytes(),
                id,
            ) ==> r is Ok && r->Ok_0@ == id,
{
    proof {
        broadcast use encode_utf8_valid_utf8, encode_utf8_decode_utf8, decode_utf8_encode_utf8;

        assert forall|id: Seq<char>|
            sealable(encode_utf8(id)) && token@ == #[trigger] client_token(
                secrets.key(),
                secrets.nonce_bytes(),
                id,
            ) implies is_hex_text(token@) by {
            lemma_hex_text(sealed(secrets.key(), secrets.nonce_bytes(), encode_utf8(id)));
        }
    }
    let ct = match hex_decode(token) {
        Some(v) => v,
        None => {
            return Err(AppError::AuthorizationError(owned("client token is not hexadecimal")));
        },
    };
    proof {
        assert forall|id: Seq<char>|
            sealable(encode_utf8(id)) && token@ == #[trigger] client_token(
                secrets.key(),
                secrets.nonce_bytes(),
                id,
            ) implies ct@ == sealed(secrets.key(), secrets.nonce_bytes(), encode_utf8(id)) by {
            lemma_hex_text(sealed(secrets.key(), secrets.nonce_bytes(), encode_utf8(id)));
        }
    }
    let msg = match unseal(secrets.secret_key(), secrets.nonce(), ct.as_slice()) {
        Some(m) => m,
        None => {
            return Err(AppError::AuthorizationError(owned("client token failed authentication")));
        },
    };
    let ghost m = msg@;
    match utf8_text(msg) {
        Some(id) => {
            proof {
                broadcast use decode_utf8_encode_utf8;

                assert(encode_utf8(decode_utf8(m)) == m);
            }
            Ok(id)
        },
        None => Err(AppError::AuthorizationError(owned("client token is not text"))),
    }
}

/// Authenticates a client by its token against the identifiers of the registered
/// clients: the client must be named by the token and registered. Anything else is
/// an authorization error.
pub fn verify_client(secrets: &AppSecrets, token: &str, clients: &Vec<String>) -> (r: Result<
    String,
    AppError,
>)
    requires
        secrets.wf(),
    ensures
        r is Err ==> r->Err_0 is AuthorizationError,
        r is Ok ==> token_names(secrets.key(), secrets.nonce_bytes(), token@, r->Ok_0@)
            && crate::text::strings_view(clients@).contains(r->Ok_0@),
        forall|id: Seq<char>|
            sealable(encode_utf8(id)) && token@ == #[trigger] client_token(
                secrets.key(),
                secrets.nonce_bytes(),
                id,
            ) ==> ((r is Ok <==> crate::text::strings_view(clients@).contains(id)) && (r is Ok
                ==> r->Ok_0@ == id)),
{
    let id = client_id_of(secrets, token)?;
    if contains_text(clients, id.as_str()) {
        Ok(id)
    } else {
        Err(AppError::AuthorizationError(owned("no client with this token")))
    }
}

/// A new token for the registered client `client_id`; the identifier itself does not
/// change. An unregistered identifier is not found.
pub fn regenerate_token(secrets: &AppSecrets, client_id: &str, clients: &Vec<String>) -> (r:
    Result<String, AppError>)
    requires
        secrets.wf(),
    ensures
        !crate::text::strings_view(clients@).contains(client_id@) ==> (r is Err
            && r->Err_0 is NotFound),
        crate::text::strings_view(clients@).contains(client_id@) ==> (r is Ok <==> sealable(
            encode_utf8(client_id@),
        )),
        r is Ok ==> r->Ok_0@ == client_token(secrets.key(), secrets.nonce_bytes(), client_id@),
{
    if !contains_text(clients, client_id) {
        return Err(AppError::NotFound(owned("no such client")));
    }
    generate_token(secrets, client_id)
}

/// A newly registered client: its fresh identifier and its token.
pub struct NewClient {
    pub id: String,
    pub token: String,
}

/// Draws a fresh identifier for a new client and issues its token. The caller stores
/// the identifier with the client's name.
pub fn create_client(secrets: &AppSecrets) -> (r: Result<NewClient, AppError>)
    requires
        secrets.wf(),
    ensures
        r is Ok,
        is_hyphenated_uuid(r->Ok_0.id@),
        r->Ok_0.token@ == client_token(secrets.key(), secrets.nonce_bytes(), r->Ok_0.id@),
{
    let id = fresh_client_id();
    proof {
        lemma_utf8_length(id@);
    }
    let token = generate_token(secrets, id.as_str())?;
    Ok(NewClient { id, token })
}

} // verus!
