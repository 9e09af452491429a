//! The OBS websocket client: numbering of requests, assembling a JSON reply
//! from websocket text frames, and the password answer to OBS's
//! authentication challenge.
use sha2::{Digest, Sha256};
use vstd::prelude::*;
use vstd::slice::slice_to_vec;
use vstd::string::StringExecFns;
use vstd::utf8::encode_utf8;

use crate::text::{decimal, is_digit, trim_whitespace, lemma_decimal_injective, lemma_decimal_reads_back, push_decimal};

verus! {

/// The state of the connection to OBS, as the status bar shows it.
#[derive(Clone, Copy, PartialEq, Eq, Debug)]
pub enum Status {
    Offline,
    Login,
    Idle,
}

/// The request side of the OBS connection: it numbers the requests it sends.
pub struct Obs {
    message_id: u64,
}

/// The opening of every request, up to its number.
pub open spec fn msg_head() -> Seq<char> {
    "{\"message-id\":"@
}

/// The text of request number `id` of type `type_`, whose further fields are
/// `msg` (a comma-separated list of JSON members, possibly empty).
pub open spec fn full_msg(id: nat, type_: Seq<char>, msg: Seq<char>) -> Seq<char> {
    msg_head() + decimal(id) + ",\"request-type\":\""@ + type_ + "\""@ + (if msg.len() == 0 {
        Seq::<char>::empty()
    } else {
        ","@ + msg
    }) + "}"@
}

/// The `auth` member of an `Authenticate` request.
pub open spec fn auth_member(password: Seq<char>) -> Seq<char> {
    "\"auth\":\""@ + password + "\""@
}

impl Obs {
    /// The number that the next request will carry.
    pub closed spec fn next_id(&self) -> nat {
        self.message_id as nat
    }

    /// A client that has sent nothing yet: its first request is number 1.
    pub fn new() -> (res: Obs)
        ensures
            res.next_id() == 1,
    {
        Obs { message_id: 1 }
    }

    /// The number that the next request will carry.
    pub fn message_id(&self) -> (res: u64)
        ensures
            res == self.next_id(),
    {
        self.message_id
    }

    /// Builds the text of the next request, of type `type_` with the further
    /// members `msg`, and advances the request number.
    pub fn get_full_msg(&mut self, type_: &str, msg: &str) -> (res: String)
        requires
            old(self).next_id() < u64::MAX,
        ensures
            res@ == full_msg(old(self).next_id(), type_@, msg@),
            final(self).next_id() == old(self).next_id() + 1,
    {
        let mut result = String::new();
        result.append("{\"message-id\":");
        push_decimal(&mut result, self.message_id);
        result.append(",\"request-type\":\"");
        result.append(type_);
        result.append("\"");
        let ghost before_msg = result@;
        if !msg.is_empty() {
            result.append(",");
            result.append(msg);
        }
        result.append("}");
        self.message_id = self.message_id + 1;
        proof {
            if msg@.len() == 0 {
                assert(result@ =~= before_msg + Seq::<char>::empty() + "}"@);
            } else {
                assert(result@ =~= before_msg + (","@ + msg@) + "}"@);
            }
        }
        result
    }

    /// The further members of an `Authenticate` request that answers with
    /// `password`.
    pub fn auth_payload(password: &str) -> (res: String)
        ensures
            res@ == auth_member(password@),
    {
        let mut result = String::new();
        result.append("\"auth\":\"");
        result.append(password);
        result.append("\"");
        result
    }
}

impl Obs {
    /// The first request of the login: it asks OBS whether, and how, it
    /// wants the client to authenticate.
    pub fn login_request(&mut self) -> (res: String)
        requires
            old(self).next_id() < u64::MAX,
        ensures
            res@ == full_msg(old(self).next_id(), "GetAuthRequired"@, Seq::<char>::empty()),
            final(self).next_id() == old(self).next_id() + 1,
    {
        proof {
            reveal_strlit("");
        }
        self.get_full_msg("GetAuthRequired", "")
    }

    /// The second request of the login: it answers the challenge and salt
    /// that OBS sent with the password held in `password_file`.
    pub fn authenticate_request(&mut self, challenge: &str, salt: &str, password_file: &str) -> (res:
        String)
        requires
            old(self).next_id() < u64::MAX,
        ensures
            res@ == full_msg(
                old(self).next_id(),
                "Authenticate"@,
                auth_member(auth_response(trim_whitespace(password_file@), challenge@, salt@)),
            ),
            final(self).next_id() == old(self).next_id() + 1,
    {
        let password = Obs::get_password(challenge, salt, password_file);
        let payload = Obs::auth_payload(password.as_str());
        self.get_full_msg("Authenticate", payload.as_str())
    }
}

/// Two requests with different numbers differ, whatever their types and
/// members: the request number tells the replies apart.
pub proof fn lemma_requests_distinct(
    a: nat,
    type_a: Seq<char>,
    msg_a: Seq<char>,
    b: nat,
    type_b: Seq<char>,
    msg_b: Seq<char>,
)
    requires
        a != b,
    ensures
        full_msg(a, type_a, msg_a) != full_msg(b, type_b, msg_b),
{
    reveal_strlit("{\"message-id\":");
    reveal_strlit(",\"request-type\":\"");
    let da = decimal(a);
    let db = decimal(b);
    lemma_decimal_reads_back(a);
    lemma_decimal_reads_back(b);
    let ma = full_msg(a, type_a, msg_a);
    let mb = full_msg(b, type_b, msg_b);
    let h: int = msg_head().len() as int;
    assert(h == 14);
    if ma == mb {
        if da.len() == db.len() {
            assert(da =~= ma.subrange(h, h + da.len()));
            assert(db =~= mb.subrange(h, h + db.len()));
            lemma_decimal_injective(a, b);
        } else if da.len() < db.len() {
            assert(ma[h + da.len()] == ',');
            assert(mb[h + da.len()] == db[da.len() as int]);
            assert(is_digit(db[da.len() as int]));
        } else {
            assert(mb[h + db.len()] == ',');
            assert(ma[h + db.len()] == da[db.len() as int]);
            assert(is_digit(da[db.len() as int]));
        }
    }
}

/// What became of a websocket text frame read while waiting for a reply.
#[derive(Clone, Copy, PartialEq, Eq, Debug)]
pub enum FrameOutcome {
    /// The text gathered so far is a complete JSON value: the reply.
    Complete,
    /// The text gathered so far is not yet a JSON value: read on.
    Pending,
    /// The connection ended before a reply was complete.
    Ended,
}

/// Whether `text` parses as a JSON value.
pub uninterp spec fn is_json(text: Seq<char>) -> bool;

/// The string member `key` of the JSON object `text`, if `text` parses as
/// JSON and has a member `key` whose value is a string.
pub uninterp spec fn json_string_field(text: Seq<char>, key: Seq<char>) -> Option<Seq<char>>;

/// Whether `serde_json::from_str::<serde_json::Value>` accepts `text`; the
/// result is `is_json(text)` (JSON's grammar is not written out here).
#[verifier::external_body]
fn parses_as_json(text: &str) -> (res: bool)
    ensures
        res == is_json(text@),
{
    serde_json::from_str::<serde_json::Value>(text).is_ok()
}

/// Parses `text` with `serde_json::from_str::<serde_json::Value>` and takes
/// `value[key].as_str()`; the result is `json_string_field(text, key)`, and a
/// string member is only found in text that parses.
#[verifier::external_body]
fn string_member(text: &str, key: &str) -> (res: Option<String>)
    ensures
        res is None ==> json_string_field(text@, key@) is None,
        res matches Some(v) ==> json_string_field(text@, key@) == Some(v@),
        res is Some ==> is_json(text@),
{
    match serde_json::from_str::<serde_json::Value>(text) {
        Ok(value) => value[key].as_str().map(|s| s.to_string()),
        Err(_) => None,
    }
}

/// Adds the text frame `frame` (or the end of the connection, `None`) to the
/// reply gathered so far in `msg`, and says whether the reply is complete.
pub fn read_step(msg: &mut String, frame: Option<&str>) -> (res: FrameOutcome)
    ensures
        frame is None ==> res == FrameOutcome::Ended && final(msg)@ == old(msg)@,
        frame matches Some(f) ==> {
            &&& final(msg)@ == old(msg)@ + f@
            &&& res == (if is_json(final(msg)@) {
                FrameOutcome::Complete
            } else {
                FrameOutcome::Pending
            })
        },
{
    match frame {
        Some(f) => {
            msg.append(f);
            if parses_as_json(msg.as_str()) {
                FrameOutcome::Complete
            } else {
                FrameOutcome::Pending
            }
        },
        None => FrameOutcome::Ended,
    }
}

/// The challenge and the salt of a `GetAuthRequired` reply, or `None` where
/// the reply lacks either of them as a string.
pub fn auth_params(reply: &str) -> (res: Option<(String, String)>)
    ensures
        res matches Some((c, s)) ==> {
            &&& json_string_field(reply@, "challenge"@) == Some(c@)
            &&& json_string_field(reply@, "salt"@) == Some(s@)
        },
        res is None ==> json_string_field(reply@, "challenge"@) is None || json_string_field(
            reply@,
            "salt"@,
        ) is None,
{
    let challenge = string_member(reply, "challenge");
    match challenge {
        Some(c) => {
            let salt = string_member(reply, "salt");
            match salt {
                Some(s) => Some((c, s)),
                None => None,
            }
        },
        None => None,
    }
}

/// The SHA-256 digest of `data`.
pub uninterp spec fn sha256(data: Seq<u8>) -> Seq<u8>;

/// The standard base64 encoding (alphabet `A-Za-z0-9+/`, with `=` padding)
/// of `data`.
pub uninterp spec fn base64_standard(data: Seq<u8>) -> Seq<char>;

/// `sha2::Sha256::digest`: the result is `sha256(data)`, 32 bytes long.
#[verifier::external_body]
fn sha256_digest(data: &[u8]) -> (res: Vec<u8>)
    ensures
        res@ == sha256(data@),
        res@.len() == 32,
{
    Sha256::digest(data).to_vec()
}

/// `base64::encode_config_buf` with `base64::STANDARD`: appends
/// `base64_standard(data)` to `buf`, four characters for every three bytes
/// or part of three (padding included).
#[verifier::external_body]
fn append_base64(data: &[u8], buf: &mut String)
    ensures
        final(buf)@ == old(buf)@ + base64_standard(data@),
        final(buf)@.len() == old(buf)@.len() + 4 * ((data@.len() + 2) / 3),
{
    base64::encode_config_buf(data, base64::STANDARD, buf);
}

/// `str::trim`: `s` without its leading and trailing characters that have
/// the Unicode `White_Space` property.
#[verifier::external_body]
fn trim(s: &str) -> (res: String)
    ensures
        res@ == trim_whitespace(s@),
{
    s.trim().to_string()
}

/// The answer to OBS's challenge: with `secret` the base64 text of the
/// SHA-256 digest of the password and the salt, the base64 text of the
/// SHA-256 digest of `secret` and the challenge (each text taken as UTF-8).
pub open spec fn auth_response(password: Seq<char>, challenge: Seq<char>, salt: Seq<char>) -> Seq<
    char,
> {
    let secret = base64_standard(sha256(encode_utf8(password) + encode_utf8(salt)));
    base64_standard(sha256(encode_utf8(secret) + encode_utf8(challenge)))
}

/// The answer hashes the password's own UTF-8 bytes, followed by the
/// salt's: base64 of their SHA-256 digest is the secret, and the answer is
/// base64 of the SHA-256 digest of the secret's bytes followed by the
/// challenge's.
pub proof fn lemma_auth_response_hashes_password(
    password: Seq<char>,
    challenge: Seq<char>,
    salt: Seq<char>,
)
    ensures
        auth_response(password, challenge, salt) == base64_standard(
            sha256(
                encode_utf8(base64_standard(sha256(encode_utf8(password) + encode_utf8(salt))))
                    + encode_utf8(challenge),
            ),
        ),
{
}

/// The SHA-256 digest of the UTF-8 bytes of `a` followed by those of `b`.
fn digest_of_pair(a: &str, b: &str) -> (res: Vec<u8>)
    ensures
        res@ == sha256(encode_utf8(a@) + encode_utf8(b@)),
        res@.len() == 32,
{
    let mut data = slice_to_vec(a.as_bytes());
    let mut rest = slice_to_vec(b.as_bytes());
    data.append(&mut rest);
    sha256_digest(data.as_slice())
}

impl Obs {
    /// The password to send in answer to `challenge` and `salt`, where
    /// `password_file` is the text of the file that holds the password
    /// (surrounding whitespace is not part of the password).
    pub fn get_password(challenge: &str, salt: &str, password_file: &str) -> (res: String)
        ensures
            res@ == auth_response(trim_whitespace(password_file@), challenge@, salt@),
            res@ == base64_standard(
                sha256(
                    encode_utf8(
                        base64_standard(
                            sha256(encode_utf8(trim_whitespace(password_file@)) + encode_utf8(salt@)),
                        ),
                    ) + encode_utf8(challenge@),
                ),
            ),
            res@.len() == 44,
    {
        let password = trim(password_file);
        let first = digest_of_pair(password.as_str(), salt);
        let mut auth = String::new();
        append_base64(first.as_slice(), &mut auth);
        let second = digest_of_pair(auth.as_str(), challenge);
        let mut answer = String::new();
        append_base64(second.as_slice(), &mut answer);
        assert(auth@ =~= base64_standard(first@));
        assert(answer@ =~= base64_standard(second@));
        answer
    }
}

} // verus!
