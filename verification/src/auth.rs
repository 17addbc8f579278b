//! Password hashing (argon2id) and session tokens.

use argon2::password_hash::{PasswordHash, PasswordHasher, PasswordVerifier, SaltString};
use argon2::Argon2;
use rand::rngs::SysRng;
use rand::TryRng;
use vstd::prelude::*;

use crate::text;

verus! {

/// The number of random bytes in the salt of a password hash.
pub const SALT_LEN: usize = 16;

/// The number of random bytes in a session token.
pub const TOKEN_LEN: usize = 32;

/// The error of the operating system's random source, seen as opaque.
#[verifier::external_type_specification]
#[verifier::external_body]
pub struct ExSysError(rand::rngs::SysError);

/// The error of the password hashing traits, seen as opaque.
#[verifier::external_type_specification]
#[verifier::external_body]
pub struct ExPasswordHashError(argon2::password_hash::Error);

/// Why a hash or a token could not be made.
#[derive(Debug, Clone, Copy, PartialEq, Eq, Structural)]
pub enum AuthError {
    /// The operating system has no random bytes to give.
    RandomUnavailable,
    /// The hash function refused its input.
    Hash,
}

/// The PHC string that `Argon2::default().hash_password` makes of a password and the B64 form of
/// a salt, where it makes one.
pub uninterp spec fn argon2_phc(password: Seq<char>, salt: Seq<u8>) -> Option<Seq<char>>;

/// Whether `Argon2::default().verify_password` accepts a password for a PHC string.
pub uninterp spec fn argon2_accepts(password: Seq<char>, phc: Seq<char>) -> bool;

/// Whether a PHC string says at a place how many lanes are to be used.
pub open spec fn lanes_at(phc: Seq<char>, i: int) -> bool {
    0 <= i && i + 2 <= phc.len() && phc[i] == 'p' && phc[i + 1] == '='
}

/// Whether nine digits stand at a place.
pub open spec fn nine_digits(phc: Seq<char>, at: int) -> bool {
    at + 9 <= phc.len() && forall|k: int| at <= k < at + 9 ==> text::is_digit(#[trigger] phc[k])
}

/// Whether the number of lanes that a PHC string asks for has fewer than nine digits. Where the
/// string says it more than once, the last place counts.
pub open spec fn lanes_fit(phc: Seq<char>) -> bool {
    forall|i: int| #[trigger]
        lanes_at(phc, i) && nine_digits(phc, i + 2) ==> exists|j: int| i < j && lanes_at(phc, j)
}

/// Whether a text begins as the PHC string of one of the three argon2 functions.
pub open spec fn is_argon2(phc: Seq<char>) -> bool {
    "$argon2d$"@.is_prefix_of(phc) || "$argon2i$"@.is_prefix_of(phc) || "$argon2id$"@.is_prefix_of(
        phc,
    )
}

/// Whether a character may stand in the B64 form of some bytes.
pub open spec fn is_b64(c: char) -> bool {
    'a' <= c <= 'z' || 'A' <= c <= 'Z' || text::is_digit(c) || c == '+' || c == '/'
}

/// Whether a text has only characters of the B64 form, and a number of them in a range.
pub open spec fn b64_text(s: Seq<char>, least: nat, most: nat) -> bool {
    least <= s.len() <= most && forall|i: int| 0 <= i < s.len() ==> is_b64(#[trigger] s[i])
}

/// Whether a name and a value may be a parameter of argon2 in a PHC string.
pub open spec fn is_param(param: (Seq<char>, Seq<char>)) -> bool {
    &&& param.0 == "m"@ || param.0 == "t"@ || param.0 == "p"@ || param.0 == "keyid"@ || param.0
        == "data"@
    &&& forall|i: int|
        0 <= i < param.1.len() ==> is_b64(#[trigger] param.1[i]) || param.1[i] == '.' || param.1[i]
            == '-'
}

/// Parameters as they stand in a PHC string: `<name>=<value>`, with commas between them.
pub open spec fn params_text(params: Seq<(Seq<char>, Seq<char>)>) -> Seq<char>
    decreases params.len(),
{
    if params.len() == 0 {
        Seq::empty()
    } else if params.len() == 1 {
        params[0].0 + "="@ + params[0].1
    } else {
        params_text(params.drop_last()) + ","@ + params.last().0 + "="@ + params.last().1
    }
}

/// The PHC string with these fields. The version may be absent, and so may the parameters.
pub open spec fn phc_text(
    id: Seq<char>,
    version: Option<Seq<char>>,
    params: Seq<(Seq<char>, Seq<char>)>,
    salt: Seq<char>,
    hash: Seq<char>,
) -> Seq<char> {
    let version_field = match version {
        Some(number) => "v="@ + number + "$"@,
        None => Seq::empty(),
    };
    let params_field = if params.len() > 0 {
        params_text(params) + "$"@
    } else {
        Seq::empty()
    };
    "$"@ + id + "$"@ + version_field + params_field + salt + "$"@ + hash
}

/// Whether these are fields of a PHC string of argon2: one of the three functions, one of the two
/// versions, parameters, a salt of 4 to 64 characters, and a hash of 10 to 64 bytes.
pub open spec fn phc_fields(
    id: Seq<char>,
    version: Option<Seq<char>>,
    params: Seq<(Seq<char>, Seq<char>)>,
    salt: Seq<char>,
    hash: Seq<char>,
) -> bool {
    &&& id == "argon2d"@ || id == "argon2i"@ || id == "argon2id"@
    &&& version matches Some(number) ==> number == "16"@ || number == "19"@
    &&& forall|i: int| 0 <= i < params.len() ==> is_param(#[trigger] params[i])
    &&& b64_text(salt, 4, 64)
    &&& b64_text(hash, 14, 86)
}

/// Whether a text has the form of a PHC string of argon2, with a salt and a hash.
pub open spec fn phc_form(phc: Seq<char>) -> bool {
    exists|
        id: Seq<char>,
        version: Option<Seq<char>>,
        params: Seq<(Seq<char>, Seq<char>)>,
        salt: Seq<char>,
        hash: Seq<char>,
    |
        phc == #[trigger] phc_text(id, version, params, salt, hash) && phc_fields(
            id,
            version,
            params,
            salt,
            hash,
        )
}

/// Whether a PHC string, if it is the hash of a password under a salt of our own length, is told
/// to match exactly where this password makes the same hash under that salt.
pub open spec fn compares_hashes(password: Seq<char>, phc: Seq<char>, matches: bool) -> bool {
    forall|made: Seq<char>, salt: Seq<u8>|
        salt.len() == SALT_LEN && #[trigger] argon2_phc(made, salt) == Some(phc) ==> matches == (
        argon2_phc(password, salt) == Some(phc))
}

/// What checking a password against a stored text gives: whether the text accepts it. A text that
/// is not a PHC string of argon2 accepts none, and a hash that was made here accepts exactly the
/// passwords that make the same hash under its salt.
pub open spec fn may_match(password: Seq<char>, phc: Seq<char>, matches: bool) -> bool {
    &&& matches == accepts(password, phc)
    &&& matches ==> phc_form(phc)
    &&& lanes_fit(phc) ==> compares_hashes(password, phc, matches)
}

/// Whether a password matches a stored PHC string.
pub open spec fn accepts(password: Seq<char>, phc: Seq<char>) -> bool {
    lanes_fit(phc) && argon2_accepts(password, phc)
}

/// Calls `rand::rngs::SysRng::try_fill_bytes` on a buffer of `n` bytes: where it succeeds, the
/// buffer has been filled as a whole, and nothing is known of the bytes.
#[verifier::external_body]
fn random_bytes(n: usize) -> (bytes: Result<Vec<u8>, rand::rngs::SysError>)
    requires
        n <= TOKEN_LEN,
    ensures
        bytes matches Ok(filled) ==> filled@.len() == n,
{
    let mut filled = vec![0u8; n];
    SysRng.try_fill_bytes(&mut filled)?;
    Ok(filled)
}

/// Calls `SaltString::encode_b64` on the salt and `PasswordHasher::hash_password` of
/// `Argon2::default()` on the bytes of the password and that salt, and writes the hash as a PHC
/// string. The outcome depends on the password and the salt alone, and a string that comes out is
/// one that `PasswordVerifier::verify_password` accepts for the same password: it computes the
/// hash again from the parameters and the salt that the string holds. The string begins with
/// `$argon2id$`, the default function, and asks for one lane (`p=1`). A salt of another length is
/// left out, because a short one makes `SaltString` panic.
#[verifier::external_body]
fn argon2_hash(password: &str, salt: &[u8]) -> (phc: Result<String, argon2::password_hash::Error>)
    requires
        salt@.len() == SALT_LEN,
    ensures
        match phc {
            Ok(hash) => argon2_phc(password@, salt@) == Some(hash@) && argon2_accepts(
                password@,
                hash@,
            ) && lanes_fit(hash@) && "$argon2id$"@.is_prefix_of(hash@),
            Err(_) => argon2_phc(password@, salt@) is None,
        },
{
    let salt = SaltString::encode_b64(salt)?;
    let hash = Argon2::default().hash_password(password.as_bytes(), &salt)?;
    Ok(hash.to_string())
}

/// Calls `PasswordHash::new` on the PHC string and `PasswordVerifier::verify_password` of
/// `Argon2::default()` on the bytes of the password and what was parsed: the outcome depends on
/// the two texts alone, as long as there is the memory that the string asks for. Nothing is
/// accepted but a PHC string that names one of the three argon2 functions, at most a version
/// (16 or 19) and parameters that argon2 has, and then holds a salt and a hash in B64, each as
/// long as `Salt` and `Output` let it be. The hash is computed again from what the string holds,
/// so that a string that `hash_password` made under a salt is accepted exactly for the passwords
/// of which it makes the same string under that salt. A number of lanes with nine digits or more is left out: from 2^29 on,
/// `Params::new` computes eight times the number beyond `u32` before it refuses it, which panics
/// where overflow is checked.
#[verifier::external_body]
fn argon2_verify(password: &str, phc: &str) -> (verified: Result<
    (),
    argon2::password_hash::Error,
>)
    requires
        lanes_fit(phc@),
    ensures
        verified is Ok == argon2_accepts(password@, phc@),
        verified is Ok ==> phc_form(phc@),
        compares_hashes(password@, phc@, verified is Ok),
{
    let parsed = PasswordHash::new(phc)?;
    Argon2::default().verify_password(password.as_bytes(), &parsed)
}

/// Hashes a password with a given salt into a PHC string.
pub fn hash_with_salt(password: &str, salt: &[u8]) -> (phc: Result<String, AuthError>)
    requires
        salt@.len() == SALT_LEN,
    ensures
        match phc {
            Ok(hash) => argon2_phc(password@, salt@) == Some(hash@) && accepts(password@, hash@)
                && "$argon2id$"@.is_prefix_of(hash@),
            Err(err) => argon2_phc(password@, salt@) is None && err == AuthError::Hash,
        },
{
    match argon2_hash(password, salt) {
        Ok(hash) => Ok(hash),
        Err(_) => Err(AuthError::Hash),
    }
}

/// The hash as a text.
pub open spec fn hash_view(hash: Result<String, AuthError>) -> Result<Seq<char>, AuthError> {
    match hash {
        Ok(h) => Ok(h@),
        Err(err) => Err(err),
    }
}

/// What hashing a password under a random salt may give: a hash that accepts the password, or a
/// failure.
pub open spec fn may_hash(password: Seq<char>, hash: Result<Seq<char>, AuthError>) -> bool {
    match hash {
        Ok(h) => accepts(password, h) && "$argon2id$"@.is_prefix_of(h) && exists|salt: Seq<u8>|
            salt.len() == SALT_LEN && #[trigger] argon2_phc(password, salt) == Some(h),
        Err(AuthError::Hash) => exists|salt: Seq<u8>|
            salt.len() == SALT_LEN && #[trigger] argon2_phc(password, salt) is None,
        Err(AuthError::RandomUnavailable) => true,
    }
}

/// What making a token may give: the hexadecimal text of random bytes, or nothing.
pub open spec fn may_be_token(token: Option<Seq<char>>) -> bool {
    token matches Some(t) ==> exists|bytes: Seq<u8>|
        bytes.len() == TOKEN_LEN && t == #[trigger] text::hex(bytes)
}

/// Hashes a password with a fresh random salt into a PHC string, for [`verify_password`] to check
/// a password against.
pub fn hash_password(password: &str) -> (phc: Result<String, AuthError>)
    ensures
        may_hash(password@, hash_view(phc)),
{
    match random_bytes(SALT_LEN) {
        Ok(salt) => hash_with_salt(password, salt.as_slice()),
        Err(_) => Err(AuthError::RandomUnavailable),
    }
}

/// Whether the number of lanes that a PHC string asks for has fewer than nine digits.
fn few_lanes(phc: &str) -> (fit: bool)
    ensures
        fit == lanes_fit(phc@),
{
    let chars = text::characters(phc);
    let mut i: usize = chars.len();
    while i > 0
        invariant
            i <= chars@.len(),
            chars@ == phc@,
            forall|j: int| i <= j ==> !lanes_at(phc@, j),
        decreases i,
    {
        i -= 1;
        if chars.len() - i >= 2 && chars[i] == 'p' && chars[i + 1] == '=' {
            assert(lanes_at(phc@, i as int));
            let long = digits_follow(&chars, i + 2);
            assert(long == nine_digits(phc@, i + 2));
            return !long;
        }
    }
    true
}

/// Whether nine digits stand at a place.
fn digits_follow(chars: &Vec<char>, at: usize) -> (long: bool)
    requires
        at <= chars@.len(),
    ensures
        long == nine_digits(chars@, at as int),
{
    if chars.len() - at < 9 {
        return false;
    }
    let end: usize = at + 9;
    let mut k: usize = at;
    while k < end
        invariant
            at <= k <= end <= chars@.len(),
            end == at + 9,
            forall|j: int| at <= j < k ==> text::is_digit(#[trigger] chars@[j]),
        decreases end - k,
    {
        if !('0' <= chars[k] && chars[k] <= '9') {
            assert(!text::is_digit(chars@[k as int]));
            return false;
        }
        k += 1;
    }
    true
}

/// Whether a password matches a stored PHC string. A text that is no PHC string of argon2 matches
/// none.
pub fn verify_password(password: &str, phc: &str) -> (matches: bool)
    ensures
        matches == (lanes_fit(phc@) && argon2_accepts(password@, phc@)),
        may_match(password@, phc@, matches),
        phc@.len() == 0 || phc@[0] != '$' ==> !matches,
        matches ==> is_argon2(phc@),
{
    let matches = few_lanes(phc) && argon2_verify(password, phc).is_ok();
    proof {
        if matches {
            lemma_form_is_argon2(phc@);
        }
    }
    matches
}

/// A PHC string of argon2 begins with the name of its function.
proof fn lemma_form_is_argon2(phc: Seq<char>)
    requires
        phc_form(phc),
    ensures
        is_argon2(phc),
        phc.len() > 0,
        phc[0] == '$',
{
    let (id, version, params, salt, hash) = choose|
        id: Seq<char>,
        version: Option<Seq<char>>,
        params: Seq<(Seq<char>, Seq<char>)>,
        salt: Seq<char>,
        hash: Seq<char>,
    |
        phc == #[trigger] phc_text(id, version, params, salt, hash) && phc_fields(
            id,
            version,
            params,
            salt,
            hash,
        );
    reveal_strlit("$");
    reveal_strlit("argon2d");
    reveal_strlit("argon2i");
    reveal_strlit("argon2id");
    reveal_strlit("$argon2d$");
    reveal_strlit("$argon2i$");
    reveal_strlit("$argon2id$");
    let head = "$"@ + id + "$"@;
    assert(phc.subrange(0, head.len() as int) =~= head);
    assert(head.is_prefix_of(phc));
    assert(head =~= "$argon2d$"@ || head =~= "$argon2i$"@ || head =~= "$argon2id$"@);
}

/// Makes a session token: 32 random bytes in hexadecimal.
pub fn generate_token() -> (token: Option<String>)
    ensures
        may_be_token(text::opt_view(token)),
{
    let random = random_bytes(TOKEN_LEN);
    token_from(random)
}

/// The token of some random bytes: their hexadecimal text, if there are any bytes to be had.
pub fn token_from(random: Result<Vec<u8>, rand::rngs::SysError>) -> (token: Option<String>)
    ensures
        match random {
            Ok(bytes) => text::opt_view(token) == Some(text::hex(bytes@)),
            Err(_) => token is None,
        },
{
    match random {
        Ok(bytes) => Some(text::hex_text(bytes.as_slice())),
        Err(_) => None,
    }
}

/// A hash is an argon2id PHC string, and accepts the password that it was made of. Another
/// password is accepted exactly where argon2 makes the same hash of it, under a salt of which
/// this hash was made; any other one is refused. A text that does not have the form of a PHC string of argon2 accepts nothing.
pub proof fn law_hash_accepts_its_password(
    password: Seq<char>,
    hash: Seq<char>,
    matches: bool,
    other: Seq<char>,
    other_matches: bool,
    malformed: Seq<char>,
    malformed_matches: bool,
)
    requires
        may_hash(password, Ok(hash)),
        may_match(password, hash, matches),
        may_match(other, hash, other_matches),
        may_match(password, malformed, malformed_matches),
    ensures
        "$argon2id$"@.is_prefix_of(hash),
        phc_form(hash),
        matches,
        exists|salt: Seq<u8>|
            salt.len() == SALT_LEN && #[trigger] argon2_phc(password, salt) == Some(hash)
                && other_matches == (argon2_phc(other, salt) == Some(hash)),
        !phc_form(malformed) ==> !malformed_matches,
{
    let salt = choose|salt: Seq<u8>|
        salt.len() == SALT_LEN && #[trigger] argon2_phc(password, salt) == Some(hash);
    assert(compares_hashes(other, hash, other_matches));
    assert(argon2_phc(password, salt) == Some(hash));
    assert(other_matches == (argon2_phc(other, salt) == Some(hash)));
}

/// A token is twice as long as its bytes, and different bytes make different tokens.
pub proof fn law_tokens_tell_bytes_apart(a: Seq<u8>, b: Seq<u8>)
    requires
        a.len() == TOKEN_LEN,
        b.len() == TOKEN_LEN,
    ensures
        text::hex(a).len() == 2 * TOKEN_LEN,
        text::hex(a) == text::hex(b) ==> a == b,
{
    if text::hex(a) == text::hex(b) {
        assert forall|i: int| 0 <= i < a.len() implies a[i] == b[i] by {
            assert(text::hex(a)[2 * i] == text::digit(a[i] as int / 16));
            assert(text::hex(a)[2 * i + 1] == text::digit(a[i] as int % 16));
            assert(text::hex(b)[2 * i] == text::digit(b[i] as int / 16));
            assert(text::hex(b)[2 * i + 1] == text::digit(b[i] as int % 16));
        }
        assert(a =~= b);
    }
}

/// A token is 32 bytes in hexadecimal, 64 characters; the salt of a hash is 16 bytes.
pub proof fn law_sizes(token: Seq<char>, password: Seq<char>, hash: Seq<char>)
    ensures
        may_be_token(Some(token)) ==> token.len() == 64 && forall|i: int|
            0 <= i < token.len() ==> '0' <= (#[trigger] token[i]) <= '9' || 'a' <= token[i] <= 'f',
        may_hash(password, Ok(hash)) ==> exists|salt: Seq<u8>|
            salt.len() == 16 && #[trigger] argon2_phc(password, salt) == Some(hash),
        may_hash(password, Ok(hash)) ==> argon2_accepts(password, hash),
{
    if may_be_token(Some(token)) {
        let bytes = choose|bytes: Seq<u8>|
            bytes.len() == TOKEN_LEN && token == #[trigger] text::hex(bytes);
        text::law_hex_shows_bytes(bytes);
    }
}

} // verus!
