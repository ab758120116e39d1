//! Password strength rules, hashing and verification, and generated
//! passwords.
use vstd::prelude::*;
use crate::text::{chars_of, owned, push_str, string_of};
use argon2::password_hash::rand_core::RngCore;
use argon2::{PasswordHasher, PasswordVerifier};

verus! {

/// What `char::is_uppercase` says of `c` (the Unicode `Uppercase` property).
pub uninterp spec fn unicode_uppercase(c: char) -> bool;

/// What `char::is_lowercase` says of `c` (the Unicode `Lowercase` property).
pub uninterp spec fn unicode_lowercase(c: char) -> bool;

/// What `char::is_numeric` says of `c` (the Unicode numeric categories).
pub uninterp spec fn unicode_numeric(c: char) -> bool;

/// Tests `c` with `char::is_uppercase`.  Beyond the naming of the result,
/// it is claimed that among ASCII characters exactly the capital letters
/// `A` to `Z` are uppercase.
#[verifier::external_body]
fn is_uppercase_char(c: char) -> (r: bool)
    ensures
        r == unicode_uppercase(c),
        c <= '\u{7f}' ==> (r <==> ('A' <= c && c <= 'Z')),
{
    c.is_uppercase()
}

/// Tests `c` with `char::is_lowercase`.  Beyond the naming of the result,
/// it is claimed that among ASCII characters exactly the small letters `a`
/// to `z` are lowercase.
#[verifier::external_body]
fn is_lowercase_char(c: char) -> (r: bool)
    ensures
        r == unicode_lowercase(c),
        c <= '\u{7f}' ==> (r <==> ('a' <= c && c <= 'z')),
{
    c.is_lowercase()
}

/// Tests `c` with `char::is_numeric`.  Beyond the naming of the result, it
/// is claimed that among ASCII characters exactly the digits `0` to `9` are
/// numeric.
#[verifier::external_body]
fn is_numeric_char(c: char) -> (r: bool)
    ensures
        r == unicode_numeric(c),
        c <= '\u{7f}' ==> (r <==> ('0' <= c && c <= '9')),
{
    c.is_numeric()
}

/// The characters that count as special in a password.
pub open spec fn special_chars() -> Seq<char> {
    "!@#$%^&*()_+-=[]{}|;:,.<>?"@
}

/// Some character of `p` is uppercase.
pub open spec fn has_uppercase(p: Seq<char>) -> bool {
    exists|i: int| 0 <= i < p.len() && unicode_uppercase(#[trigger] p[i])
}

/// Some character of `p` is lowercase.
pub open spec fn has_lowercase(p: Seq<char>) -> bool {
    exists|i: int| 0 <= i < p.len() && unicode_lowercase(#[trigger] p[i])
}

/// Some character of `p` is numeric.
pub open spec fn has_numeric(p: Seq<char>) -> bool {
    exists|i: int| 0 <= i < p.len() && unicode_numeric(#[trigger] p[i])
}

/// Some character of `p` is one of the special characters.
pub open spec fn has_special(p: Seq<char>) -> bool {
    exists|i: int| 0 <= i < p.len() && special_chars().contains(#[trigger] p[i])
}

/// A strong password: at least eight characters, with an uppercase letter,
/// a lowercase letter, a digit and a special character.
pub open spec fn spec_is_strong(p: Seq<char>) -> bool {
    p.len() >= 8 && has_uppercase(p) && has_lowercase(p) && has_numeric(p)
        && has_special(p)
}

/// Why a password is too weak; the first rule it breaks.
#[derive(Clone, Copy, Debug, PartialEq, Eq, Structural)]
pub enum PasswordStrengthError {
    TooShort,
    NoUppercase,
    NoLowercase,
    NoNumber,
    NoSpecialCharacter,
}

impl PasswordStrengthError {
    /// The message shown for this rule.
    pub fn message(&self) -> (r: String)
        ensures
            r@ == match *self {
                PasswordStrengthError::TooShort => "Password must be at least 8 characters long"@,
                PasswordStrengthError::NoUppercase => "Password must contain at least one uppercase letter"@,
                PasswordStrengthError::NoLowercase => "Password must contain at least one lowercase letter"@,
                PasswordStrengthError::NoNumber => "Password must contain at least one number"@,
                PasswordStrengthError::NoSpecialCharacter => "Password must contain at least one special character"@,
            },
    {
        match self {
            PasswordStrengthError::TooShort => owned("Password must be at least 8 characters long"),
            PasswordStrengthError::NoUppercase => owned(
                "Password must contain at least one uppercase letter",
            ),
            PasswordStrengthError::NoLowercase => owned(
                "Password must contain at least one lowercase letter",
            ),
            PasswordStrengthError::NoNumber => owned("Password must contain at least one number"),
            PasswordStrengthError::NoSpecialCharacter => owned(
                "Password must contain at least one special character",
            ),
        }
    }
}

/// The first strength rule `p` breaks, if any.
pub open spec fn spec_strength_check(p: Seq<char>) -> Result<(), PasswordStrengthError> {
    if p.len() < 8 {
        Err(PasswordStrengthError::TooShort)
    } else if !has_uppercase(p) {
        Err(PasswordStrengthError::NoUppercase)
    } else if !has_lowercase(p) {
        Err(PasswordStrengthError::NoLowercase)
    } else if !has_numeric(p) {
        Err(PasswordStrengthError::NoNumber)
    } else if !has_special(p) {
        Err(PasswordStrengthError::NoSpecialCharacter)
    } else {
        Ok(())
    }
}

/// Some character of `p` is an ASCII capital letter.
pub open spec fn has_ascii_upper(p: Seq<char>) -> bool {
    exists|i: int| 0 <= i < p.len() && 'A' <= #[trigger] p[i] <= 'Z'
}

/// Some character of `p` is an ASCII small letter.
pub open spec fn has_ascii_lower(p: Seq<char>) -> bool {
    exists|i: int| 0 <= i < p.len() && 'a' <= #[trigger] p[i] <= 'z'
}

/// Some character of `p` is an ASCII digit.
pub open spec fn has_ascii_digit(p: Seq<char>) -> bool {
    exists|i: int| 0 <= i < p.len() && '0' <= #[trigger] p[i] <= '9'
}

/// The strength rules read over ASCII ranges: the first rule an ASCII
/// password breaks, if any.
pub open spec fn ascii_strength_check(p: Seq<char>) -> Result<(), PasswordStrengthError> {
    if p.len() < 8 {
        Err(PasswordStrengthError::TooShort)
    } else if !has_ascii_upper(p) {
        Err(PasswordStrengthError::NoUppercase)
    } else if !has_ascii_lower(p) {
        Err(PasswordStrengthError::NoLowercase)
    } else if !has_ascii_digit(p) {
        Err(PasswordStrengthError::NoNumber)
    } else if !has_special(p) {
        Err(PasswordStrengthError::NoSpecialCharacter)
    } else {
        Ok(())
    }
}

/// Which of the four character classes `p` contains.
fn character_classes(p: &[char]) -> (r: (bool, bool, bool, bool))
    ensures
        r.0 == has_uppercase(p@),
        r.1 == has_lowercase(p@),
        r.2 == has_numeric(p@),
        r.3 == has_special(p@),
        vstd::utf8::is_ascii_chars(p@) ==> (r.0 == has_ascii_upper(p@) && r.1 == has_ascii_lower(p@) && r.2
            == has_ascii_digit(p@)),
{
    let specials = chars_of("!@#$%^&*()_+-=[]{}|;:,.<>?");
    let mut up = false;
    let mut low = false;
    let mut num = false;
    let mut spec = false;
    let mut i: usize = 0;
    while i < p.len()
        invariant
            i <= p@.len(),
            specials@ == special_chars(),
            up == exists|j: int| 0 <= j < i && unicode_uppercase(#[trigger] p@[j]),
            low == exists|j: int| 0 <= j < i && unicode_lowercase(#[trigger] p@[j]),
            num == exists|j: int| 0 <= j < i && unicode_numeric(#[trigger] p@[j]),
            spec == exists|j: int| 0 <= j < i && special_chars().contains(#[trigger] p@[j]),
            forall|j: int|
                0 <= j < i && #[trigger] p@[j] <= '\u{7f}' ==> (unicode_uppercase(p@[j]) <==> 'A' <= p@[j] <= 'Z')
                    && (unicode_lowercase(p@[j]) <==> 'a' <= p@[j] <= 'z') && (unicode_numeric(p@[j]) <==> '0'
                    <= p@[j] <= '9'),
        decreases p@.len() - i,
    {
        let c = p[i];
        if is_uppercase_char(c) {
            up = true;
        }
        if is_lowercase_char(c) {
            low = true;
        }
        if is_numeric_char(c) {
            num = true;
        }
        let mut k: usize = 0;
        let mut found = false;
        while k < specials.len()
            invariant
                k <= specials@.len(),
                found == exists|m: int| 0 <= m < k && specials@[m] == c,
            decreases specials@.len() - k,
        {
            if specials[k] == c {
                found = true;
            }
            k = k + 1;
        }
        if found {
            spec = true;
        }
        i = i + 1;
    }
    proof {
        if vstd::utf8::is_ascii_chars(p@) {
            assert(up == has_ascii_upper(p@)) by {
                if up {
                    let j = choose|j: int| 0 <= j < p@.len() && unicode_uppercase(#[trigger] p@[j]);
                    assert('\0' <= p@[j] <= '\u{7f}');
                }
                if has_ascii_upper(p@) {
                    let j = choose|j: int| 0 <= j < p@.len() && 'A' <= #[trigger] p@[j] <= 'Z';
                    assert('\0' <= p@[j] <= '\u{7f}');
                }
            }
            assert(low == has_ascii_lower(p@)) by {
                if low {
                    let j = choose|j: int| 0 <= j < p@.len() && unicode_lowercase(#[trigger] p@[j]);
                    assert('\0' <= p@[j] <= '\u{7f}');
                }
                if has_ascii_lower(p@) {
                    let j = choose|j: int| 0 <= j < p@.len() && 'a' <= #[trigger] p@[j] <= 'z';
                    assert('\0' <= p@[j] <= '\u{7f}');
                }
            }
            assert(num == has_ascii_digit(p@)) by {
                if num {
                    let j = choose|j: int| 0 <= j < p@.len() && unicode_numeric(#[trigger] p@[j]);
                    assert('\0' <= p@[j] <= '\u{7f}');
                }
                if has_ascii_digit(p@) {
                    let j = choose|j: int| 0 <= j < p@.len() && '0' <= #[trigger] p@[j] <= '9';
                    assert('\0' <= p@[j] <= '\u{7f}');
                }
            }
        }
    }
    (up, low, num, spec)
}

/// Password rules and hashing.
pub struct PasswordManager;

impl PasswordManager {
    /// Whether the password is at least eight characters long and contains an
    /// uppercase letter, a lowercase letter, a digit and a special character.
    pub fn is_strong_password(password: &str) -> (r: bool)
        ensures
            r == spec_is_strong(password@),
            vstd::utf8::is_ascii_chars(password@) ==> (r <==> ascii_strength_check(password@) is Ok),
    {
        let p = chars_of(password);
        let (up, low, num, spec) = character_classes(p.as_slice());
        p.len() >= 8 && up && low && num && spec
    }

    /// Accepts a strong password; otherwise names the first rule it breaks,
    /// checked in the order: length, uppercase, lowercase, digit, special.
    pub fn validate_password_strength(password: &str) -> (r: Result<(), PasswordStrengthError>)
        ensures
            r == spec_strength_check(password@),
            r is Ok <==> spec_is_strong(password@),
            vstd::utf8::is_ascii_chars(password@) ==> r == ascii_strength_check(password@),
    {
        let p = chars_of(password);
        let (up, low, num, spec) = character_classes(p.as_slice());
        if p.len() < 8 {
            return Err(PasswordStrengthError::TooShort);
        }
        if !up {
            return Err(PasswordStrengthError::NoUppercase);
        }
        if !low {
            return Err(PasswordStrengthError::NoLowercase);
        }
        if !num {
            return Err(PasswordStrengthError::NoNumber);
        }
        if !spec {
            return Err(PasswordStrengthError::NoSpecialCharacter);
        }
        Ok(())
    }
}

} // verus!

verus! {

/// What checking `password` against the PHC string `hash` with argon2
/// gives: whether it matches, or the failure, flagged `true` when the hash
/// string itself could not be parsed, with the error's message.
pub uninterp spec fn argon2_check(password: Seq<char>, hash: Seq<char>) -> Result<bool, (bool, Seq<char>)>;

/// Parses `hash` with `PasswordHash::new` and checks `password` against it
/// with `Argon2::default().verify_password`; a wrong password is
/// `Ok(false)`.  Only the naming of the result is claimed.
#[verifier::external_body]
fn argon2_verify(password: &str, hash: &str) -> (r: Result<bool, (bool, String)>)
    ensures
        match r {
            Ok(b) => argon2_check(password@, hash@) == Ok::<bool, (bool, Seq<char>)>(b),
            Err((parse, msg)) => argon2_check(password@, hash@) == Err::<bool, (bool, Seq<char>)>(
                (parse, msg@),
            ),
        },
{
    let parsed = match argon2::PasswordHash::new(hash) {
        Ok(p) => p,
        Err(e) => return Err((true, e.to_string())),
    };
    match argon2::Argon2::default().verify_password(password.as_bytes(), &parsed) {
        Ok(()) => Ok(true),
        Err(argon2::password_hash::Error::Password) => Ok(false),
        Err(e) => Err((false, e.to_string())),
    }
}

/// Hashes `password` with `Argon2::default()` and a salt drawn from the
/// operating system's generator, returning the PHC string or the error's
/// message.  The hash differs from call to call; what is claimed is that a
/// hash it returns checks out against the same password.
#[verifier::external_body]
fn argon2_hash(password: &str) -> (r: Result<String, String>)
    ensures
        match r {
            Ok(h) => argon2_check(password@, h@) == Ok::<bool, (bool, Seq<char>)>(true),
            Err(_) => true,
        },
{
    let salt = argon2::password_hash::SaltString::generate(&mut argon2::password_hash::rand_core::OsRng);
    match argon2::Argon2::default().hash_password(password.as_bytes(), &salt) {
        Ok(h) => Ok(h.to_string()),
        Err(e) => Err(e.to_string()),
    }
}

/// A uniformly drawn number from the operating system's generator
/// (`OsRng::next_u32`).  Nothing is claimed of its value.
#[verifier::external_body]
fn random_u32() -> u32 {
    argon2::password_hash::rand_core::OsRng.next_u32()
}

/// The message of a failed argon2 check.
pub open spec fn argon2_failure_message(parse: bool, msg: Seq<char>) -> Seq<char> {
    if parse {
        "Failed to parse password hash: "@ + msg
    } else {
        "Failed to verify password: "@ + msg
    }
}

/// What checking a password against an argon2 hash answers: whether they
/// match, or the message of the failure.
pub open spec fn verification_outcome(password: Seq<char>, hash: Seq<char>) -> Result<bool, Seq<char>> {
    match argon2_check(password, hash) {
        Ok(b) => Ok(b),
        Err((parse, msg)) => Err(argon2_failure_message(parse, msg)),
    }
}

/// A password checks out against any hash that
/// [`PasswordManager::hash_password`] made of it.
pub proof fn hashed_password_verifies(password: Seq<char>, hash: Seq<char>)
    requires
        argon2_check(password, hash) == Ok::<bool, (bool, Seq<char>)>(true),
    ensures
        verification_outcome(password, hash) == Ok::<bool, Seq<char>>(true),
{
}

/// The characters generated passwords are drawn from.
pub open spec fn password_charset() -> Seq<char> {
    "ABCDEFGHIJKLMNOPQRSTUVWXYZabcdefghijklmnopqrstuvwxyz0123456789!@#$%^&*"@
}

/// How many passwords are drawn, at most, before the last one is given a
/// character of every class.
pub const MAX_PASSWORD_DRAWS: usize = 64;

/// The alphabet of generated passwords.
fn password_alphabet() -> (v: Vec<char>)
    ensures
        v@ == password_charset(),
{
    let v = chars_of("ABCDEFGHIJKLMNOPQRSTUVWXYZabcdefghijklmnopqrstuvwxyz0123456789!@#$%^&*");
    proof {
        reveal_strlit("ABCDEFGHIJKLMNOPQRSTUVWXYZabcdefghijklmnopqrstuvwxyz0123456789!@#$%^&*");
    }
    v
}

/// `length` characters, each drawn independently from the alphabet.
fn draw_password(alphabet: &Vec<char>, length: usize) -> (v: Vec<char>)
    requires
        alphabet@ == password_charset(),
    ensures
        v@.len() == length,
        forall|i: int| 0 <= i < v@.len() ==> password_charset().contains(#[trigger] v@[i]),
{
    proof {
        reveal_strlit("ABCDEFGHIJKLMNOPQRSTUVWXYZabcdefghijklmnopqrstuvwxyz0123456789!@#$%^&*");
    }
    let mut v: Vec<char> = Vec::new();
    let mut n: usize = 0;
    while n < length
        invariant
            n <= length,
            alphabet@ == password_charset(),
            password_charset().len() == 70,
            v@.len() == n,
            forall|i: int| 0 <= i < v@.len() ==> password_charset().contains(#[trigger] v@[i]),
        decreases length - n,
    {
        let idx = (random_u32() % 70) as usize;
        let c = alphabet[idx];
        assert(password_charset()[idx as int] == c);
        v.push(c);
        n = n + 1;
    }
    v
}

/// The characters of `password` with its first four replaced by a random
/// uppercase letter, lowercase letter, digit and special character, in
/// that order.
fn with_every_class(alphabet: &Vec<char>, password: &String) -> (v: Vec<char>)
    requires
        alphabet@ == password_charset(),
        password@.len() >= 8,
        forall|i: int| 0 <= i < password@.len() ==> password_charset().contains(#[trigger] password@[i]),
    ensures
        v@.len() == password@.len(),
        forall|i: int| 0 <= i < v@.len() ==> password_charset().contains(#[trigger] v@[i]),
        spec_is_strong(v@),
{
    proof {
        reveal_strlit("ABCDEFGHIJKLMNOPQRSTUVWXYZabcdefghijklmnopqrstuvwxyz0123456789!@#$%^&*");
        reveal_strlit("!@#$%^&*()_+-=[]{}|;:,.<>?");
    }
    let up = alphabet[(random_u32() % 26) as usize];
    let low = alphabet[26 + (random_u32() % 26) as usize];
    let digit = alphabet[52 + (random_u32() % 10) as usize];
    let special_index = (random_u32() % 8) as usize;
    let special = alphabet[62 + special_index];
    assert('A' <= up <= 'Z');
    assert('a' <= low <= 'z');
    assert('0' <= digit <= '9');
    assert(special_chars()[special_index as int] == special);
    let classes = is_uppercase_char(up) && is_lowercase_char(low) && is_numeric_char(digit);
    assert(classes);
    let rest = chars_of(password.as_str());
    let mut v: Vec<char> = Vec::new();
    v.push(up);
    v.push(low);
    v.push(digit);
    v.push(special);
    let mut i: usize = 4;
    while i < rest.len()
        invariant
            4 <= i <= rest@.len(),
            rest@ == password@,
            v@.len() == i,
            v@[0] == up,
            v@[1] == low,
            v@[2] == digit,
            v@[3] == special,
            password_charset().contains(up),
            password_charset().contains(low),
            password_charset().contains(digit),
            password_charset().contains(special),
            forall|j: int| 4 <= j < i ==> v@[j] == password@[j],
            forall|j: int| 0 <= j < password@.len() ==> password_charset().contains(#[trigger] password@[j]),
        decreases rest@.len() - i,
    {
        v.push(rest[i]);
        i = i + 1;
    }
    assert forall|j: int| 0 <= j < v@.len() implies password_charset().contains(#[trigger] v@[j]) by {
        if j >= 4 {
            assert(v@[j] == password@[j]);
        }
    }
    proof {
        assert(unicode_uppercase(v@[0]));
        assert(unicode_lowercase(v@[1]));
        assert(unicode_numeric(v@[2]));
        assert(special_chars().contains(v@[3]));
    }
    v
}

impl PasswordManager {
    /// Hashes a password with argon2 and a random salt.  A hash it returns
    /// always checks out against the same password; a failure is reported
    /// as `Failed to hash password: ` and argon2's message.
    pub fn hash_password(password: &str) -> (r: Result<String, String>)
        ensures
            r matches Ok(h) ==> argon2_check(password@, h@) == Ok::<bool, (bool, Seq<char>)>(true),
            r matches Err(e) ==> exists|msg: Seq<char>| e@ == "Failed to hash password: "@ + msg,
    {
        match argon2_hash(password) {
            Ok(h) => Ok(h),
            Err(msg) => {
                let mut e = owned("Failed to hash password: ");
                push_str(&mut e, msg.as_str());
                Err(e)
            },
        }
    }

    /// Checks a password against an argon2 hash: `Ok(true)` when it
    /// matches, `Ok(false)` when it does not, and an error when the hash
    /// cannot be parsed or the check itself fails.
    pub fn verify_password(password: &str, hash: &str) -> (r: Result<bool, String>)
        ensures
            match verification_outcome(password@, hash@) {
                Ok(b) => r == Ok::<bool, String>(b),
                Err(m) => r matches Err(e) && e@ == m,
            },
    {
        match argon2_verify(password, hash) {
            Ok(b) => Ok(b),
            Err((parse, msg)) => {
                let mut e = if parse {
                    owned("Failed to parse password hash: ")
                } else {
                    owned("Failed to verify password: ")
                };
                push_str(&mut e, msg.as_str());
                Err(e)
            },
        }
    }

    /// A random password of `length` characters drawn from upper- and
    /// lowercase letters, digits and `!@#$%^&*`.  A password of eight or
    /// more characters is always strong: draws that are not are discarded,
    /// and should every one of a bounded number of draws fail, the last one
    /// gets a letter of each case, a digit and a special character in front.
    pub fn generate_secure_password(length: usize) -> (r: String)
        ensures
            r@.len() == length,
            forall|i: int| 0 <= i < r@.len() ==> password_charset().contains(#[trigger] r@[i]),
            length >= 8 ==> spec_is_strong(r@),
    {
        let alphabet = password_alphabet();
        let first = draw_password(&alphabet, length);
        let mut password = string_of(first.as_slice());
        if length < 8 {
            return password;
        }
        let mut draws: usize = 1;
        while draws < MAX_PASSWORD_DRAWS
            invariant
                alphabet@ == password_charset(),
                length >= 8,
                password@.len() == length,
                forall|i: int|
                    0 <= i < password@.len() ==> password_charset().contains(#[trigger] password@[i]),
            decreases MAX_PASSWORD_DRAWS - draws,
        {
            if Self::is_strong_password(password.as_str()) {
                return password;
            }
            let next = draw_password(&alphabet, length);
            password = string_of(next.as_slice());
            draws = draws + 1;
        }
        if Self::is_strong_password(password.as_str()) {
            return password;
        }
        let repaired = with_every_class(&alphabet, &password);
        string_of(repaired.as_slice())
    }
}

/// The message an account is refused with when its name is taken.
pub open spec fn username_taken_message(username: Seq<char>) -> Seq<char> {
    "Username '"@ + username + "' already exists"@
}

/// The message of a strength rule.
pub open spec fn strength_message(e: PasswordStrengthError) -> Seq<char> {
    match e {
        PasswordStrengthError::TooShort => "Password must be at least 8 characters long"@,
        PasswordStrengthError::NoUppercase => "Password must contain at least one uppercase letter"@,
        PasswordStrengthError::NoLowercase => "Password must contain at least one lowercase letter"@,
        PasswordStrengthError::NoNumber => "Password must contain at least one number"@,
        PasswordStrengthError::NoSpecialCharacter => "Password must contain at least one special character"@,
    }
}

/// What creating an account answers once the password has been hashed:
/// a hashing failure is passed on; a taken name is refused; otherwise the
/// hash to store.
pub open spec fn spec_finish_new_user(username: Seq<char>, hashed: Result<Seq<char>, Seq<char>>, taken: bool) -> Result<
    Seq<char>,
    Seq<char>,
> {
    match hashed {
        Err(m) => Err(m),
        Ok(h) => if taken {
            Err(username_taken_message(username))
        } else {
            Ok(h)
        },
    }
}

/// The characters of a string result.
pub open spec fn result_view(r: Result<String, String>) -> Result<Seq<char>, Seq<char>> {
    match r {
        Ok(s) => Ok(s@),
        Err(e) => Err(e@),
    }
}

/// Finishes creating an account from the outcome of hashing its password
/// and whether its name is taken: a hashing failure is passed on; a taken
/// name is refused with `Username '<name>' already exists`; otherwise the
/// hash is the one to store.
pub fn finish_new_user(username: &str, hashed: Result<String, String>, taken: bool) -> (r: Result<String, String>)
    ensures
        result_view(r) == spec_finish_new_user(username@, result_view(hashed), taken),
{
    match hashed {
        Err(m) => Err(m),
        Ok(h) => {
            if taken {
                let mut m = owned("Username '");
                push_str(&mut m, username);
                push_str(&mut m, "' already exists");
                Err(m)
            } else {
                Ok(h)
            }
        },
    }
}

/// What creating an account decides before its row is written, given
/// whether the name is already taken: a weak password is refused with the
/// first rule it breaks; otherwise the password is hashed and
/// [`finish_new_user`] decides on the outcome: a hashing failure is
/// reported, a taken name refused, and otherwise the hash returned.
pub fn new_user_password_hash(username: &str, password: &str, username_taken: bool) -> (r: Result<String, String>)
    ensures
        match spec_strength_check(password@) {
            Err(e) => r matches Err(m) && m@ == strength_message(e),
            Ok(()) => exists|hashed: Result<String, String>|
                {
                    &&& match hashed {
                        Ok(h) => argon2_check(password@, h@) == Ok::<bool, (bool, Seq<char>)>(true),
                        Err(e) => exists|msg: Seq<char>| e@ == "Failed to hash password: "@ + msg,
                    }
                    &&& result_view(r) == spec_finish_new_user(username@, result_view(hashed), username_taken)
                },
        },
{
    match PasswordManager::validate_password_strength(password) {
        Err(e) => {
            return Err(e.message());
        },
        Ok(()) => {},
    }
    let hashed = PasswordManager::hash_password(password);
    let ghost h0 = hashed;
    let r = finish_new_user(username, hashed, username_taken);
    assert(result_view(r) == spec_finish_new_user(username@, result_view(h0), username_taken));
    r
}

} // verus!
