//! The check of the strength of a password against its username.
//!
//! A password passes when it is at least five edits away from the username,
//! is plain ASCII, and has at least seventy-five bits of entropy: as many
//! times the binary logarithm of the size of its alphabet as it has distinct
//! characters.

use vstd::prelude::*;
use vstd::seq_lib::seq_to_set_is_finite;
use vstd::string::StrSliceExecFns;
use vstd::utf8::is_ascii_chars;

verus! {

/// Fewest edits that a password may be away from its username.
pub const MIN_EDIT_DISTANCE: usize = 5;

/// Bits of entropy that a password must have.
pub const MIN_ENTROPY_BITS: u32 = 75;

/// Two to the power of [`MIN_ENTROPY_BITS`].
pub const ENTROPY_BOUND: u128 = 37_778_931_862_957_161_709_568;

/// Why a password is refused.
#[derive(Clone, Copy, Debug, PartialEq, Eq, Structural)]
pub enum WeakCredentials {
    /// Fewer than five edits turn the username into the password.
    TooSimilar,
    /// The password has a character outside ASCII.
    NonAscii,
    /// The password has too little entropy.
    TooWeak,
}

impl WeakCredentials {
    /// What the error says.
    pub fn message(&self) -> (r: &'static str)
        ensures
            r@ == match *self {
                WeakCredentials::TooSimilar => "Username and password are too similar"@,
                WeakCredentials::NonAscii => "Password contains non ASCII characters"@,
                WeakCredentials::TooWeak => "Too weak password!"@,
            },
    {
        match self {
            WeakCredentials::TooSimilar => "Username and password are too similar",
            WeakCredentials::NonAscii => "Password contains non ASCII characters",
            WeakCredentials::TooWeak => "Too weak password!",
        }
    }
}

/// The smaller of two numbers.
pub open spec fn smaller(x: nat, y: nat) -> nat {
    if x <= y {
        x
    } else {
        y
    }
}

/// The minimum number of insertions, deletions and substitutions of one
/// character that change `a` into `b`.
pub open spec fn edit_distance(a: Seq<char>, b: Seq<char>) -> nat
    decreases a.len() + b.len(),
{
    if a.len() == 0 {
        b.len()
    } else if b.len() == 0 {
        a.len()
    } else {
        let substituted: nat = if a.last() == b.last() {
            0
        } else {
            1
        };
        smaller(
            edit_distance(a.drop_last(), b.drop_last()) + substituted,
            smaller(
                edit_distance(a.drop_last(), b) + 1,
                edit_distance(a, b.drop_last()) + 1,
            ),
        )
    }
}

/// Calls `strsim::levenshtein`, which counts the fewest insertions,
/// deletions and substitutions of characters that change one text into the
/// other.
#[verifier::external_body]
fn levenshtein(a: &str, b: &str) -> (distance: usize)
    ensures
        distance == edit_distance(a@, b@),
{
    strsim::levenshtein(a, b)
}

/// Whether `c` is an ASCII digit.
pub open spec fn is_digit(c: char) -> bool {
    '0' <= c <= '9'
}

/// Whether `c` is a lowercase ASCII letter.
pub open spec fn is_lowercase(c: char) -> bool {
    'a' <= c <= 'z'
}

/// Whether `c` is an uppercase ASCII letter.
pub open spec fn is_uppercase(c: char) -> bool {
    'A' <= c <= 'Z'
}

/// Whether `c` is neither an ASCII letter nor an ASCII digit.
pub open spec fn is_symbol(c: char) -> bool {
    !is_digit(c) && !is_lowercase(c) && !is_uppercase(c)
}

/// The size of the alphabet that a text draws from: ten for digits,
/// twenty-six each for lowercase and uppercase letters, and thirty-two for
/// everything else, each counted where the text has a character of its kind.
pub open spec fn alphabet_size(text: Seq<char>) -> nat {
    let digits: nat = if exists|i: int| 0 <= i < text.len() && is_digit(text[i]) {
        10
    } else {
        0
    };
    let lowercase: nat = if exists|i: int| 0 <= i < text.len() && is_lowercase(text[i]) {
        26
    } else {
        0
    };
    let uppercase: nat = if exists|i: int| 0 <= i < text.len() && is_uppercase(text[i]) {
        26
    } else {
        0
    };
    let symbols: nat = if exists|i: int| 0 <= i < text.len() && is_symbol(text[i]) {
        32
    } else {
        0
    };
    digits + lowercase + uppercase + symbols
}

/// `base` multiplied by itself `exponent` times.
pub open spec fn power(base: nat, exponent: nat) -> nat
    decreases exponent,
{
    if exponent == 0 {
        1
    } else {
        base * power(base, (exponent - 1) as nat)
    }
}

/// Whether `distinct` characters from an alphabet of `alphabet` characters
/// carry less than seventy-five bits: `distinct` times the binary logarithm of
/// `alphabet` is below seventy-five exactly when `alphabet` to the power of
/// `distinct` is below two to the seventy-fifth. Of an empty alphabet there is
/// no logarithm, and nothing is held against it.
pub open spec fn is_below_entropy(distinct: nat, alphabet: nat) -> bool {
    alphabet > 0 && power(alphabet, distinct) < ENTROPY_BOUND
}

/// Why the password is refused for the username, if it is.
pub open spec fn weakness(username: Seq<char>, password: Seq<char>) -> Option<WeakCredentials> {
    if edit_distance(username, password) < MIN_EDIT_DISTANCE {
        Some(WeakCredentials::TooSimilar)
    } else if !is_ascii_chars(password) {
        Some(WeakCredentials::NonAscii)
    } else if is_below_entropy(password.to_set().len(), alphabet_size(password)) {
        Some(WeakCredentials::TooWeak)
    } else {
        None
    }
}

/// [`ENTROPY_BOUND`] is two to the power of [`MIN_ENTROPY_BITS`].
pub proof fn lemma_entropy_bound()
    ensures
        ENTROPY_BOUND == power(2, MIN_ENTROPY_BITS as nat),
{
    reveal_with_fuel(power, 76);
}

/// A power of a positive number does not shrink as the exponent grows.
pub proof fn lemma_power_grows(base: nat, low: nat, high: nat)
    requires
        base >= 1,
        low <= high,
    ensures
        1 <= power(base, low) <= power(base, high),
    decreases high,
{
    if low == 0 {
        if high > 0 {
            lemma_power_grows(base, 0, (high - 1) as nat);
            assert(power(base, high) >= power(base, (high - 1) as nat)) by (nonlinear_arith)
                requires
                    base >= 1,
                    power(base, high) == base * power(base, (high - 1) as nat),
            ;
        }
    } else {
        lemma_power_grows(base, (low - 1) as nat, (high - 1) as nat);
        assert(base * power(base, (low - 1) as nat) <= base * power(base, (high - 1) as nat))
            by (nonlinear_arith)
            requires
                power(base, (low - 1) as nat) <= power(base, (high - 1) as nat),
        ;
        assert(base * power(base, (low - 1) as nat) >= 1) by (nonlinear_arith)
            requires
                base >= 1,
                power(base, (low - 1) as nat) >= 1,
        ;
    }
}

/// Whether `distinct` characters from an alphabet of `alphabet` characters
/// carry less than seventy-five bits of entropy.
pub fn has_low_entropy(distinct: usize, alphabet: u32) -> (low: bool)
    ensures
        low == is_below_entropy(distinct as nat, alphabet as nat),
{
    if alphabet == 0 {
        return false;
    }
    let mut product: u128 = 1;
    let mut done: usize = 0;
    while done < distinct
        invariant
            alphabet >= 1,
            done <= distinct,
            product == power(alphabet as nat, done as nat),
            product < ENTROPY_BOUND,
        decreases distinct - done,
    {
        assert(product * alphabet < 0x1_0000_0000_0000_0000_0000_0000_0000_0000)
            by (nonlinear_arith)
            requires
                product < ENTROPY_BOUND,
                alphabet <= u32::MAX,
        ;
        let ghost before = product as nat;
        product = product * (alphabet as u128);
        done = done + 1;
        assert(product == power(alphabet as nat, done as nat)) by {
            assert(power(alphabet as nat, done as nat) == (alphabet as nat) * power(
                alphabet as nat,
                (done - 1) as nat,
            ));
            assert(before * (alphabet as nat) == (alphabet as nat) * before) by (nonlinear_arith);
        }
        if product >= ENTROPY_BOUND {
            proof {
                lemma_power_grows(alphabet as nat, done as nat, distinct as nat);
            }
            return false;
        }
    }
    true
}

/// What is measured of an ASCII text: how many distinct characters it has,
/// and the size of the alphabet it draws from.
pub struct Charset {
    pub distinct: usize,
    pub alphabet: u32,
}

/// The first `len` characters of a text have a character of the kind `kind`.
spec fn prefix_has(text: Seq<char>, len: int, kind: spec_fn(char) -> bool) -> bool {
    exists|i: int| 0 <= i < len && kind(text[i])
}

/// Measures an ASCII text: the number of its distinct characters and the
/// size of its alphabet.
pub fn measure(text: &str) -> (measured: Charset)
    requires
        is_ascii_chars(text@),
    ensures
        measured.distinct == text@.to_set().len(),
        measured.alphabet == alphabet_size(text@),
{
    let len = text.unicode_len();
    let mut seen: Vec<bool> = Vec::new();
    while seen.len() < 128
        invariant
            seen@.len() <= 128,
            forall|c: int| 0 <= c < seen@.len() ==> !seen@[c],
        decreases 128 - seen@.len(),
    {
        seen.push(false);
    }
    let mut distinct: usize = 0;
    let mut digits = false;
    let mut lowercase = false;
    let mut uppercase = false;
    let mut symbols = false;
    let mut at: usize = 0;
    proof {
        assert(text@.take(0).to_set() =~= Set::empty());
    }
    while at < len
        invariant
            is_ascii_chars(text@),
            len == text@.len(),
            at <= len,
            seen@.len() == 128,
            forall|c: char|
                '\0' <= c <= '\u{7f}' ==> (#[trigger] seen@[c as int] <==> text@.take(
                    at as int,
                ).to_set().contains(c)),
            distinct == text@.take(at as int).to_set().len(),
            distinct <= at,
            digits == prefix_has(text@, at as int, |c: char| is_digit(c)),
            lowercase == prefix_has(text@, at as int, |c: char| is_lowercase(c)),
            uppercase == prefix_has(text@, at as int, |c: char| is_uppercase(c)),
            symbols == prefix_has(text@, at as int, |c: char| is_symbol(c)),
        decreases len - at,
    {
        let byte = text.get_ascii(at);
        let ghost c = text@[at as int];
        let ghost before = text@.take(at as int);
        let ghost after = text@.take(at as int + 1);
        proof {
            seq_to_set_is_finite(before);
            assert(after =~= before.push(c));
            assert(after.to_set() =~= before.to_set().insert(c)) by {
                assert forall|x: char| after.to_set().contains(x) <==> before.to_set().insert(
                    c,
                ).contains(x) by {
                    if after.to_set().contains(x) {
                        let i = choose|i: int| 0 <= i < after.len() && after[i] == x;
                        if i < at {
                            assert(before[i] == x);
                        }
                    }
                    if before.to_set().contains(x) {
                        let i = choose|i: int| 0 <= i < before.len() && before[i] == x;
                        assert(after[i] == x);
                    }
                    if x == c {
                        assert(after[at as int] == x);
                    }
                }
            }
            assert(byte as int == c as int);
        }
        if !seen[byte as usize] {
            seen.set(byte as usize, true);
            distinct = distinct + 1;
        }
        if byte >= 48 && byte <= 57 {
            digits = true;
        } else if byte >= 97 && byte <= 122 {
            lowercase = true;
        } else if byte >= 65 && byte <= 90 {
            uppercase = true;
        } else {
            symbols = true;
        }
        at = at + 1;
        proof {
            assert forall|x: char| '\0' <= x <= '\u{7f}' implies (#[trigger] seen@[x as int]
                <==> after.to_set().contains(x)) by {
                if x != c {
                    assert(x as int != c as int);
                }
            }
            let digit = |c: char| is_digit(c);
            let lower = |c: char| is_lowercase(c);
            let upper = |c: char| is_uppercase(c);
            let symbol = |c: char| is_symbol(c);
            assert(prefix_has(text@, at as int, digit) == (prefix_has(text@, at - 1, digit)
                || is_digit(c))) by {
                lemma_prefix_has(text@, at as int, digit);
            }
            assert(prefix_has(text@, at as int, lower) == (prefix_has(text@, at - 1, lower)
                || is_lowercase(c))) by {
                lemma_prefix_has(text@, at as int, lower);
            }
            assert(prefix_has(text@, at as int, upper) == (prefix_has(text@, at - 1, upper)
                || is_uppercase(c))) by {
                lemma_prefix_has(text@, at as int, upper);
            }
            assert(prefix_has(text@, at as int, symbol) == (prefix_has(text@, at - 1, symbol)
                || is_symbol(c))) by {
                lemma_prefix_has(text@, at as int, symbol);
            }
        }
    }
    proof {
        assert(text@.take(len as int) =~= text@);
    }
    let mut alphabet: u32 = 0;
    if digits {
        alphabet = alphabet + 10;
    }
    if lowercase {
        alphabet = alphabet + 26;
    }
    if uppercase {
        alphabet = alphabet + 26;
    }
    if symbols {
        alphabet = alphabet + 32;
    }
    Charset { distinct, alphabet }
}

/// A prefix has a character of a kind when the prefix one shorter has one,
/// or when its last character is one.
proof fn lemma_prefix_has(text: Seq<char>, len: int, kind: spec_fn(char) -> bool)
    requires
        0 < len <= text.len(),
    ensures
        prefix_has(text, len, kind) == (prefix_has(text, len - 1, kind) || kind(text[len - 1])),
{
    if prefix_has(text, len, kind) {
        let i = choose|i: int| 0 <= i < len && kind(text[i]);
        if i < len - 1 {
            assert(prefix_has(text, len - 1, kind));
        }
    }
    if prefix_has(text, len - 1, kind) {
        let i = choose|i: int| 0 <= i < len - 1 && kind(text[i]);
        assert(0 <= i < len && kind(text[i]));
    }
    if kind(text[len - 1]) {
        assert(0 <= len - 1 < len && kind(text[len - 1]));
    }
}

/// Check credentials strength.
pub fn check_credentials_strength(username: &str, password: &str) -> (r: Result<
    (),
    WeakCredentials,
>)
    ensures
        r is Ok <==> weakness(username@, password@) is None,
        r is Err ==> Some(r.unwrap_err()) == weakness(username@, password@),
{
    if levenshtein(username, password) < MIN_EDIT_DISTANCE {
        return Err(WeakCredentials::TooSimilar);
    }
    if !password.is_ascii() {
        return Err(WeakCredentials::NonAscii);
    }
    let measured = measure(password);
    if has_low_entropy(measured.distinct, measured.alphabet) {
        return Err(WeakCredentials::TooWeak);
    }
    Ok(())
}

} // verus!
