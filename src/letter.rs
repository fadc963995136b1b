//! The substitution rule on a single character, and its inverse.
use vstd::prelude::*;

verus! {

/// Size of each case-alphabet.
pub const ALPHABET_LEN: u32 = 26;

/// `c` is one of `a` ..= `z`.
pub open spec fn is_lower(c: char) -> bool {
    'a' as u32 <= c as u32 <= 'z' as u32
}

/// `c` is one of `A` ..= `Z`.
pub open spec fn is_upper(c: char) -> bool {
    'A' as u32 <= c as u32 <= 'Z' as u32
}

/// `c` is an ASCII letter of either case.
pub open spec fn is_letter(c: char) -> bool {
    is_lower(c) || is_upper(c)
}

/// Code of the first letter of the alphabet that the letter `c` belongs to.
pub open spec fn base_of(c: char) -> u32 {
    if is_lower(c) {
        'a' as u32
    } else {
        'A' as u32
    }
}

/// Moves a letter `k` places forward within its case-alphabet, wrapping round;
/// any other character stays as it is.
pub open spec fn rotate(c: char, k: nat) -> char {
    if is_letter(c) {
        ((base_of(c) + (c as u32 - base_of(c) + k) % (ALPHABET_LEN as int)) as u32) as char
    } else {
        c
    }
}

/// What encrypting `c` with `shift` gives: a rotation by `shift` reduced modulo 26.
pub open spec fn encrypt_char(c: char, shift: int) -> char {
    rotate(c, (shift % (ALPHABET_LEN as int)) as nat)
}

/// What decrypting `c` with `shift` gives: a rotation by the complement of
/// `shift` modulo 26, so that no intermediate value is negative.
pub open spec fn decrypt_char(c: char, shift: int) -> char {
    rotate(c, (ALPHABET_LEN - shift % (ALPHABET_LEN as int)) as nat)
}

/// Encrypts one character: an ASCII letter moves `shift` places forward in its
/// own case-alphabet, wrapping round; any other character is returned as it is.
/// A shift of 26 or more is first reduced modulo 26.
pub fn encrypt_character(c: char, shift: u8) -> (r: char)
    ensures
        r == encrypt_char(c, shift as int),
{
    let code = c as u32;
    let base: u32 = if 'a' as u32 <= code && code <= 'z' as u32 {
        'a' as u32
    } else if 'A' as u32 <= code && code <= 'Z' as u32 {
        'A' as u32
    } else {
        return c;
    };
    let k = (shift as u32) % ALPHABET_LEN;
    let shifted = base + (code - base + k) % ALPHABET_LEN;
    (shifted as u8) as char
}

/// Decrypts one character: an ASCII letter moves `shift` places back in its
/// own case-alphabet, wrapping round; any other character is returned as it is.
/// A shift of 26 or more is first reduced modulo 26.
pub fn decrypt_character(c: char, shift: u8) -> (r: char)
    ensures
        r == decrypt_char(c, shift as int),
{
    let code = c as u32;
    let base: u32 = if 'a' as u32 <= code && code <= 'z' as u32 {
        'a' as u32
    } else if 'A' as u32 <= code && code <= 'Z' as u32 {
        'A' as u32
    } else {
        return c;
    };
    let k = (shift as u32) % ALPHABET_LEN;
    let shifted = base + (code - base + ALPHABET_LEN - k) % ALPHABET_LEN;
    (shifted as u8) as char
}

/// Decrypting undoes encrypting with the same shift, and encrypting undoes
/// decrypting, for every character.
pub proof fn lemma_char_round_trip(c: char, shift: int)
    ensures
        decrypt_char(encrypt_char(c, shift), shift) == c,
        encrypt_char(decrypt_char(c, shift), shift) == c,
{
    if is_letter(c) {
        let k = shift % 26;
        let e = encrypt_char(c, shift);
        let d = decrypt_char(c, shift);
        assert(is_letter(e) && base_of(e) == base_of(c)) by {
            lemma_case_preserved(c, shift);
        }
        assert(is_letter(d) && base_of(d) == base_of(c)) by {
            lemma_case_preserved(c, shift);
        }
        let b = base_of(c) as int;
        let x = c as u32 - b;
        assert(((x + k) % 26 + (26 - k)) % 26 == x) by (nonlinear_arith)
            requires 0 <= x < 26, 0 <= k < 26;
        assert(((x + (26 - k)) % 26 + k) % 26 == x) by (nonlinear_arith)
            requires 0 <= x < 26, 0 <= k < 26;
    }
}

/// A character that is not an ASCII letter is left as it is by both
/// directions, whatever the shift.
pub proof fn lemma_non_letter_unchanged(c: char, shift: int)
    requires
        !is_letter(c),
    ensures
        encrypt_char(c, shift) == c,
        decrypt_char(c, shift) == c,
{
}

/// Both directions keep a letter's case: an upper-case letter stays upper
/// case, a lower-case letter stays lower case.
pub proof fn lemma_case_preserved(c: char, shift: int)
    ensures
        is_upper(c) ==> is_upper(encrypt_char(c, shift)) && is_upper(decrypt_char(c, shift)),
        is_lower(c) ==> is_lower(encrypt_char(c, shift)) && is_lower(decrypt_char(c, shift)),
{
}

} // verus!
