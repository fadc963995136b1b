//! The cipher applied to a whole text, one character at a time.
use vstd::prelude::*;

use crate::letter::{decrypt_char, lemma_char_round_trip, decrypt_character, encrypt_char, encrypt_character};

verus! {

/// The fixed shift that the text functions use.
pub const SHIFT: u8 = 8;

/// The encryption of a text: each character encrypted with `SHIFT`, in order.
pub open spec fn encrypt_text(t: Seq<char>) -> Seq<char> {
    t.map_values(|c: char| encrypt_char(c, SHIFT as int))
}

/// The decryption of a text: each character decrypted with `SHIFT`, in order.
pub open spec fn decrypt_text(t: Seq<char>) -> Seq<char> {
    t.map_values(|c: char| decrypt_char(c, SHIFT as int))
}

/// Relies on `String::push`, which appends the given character to the end of
/// the string.
pub assume_specification[ String::push ](s: &mut String, ch: char)
    ensures
        final(s)@ == old(s)@.push(ch),
;

/// Encrypts a text with the fixed shift, character by character.
pub fn encrypt(plaintext: &str) -> (r: String)
    ensures
        r@ == encrypt_text(plaintext@),
{
    let mut out = String::new();
    for c in it: plaintext.chars()
        invariant
            it.seq() == plaintext@,
            out@ == encrypt_text(plaintext@.take(it.index() as int)),
    {
        out.push(encrypt_character(c, SHIFT));
    }
    out
}

/// Decrypts a text with the fixed shift, character by character.
pub fn decrypt(ciphertext: &str) -> (r: String)
    ensures
        r@ == decrypt_text(ciphertext@),
{
    let mut out = String::new();
    for c in it: ciphertext.chars()
        invariant
            it.seq() == ciphertext@,
            out@ == decrypt_text(ciphertext@.take(it.index() as int)),
    {
        out.push(decrypt_character(c, SHIFT));
    }
    out
}

/// Both directions keep a text's length and its order, and each undoes the
/// other: decrypting an encrypted text gives the text back, and so does
/// encrypting a decrypted one.
pub proof fn lemma_text_round_trip(t: Seq<char>)
    ensures
        encrypt_text(t).len() == t.len(),
        decrypt_text(t).len() == t.len(),
        decrypt_text(encrypt_text(t)) == t,
        encrypt_text(decrypt_text(t)) == t,
{
    assert forall|i: int| 0 <= i < t.len() implies decrypt_text(encrypt_text(t))[i] == t[i] by {
        lemma_char_round_trip(t[i], SHIFT as int);
    }
    assert forall|i: int| 0 <= i < t.len() implies encrypt_text(decrypt_text(t))[i] == t[i] by {
        lemma_char_round_trip(t[i], SHIFT as int);
    }
    assert(decrypt_text(encrypt_text(t)) =~= t);
    assert(encrypt_text(decrypt_text(t)) =~= t);
}

} // verus!
