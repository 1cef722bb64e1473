//! Service ids: ten lower-case letters, vowels and consonants in turn.

use vstd::prelude::*;
use rand::Rng;
use rand::seq::SliceRandom;

verus! {

/// How many letters a service id has.
pub const KEY_LENGTH: usize = 10;

/// `aeiou`
pub open spec fn vowel_letters() -> Seq<u8> {
    seq![97u8, 101u8, 105u8, 111u8, 117u8]
}

/// `bcdfghjklmnpqrstvwxyz`
pub open spec fn consonant_letters() -> Seq<u8> {
    seq![
        98u8, 99u8, 100u8, 102u8, 103u8, 104u8, 106u8, 107u8, 108u8, 109u8, 110u8, 112u8, 113u8,
        114u8, 115u8, 116u8, 118u8, 119u8, 120u8, 121u8, 122u8,
    ]
}

/// One of `aeiou`.
pub open spec fn is_vowel(b: u8) -> bool {
    b == 97 || b == 101 || b == 105 || b == 111 || b == 117
}

/// A lower-case letter that is no vowel.
pub open spec fn is_consonant(b: u8) -> bool {
    97 <= b <= 122 && !is_vowel(b)
}

/// Whether position `i` of a key holds a consonant, given whether the
/// key starts with a vowel.
pub open spec fn consonant_at(i: int, starts_with_vowel: bool) -> bool {
    (i % 2 == 1) == starts_with_vowel
}

/// A key of [`KEY_LENGTH`] letters that alternates between vowels and
/// consonants, starting with the kind given.
pub open spec fn is_key_starting(key: Seq<u8>, starts_with_vowel: bool) -> bool {
    &&& key.len() == KEY_LENGTH
    &&& forall|i: int|
        0 <= i < key.len() ==> if consonant_at(i, starts_with_vowel) {
            is_consonant(#[trigger] key[i])
        } else {
            is_vowel(key[i])
        }
}

/// A well-formed service id.
pub open spec fn is_phonetic_key(key: Seq<u8>) -> bool {
    is_key_starting(key, true) || is_key_starting(key, false)
}

proof fn lemma_alphabets()
    ensures
        forall|b: u8| vowel_letters().contains(b) <==> is_vowel(b),
        forall|b: u8| consonant_letters().contains(b) <==> is_consonant(b),
{
    let v = vowel_letters();
    let c = consonant_letters();
    assert forall|b: u8| is_vowel(b) implies v.contains(b) by {
        assert(v[0] == 97 && v[1] == 101 && v[2] == 105 && v[3] == 111 && v[4] == 117);
    }
    assert forall|b: u8| is_consonant(b) implies c.contains(b) by {
        assert(c[0] == 98 && c[1] == 99 && c[2] == 100 && c[3] == 102 && c[4] == 103 && c[5] == 104
            && c[6] == 106);
        assert(c[7] == 107 && c[8] == 108 && c[9] == 109 && c[10] == 110 && c[11] == 112 && c[12]
            == 113 && c[13] == 114);
        assert(c[14] == 115 && c[15] == 116 && c[16] == 118 && c[17] == 119 && c[18] == 120
            && c[19] == 121 && c[20] == 122);
    }
}

/// The five vowels.
pub fn vowels() -> (v: Vec<u8>)
    ensures
        v@ == vowel_letters(),
{
    let v: Vec<u8> = vec![97u8, 101u8, 105u8, 111u8, 117u8];
    assert(v@ =~= vowel_letters());
    v
}

/// The twenty-one consonants.
pub fn consonants() -> (c: Vec<u8>)
    ensures
        c@ == consonant_letters(),
{
    let c: Vec<u8> = vec![
        98u8, 99u8, 100u8, 102u8, 103u8, 104u8, 106u8, 107u8, 108u8, 109u8, 110u8, 112u8, 113u8,
        114u8, 115u8, 116u8, 118u8, 119u8, 120u8, 121u8, 122u8,
    ];
    assert(c@ =~= consonant_letters());
    c
}

/// Draws a boolean from the thread's generator with
/// `rand::thread_rng().gen::<bool>()`.
///
/// Trusted, and nothing is claimed: either value may come back. The
/// generator is seeded from the operating system on first use.
#[verifier::external_body]
fn flip() -> bool {
    rand::thread_rng().gen::<bool>()
}

/// Picks one element of `letters` with `SliceRandom::choose` and the
/// thread's generator.
///
/// Trusted: `None` exactly for an empty slice, else an element of it.
#[verifier::external_body]
fn choose_letter(letters: &[u8]) -> (pick: Option<u8>)
    ensures
        pick is None <==> letters@.len() == 0,
        pick matches Some(b) ==> letters@.contains(b),
{
    letters.choose(&mut rand::thread_rng()).copied()
}

fn is_vowel_byte(b: u8) -> (r: bool)
    ensures
        r == is_vowel(b),
{
    b == 97 || b == 101 || b == 105 || b == 111 || b == 117
}

fn holds_pattern(key: &[u8], starts_with_vowel: bool) -> (r: bool)
    ensures
        r == is_key_starting(key@, starts_with_vowel),
{
    if key.len() != KEY_LENGTH {
        return false;
    }
    let mut i: usize = 0;
    while i < KEY_LENGTH
        invariant
            i <= KEY_LENGTH,
            key@.len() == KEY_LENGTH,
            forall|j: int|
                0 <= j < i ==> if consonant_at(j, starts_with_vowel) {
                    is_consonant(#[trigger] key@[j])
                } else {
                    is_vowel(key@[j])
                },
        decreases KEY_LENGTH - i,
    {
        let b: u8 = key[i];
        let wants_consonant: bool = (i % 2 == 1) == starts_with_vowel;
        let fits: bool = if wants_consonant {
            97 <= b && b <= 122 && !is_vowel_byte(b)
        } else {
            is_vowel_byte(b)
        };
        if !fits {
            return false;
        }
        i = i + 1;
    }
    true
}

/// Whether `key` is a well-formed service id.
pub fn check_phonetic_key(key: &[u8]) -> (r: bool)
    ensures
        r == is_phonetic_key(key@),
{
    holds_pattern(key, true) || holds_pattern(key, false)
}

/// Generates a service id: ten letters, alternating between the two
/// alphabets, with the starting alphabet and every letter drawn from the
/// thread's random generator.
pub fn phonetic_key_generator() -> (key: Vec<u8>)
    ensures
        is_phonetic_key(key@),
{
    let vowels: Vec<u8> = vowels();
    let cons: Vec<u8> = consonants();
    let starts_with_vowel: bool = flip();
    let mut text: Vec<u8> = Vec::new();
    let mut i: usize = 0;
    proof {
        lemma_alphabets();
    }
    while i < KEY_LENGTH
        invariant
            i <= KEY_LENGTH,
            text@.len() == i,
            vowels@ == vowel_letters(),
            cons@ == consonant_letters(),
            forall|b: u8| vowel_letters().contains(b) <==> is_vowel(b),
            forall|b: u8| consonant_letters().contains(b) <==> is_consonant(b),
            forall|j: int|
                0 <= j < i ==> if consonant_at(j, starts_with_vowel) {
                    is_consonant(#[trigger] text@[j])
                } else {
                    is_vowel(text@[j])
                },
        decreases KEY_LENGTH - i,
    {
        let wants_consonant: bool = (i % 2 == 1) == starts_with_vowel;
        let pick: Option<u8> = if wants_consonant {
            choose_letter(cons.as_slice())
        } else {
            choose_letter(vowels.as_slice())
        };
        let letter: u8 = match pick {
            Some(b) => b,
            None => vstd::pervasive::unreached(),
        };
        text.push(letter);
        i = i + 1;
    }
    assert(is_key_starting(text@, starts_with_vowel));
    text
}

} // verus!
