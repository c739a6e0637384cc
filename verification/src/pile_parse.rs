//! Reading cards and piles from text such as `"1A 2b 3"` or `"6D3C2C"`.
//!
//! A card is written as its id in decimal digits, optionally followed by a
//! face letter (`a` to `d`, either case); a missing letter means face `A`.
//! Digits of other scripts count as digits too, but an id written with any
//! of them names no card. Any other character separates cards.
use vstd::prelude::*;
use vstd::string::*;
use crate::card_defs::{CardDefs, CARDS_SIZE};
use crate::card_ptr::CardPtr;
use crate::pile::{pile_cards, pile_len, pile_new, pile_push, Pile};
use crate::pile_utils::pile_valid;
use crate::primitives::{CardId, FaceKey, MAX_PILE_LEN};

verus! {

/// `0` to `9`.
pub open spec fn is_ascii_digit(c: char) -> bool {
    '0' <= c && c <= '9'
}

/// A decimal digit outside ASCII: a character of Unicode's decimal-number
/// category (as of Unicode 14), which comes in runs of ten from a zero.
pub open spec fn is_other_decimal_digit(c: char) -> bool {
    let u = c as u32;
    (0x660 <= u && u < 0x66A) ||
        (0x6F0 <= u && u < 0x6FA) ||
        (0x7C0 <= u && u < 0x7CA) ||
        (0x966 <= u && u < 0x970) ||
        (0x9E6 <= u && u < 0x9F0) ||
        (0xA66 <= u && u < 0xA70) ||
        (0xAE6 <= u && u < 0xAF0) ||
        (0xB66 <= u && u < 0xB70) ||
        (0xBE6 <= u && u < 0xBF0) ||
        (0xC66 <= u && u < 0xC70) ||
        (0xCE6 <= u && u < 0xCF0) ||
        (0xD66 <= u && u < 0xD70) ||
        (0xDE6 <= u && u < 0xDF0) ||
        (0xE50 <= u && u < 0xE5A) ||
        (0xED0 <= u && u < 0xEDA) ||
        (0xF20 <= u && u < 0xF2A) ||
        (0x1040 <= u && u < 0x104A) ||
        (0x1090 <= u && u < 0x109A) ||
        (0x17E0 <= u && u < 0x17EA) ||
        (0x1810 <= u && u < 0x181A) ||
        (0x1946 <= u && u < 0x1950) ||
        (0x19D0 <= u && u < 0x19DA) ||
        (0x1A80 <= u && u < 0x1A8A) ||
        (0x1A90 <= u && u < 0x1A9A) ||
        (0x1B50 <= u && u < 0x1B5A) ||
        (0x1BB0 <= u && u < 0x1BBA) ||
        (0x1C40 <= u && u < 0x1C4A) ||
        (0x1C50 <= u && u < 0x1C5A) ||
        (0xA620 <= u && u < 0xA62A) ||
        (0xA8D0 <= u && u < 0xA8DA) ||
        (0xA900 <= u && u < 0xA90A) ||
        (0xA9D0 <= u && u < 0xA9DA) ||
        (0xA9F0 <= u && u < 0xA9FA) ||
        (0xAA50 <= u && u < 0xAA5A) ||
        (0xABF0 <= u && u < 0xABFA) ||
        (0xFF10 <= u && u < 0xFF1A) ||
        (0x104A0 <= u && u < 0x104AA) ||
        (0x10D30 <= u && u < 0x10D3A) ||
        (0x11066 <= u && u < 0x11070) ||
        (0x110F0 <= u && u < 0x110FA) ||
        (0x11136 <= u && u < 0x11140) ||
        (0x111D0 <= u && u < 0x111DA) ||
        (0x112F0 <= u && u < 0x112FA) ||
        (0x11450 <= u && u < 0x1145A) ||
        (0x114D0 <= u && u < 0x114DA) ||
        (0x11650 <= u && u < 0x1165A) ||
        (0x116C0 <= u && u < 0x116CA) ||
        (0x11730 <= u && u < 0x1173A) ||
        (0x118E0 <= u && u < 0x118EA) ||
        (0x11950 <= u && u < 0x1195A) ||
        (0x11C50 <= u && u < 0x11C5A) ||
        (0x11D50 <= u && u < 0x11D5A) ||
        (0x11DA0 <= u && u < 0x11DAA) ||
        (0x16A60 <= u && u < 0x16A6A) ||
        (0x16AC0 <= u && u < 0x16ACA) ||
        (0x16B50 <= u && u < 0x16B5A) ||
        (0x1D7CE <= u && u < 0x1D7D8) ||
        (0x1D7D8 <= u && u < 0x1D7E2) ||
        (0x1D7E2 <= u && u < 0x1D7EC) ||
        (0x1D7EC <= u && u < 0x1D7F6) ||
        (0x1D7F6 <= u && u < 0x1D800) ||
        (0x1E140 <= u && u < 0x1E14A) ||
        (0x1E2F0 <= u && u < 0x1E2FA) ||
        (0x1E950 <= u && u < 0x1E95A) ||
        (0x1FBF0 <= u && u < 0x1FBFA)
}

/// A decimal digit in Unicode's sense: `0` to `9`, or a digit of another
/// script.
pub open spec fn is_decimal_digit(c: char) -> bool {
    is_ascii_digit(c) || is_other_decimal_digit(c)
}

/// Every character is a decimal digit, in any script.
pub open spec fn all_decimal_digits(s: Seq<char>) -> bool {
    forall|i: int| 0 <= i < s.len() ==> is_decimal_digit(#[trigger] s[i])
}

/// `a` to `d`, in either case.
pub open spec fn is_face_letter(c: char) -> bool {
    ('a' <= c && c <= 'd') || ('A' <= c && c <= 'D')
}

/// The face that a letter names, in either case.
pub open spec fn face_of_letter(c: char) -> FaceKey {
    if c == 'a' || c == 'A' {
        FaceKey::A
    } else if c == 'b' || c == 'B' {
        FaceKey::B
    } else if c == 'c' || c == 'C' {
        FaceKey::C
    } else {
        FaceKey::D
    }
}

/// Every character is a decimal digit.
pub open spec fn all_digits(s: Seq<char>) -> bool {
    forall|i: int| 0 <= i < s.len() ==> is_ascii_digit(#[trigger] s[i])
}

/// The number that a string of decimal digits denotes.
pub open spec fn digits_value(s: Seq<char>) -> nat
    decreases s.len(),
{
    if s.len() == 0 {
        0
    } else {
        digits_value(s.drop_last()) * 10 + ((s.last() as nat) - ('0' as nat)) as nat
    }
}

/// What `str::parse::<u8>` reads, as its documentation describes it: an
/// optional `+` followed by at least one decimal digit, denoting at most 255.
pub open spec fn spec_u8_from_str(s: Seq<char>) -> Option<u8> {
    let d = if s.len() > 0 && s[0] == '+' {
        s.subrange(1, s.len() as int)
    } else {
        s
    };
    if d.len() > 0 && all_digits(d) && digits_value(d) <= 255 {
        Some(digits_value(d) as u8)
    } else {
        None
    }
}

/// The `Debug` text of the error that `str::parse::<u8>` gives for a text
/// that is not a number from 0 to 255. It depends on the text alone.
pub uninterp spec fn u8_parse_error_text(s: Seq<char>) -> Seq<char>;

/// `str::parse::<u8>`: the number, or the `Debug` text of the parse error,
/// which is named, not written out, by `u8_parse_error_text`.
#[verifier::external_body]
fn parse_card_id(s: &str) -> (r: Result<u8, String>)
    ensures
        r.is_ok() == spec_u8_from_str(s@).is_some(),
        r.is_ok() ==> r.unwrap() == spec_u8_from_str(s@).unwrap(),
        r.is_err() ==> r.unwrap_err()@ == u8_parse_error_text(s@),
{
    s.parse::<u8>().map_err(|err| format!("{err:?}"))
}

/// The end of the run of digits that starts at `i`.
pub open spec fn digit_run_end(s: Seq<char>, i: int) -> int
    decreases s.len() - i,
{
    if 0 <= i < s.len() && is_decimal_digit(s[i]) {
        digit_run_end(s, i + 1)
    } else {
        i
    }
}

/// The run of digits from `i` ends inside the text, holds only digits, and
/// is followed by something else.
pub proof fn lemma_digit_run_end(s: Seq<char>, i: int)
    requires
        0 <= i <= s.len(),
    ensures
        i <= digit_run_end(s, i) <= s.len(),
        all_decimal_digits(s.subrange(i, digit_run_end(s, i))),
        digit_run_end(s, i) < s.len() ==> !is_decimal_digit(s[digit_run_end(s, i)]),
        i < s.len() && is_decimal_digit(s[i]) ==> digit_run_end(s, i) > i,
    decreases s.len() - i,
{
    if i < s.len() && is_decimal_digit(s[i]) {
        lemma_digit_run_end(s, i + 1);
        let j = digit_run_end(s, i);
        assert forall|k: int| 0 <= k < j - i implies is_decimal_digit(#[trigger] s.subrange(i, j)[k]) by {
            if k > 0 {
                assert(s.subrange(i, j)[k] == s.subrange(i + 1, j)[k - 1]);
            }
        }
    }
}

/// Whether the token that starts at `i` carries a face letter.
pub open spec fn token_has_letter(s: Seq<char>, i: int) -> bool {
    digit_run_end(s, i) < s.len() && is_face_letter(s[digit_run_end(s, i)])
}

/// The face that the token at `i` names.
pub open spec fn token_key(s: Seq<char>, i: int) -> FaceKey {
    if token_has_letter(s, i) {
        face_of_letter(s[digit_run_end(s, i)])
    } else {
        FaceKey::A
    }
}

/// Where the token that starts at `i` ends.
pub open spec fn token_end(s: Seq<char>, i: int) -> int {
    if token_has_letter(s, i) {
        digit_run_end(s, i) + 1
    } else {
        digit_run_end(s, i)
    }
}

/// The number that the digits of the token at `i` denote.
pub open spec fn token_value(s: Seq<char>, i: int) -> nat {
    digits_value(s.subrange(i, digit_run_end(s, i)))
}

/// The result of reading the card of the token at `i`: the card, the error
/// message, or `None` when the id is a number below 256 past the card
/// table, which the reader does not look up. Digits of other scripts are
/// read as digits but make no number, so such a token names no card.
pub open spec fn token_card(cards: CardDefs, s: Seq<char>, i: int) -> Option<Result<CardPtr, Seq<char>>> {
    let v = token_value(s, i);
    if !all_digits(s.subrange(i, digit_run_end(s, i))) {
        Some(Err("Card Id does not exist"@))
    } else if v > 255 {
        Some(Err("Card Id does not exist"@))
    } else if v >= CARDS_SIZE {
        None
    } else if cards.has_card(v as int) {
        Some(Ok(CardPtr { card_id: v as u8, key: token_key(s, i) }))
    } else {
        Some(Err("Card Id does not exist"@))
    }
}

/// The result of reading the first card from position `i` on.
pub open spec fn spec_parse_card_ptr(cards: CardDefs, s: Seq<char>, i: int) -> Option<Result<CardPtr, Seq<char>>>
    decreases s.len() - i,
{
    if i < 0 || i >= s.len() {
        Some(Err("Could not parse card ptr"@))
    } else if !is_decimal_digit(s[i]) {
        spec_parse_card_ptr(cards, s, i + 1)
    } else {
        token_card(cards, s, i)
    }
}

/// The result of reading a pile from position `i` on, after the cards `acc`
/// were read: reading stops at the first bad card, or once the pile is full.
pub open spec fn spec_parse_pile(cards: CardDefs, s: Seq<char>, i: int, acc: Seq<CardPtr>) -> Option<Result<Seq<CardPtr>, Seq<char>>>
    decreases s.len() - i,
{
    if i < 0 || i >= s.len() {
        if acc.len() == 0 {
            Some(Err("Could not parse any cards"@))
        } else {
            Some(Ok(acc))
        }
    } else if !is_decimal_digit(s[i]) {
        spec_parse_pile(cards, s, i + 1, acc)
    } else {
        match token_card(cards, s, i) {
            None => None,
            Some(Err(e)) => Some(Err(e)),
            Some(Ok(c)) => if acc.len() + 1 >= MAX_PILE_LEN {
                Some(Ok(acc.push(c)))
            } else {
                proof {
                    lemma_token_end(s, i);
                }
                spec_parse_pile(cards, s, token_end(s, i), acc.push(c))
            },
        }
    }
}

/// A token that starts with a digit ends after its start, inside the text.
pub proof fn lemma_token_end(s: Seq<char>, i: int)
    requires
        0 <= i < s.len(),
        is_decimal_digit(s[i]),
    ensures
        i < token_end(s, i) <= s.len(),
{
    lemma_digit_run_end(s, i);
}

proof fn lemma_digits_value_push(s: Seq<char>, c: char)
    ensures
        digits_value(s.push(c)) == digits_value(s) * 10 + ((c as nat) - ('0' as nat)) as nat,
{
    assert(s.push(c).drop_last() =~= s);
}

/// The end of the digits from `i` on and the number they denote, capped at
/// 256; with the face letter that follows, if any.
fn read_token(input: &str, n: usize, i: usize) -> (r: (usize, u16, Option<FaceKey>, bool))
    requires
        n == input@.len(),
        i < n,
        is_decimal_digit(input@[i as int]),
    ensures
        r.0 == digit_run_end(input@, i as int),
        r.3 == all_digits(input@.subrange(i as int, digit_run_end(input@, i as int))),
        r.3 && token_value(input@, i as int) > 255 ==> r.1 == 256,
        r.3 && token_value(input@, i as int) <= 255 ==> r.1 == token_value(input@, i as int),
        r.2.is_some() == token_has_letter(input@, i as int),
        r.2.is_some() ==> r.2.unwrap() == token_key(input@, i as int),
{
    let ghost s = input@;
    proof {
        lemma_digit_run_end(s, i as int);
    }
    let mut j = i;
    let mut value: u16 = 0;
    let mut ascii = true;
    while j < n && is_decimal_char(input.get_char(j))
        invariant
            n == s.len(),
            s == input@,
            i <= j <= digit_run_end(s, i as int),
            digit_run_end(s, i as int) <= n,
            all_decimal_digits(s.subrange(i as int, digit_run_end(s, i as int))),
            digit_run_end(s, i as int) < s.len() ==> !is_decimal_digit(s[digit_run_end(s, i as int)]),
            ascii == all_digits(s.subrange(i as int, j as int)),
            ascii && digits_value(s.subrange(i as int, j as int)) > 255 ==> value == 256,
            ascii && digits_value(s.subrange(i as int, j as int)) <= 255 ==> value == digits_value(
                s.subrange(i as int, j as int),
            ),
        decreases n - j,
    {
        let c = input.get_char(j);
        proof {
            if j >= digit_run_end(s, i as int) {
                assert(false);
            }
            assert(s.subrange(i as int, digit_run_end(s, i as int))[j - i] == s[j as int]);
            assert(s.subrange(i as int, j + 1) =~= s.subrange(i as int, j as int).push(c));
            lemma_digits_value_push(s.subrange(i as int, j as int), c);
            assert(s.subrange(i as int, j + 1)[j - i] == c);
            assert forall|k: int| 0 <= k < j - i implies #[trigger] s.subrange(i as int, j + 1)[k] == s.subrange(
                i as int,
                j as int,
            )[k] by {}
        }
        if is_digit_char(c) {
            if ascii {
                let d = digit_value(c);
                if value >= 256 || value * 10 + d as u16 > 255 {
                    value = 256;
                } else {
                    value = value * 10 + d as u16;
                }
            }
        } else {
            ascii = false;
        }
        j += 1;
    }
    proof {
        if j < digit_run_end(s, i as int) {
            assert(s.subrange(i as int, digit_run_end(s, i as int))[j - i] == s[j as int]);
            assert(false);
        }
    }
    let key = if j < n {
        letter_face(input.get_char(j))
    } else {
        None
    };
    (j, value, key, ascii)
}

/// Whether the character is a decimal digit of any script.
fn is_decimal_char(c: char) -> (r: bool)
    ensures
        r == is_decimal_digit(c),
{
    if '0' <= c && c <= '9' {
        return true;
    }
    let u = c as u32;
    (0x660 <= u && u < 0x66A) ||
        (0x6F0 <= u && u < 0x6FA) ||
        (0x7C0 <= u && u < 0x7CA) ||
        (0x966 <= u && u < 0x970) ||
        (0x9E6 <= u && u < 0x9F0) ||
        (0xA66 <= u && u < 0xA70) ||
        (0xAE6 <= u && u < 0xAF0) ||
        (0xB66 <= u && u < 0xB70) ||
        (0xBE6 <= u && u < 0xBF0) ||
        (0xC66 <= u && u < 0xC70) ||
        (0xCE6 <= u && u < 0xCF0) ||
        (0xD66 <= u && u < 0xD70) ||
        (0xDE6 <= u && u < 0xDF0) ||
        (0xE50 <= u && u < 0xE5A) ||
        (0xED0 <= u && u < 0xEDA) ||
        (0xF20 <= u && u < 0xF2A) ||
        (0x1040 <= u && u < 0x104A) ||
        (0x1090 <= u && u < 0x109A) ||
        (0x17E0 <= u && u < 0x17EA) ||
        (0x1810 <= u && u < 0x181A) ||
        (0x1946 <= u && u < 0x1950) ||
        (0x19D0 <= u && u < 0x19DA) ||
        (0x1A80 <= u && u < 0x1A8A) ||
        (0x1A90 <= u && u < 0x1A9A) ||
        (0x1B50 <= u && u < 0x1B5A) ||
        (0x1BB0 <= u && u < 0x1BBA) ||
        (0x1C40 <= u && u < 0x1C4A) ||
        (0x1C50 <= u && u < 0x1C5A) ||
        (0xA620 <= u && u < 0xA62A) ||
        (0xA8D0 <= u && u < 0xA8DA) ||
        (0xA900 <= u && u < 0xA90A) ||
        (0xA9D0 <= u && u < 0xA9DA) ||
        (0xA9F0 <= u && u < 0xA9FA) ||
        (0xAA50 <= u && u < 0xAA5A) ||
        (0xABF0 <= u && u < 0xABFA) ||
        (0xFF10 <= u && u < 0xFF1A) ||
        (0x104A0 <= u && u < 0x104AA) ||
        (0x10D30 <= u && u < 0x10D3A) ||
        (0x11066 <= u && u < 0x11070) ||
        (0x110F0 <= u && u < 0x110FA) ||
        (0x11136 <= u && u < 0x11140) ||
        (0x111D0 <= u && u < 0x111DA) ||
        (0x112F0 <= u && u < 0x112FA) ||
        (0x11450 <= u && u < 0x1145A) ||
        (0x114D0 <= u && u < 0x114DA) ||
        (0x11650 <= u && u < 0x1165A) ||
        (0x116C0 <= u && u < 0x116CA) ||
        (0x11730 <= u && u < 0x1173A) ||
        (0x118E0 <= u && u < 0x118EA) ||
        (0x11950 <= u && u < 0x1195A) ||
        (0x11C50 <= u && u < 0x11C5A) ||
        (0x11D50 <= u && u < 0x11D5A) ||
        (0x11DA0 <= u && u < 0x11DAA) ||
        (0x16A60 <= u && u < 0x16A6A) ||
        (0x16AC0 <= u && u < 0x16ACA) ||
        (0x16B50 <= u && u < 0x16B5A) ||
        (0x1D7CE <= u && u < 0x1D7D8) ||
        (0x1D7D8 <= u && u < 0x1D7E2) ||
        (0x1D7E2 <= u && u < 0x1D7EC) ||
        (0x1D7EC <= u && u < 0x1D7F6) ||
        (0x1D7F6 <= u && u < 0x1D800) ||
        (0x1E140 <= u && u < 0x1E14A) ||
        (0x1E2F0 <= u && u < 0x1E2FA) ||
        (0x1E950 <= u && u < 0x1E95A) ||
        (0x1FBF0 <= u && u < 0x1FBFA)
}

fn is_digit_char(c: char) -> (r: bool)
    ensures
        r == is_ascii_digit(c),
{
    '0' <= c && c <= '9'
}

fn digit_value(c: char) -> (r: u8)
    requires
        is_ascii_digit(c),
    ensures
        r == (c as nat) - ('0' as nat),
        r <= 9,
{
    (c as u32 - '0' as u32) as u8
}

/// The face that a face letter names, or `None` for any other character.
fn letter_face(c: char) -> (r: Option<FaceKey>)
    ensures
        r.is_some() == is_face_letter(c),
        r.is_some() ==> r.unwrap() == face_of_letter(c),
{
    if c == 'a' || c == 'A' {
        Some(FaceKey::A)
    } else if c == 'b' || c == 'B' {
        Some(FaceKey::B)
    } else if c == 'c' || c == 'C' {
        Some(FaceKey::C)
    } else if c == 'd' || c == 'D' {
        Some(FaceKey::D)
    } else {
        None
    }
}

fn no_such_card() -> (r: String)
    ensures
        r@ == "Card Id does not exist"@,
{
    String::from_str("Card Id does not exist")
}

/// Reads the card of the token at `i`.
fn read_token_card(cards: &CardDefs, input: &str, n: usize, i: usize) -> (r: (usize, Result<CardPtr, String>))
    requires
        cards.wf(),
        n == input@.len(),
        i < n,
        is_decimal_digit(input@[i as int]),
        token_card(*cards, input@, i as int).is_some(),
    ensures
        r.0 == token_end(input@, i as int),
        match token_card(*cards, input@, i as int).unwrap() {
            Ok(c) => r.1 == Ok::<CardPtr, String>(c),
            Err(e) => r.1.is_err() && r.1.unwrap_err()@ == e,
        },
{
    let (j, value, key, ascii) = read_token(input, n, i);
    let end = if key.is_some() {
        j + 1
    } else {
        j
    };
    if !ascii || value > 255 {
        return (end, Err(no_such_card()));
    }
    let id = value as usize;
    if cards.get_card_if_exists(id).is_some() {
        let face = match key {
            Some(k) => k,
            None => FaceKey::A,
        };
        (end, Ok(CardPtr::new_from_id(id as CardId, face)))
    } else {
        (end, Err(no_such_card()))
    }
}

/// Reads the id of a card; an id of a card that is not in the table is an
/// error.
pub fn string_to_card_id_result(cards: &CardDefs, input: &str) -> (r: Result<CardId, String>)
    requires
        cards.wf(),
        spec_u8_from_str(input@).is_some() ==> spec_u8_from_str(input@).unwrap() < CARDS_SIZE,
    ensures
        match spec_u8_from_str(input@) {
            None => r.is_err() && r.unwrap_err()@ == u8_parse_error_text(input@),
            Some(v) => if cards.has_card(v as int) {
                r == Ok::<CardId, String>(v)
            } else {
                r.is_err() && r.unwrap_err()@ == "Card Id does not exist"@
            },
        },
{
    let card_id = match parse_card_id(input) {
        Ok(id) => id,
        Err(e) => return Err(e),
    };
    if cards.get_card_if_exists(card_id as usize).is_some() {
        Ok(card_id)
    } else {
        Err(no_such_card())
    }
}

/// Reads the first card of the text: see `spec_parse_card_ptr`.
pub fn string_to_card_ptr_result(cards: &CardDefs, input: &str) -> (r: Result<CardPtr, String>)
    requires
        cards.wf(),
        spec_parse_card_ptr(*cards, input@, 0).is_some(),
    ensures
        match spec_parse_card_ptr(*cards, input@, 0).unwrap() {
            Ok(c) => r == Ok::<CardPtr, String>(c),
            Err(e) => r.is_err() && r.unwrap_err()@ == e,
        },
{
    let n = input.unicode_len();
    let mut i: usize = 0;
    while i < n
        invariant
            n == input@.len(),
            i <= n,
            cards.wf(),
            spec_parse_card_ptr(*cards, input@, 0) == spec_parse_card_ptr(*cards, input@, i as int),
            spec_parse_card_ptr(*cards, input@, 0).is_some(),
        decreases n - i,
    {
        if is_decimal_char(input.get_char(i)) {
            let (_, result) = read_token_card(cards, input, n, i);
            return result;
        }
        i += 1;
    }
    Err(String::from_str("Could not parse card ptr"))
}

/// Reads the first card of the text, which must be readable.
pub fn string_to_card_ptr(cards: &CardDefs, input: &str) -> (r: CardPtr)
    requires
        cards.wf(),
        spec_parse_card_ptr(*cards, input@, 0) matches Some(Ok(_)),
    ensures
        spec_parse_card_ptr(*cards, input@, 0) == Some(Ok::<CardPtr, Seq<char>>(r)),
{
    match string_to_card_ptr_result(cards, input) {
        Ok(c) => c,
        Err(_) => {
            proof {
                assert(false);
            }
            CardPtr::new_from_id(0, FaceKey::A)
        },
    }
}

/// Reads a pile: see `spec_parse_pile`. At most `MAX_PILE_LEN` cards are
/// read; the text after the last of them is ignored.
pub fn string_to_pile_result(cards: &CardDefs, input: &str) -> (r: Result<Pile, String>)
    requires
        cards.wf(),
        spec_parse_pile(*cards, input@, 0, Seq::empty()).is_some(),
    ensures
        match spec_parse_pile(*cards, input@, 0, Seq::empty()).unwrap() {
            Ok(p) => r.is_ok() && pile_cards(r.unwrap()) == p,
            Err(e) => r.is_err() && r.unwrap_err()@ == e,
        },
        r.is_ok() ==> pile_valid(*cards, pile_cards(r.unwrap())),
{
    let n = input.unicode_len();
    let mut result = pile_new();
    let mut i: usize = 0;
    while i < n
        invariant
            n == input@.len(),
            i <= n,
            cards.wf(),
            pile_cards(result).len() < MAX_PILE_LEN,
            pile_valid(*cards, pile_cards(result)),
            spec_parse_pile(*cards, input@, 0, Seq::empty()) == spec_parse_pile(
                *cards,
                input@,
                i as int,
                pile_cards(result),
            ),
            spec_parse_pile(*cards, input@, 0, Seq::empty()).is_some(),
        decreases n - i,
    {
        if is_decimal_char(input.get_char(i)) {
            proof {
                lemma_token_end(input@, i as int);
            }
            let (end, card) = read_token_card(cards, input, n, i);
            match card {
                Err(e) => return Err(e),
                Ok(c) => {
                    pile_push(&mut result, c);
                    if pile_len(&result) == MAX_PILE_LEN {
                        return Ok(result);
                    }
                },
            }
            i = end;
        } else {
            i += 1;
        }
    }
    if pile_len(&result) == 0 {
        Err(String::from_str("Could not parse any cards"))
    } else {
        Ok(result)
    }
}

/// Reads a pile, which must be readable.
pub fn string_to_pile(cards: &CardDefs, input: &str) -> (r: Pile)
    requires
        cards.wf(),
        spec_parse_pile(*cards, input@, 0, Seq::empty()) matches Some(Ok(_)),
    ensures
        spec_parse_pile(*cards, input@, 0, Seq::empty()) == Some(Ok::<Seq<CardPtr>, Seq<char>>(pile_cards(r))),
        pile_valid(*cards, pile_cards(r)),
{
    match string_to_pile_result(cards, input) {
        Ok(p) => p,
        Err(_) => {
            proof {
                assert(false);
            }
            pile_new()
        },
    }
}


/// Whether reading a pile from the text looks up only ids inside the card
/// table, as `string_to_pile_result` asks: a number from 128 to 255 read
/// before reading stops would index past the table.
pub fn pile_text_is_readable(cards: &CardDefs, input: &str) -> (r: bool)
    requires
        cards.wf(),
    ensures
        r == spec_parse_pile(*cards, input@, 0, Seq::empty()).is_some(),
{
    let n = input.unicode_len();
    let ghost mut acc: Seq<CardPtr> = Seq::empty();
    let mut count: usize = 0;
    let mut i: usize = 0;
    while i < n
        invariant
            n == input@.len(),
            i <= n,
            cards.wf(),
            count == acc.len(),
            count < MAX_PILE_LEN,
            spec_parse_pile(*cards, input@, 0, Seq::empty()) == spec_parse_pile(*cards, input@, i as int, acc),
        decreases n - i,
    {
        if is_decimal_char(input.get_char(i)) {
            proof {
                lemma_token_end(input@, i as int);
            }
            let (_, value, _, ascii) = read_token(input, n, i);
            if ascii && 128 <= value && value <= 255 {
                return false;
            }
            let (end, card) = read_token_card(cards, input, n, i);
            match card {
                Err(_) => return true,
                Ok(c) => {
                    proof {
                        acc = acc.push(c);
                    }
                    count += 1;
                    if count == MAX_PILE_LEN {
                        return true;
                    }
                },
            }
            i = end;
        } else {
            i += 1;
        }
    }
    true
}

} // verus!
