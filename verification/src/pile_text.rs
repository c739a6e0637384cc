//! Writing a pile as text, and reading it back.
use vstd::prelude::*;
use crate::action_names::{decimal, digit_char};
use crate::card_defs::{CardDefs, CARDS_SIZE};
use crate::card_ptr::CardPtr;
use crate::pile_parse::{
    digit_run_end, digits_value, face_of_letter, is_ascii_digit, is_decimal_digit, is_face_letter, spec_parse_pile, token_card,
    token_end, token_has_letter, token_key, token_value,
};
use crate::pile_utils::pile_valid;
use crate::primitives::{FaceKey, MAX_PILE_LEN};

verus! {

/// How the faces of cards are written.
pub enum FaceStyle {
    /// An upper-case letter: `12C`.
    Upper,
    /// A lower-case letter: `12c`.
    Lower,
    /// No letter at all: `12`.
    Omitted,
}

/// The upper-case letter of a face.
pub open spec fn face_letter(f: FaceKey) -> char {
    match f {
        FaceKey::A => 'A',
        FaceKey::B => 'B',
        FaceKey::C => 'C',
        FaceKey::D => 'D',
    }
}

/// The lower-case letter of a face.
pub open spec fn face_letter_lower(f: FaceKey) -> char {
    match f {
        FaceKey::A => 'a',
        FaceKey::B => 'b',
        FaceKey::C => 'c',
        FaceKey::D => 'd',
    }
}

/// A card written as its id and, unless omitted, its face letter, such as
/// `12C`.
pub open spec fn card_text_styled(c: CardPtr, style: FaceStyle) -> Seq<char> {
    match style {
        FaceStyle::Upper => decimal(c.card_id as nat).push(face_letter(c.key)),
        FaceStyle::Lower => decimal(c.card_id as nat).push(face_letter_lower(c.key)),
        FaceStyle::Omitted => decimal(c.card_id as nat),
    }
}

/// The cards of a pile from position `k` on, written one after the other
/// with a space between them.
pub open spec fn pile_text_from(p: Seq<CardPtr>, k: int, style: FaceStyle) -> Seq<char>
    decreases p.len() - k,
{
    if k >= p.len() - 1 {
        if 0 <= k < p.len() {
            card_text_styled(p[k], style)
        } else {
            Seq::empty()
        }
    } else {
        card_text_styled(p[k], style) + seq![' '] + pile_text_from(p, k + 1, style)
    }
}

/// A pile written as text: each card as its id and face letter, top card
/// first, separated by spaces, such as `1A 2B 3C`.
pub open spec fn pile_text(p: Seq<CardPtr>, style: FaceStyle) -> Seq<char> {
    pile_text_from(p, 0, style)
}

/// The pile that a text written in the style reads as: the same cards, on
/// face `A` where the letters were left out.
pub open spec fn read_back(p: Seq<CardPtr>, style: FaceStyle) -> Seq<CardPtr> {
    match style {
        FaceStyle::Omitted => p.map_values(|c: CardPtr| CardPtr { card_id: c.card_id, key: FaceKey::A }),
        _ => p,
    }
}

proof fn lemma_digit_char(d: nat)
    requires
        d < 10,
    ensures
        is_ascii_digit(digit_char(d)),
        (digit_char(d) as nat) - ('0' as nat) == d,
{
}

proof fn lemma_decimal(n: nat)
    ensures
        decimal(n).len() >= 1,
        forall|j: int| 0 <= j < decimal(n).len() ==> is_ascii_digit(#[trigger] decimal(n)[j]),
        digits_value(decimal(n)) == n,
    decreases n,
{
    if n < 10 {
        lemma_digit_char(n);
        assert(decimal(n).drop_last() =~= Seq::<char>::empty());
        assert(decimal(n).last() == digit_char(n));
        assert(digits_value(Seq::<char>::empty()) == 0);
        assert(digits_value(decimal(n)) == n);
    } else {
        lemma_decimal(n / 10);
        lemma_digit_char(n % 10);
        let prev = decimal(n / 10);
        assert(decimal(n).drop_last() =~= prev);
        assert(decimal(n).last() == digit_char(n % 10));
        assert(digits_value(decimal(n)) == digits_value(prev) * 10 + n % 10);
        assert((n / 10) * 10 + n % 10 == n) by (nonlinear_arith);
        assert(digits_value(decimal(n)) == n);
        assert forall|j: int| 0 <= j < decimal(n).len() implies is_ascii_digit(#[trigger] decimal(n)[j]) by {
            if j < prev.len() {
                assert(decimal(n)[j] == prev[j]);
            }
        }
    }
}

proof fn lemma_face_letter(f: FaceKey)
    ensures
        !is_decimal_digit(face_letter(f)),
        is_face_letter(face_letter(f)),
        face_of_letter(face_letter(f)) == f,
        !is_decimal_digit(face_letter_lower(f)),
        is_face_letter(face_letter_lower(f)),
        face_of_letter(face_letter_lower(f)) == f,
{
}

/// The run of digits that starts at `i` is the `len` characters there, when
/// those are digits and the next character is not one.
proof fn lemma_run_end_at(s: Seq<char>, i: int, len: int)
    requires
        0 <= i,
        0 <= len,
        i + len <= s.len(),
        forall|j: int| i <= j < i + len ==> is_ascii_digit(#[trigger] s[j]),
        i + len < s.len() ==> !is_decimal_digit(s[i + len]),
    ensures
        digit_run_end(s, i) == i + len,
    decreases len,
{
    if len > 0 {
        lemma_run_end_at(s, i + 1, len - 1);
    }
}

/// The text of the pile from card `k` on ends the text of the whole pile.
proof fn lemma_text_suffix(p: Seq<CardPtr>, k: int, style: FaceStyle)
    requires
        0 <= k < p.len(),
    ensures
        pile_text(p, style).len() >= pile_text_from(p, k, style).len(),
        pile_text(p, style).subrange(
            pile_text(p, style).len() - pile_text_from(p, k, style).len(),
            pile_text(p, style).len() as int,
        ) == pile_text_from(p, k, style),
    decreases k,
{
    if k > 0 {
        lemma_text_suffix(p, k - 1, style);
        let whole = pile_text(p, style);
        let prev = pile_text_from(p, k - 1, style);
        let cur = pile_text_from(p, k, style);
        assert(prev == card_text_styled(p[k - 1], style) + seq![' '] + cur);
        assert(whole.subrange(whole.len() - cur.len(), whole.len() as int) =~= prev.subrange(
            prev.len() - cur.len(),
            prev.len() as int,
        ));
        assert(prev.subrange(prev.len() - cur.len(), prev.len() as int) =~= cur);
    } else {
        assert(pile_text(p, style).subrange(0, pile_text(p, style).len() as int) =~= pile_text(p, style));
    }
}

/// The card that the text of card `c` reads as.
pub open spec fn card_read_back(c: CardPtr, style: FaceStyle) -> CardPtr {
    match style {
        FaceStyle::Omitted => CardPtr { card_id: c.card_id, key: FaceKey::A },
        _ => c,
    }
}

/// Reading from card `k` on, after the cards before it, gives the pile.
proof fn lemma_parse_from(cards: CardDefs, p: Seq<CardPtr>, k: int, style: FaceStyle)
    requires
        cards.wf(),
        1 <= p.len() <= MAX_PILE_LEN,
        pile_valid(cards, p),
        0 <= k < p.len(),
    ensures
        spec_parse_pile(
            cards,
            pile_text(p, style),
            pile_text(p, style).len() - pile_text_from(p, k, style).len(),
            read_back(p, style).subrange(0, k),
        ) == Some(Ok::<Seq<CardPtr>, Seq<char>>(read_back(p, style))),
    decreases p.len() - k,
{
    let s = pile_text(p, style);
    let rest = pile_text_from(p, k, style);
    let i = s.len() - rest.len();
    let out = read_back(p, style);
    lemma_text_suffix(p, k, style);
    let c = p[k];
    let text = card_text_styled(c, style);
    let digits = decimal(c.card_id as nat);
    lemma_decimal(c.card_id as nat);
    lemma_face_letter(c.key);
    let dl = digits.len() as int;
    let tl = text.len() as int;
    assert(tl == if style is Omitted {
        dl
    } else {
        dl + 1
    });
    assert forall|j: int| 0 <= j < tl implies #[trigger] text[j] == (if j < dl {
        digits[j]
    } else {
        text[j]
    }) by {}
    assert forall|j: int| 0 <= j < dl implies #[trigger] text[j] == digits[j] by {}
    assert(rest.len() >= tl) by {
        if k < p.len() - 1 {
            assert(rest == text + seq![' '] + pile_text_from(p, k + 1, style));
        }
    }
    assert forall|j: int| 0 <= j < rest.len() implies s[i + j] == #[trigger] rest[j] by {
        assert(s.subrange(i, s.len() as int)[j] == s[i + j]);
    }
    assert forall|j: int| 0 <= j < tl implies #[trigger] rest[j] == text[j] by {
        if k < p.len() - 1 {
            assert(rest == text + seq![' '] + pile_text_from(p, k + 1, style));
        }
    }
    if k < p.len() - 1 {
        assert(rest == text + seq![' '] + pile_text_from(p, k + 1, style));
        assert(rest[tl] == ' ');
    } else {
        assert(rest == text);
    }
    assert forall|j: int| i <= j < i + dl implies is_ascii_digit(#[trigger] s[j]) by {
        assert(s[j] == rest[j - i]);
        assert(text[j - i] == digits[j - i]);
    }
    assert(i + dl < s.len() ==> !is_decimal_digit(s[i + dl])) by {
        if i + dl < s.len() {
            assert(s[i + dl] == rest[dl]);
        }
    }
    lemma_run_end_at(s, i, dl);
    assert(s.subrange(i, digit_run_end(s, i)) =~= digits) by {
        assert forall|j: int| 0 <= j < dl implies s.subrange(i, i + dl)[j] == digits[j] by {
            assert(s[i + j] == rest[j]);
        }
    }
    assert(token_value(s, i) == c.card_id as nat);
    match style {
        FaceStyle::Omitted => {
            assert(!token_has_letter(s, i)) by {
                if i + dl < s.len() {
                    assert(s[i + dl] == rest[dl]);
                    assert(rest[dl] == ' ');
                }
            }
            assert(token_end(s, i) == i + dl);
        },
        FaceStyle::Upper => {
            assert(s[i + dl] == rest[dl]);
            assert(token_has_letter(s, i));
            assert(token_end(s, i) == i + dl + 1);
        },
        FaceStyle::Lower => {
            assert(s[i + dl] == rest[dl]);
            assert(token_has_letter(s, i));
            assert(token_end(s, i) == i + dl + 1);
        },
    }
    assert(token_end(s, i) == i + tl);
    assert(token_key(s, i) == card_read_back(c, style).key);
    assert(out[k] == card_read_back(c, style));
    assert(cards.has_card(p[k].card_id as int));
    assert((c.card_id as int) < CARDS_SIZE);
    assert(token_card(cards, s, i) == Some(Ok::<CardPtr, Seq<char>>(out[k])));
    assert(is_decimal_digit(s[i])) by {
        assert(s[i] == rest[0]);
    }
    let acc = out.subrange(0, k);
    assert(acc.push(out[k]) =~= out.subrange(0, k + 1));
    assert(out.len() == p.len());
    if k == p.len() - 1 {
        assert(out.subrange(0, k + 1) =~= out);
        if acc.len() + 1 < MAX_PILE_LEN {
            assert(token_end(s, i) == s.len());
        }
    } else {
        let next = pile_text_from(p, k + 1, style);
        assert(acc.len() + 1 < MAX_PILE_LEN);
        assert(s.len() - next.len() == i + tl + 1);
        assert(s[i + tl] == ' ') by {
            assert(s[i + tl] == rest[tl]);
        }
        lemma_parse_from(cards, p, k + 1, style);
        assert(spec_parse_pile(cards, s, i + tl, acc.push(out[k])) == spec_parse_pile(
            cards,
            s,
            i + tl + 1,
            acc.push(out[k]),
        ));
    }
}

/// Writing a pile of one to twelve cards of the card table as text, each
/// card as its id followed by its face letter in either case, or by no
/// letter at all, with spaces between cards, and reading the text back gives
/// the same pile; where the letters were left out, every card reads as face
/// `A`.
pub proof fn lemma_pile_text_round_trip(cards: CardDefs, p: Seq<CardPtr>, style: FaceStyle)
    requires
        cards.wf(),
        1 <= p.len() <= MAX_PILE_LEN,
        pile_valid(cards, p),
    ensures
        spec_parse_pile(cards, pile_text(p, style), 0, Seq::empty()) == Some(
            Ok::<Seq<CardPtr>, Seq<char>>(read_back(p, style)),
        ),
{
    lemma_parse_from(cards, p, 0, style);
    lemma_text_suffix(p, 0, style);
    assert(read_back(p, style).subrange(0, 0) =~= Seq::<CardPtr>::empty());
}

} // verus!
