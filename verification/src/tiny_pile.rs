//! A compact form of a nine-card pile: the order of its cards as one number
//! below 9!, and the faces packed two bits each into three bytes.
use vstd::prelude::*;
use crate::permutation::{
    factorial, is_perm_of, lemma_decode_encode, lemma_encode_decode, lemma_factorial_positive,
    lemma_swap_remove, spec_decode, spec_encode, swap_remove,
};
use crate::card_ptr::CardPtr;
use crate::pile::{pile_cards, pile_clone, pile_get, pile_len, pile_new, pile_push, Pile};
use crate::pile_mapping::{lemma_distinct_id_index, lemma_mappings_in_range, spec_id_index, spec_mappings, PileMappings};
use crate::primitives::{CardId, FaceKey};

verus! {

/// The number of cards of a pile that the compact form holds.
pub const TINY_PILE_LEN: usize = 9;

/// The positions 0 to 8, in order.
pub open spec fn identity_order() -> Seq<usize> {
    Seq::new(9, |i: int| i as usize)
}

/// The identity ordering lists each position once.
pub proof fn lemma_identity_order_no_duplicates()
    ensures
        identity_order().no_duplicates(),
        identity_order().len() == 9,
        forall|x: usize| identity_order().contains(x) <==> x < 9,
{
    assert forall|x: usize| identity_order().contains(x) <==> x < 9 by {
        if x < 9 {
            assert(identity_order()[x as int] == x);
        }
    }
}

/// `9!` is 362880, which fits in a `u32`.
pub proof fn lemma_factorial_9()
    ensures
        factorial(9) == 362880,
{
    assert(factorial(0) == 1);
    assert(factorial(1) == 1);
    assert(factorial(2) == 2);
    assert(factorial(3) == 6);
    assert(factorial(4) == 24);
    assert(factorial(5) == 120);
    assert(factorial(6) == 720);
    assert(factorial(7) == 5040);
    assert(factorial(8) == 40320);
    assert(factorial(9) == 362880);
}

/// The product of the first `i` of 9, 8, 7, ...
pub open spec fn falling(i: nat) -> nat
    decreases i,
{
    if i == 0 {
        1
    } else {
        falling((i - 1) as nat) * (9 - (i - 1)) as nat
    }
}

proof fn lemma_falling(i: nat)
    requires
        i <= 9,
    ensures
        falling(i) * factorial((9 - i) as nat) == factorial(9),
        falling(i) >= 1,
        falling(i) <= factorial(9),
    decreases i,
{
    lemma_factorial_positive(9);
    if i == 0 {
        assert(falling(0) == 1);
    }
    if i > 0 {
        lemma_falling((i - 1) as nat);
        let a = falling((i - 1) as nat);
        let n = (9 - (i - 1)) as nat;
        assert(factorial(n) == n * factorial((n - 1) as nat));
        assert(falling(i) == a * n);
        assert((9 - i) as nat == (n - 1) as nat);
        assert(falling(i) * factorial((9 - i) as nat) == (a * n) * factorial((n - 1) as nat));
        assert(a * factorial(n) == factorial(9));
        assert(a * (n * factorial((n - 1) as nat)) == (a * n) * factorial((n - 1) as nat)) by (nonlinear_arith);
        lemma_factorial_positive((n - 1) as nat);
        assert(a * n >= 1) by (nonlinear_arith)
            requires
                a >= 1,
                n >= 1,
        ;
        assert(a * n <= (a * n) * factorial((n - 1) as nat)) by (nonlinear_arith)
            requires
                factorial((n - 1) as nat) >= 1,
                a * n >= 1,
        ;
    }
}

/// The ordering of positions 0 to 8 that `number` stands for.
pub fn number_to_ordering(number: u32) -> (r: [usize; 9])
    ensures
        r@ == spec_decode(identity_order(), number as nat),
{
    let mut result: [usize; 9] = [0, 0, 0, 0, 0, 0, 0, 0, 0];
    let mut elems: [usize; 9] = [0, 1, 2, 3, 4, 5, 6, 7, 8];
    assert(elems@ =~= identity_order());
    assert(elems@.subrange(0, 9) =~= elems@);
    assert(result@.subrange(0, 0) =~= Seq::<usize>::empty());
    let mut m = number as usize;
    let mut i: usize = 0;
    while i < 9
        invariant
            i <= 9,
            result@.len() == 9,
            elems@.len() == 9,
            result@.subrange(0, i as int) + spec_decode(elems@.subrange(0, 9 - i), m as nat) == spec_decode(
                identity_order(),
                number as nat,
            ),
        decreases 9 - i,
    {
        let ghost cur = elems@.subrange(0, 9 - i);
        let ghost m0 = m;
        let len = 9 - i;
        let ind = m % len;
        let ghost old_result = result@;
        assert(spec_decode(cur, m as nat) == seq![cur[ind as int]] + spec_decode(
            swap_remove(cur, ind as int),
            (m / len) as nat,
        ));
        result[i] = elems[ind];
        elems[ind] = elems[len - 1];
        m = m / len;
        assert(elems@.subrange(0, 9 - (i + 1)) =~= swap_remove(cur, ind as int));
        assert(result@.subrange(0, i + 1) =~= old_result.subrange(0, i as int).push(cur[ind as int]));
        assert(result@.subrange(0, i + 1) + spec_decode(elems@.subrange(0, 9 - (i + 1)), m as nat)
            =~= old_result.subrange(0, i as int) + spec_decode(cur, m0 as nat));
        i += 1;
    }
    assert(elems@.subrange(0, 0) =~= Seq::<usize>::empty());
    assert(result@.subrange(0, 9) =~= result@);
    result
}

/// The number of an ordering of the positions 0 to 8. Every value must be a
/// position; for an ordering that holds each position once, the number is
/// the one that `number_to_ordering` reads back.
pub fn order_to_number(perm: &[usize; 9]) -> (r: u32)
    requires
        forall|i: int| 0 <= i < 9 ==> perm@[i] < 9,
    ensures
        is_perm_of(perm@, identity_order()) ==> r == spec_encode(identity_order(), perm@),
        is_perm_of(perm@, identity_order()) ==> r < factorial(9),
{
    let ghost is_perm = is_perm_of(perm@, identity_order());
    let mut k: usize = 0;
    let mut m: usize = 1;
    let mut pos: [usize; 9] = [0, 1, 2, 3, 4, 5, 6, 7, 8];
    let mut elems: [usize; 9] = [0, 1, 2, 3, 4, 5, 6, 7, 8];
    proof {
        lemma_identity_order_no_duplicates();
        lemma_falling(0);
        assert(elems@ =~= identity_order());
        assert(elems@.subrange(0, 9) =~= elems@);
        assert(perm@.subrange(0, 9) =~= perm@);
        lemma_factorial_9();
    }
    let mut i: usize = 0;
    while i < 8
        invariant
            i <= 8,
            forall|t: int| 0 <= t < 9 ==> perm@[t] < 9,
            forall|t: int| 0 <= t < 9 ==> #[trigger] pos@[t] < 9,
            forall|t: int| 0 <= t < 9 ==> #[trigger] elems@[t] < 9,
            forall|t: int| 0 <= t < 9 - i ==> pos@[#[trigger] elems@[t] as int] == t,
            m == falling(i as nat),
            m <= 362880,
            k <= 8 * m,
            is_perm == is_perm_of(perm@, identity_order()),
            is_perm ==> is_perm_of(perm@.subrange(i as int, 9), elems@.subrange(0, 9 - i)),
            is_perm ==> k < m,
            is_perm ==> k + m * spec_encode(elems@.subrange(0, 9 - i), perm@.subrange(i as int, 9))
                == spec_encode(identity_order(), perm@),
        decreases 8 - i,
    {
        let ghost cur = elems@.subrange(0, 9 - i);
        let ghost rest = perm@.subrange(i as int, 9);
        let ghost k0 = k;
        let ghost m0 = m;
        let len = 9 - i;
        let p = perm[i];
        let d = pos[p];
        proof {
            lemma_falling(i as nat);
            lemma_falling((i + 1) as nat);
            assert(falling((i + 1) as nat) == m0 * len);
            lemma_factorial_9();
            assert(m0 * d <= 8 * m0) by (nonlinear_arith)
                requires
                    d < 9,
            ;
            if is_perm {
                assert(rest[0] == p);
                assert(rest.contains(p));
                assert(cur.contains(p));
                let t = choose|t: int| 0 <= t < cur.len() && cur[t] == p;
                assert(pos@[elems@[t] as int] == t);
                assert(d == t);
                assert(cur.index_of(p) == d) by {
                    let c = cur.index_of(p);
                    assert(cur[c] == p);
                    assert(cur.no_duplicates());
                };
                lemma_swap_remove(cur, d as int);
                assert(spec_encode(cur, rest) == d + len * spec_encode(swap_remove(cur, d as int), rest.drop_first()));
            }
        }
        k = k + m * d;
        m = m * len;
        let ghost old_elems = elems@;
        let ghost old_pos = pos@;
        let last = elems[len - 1];
        pos[last] = d;
        elems[d] = last;
        proof {
            let new_cur = elems@.subrange(0, 9 - (i + 1));
            if is_perm {
                assert(new_cur =~= swap_remove(cur, d as int));
                assert(perm@.subrange(i + 1, 9) =~= rest.drop_first());
                let e2 = swap_remove(cur, d as int);
                let r2 = rest.drop_first();
                assert forall|a: int, b: int| 0 <= a < r2.len() && 0 <= b < r2.len() && a != b implies r2[a] != r2[b] by {
                    assert(r2[a] == rest[a + 1]);
                    assert(r2[b] == rest[b + 1]);
                }
                assert forall|y: usize| r2.contains(y) <==> e2.contains(y) by {
                    if r2.contains(y) {
                        let a = choose|a: int| 0 <= a < r2.len() && r2[a] == y;
                        assert(rest[a + 1] == y);
                        assert(rest.contains(y));
                        assert(y != p);
                    }
                    if e2.contains(y) {
                        assert(cur.contains(y) && y != p);
                        assert(rest.contains(y));
                        let a = choose|a: int| 0 <= a < rest.len() && rest[a] == y;
                        assert(a != 0);
                        assert(r2[a - 1] == y);
                    }
                }
                let inner = spec_encode(e2, r2);
                assert(k0 + m0 * (d + len * inner) == (k0 + m0 * d) + (m0 * len) * inner) by (nonlinear_arith);
                assert(k0 + m0 * d < m0 * len) by (nonlinear_arith)
                    requires
                        k0 < m0,
                        d < len,
                ;
            }
            assert(m0 * d <= 8 * m0) by (nonlinear_arith)
                requires
                    d < 9,
            ;
            assert(16 * m0 <= 8 * (m0 * len)) by (nonlinear_arith)
                requires
                    len >= 2,
            ;
            assert forall|t: int| 0 <= t < 9 - (i + 1) implies pos@[#[trigger] elems@[t] as int] == t by {
                if t == d {
                } else {
                    assert(elems@[t] == old_elems[t]);
                    if elems@[t] == last {
                        assert(old_elems[t] == old_elems[len - 1]);
                        assert(old_pos[old_elems[t] as int] == t);
                        assert(old_pos[old_elems[len - 1] as int] == len - 1);
                        assert(false);
                    }
                }
            }
        }
        i += 1;
    }
    proof {
        if is_perm {
            let cur = elems@.subrange(0, 1);
            let rest = perm@.subrange(8, 9);
            assert(rest.contains(rest[0]));
            assert(cur.contains(rest[0]));
            assert(cur.index_of(rest[0]) == 0);
            assert(rest.drop_first().len() == 0);
            assert(spec_encode(swap_remove(cur, 0), rest.drop_first()) == 0);
            assert(spec_encode(cur, rest) == 0);
            assert(m * spec_encode(cur, rest) == 0);
            assert(k == spec_encode(identity_order(), perm@));
            lemma_falling(8);
            lemma_factorial_9();
        }
    }
    k as u32
}

/// The two-bit number of a face.
pub open spec fn spec_face_to_u8(face: FaceKey) -> u8 {
    match face {
        FaceKey::A => 0,
        FaceKey::B => 1,
        FaceKey::C => 2,
        FaceKey::D => 3,
    }
}

/// The face of a two-bit number.
pub open spec fn spec_face_from_u8(b: u8) -> FaceKey {
    if b == 0 {
        FaceKey::A
    } else if b == 1 {
        FaceKey::B
    } else if b == 2 {
        FaceKey::C
    } else {
        FaceKey::D
    }
}

/// Four two-bit numbers in one byte, the first in the highest bits.
pub open spec fn spec_pack4(a: u8, b: u8, c: u8, d: u8) -> u8 {
    ((a << 6u8) | (b << 4u8) | (c << 2u8) | d) as u8
}

/// The two-bit field at `index` (0 to 3, from the highest bits) of a byte.
pub open spec fn spec_byte_field(byte: u8, index: int) -> u8 {
    ((byte >> (2 * (3 - index)) as u8) & 3u8) as u8
}

/// The two-bit code of a face: `A` is 0 through `D` is 3.
pub fn face_to_u8(face: FaceKey) -> (r: u8)
    ensures
        r == spec_face_to_u8(face),
        r < 4,
{
    match face {
        FaceKey::A => 0,
        FaceKey::B => 1,
        FaceKey::C => 2,
        FaceKey::D => 3,
    }
}

/// The face stored in the two-bit field at `index` (0 to 3) of a byte.
pub fn face_key_from_byte(byte: u8, index: usize) -> (r: FaceKey)
    requires
        index <= 3,
    ensures
        r == spec_face_from_u8(spec_byte_field(byte, index as int)),
{
    let shift = ((3 - index) * 2) as u8;
    let field = (byte >> shift) & 0b00000011u8;
    assert(field == spec_byte_field(byte, index as int));
    if field == 0 {
        FaceKey::A
    } else if field == 1 {
        FaceKey::B
    } else if field == 2 {
        FaceKey::C
    } else {
        FaceKey::D
    }
}

/// The faces of the first nine cards, two bits each: cards 0 to 3 in the
/// first byte, 4 to 7 in the second, and card 8 in the lowest bits of the
/// third.
pub open spec fn spec_pack_faces(p: Seq<CardPtr>) -> Seq<u8> {
    seq![
        spec_pack4(
            spec_face_to_u8(p[0].key),
            spec_face_to_u8(p[1].key),
            spec_face_to_u8(p[2].key),
            spec_face_to_u8(p[3].key),
        ),
        spec_pack4(
            spec_face_to_u8(p[4].key),
            spec_face_to_u8(p[5].key),
            spec_face_to_u8(p[6].key),
            spec_face_to_u8(p[7].key),
        ),
        spec_face_to_u8(p[8].key),
    ]
}

/// The faces of the first nine cards, two bits each, four to a byte.
pub fn pack_faces_from_pile(pile: &Pile) -> (r: [u8; 3])
    requires
        pile_cards(*pile).len() >= TINY_PILE_LEN,
    ensures
        r@ == spec_pack_faces(pile_cards(*pile)),
{
    let f0 = face_to_u8(pile_get(pile, 0).get_card_face());
    let f1 = face_to_u8(pile_get(pile, 1).get_card_face());
    let f2 = face_to_u8(pile_get(pile, 2).get_card_face());
    let f3 = face_to_u8(pile_get(pile, 3).get_card_face());
    let f4 = face_to_u8(pile_get(pile, 4).get_card_face());
    let f5 = face_to_u8(pile_get(pile, 5).get_card_face());
    let f6 = face_to_u8(pile_get(pile, 6).get_card_face());
    let f7 = face_to_u8(pile_get(pile, 7).get_card_face());
    let f8 = face_to_u8(pile_get(pile, 8).get_card_face());
    let first: u8 = (f0 << 6u8) | (f1 << 4u8) | (f2 << 2u8) | f3;
    let second: u8 = (f4 << 6u8) | (f5 << 4u8) | (f6 << 2u8) | f7;
    let third: u8 = f8;
    let r = [first, second, third];
    assert(r@ =~= spec_pack_faces(pile_cards(*pile)));
    r
}

/// The fields of a packed byte are the numbers packed into it, and a byte
/// is the packing of its fields.
pub proof fn lemma_pack4_fields(a: u8, b: u8, c: u8, d: u8)
    requires
        a < 4,
        b < 4,
        c < 4,
        d < 4,
    ensures
        spec_byte_field(spec_pack4(a, b, c, d), 0) == a,
        spec_byte_field(spec_pack4(a, b, c, d), 1) == b,
        spec_byte_field(spec_pack4(a, b, c, d), 2) == c,
        spec_byte_field(spec_pack4(a, b, c, d), 3) == d,
{
    assert(((((a << 6u8) | (b << 4u8) | (c << 2u8) | d) as u8 >> 6u8) & 3u8) == a) by (bit_vector)
        requires
            a < 4,
            b < 4,
            c < 4,
            d < 4,
    ;
    assert(((((a << 6u8) | (b << 4u8) | (c << 2u8) | d) as u8 >> 4u8) & 3u8) == b) by (bit_vector)
        requires
            a < 4,
            b < 4,
            c < 4,
            d < 4,
    ;
    assert(((((a << 6u8) | (b << 4u8) | (c << 2u8) | d) as u8 >> 2u8) & 3u8) == c) by (bit_vector)
        requires
            a < 4,
            b < 4,
            c < 4,
            d < 4,
    ;
    assert(((((a << 6u8) | (b << 4u8) | (c << 2u8) | d) as u8 >> 0u8) & 3u8) == d) by (bit_vector)
        requires
            a < 4,
            b < 4,
            c < 4,
            d < 4,
    ;
}

/// A byte is the four two-bit fields it packs.
pub proof fn lemma_fields_pack4(x: u8)
    ensures
        spec_pack4(
            spec_byte_field(x, 0),
            spec_byte_field(x, 1),
            spec_byte_field(x, 2),
            spec_byte_field(x, 3),
        ) == x,
        spec_byte_field(x, 0) < 4,
        spec_byte_field(x, 1) < 4,
        spec_byte_field(x, 2) < 4,
        spec_byte_field(x, 3) < 4,
{
    assert(((((((x >> 6u8) & 3u8) as u8) << 6u8) | ((((x >> 4u8) & 3u8) as u8) << 4u8) | ((((x >> 2u8)
        & 3u8) as u8) << 2u8) | (((x >> 0u8) & 3u8) as u8)) as u8) == x) by (bit_vector);
    assert(((x >> 6u8) & 3u8) < 4 && ((x >> 4u8) & 3u8) < 4 && ((x >> 2u8) & 3u8) < 4 && ((x >> 0u8)
        & 3u8) < 4) by (bit_vector);
}

/// Reading a face back from its code gives the face.
pub proof fn lemma_face_u8_round_trip(f: FaceKey, b: u8)
    ensures
        spec_face_from_u8(spec_face_to_u8(f)) == f,
        b < 4 ==> spec_face_to_u8(spec_face_from_u8(b)) == b,
{
}

/// Packs the faces of a pile, and reads piles back, for piles that hold the
/// cards of one starting pile in any order.
pub struct TinyPileConverter {
    pile_mappings: PileMappings,
}

/// The compact form of a pile.
#[derive(Copy, Clone, Debug, PartialEq, Eq, Hash, PartialOrd, Ord)]
pub struct TinyPile {
    pub pile_key: u32,
    pub faces: [u8; 3],
}

/// The positions that the numbering gives the first nine cards of a pile.
pub open spec fn spec_order(m: (Seq<usize>, Seq<CardId>), p: Seq<CardPtr>) -> Seq<usize> {
    Seq::new(9, |k: int| m.0[p[k].card_id as int])
}

/// The compact form of a pile whose order is an ordering of 0 to 8.
pub open spec fn spec_pile_to_tiny(m: (Seq<usize>, Seq<CardId>), p: Seq<CardPtr>) -> (u32, Seq<u8>) {
    (spec_encode(identity_order(), spec_order(m, p)) as u32, spec_pack_faces(p))
}

/// The face of card `k` (0 to 8) in packed faces.
pub open spec fn spec_unpacked_face(faces: Seq<u8>, k: int) -> FaceKey {
    if k < 8 {
        spec_face_from_u8(spec_byte_field(faces[k / 4], k % 4))
    } else {
        spec_face_from_u8(spec_byte_field(faces[2], 3))
    }
}

/// The pile that a compact form stands for.
pub open spec fn spec_tiny_to_pile(m: (Seq<usize>, Seq<CardId>), key: u32, faces: Seq<u8>) -> Seq<CardPtr> {
    Seq::new(
        9,
        |k: int|
            CardPtr {
                card_id: m.1[spec_decode(identity_order(), key as nat)[k] as int],
                key: spec_unpacked_face(faces, k),
            },
    )
}

impl View for TinyPileConverter {
    type V = (Seq<usize>, Seq<CardId>);

    closed spec fn view(&self) -> (Seq<usize>, Seq<CardId>) {
        self.pile_mappings@
    }
}

impl TinyPileConverter {
    /// The converter for piles that hold the cards of `pile`, of one to
    /// nine cards.
    pub fn new_from_pile(pile: &Pile) -> (r: Self)
        requires
            0 < pile_cards(*pile).len() <= TINY_PILE_LEN,
        ensures
            r@ == spec_mappings(pile_cards(*pile)),
    {
        Self { pile_mappings: PileMappings::new(pile) }
    }

    /// The positions of the first nine cards in the starting pile.
    pub fn pile_to_order(&self, pile: &Pile) -> (r: [usize; 9])
        requires
            pile_cards(*pile).len() >= TINY_PILE_LEN,
            forall|k: int| 0 <= k < 9 ==> (pile_cards(*pile)[k].card_id as int) < self@.0.len(),
        ensures
            r@ == spec_order(self@, pile_cards(*pile)),
    {
        let r = [
            self.pile_mappings.index(pile_get(pile, 0).get_card_id()),
            self.pile_mappings.index(pile_get(pile, 1).get_card_id()),
            self.pile_mappings.index(pile_get(pile, 2).get_card_id()),
            self.pile_mappings.index(pile_get(pile, 3).get_card_id()),
            self.pile_mappings.index(pile_get(pile, 4).get_card_id()),
            self.pile_mappings.index(pile_get(pile, 5).get_card_id()),
            self.pile_mappings.index(pile_get(pile, 6).get_card_id()),
            self.pile_mappings.index(pile_get(pile, 7).get_card_id()),
            self.pile_mappings.index(pile_get(pile, 8).get_card_id()),
        ];
        assert(r@ =~= spec_order(self@, pile_cards(*pile)));
        r
    }

    /// The card id at a position of the starting pile.
    pub fn index_to_card_id(&self, index: usize) -> (r: CardId)
        requires
            index < self@.1.len(),
        ensures
            r == self@.1[index as int],
    {
        self.pile_mappings.card_id(index)
    }

    /// The compact form of a nine-card pile of the starting pile's cards.
    pub fn pile_to_tiny_pile(&self, pile: &Pile) -> (r: TinyPile)
        requires
            pile_cards(*pile).len() >= TINY_PILE_LEN,
            forall|k: int| 0 <= k < 9 ==> (pile_cards(*pile)[k].card_id as int) < self@.0.len(),
            forall|k: int| 0 <= k < 9 ==> self@.0[#[trigger] pile_cards(*pile)[k].card_id as int] < 9,
        ensures
            r.faces@ == spec_pack_faces(pile_cards(*pile)),
            is_perm_of(spec_order(self@, pile_cards(*pile)), identity_order()) ==> r.pile_key
                == spec_pile_to_tiny(self@, pile_cards(*pile)).0,
    {
        let order = self.pile_to_order(pile);
        TinyPile { pile_key: order_to_number(&order), faces: pack_faces_from_pile(pile) }
    }

    /// The pile that a compact form stands for; the converter must have been
    /// made from nine cards.
    pub fn tiny_pile_to_pile(&self, tiny_pile: &TinyPile) -> (r: Pile)
        requires
            self@.1.len() == TINY_PILE_LEN,
        ensures
            pile_cards(r) == spec_tiny_to_pile(self@, tiny_pile.pile_key, tiny_pile.faces@),
    {
        let ordering = number_to_ordering(tiny_pile.pile_key);
        proof {
            lemma_identity_order_no_duplicates();
            lemma_decode_in_range(tiny_pile.pile_key as nat);
        }
        let ghost expected = spec_tiny_to_pile(self@, tiny_pile.pile_key, tiny_pile.faces@);
        let mut result = pile_new();
        let mut k: usize = 0;
        while k < 9
            invariant
                k <= 9,
                self@.1.len() == TINY_PILE_LEN,
                ordering@ == spec_decode(identity_order(), tiny_pile.pile_key as nat),
                forall|t: int| 0 <= t < 9 ==> #[trigger] ordering@[t] < 9,
                expected == spec_tiny_to_pile(self@, tiny_pile.pile_key, tiny_pile.faces@),
                pile_cards(result) == expected.subrange(0, k as int),
            decreases 9 - k,
        {
            let (byte, index) = if k < 8 {
                (tiny_pile.faces[k / 4], k % 4)
            } else {
                (tiny_pile.faces[2], 3)
            };
            let card = CardPtr::new_from_id(
                self.index_to_card_id(ordering[k]),
                face_key_from_byte(byte, index),
            );
            assert(card == expected[k as int]);
            pile_push(&mut result, card);
            assert(pile_cards(result) =~= expected.subrange(0, k + 1));
            k += 1;
        }
        assert(expected.subrange(0, 9) =~= expected);
        result
    }
}

/// Every value of a decoded ordering is a position from 0 to 8.
proof fn lemma_decode_in_range(m: nat)
    ensures
        spec_decode(identity_order(), m).len() == 9,
        forall|t: int| 0 <= t < 9 ==> #[trigger] spec_decode(identity_order(), m)[t] < 9,
{
    lemma_identity_order_no_duplicates();
    lemma_decode_members(identity_order(), m);
}

proof fn lemma_decode_members(e: Seq<usize>, m: nat)
    requires
        e.no_duplicates(),
    ensures
        spec_decode(e, m).len() == e.len(),
        forall|t: int| 0 <= t < e.len() ==> e.contains(#[trigger] spec_decode(e, m)[t]),
    decreases e.len(),
{
    if e.len() > 0 {
        let j = (m % e.len()) as int;
        lemma_swap_remove(e, j);
        lemma_decode_members(swap_remove(e, j), m / e.len());
        let d = spec_decode(e, m);
        let rest = spec_decode(swap_remove(e, j), m / e.len());
        assert forall|t: int| 0 <= t < e.len() implies e.contains(#[trigger] d[t]) by {
            if t == 0 {
                assert(d[0] == e[j]);
            } else {
                assert(d[t] == rest[t - 1]);
                assert(swap_remove(e, j).contains(rest[t - 1]));
            }
        }
    }
}

/// Decoding the number of an ordering of 0 to 8 gives it back.
pub proof fn lemma_number_round_trip(perm: Seq<usize>)
    requires
        is_perm_of(perm, identity_order()),
    ensures
        spec_decode(identity_order(), spec_encode(identity_order(), perm)) == perm,
        spec_encode(identity_order(), perm) < factorial(9),
{
    lemma_decode_encode(identity_order(), perm);
}

/// Encoding the ordering that a number below 9! stands for gives the number
/// back; the ordering holds each position from 0 to 8 once.
pub proof fn lemma_ordering_round_trip(number: nat)
    requires
        number < factorial(9),
    ensures
        spec_encode(identity_order(), spec_decode(identity_order(), number)) == number,
        is_perm_of(spec_decode(identity_order(), number), identity_order()),
{
    lemma_identity_order_no_duplicates();
    lemma_encode_decode(identity_order(), number);
}

/// The nine cards of `base` have distinct ids.
pub open spec fn distinct_ids(base: Seq<CardPtr>) -> bool {
    &&& base.len() == 9
    &&& forall|a: int, b: int| 0 <= a < 9 && 0 <= b < 9 && a != b ==> base[a].card_id != base[b].card_id
}

/// The first nine cards of `p` are the cards of `base`, each once, in any
/// order and with any faces up.
pub open spec fn holds_cards_of(p: Seq<CardPtr>, base: Seq<CardPtr>) -> bool {
    &&& p.len() >= 9
    &&& forall|a: int, b: int| 0 <= a < 9 && 0 <= b < 9 && a != b ==> p[a].card_id != p[b].card_id
    &&& forall|k: int| 0 <= k < 9 ==> exists|j: int| 0 <= j < 9 && base[j].card_id == #[trigger] p[k].card_id
    &&& forall|j: int| 0 <= j < 9 ==> exists|k: int| 0 <= k < 9 && #[trigger] base[j].card_id == p[k].card_id
}

proof fn lemma_field_of_small(x: u8)
    requires
        x < 4,
    ensures
        spec_byte_field(x, 3) == x,
{
    assert(((x >> 0u8) & 3u8) == x) by (bit_vector)
        requires
            x < 4,
    ;
}

/// Reading back the compact form of a pile that holds the cards of the
/// converter's starting pile gives the pile's first nine cards.
pub proof fn lemma_tiny_pile_round_trip(base: Seq<CardPtr>, p: Seq<CardPtr>)
    requires
        distinct_ids(base),
        holds_cards_of(p, base),
    ensures
        is_perm_of(spec_order(spec_mappings(base), p), identity_order()),
        spec_tiny_to_pile(
            spec_mappings(base),
            spec_pile_to_tiny(spec_mappings(base), p).0,
            spec_pile_to_tiny(spec_mappings(base), p).1,
        ) == p.subrange(0, 9),
{
    let m = spec_mappings(base);
    let order = spec_order(m, p);
    lemma_mappings_in_range(base);
    lemma_identity_order_no_duplicates();
    assert forall|k: int| 0 <= k < 9 implies base[#[trigger] order[k] as int].card_id == p[k].card_id
        && order[k] < 9 by {
        let j = choose|j: int| 0 <= j < 9 && base[j].card_id == p[k].card_id;
        lemma_distinct_id_index(base, j, 9);
        assert(order[k] == spec_id_index(base, p[k].card_id as int, 9));
    }
    assert forall|a: int, b: int| 0 <= a < order.len() && 0 <= b < order.len() && a != b implies order[a]
        != order[b] by {
        assert(base[order[a] as int].card_id == p[a].card_id);
        assert(base[order[b] as int].card_id == p[b].card_id);
    }
    assert forall|x: usize| order.contains(x) <==> identity_order().contains(x) by {
        if x < 9 {
            let k = choose|k: int| 0 <= k < 9 && #[trigger] base[x as int].card_id == p[k].card_id;
            assert(base[order[k] as int].card_id == p[k].card_id);
            assert(order[k] == x);
        }
    }
    lemma_number_round_trip(order);
    lemma_factorial_9();
    let key = spec_encode(identity_order(), order);
    assert((key as u32) as nat == key);
    let faces = spec_pack_faces(p);
    let r = spec_tiny_to_pile(m, key as u32, faces);
    assert forall|k: int| 0 <= k < 9 implies #[trigger] r[k] == p[k] by {
        assert(r[k].card_id == m.1[order[k] as int]);
        assert(m.1[order[k] as int] == base[order[k] as int].card_id);
        if k < 4 {
            lemma_pack4_fields(
                spec_face_to_u8(p[0].key),
                spec_face_to_u8(p[1].key),
                spec_face_to_u8(p[2].key),
                spec_face_to_u8(p[3].key),
            );
            lemma_face_u8_round_trip(p[k].key, 0);
        } else if k < 8 {
            lemma_pack4_fields(
                spec_face_to_u8(p[4].key),
                spec_face_to_u8(p[5].key),
                spec_face_to_u8(p[6].key),
                spec_face_to_u8(p[7].key),
            );
            lemma_face_u8_round_trip(p[k].key, 0);
        } else {
            lemma_field_of_small(spec_face_to_u8(p[8].key));
            lemma_face_u8_round_trip(p[8].key, 0);
        }
    }
    assert(r =~= p.subrange(0, 9));
}

/// The compact form of the pile that a compact form stands for is that
/// compact form, for a number below 9! and faces whose last byte uses only
/// its two lowest bits.
#[verifier::spinoff_prover]
#[verifier::rlimit(40)]
pub proof fn lemma_pile_tiny_round_trip(base: Seq<CardPtr>, key: u32, faces: Seq<u8>)
    requires
        distinct_ids(base),
        key < factorial(9),
        faces.len() == 3,
        faces[2] < 4,
    ensures
        is_perm_of(
            spec_order(spec_mappings(base), spec_tiny_to_pile(spec_mappings(base), key, faces)),
            identity_order(),
        ),
        spec_pile_to_tiny(spec_mappings(base), spec_tiny_to_pile(spec_mappings(base), key, faces)) == (
        key,
        faces,
        ),
{
    let m = spec_mappings(base);
    let p = spec_tiny_to_pile(m, key, faces);
    let d = spec_decode(identity_order(), key as nat);
    lemma_mappings_in_range(base);
    lemma_ordering_round_trip(key as nat);
    lemma_decode_in_range(key as nat);
    let order = spec_order(m, p);
    assert forall|k: int| 0 <= k < 9 implies #[trigger] order[k] == d[k] by {
        assert(p[k].card_id == base[d[k] as int].card_id);
        lemma_distinct_id_index(base, d[k] as int, 9);
    }
    assert(order =~= d);
    lemma_fields_pack4(faces[0]);
    lemma_fields_pack4(faces[1]);
    lemma_field_of_small(faces[2]);
    assert forall|k: int| 0 <= k < 9 implies spec_face_to_u8(#[trigger] p[k].key) == (if k < 8 {
        spec_byte_field(faces[k / 4], k % 4)
    } else {
        spec_byte_field(faces[2], 3)
    }) by {
        if k < 8 {
            lemma_face_u8_round_trip(FaceKey::A, spec_byte_field(faces[k / 4], k % 4));
        } else {
            lemma_face_u8_round_trip(FaceKey::A, spec_byte_field(faces[2], 3));
        }
    }
    assert(spec_pack_faces(p) =~= faces);
}


/// What a search may store in place of a pile: ordered, comparable and
/// copyable values.
pub trait StorablePileT: Ord + Eq + Clone {
}

impl StorablePileT for TinyPile {
}

/// Stores piles as they are.
#[derive(Copy, Clone, Debug, PartialEq, Eq, Structural)]
pub struct NoopPileStorageConverter {}

impl NoopPileStorageConverter {
    /// The converter; it needs nothing from the pile.
    pub fn new_from_pile(_pile: &Pile) -> (r: Self)
        ensures
            r == (NoopPileStorageConverter {}),
    {
        NoopPileStorageConverter {}
    }

    /// The stored form of a pile: a copy of it.
    pub fn pile_to_tiny_pile(&self, pile: &Pile) -> (r: Pile)
        ensures
            pile_cards(r) == pile_cards(*pile),
    {
        pile_clone(pile)
    }

    /// The pile that a stored form stands for: a copy of it.
    pub fn tiny_pile_to_pile(&self, pile: &Pile) -> (r: Pile)
        ensures
            pile_cards(r) == pile_cards(*pile),
    {
        pile_clone(pile)
    }
}

} // verus!
