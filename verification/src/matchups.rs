//! Matchups of a hero class against a baddie class: finding them in piles
//! and class lists, reading and printing them, and the file names and
//! training settings that belong to each.
use vstd::prelude::*;
use vstd::string::*;
use crate::card_defs::{class_ids_below, CardDefs, CARDS_SIZE};
use crate::card_ptr::CardPtr;
use crate::class_names::{
    class_arg_name, class_debug_name, class_debug_str, class_from_str, lemma_class_arg_name_round_trip,
    spec_class_from_str,
};
use crate::pile::{pile_cards, pile_get, pile_len, Pile};
use crate::primitives::MAX_PILE_LEN;
use crate::pile_utils::pile_valid;
use crate::primitives::{CardId, Class};

verus! {

/// A hero class and the baddie class it plays against.
pub type Matchup = (Class, Class);

/// An element is in the first `i + 1` items exactly when it is in the first
/// `i` items or is item `i`.
pub proof fn lemma_prefix_contains<A>(s: Seq<A>, i: int, x: A)
    requires
        0 <= i < s.len(),
    ensures
        s.subrange(0, i + 1).contains(x) <==> (s.subrange(0, i).contains(x) || x == s[i]),
{
    assert(s.subrange(0, i + 1) =~= s.subrange(0, i).push(s[i]));
    if s.subrange(0, i + 1).contains(x) {
        let k = choose|k: int| 0 <= k < i + 1 && #[trigger] s.subrange(0, i + 1)[k] == x;
        if k < i {
            assert(s.subrange(0, i)[k] == x);
        }
    }
    if s.subrange(0, i).contains(x) {
        let k = choose|k: int| 0 <= k < i && #[trigger] s.subrange(0, i)[k] == x;
        assert(s.subrange(0, i + 1)[k] == x);
    }
    if x == s[i] {
        assert(s.subrange(0, i + 1)[i] == x);
    }
}

/// The hero classes that the solver plays: the five of the base game.
pub open spec fn spec_solver_heros() -> Seq<Class> {
    seq![Class::Warrior, Class::Huntress, Class::Pyro, Class::Cursed, Class::Beastmaster]
}

/// The baddie classes that the solver plays: the five of the base game.
pub open spec fn spec_solver_baddies() -> Seq<Class> {
    seq![Class::Ogre, Class::Vampire, Class::Spider, Class::Demon, Class::Flora]
}

/// The class is one of the solver's hero classes.
pub open spec fn spec_is_solver_hero(c: Class) -> bool {
    c == Class::Warrior || c == Class::Huntress || c == Class::Pyro || c == Class::Cursed
        || c == Class::Beastmaster
}

/// The class is one of the solver's baddie classes.
pub open spec fn spec_is_solver_baddie(c: Class) -> bool {
    c == Class::Ogre || c == Class::Vampire || c == Class::Spider || c == Class::Demon || c == Class::Flora
}

/// The solver's lists hold exactly their classes, and no class is in both.
pub proof fn lemma_solver_lists(c: Class)
    ensures
        spec_solver_heros().contains(c) <==> spec_is_solver_hero(c),
        spec_solver_baddies().contains(c) <==> spec_is_solver_baddie(c),
        !(spec_is_solver_hero(c) && spec_is_solver_baddie(c)),
{
    let h = spec_solver_heros();
    let b = spec_solver_baddies();
    assert(h[0] == Class::Warrior && h[1] == Class::Huntress && h[2] == Class::Pyro && h[3] == Class::Cursed
        && h[4] == Class::Beastmaster);
    assert(b[0] == Class::Ogre && b[1] == Class::Vampire && b[2] == Class::Spider && b[3] == Class::Demon
        && b[4] == Class::Flora);
}

/// The solver's hero classes.
pub fn solver_heros() -> (r: Vec<Class>)
    ensures
        r@ == spec_solver_heros(),
{
    vec![Class::Warrior, Class::Huntress, Class::Pyro, Class::Cursed, Class::Beastmaster]
}

/// The solver's baddie classes.
pub fn solver_baddies() -> (r: Vec<Class>)
    ensures
        r@ == spec_solver_baddies(),
{
    vec![Class::Ogre, Class::Vampire, Class::Spider, Class::Demon, Class::Flora]
}

/// Whether the class is one of the solver's hero classes.
pub fn is_hero_class(class: Class) -> (r: bool)
    ensures
        r == spec_solver_heros().contains(class),
        r == spec_is_solver_hero(class),
{
    proof {
        lemma_solver_lists(class);
    }
    let list = solver_heros();
    list_contains(list.as_slice(), class)
}

/// Whether the list holds the class.
pub fn list_contains(list: &[Class], class: Class) -> (r: bool)
    ensures
        r == list@.contains(class),
{
    let mut i: usize = 0;
    while i < list.len()
        invariant
            i <= list@.len(),
            forall|j: int| 0 <= j < i ==> list@[j] != class,
        decreases list@.len() - i,
    {
        if list[i] == class {
            return true;
        }
        i += 1;
    }
    false
}

/// The first class of `list` that `targets` holds.
pub open spec fn spec_find_any(list: Seq<Class>, targets: Seq<Class>) -> Option<Class>
    decreases list.len(),
{
    if list.len() == 0 {
        None
    } else if targets.contains(list[0]) {
        Some(list[0])
    } else {
        spec_find_any(list.drop_first(), targets)
    }
}

/// The first class of `list` that `targets` holds, if any.
pub fn find_any_in_list(list: &[Class], targets: &[Class]) -> (r: Option<Class>)
    ensures
        r == spec_find_any(list@, targets@),
{
    let mut i: usize = 0;
    assert(list@.subrange(0, list@.len() as int) =~= list@);
    while i < list.len()
        invariant
            i <= list@.len(),
            spec_find_any(list@, targets@) == spec_find_any(list@.subrange(i as int, list@.len() as int), targets@),
        decreases list@.len() - i,
    {
        let ghost rest = list@.subrange(i as int, list@.len() as int);
        assert(rest.drop_first() =~= list@.subrange(i + 1, list@.len() as int));
        if list_contains(targets, list[i]) {
            return Some(list[i]);
        }
        i += 1;
    }
    None
}

/// The first hero class and the first baddie class of the list, if it has
/// both.
pub open spec fn spec_matchup_from_classes(classes: Seq<Class>) -> Option<Matchup> {
    match (spec_find_any(classes, spec_solver_heros()), spec_find_any(classes, spec_solver_baddies())) {
        (Some(hero), Some(enemy)) => Some((hero, enemy)),
        _ => None,
    }
}

/// The first hero class and the first baddie class of the list, if it has
/// both.
pub fn try_get_matchup_from_classes(classes: &Vec<Class>) -> (r: Option<Matchup>)
    ensures
        r == spec_matchup_from_classes(classes@),
{
    let hero_list = solver_heros();
    let baddie_list = solver_baddies();
    let maybe_hero = find_any_in_list(classes.as_slice(), hero_list.as_slice());
    let maybe_enemy = find_any_in_list(classes.as_slice(), baddie_list.as_slice());
    match (maybe_hero, maybe_enemy) {
        (Some(hero), Some(enemy)) => Some((hero, enemy)),
        _ => None,
    }
}

/// The classes of the cards of a pile, each once, in order of first
/// appearance.
pub open spec fn spec_classes_of_pile(cards: CardDefs, p: Seq<CardPtr>, n: nat) -> Seq<Class>
    decreases n,
{
    if n == 0 {
        Seq::empty()
    } else {
        let prev = spec_classes_of_pile(cards, p, (n - 1) as nat);
        let c = cards.card(p[n - 1].card_id as int).class;
        if prev.contains(c) {
            prev
        } else {
            prev.push(c)
        }
    }
}

proof fn lemma_classes_of_pile(cards: CardDefs, p: Seq<CardPtr>, n: nat)
    requires
        n <= p.len(),
    ensures
        spec_classes_of_pile(cards, p, n).no_duplicates(),
        forall|c: Class|
            spec_classes_of_pile(cards, p, n).contains(c) <==> exists|i: int|
                0 <= i < n && cards.card(#[trigger] p[i].card_id as int).class == c,
    decreases n,
{
    if n > 0 {
        lemma_classes_of_pile(cards, p, (n - 1) as nat);
        let prev = spec_classes_of_pile(cards, p, (n - 1) as nat);
        let c = cards.card(p[n - 1].card_id as int).class;
        assert forall|x: Class|
            spec_classes_of_pile(cards, p, n).contains(x) <==> exists|i: int|
                0 <= i < n && cards.card(#[trigger] p[i].card_id as int).class == x by {
            if spec_classes_of_pile(cards, p, n).contains(x) {
                if x == c {
                    assert(cards.card(p[n - 1].card_id as int).class == x);
                } else {
                    assert(prev.contains(x));
                }
            }
            if exists|i: int| 0 <= i < n && cards.card(#[trigger] p[i].card_id as int).class == x {
                let i = choose|i: int| 0 <= i < n && cards.card(#[trigger] p[i].card_id as int).class == x;
                if i < n - 1 {
                    assert(prev.contains(x));
                    if !prev.contains(c) {
                        assert(prev.push(c)[prev.index_of(x)] == x);
                    }
                } else {
                    if !prev.contains(c) {
                        assert(prev.push(c)[prev.len() as int] == x);
                    }
                }
            }
        }
    }
}

/// The classes of the cards of a pile, each once.
pub fn get_classes_from_pile(cards: &CardDefs, pile: &Pile) -> (r: Vec<Class>)
    requires
        pile_valid(*cards, pile_cards(*pile)),
    ensures
        r@ == spec_classes_of_pile(*cards, pile_cards(*pile), pile_cards(*pile).len()),
        r@.no_duplicates(),
        r@.len() <= pile_cards(*pile).len(),
        r@.len() <= MAX_PILE_LEN,
        forall|c: Class|
            r@.contains(c) <==> exists|i: int|
                0 <= i < pile_cards(*pile).len() && cards.card(#[trigger] pile_cards(*pile)[i].card_id as int).class == c,
{
    let ghost p = pile_cards(*pile);
    let n = pile_len(pile);
    let mut result: Vec<Class> = Vec::new();
    let mut i: usize = 0;
    while i < n
        invariant
            p == pile_cards(*pile),
            pile_valid(*cards, p),
            n == p.len(),
            i <= n,
            result@ == spec_classes_of_pile(*cards, p, i as nat),
            result@.len() <= i,
        decreases n - i,
    {
        let card = pile_get(pile, i);
        assert(cards.has_card(p[i as int].card_id as int));
        let class = card.get_card_def(cards).class;
        if !list_contains(result.as_slice(), class) {
            result.push(class);
        }
        i += 1;
    }
    proof {
        lemma_classes_of_pile(*cards, p, n as nat);
    }
    result
}

/// The matchup of the classes of a pile, if it has a hero class and a
/// baddie class.
pub fn try_get_matchup_from_pile(cards: &CardDefs, pile: &Pile) -> (r: Option<Matchup>)
    requires
        pile_valid(*cards, pile_cards(*pile)),
    ensures
        r == spec_matchup_from_classes(spec_classes_of_pile(*cards, pile_cards(*pile), pile_cards(*pile).len())),
{
    let classes = get_classes_from_pile(cards, pile);
    try_get_matchup_from_classes(&classes)
}

/// The classes of the list that are (or are not) hero classes, in order.
pub open spec fn split_classes(classes: Seq<Class>, hero: bool) -> Seq<Class> {
    classes.filter(|c: Class| spec_is_solver_hero(c) == hero)
}

/// Every pair of a hero class and a class that is not a hero class, both
/// from the list: heroes in the outer order, the others in the inner one.
pub open spec fn spec_all_matchups(classes: Seq<Class>) -> Seq<Matchup> {
    let hs = split_classes(classes, true);
    let bs = split_classes(classes, false);
    Seq::new(hs.len() * bs.len(), |k: int| (hs[k / bs.len() as int], bs[k % bs.len() as int]))
}

proof fn lemma_split_step(classes: Seq<Class>, i: int, hero: bool)
    requires
        0 <= i < classes.len(),
    ensures
        split_classes(classes.subrange(0, i + 1), hero) == if spec_is_solver_hero(classes[i]) == hero {
            split_classes(classes.subrange(0, i), hero).push(classes[i])
        } else {
            split_classes(classes.subrange(0, i), hero)
        },
{
    reveal_with_fuel(Seq::<_>::filter, 1);
    assert(classes.subrange(0, i + 1).drop_last() =~= classes.subrange(0, i));
}

/// Every matchup of the classes of a pile: see `spec_all_matchups`.
pub fn get_all_matchups_from_pile(cards: &CardDefs, pile: &Pile) -> (r: Vec<Matchup>)
    requires
        pile_valid(*cards, pile_cards(*pile)),
    ensures
        r@ == spec_all_matchups(spec_classes_of_pile(*cards, pile_cards(*pile), pile_cards(*pile).len())),
{
    let classes = get_classes_from_pile(cards, pile);
    let ghost cs = classes@;
    let mut heros_found: Vec<Class> = Vec::new();
    let mut baddies_found: Vec<Class> = Vec::new();
    let mut i: usize = 0;
    while i < classes.len()
        invariant
            cs == classes@,
            i <= cs.len(),
            heros_found@ == split_classes(cs.subrange(0, i as int), true),
            baddies_found@ == split_classes(cs.subrange(0, i as int), false),
            cs.len() <= 12,
        decreases cs.len() - i,
    {
        proof {
            lemma_split_step(cs, i as int, true);
            lemma_split_step(cs, i as int, false);
        }
        let class = classes[i];
        if is_hero_class(class) {
            heros_found.push(class);
        } else {
            baddies_found.push(class);
        }
        i += 1;
    }
    assert(cs.subrange(0, cs.len() as int) =~= cs);
    let ghost hs = heros_found@;
    let ghost bs = baddies_found@;
    let mut result: Vec<Matchup> = Vec::new();
    let mut h: usize = 0;
    while h < heros_found.len()
        invariant
            hs == heros_found@,
            bs == baddies_found@,
            h <= hs.len(),
            result@ == Seq::new((h * bs.len()) as nat, |k: int| (hs[k / bs.len() as int], bs[k % bs.len() as int])),
        decreases hs.len() - h,
    {
        let mut b: usize = 0;
        while b < baddies_found.len()
            invariant
                hs == heros_found@,
                bs == baddies_found@,
                h < hs.len(),
                b <= bs.len(),
                result@ == Seq::new((h * bs.len() + b) as nat, |k: int| (hs[k / bs.len() as int], bs[k % bs.len() as int])),
            decreases bs.len() - b,
        {
            let ghost old_result = result@;
            result.push((heros_found[h], baddies_found[b]));
            proof {
                let len = bs.len() as int;
                let idx = h * len + b;
                assert(idx / len == h && idx % len == b) by (nonlinear_arith)
                    requires
                        idx == h * len + b,
                        0 <= b < len,
                        h >= 0,
                ;
                assert(result@ =~= Seq::new((h * bs.len() + b + 1) as nat, |k: int| (hs[k / bs.len() as int], bs[k % bs.len() as int])));
            }
            b += 1;
        }
        proof {
            assert((h + 1) * bs.len() == h * bs.len() + bs.len()) by (nonlinear_arith);
        }
        h += 1;
    }
    result
}

/// Reads a matchup written as `hero.baddie`, such as `warrior.ogre`.
pub open spec fn spec_parse_matchup(s: Seq<char>) -> Result<Matchup, Seq<char>> {
    if !s.contains('.') {
        Err("invalid KEY=value: no `.` found in `"@ + s + "`"@)
    } else {
        let pos = s.index_of_first('.').unwrap();
        match (spec_class_from_str(s.subrange(0, pos)), spec_class_from_str(s.subrange(pos + 1, s.len() as int))) {
            (Some(hero), Some(enemy)) => if !spec_is_solver_hero(hero) {
                Err("First class must be a hero"@)
            } else if spec_is_solver_hero(enemy) {
                Err("Second class must be an enemy"@)
            } else {
                Ok((hero, enemy))
            },
            _ => Err("Matching variant not found"@),
        }
    }
}

/// The position of the first `.` in the text, if there is one.
fn find_dot(s: &str) -> (r: Option<usize>)
    ensures
        r.is_some() == s@.contains('.'),
        r.is_some() ==> s@.index_of_first('.') == Some(r.unwrap() as int),
        r.is_some() ==> r.unwrap() < s@.len(),
{
    let n = s.unicode_len();
    let mut i: usize = 0;
    while i < n
        invariant
            n == s@.len(),
            i <= n,
            forall|j: int| 0 <= j < i ==> s@[j] != '.',
        decreases n - i,
    {
        if s.get_char(i) == '.' {
            proof {
                s@.index_of_first_ensures('.');
                assert(s@.contains('.'));
                let k = s@.index_of_first('.').unwrap();
                assert(s@[k] == '.');
                assert(k >= i);
                assert(forall|j: int| 0 <= j < k ==> s@[j] != '.');
                assert(!(k > i));
            }
            return Some(i);
        }
        i += 1;
    }
    proof {
        s@.index_of_first_ensures('.');
    }
    None
}

/// Reads a matchup written as `hero.baddie`: the first class must be a
/// hero class and the second must not.
pub fn parse_dot_separated_matchup(s: &str) -> (r: Result<Matchup, String>)
    ensures
        match spec_parse_matchup(s@) {
            Ok(m) => r == Ok::<Matchup, String>(m),
            Err(e) => r.is_err() && r.unwrap_err()@ == e,
        },
{
    let pos = match find_dot(s) {
        Some(p) => p,
        None => {
            let mut message = String::from_str("invalid KEY=value: no `.` found in `");
            message.append(s);
            message.append("`");
            return Err(message);
        },
    };
    let n = s.unicode_len();
    let hero_str = s.substring_char(0, pos);
    let enemy_str = s.substring_char(pos + 1, n);
    let hero = match class_from_str(hero_str) {
        Some(c) => c,
        None => return Err(String::from_str("Matching variant not found")),
    };
    let enemy = match class_from_str(enemy_str) {
        Some(c) => c,
        None => return Err(String::from_str("Matching variant not found")),
    };
    if !is_hero_class(hero) {
        return Err(String::from_str("First class must be a hero"));
    }
    if is_hero_class(enemy) {
        return Err(String::from_str("Second class must be an enemy"));
    }
    Ok((hero, enemy))
}

/// A matchup as its files name it: `Hero.Baddie`.
pub open spec fn spec_matchup_str(m: Matchup) -> Seq<char> {
    class_debug_name(m.0) + "."@ + class_debug_name(m.1)
}

/// A matchup as file names write it: `Hero.Baddie`.
pub fn matchup_to_str(matchup: Matchup) -> (r: String)
    ensures
        r@ == spec_matchup_str(matchup),
{
    let mut r = String::from_str(class_debug_str(matchup.0));
    r.append(".");
    r.append(class_debug_str(matchup.1));
    r
}

fn matchup_with_ext(matchup: Matchup, ext: &str) -> (r: String)
    ensures
        r@ == spec_matchup_str(matchup) + "."@ + ext@,
{
    let mut r = matchup_to_str(matchup);
    r.append(".");
    r.append(ext);
    r
}

/// The name of the model file of a matchup.
pub fn matchup_to_yaml_str(matchup: Matchup) -> (r: String)
    ensures
        r@ == spec_matchup_str(matchup) + "."@ + "yaml"@,
{
    matchup_with_ext(matchup, "yaml")
}

/// The name of the training file of a matchup.
pub fn matchup_to_jsonl_str(matchup: Matchup) -> (r: String)
    ensures
        r@ == spec_matchup_str(matchup) + "."@ + "jsonl"@,
{
    matchup_with_ext(matchup, "jsonl")
}

/// Where the model of a matchup is kept.
pub fn model_path_for_matchup(matchup: Matchup) -> (r: String)
    ensures
        r@ == "./data/models/"@ + spec_matchup_str(matchup) + "."@ + "yaml"@,
{
    let mut r = String::from_str("./data/models/");
    let name = matchup_to_yaml_str(matchup);
    r.append(name.as_str());
    r
}

/// Where the previous model of a matchup is kept while a new one is
/// written.
pub fn swap_model_path_for_matchup(matchup: Matchup) -> (r: String)
    ensures
        r@ == "./data/models/swap."@ + spec_matchup_str(matchup) + "."@ + "yaml"@,
{
    let mut r = String::from_str("./data/models/swap.");
    let name = matchup_to_yaml_str(matchup);
    r.append(name.as_str());
    r
}

/// Where the training examples of a matchup are kept.
pub fn training_path_for_matchup(matchup: Matchup) -> (r: String)
    ensures
        r@ == "./data/training_data/"@ + spec_matchup_str(matchup) + "."@ + "jsonl"@,
{
    let mut r = String::from_str("./data/training_data/");
    let name = matchup_to_jsonl_str(matchup);
    r.append(name.as_str());
    r
}

/// The ids of the cards of a class, in order.
pub fn get_relevant_cards_for_class(cards: &CardDefs, class: Class) -> (r: Vec<CardId>)
    requires
        cards.wf(),
    ensures
        r@.len() == class_ids_below(*cards, class, CARDS_SIZE as nat).len(),
        forall|k: int| 0 <= k < r@.len() ==> r@[k] == class_ids_below(*cards, class, CARDS_SIZE as nat)[k],
{
    let defs = cards.get_cards_for_class(class);
    let mut result: Vec<CardId> = Vec::new();
    let mut i: usize = 0;
    while i < defs.len()
        invariant
            cards.wf(),
            i <= defs@.len(),
            defs@.len() == class_ids_below(*cards, class, CARDS_SIZE as nat).len(),
            forall|k: int|
                0 <= k < defs@.len() ==> *defs@[k] == cards.card(
                    #[trigger] class_ids_below(*cards, class, CARDS_SIZE as nat)[k],
                ),
            result@.len() == i,
            forall|k: int| 0 <= k < i ==> result@[k] == class_ids_below(*cards, class, CARDS_SIZE as nat)[k],
        decreases defs@.len() - i,
    {
        proof {
            lemma_class_ids_registered(*cards, class, CARDS_SIZE as nat, i as int);
        }
        result.push(defs[i].id);
        i += 1;
    }
    result
}

/// The ids that `class_ids_below` lists are ids of cards of the class.
pub proof fn lemma_class_ids_registered(cards: CardDefs, class: Class, n: nat, k: int)
    requires
        cards.wf(),
        n <= CARDS_SIZE,
        0 <= k < class_ids_below(cards, class, n).len(),
    ensures
        cards.has_card(class_ids_below(cards, class, n)[k]),
        cards.card(class_ids_below(cards, class, n)[k]).id == class_ids_below(cards, class, n)[k],
        cards.card(class_ids_below(cards, class, n)[k]).class == class,
    decreases n,
{
    if n > 0 {
        let prev = class_ids_below(cards, class, (n - 1) as nat);
        if k < prev.len() {
            lemma_class_ids_registered(cards, class, (n - 1) as nat, k);
        } else {
            let id = n - 1;
            assert(cards.cards@[id].is_some());
        }
    }
}

/// The ids of the cards of both classes, the hero's first.
pub open spec fn class_pair_ids(cards: CardDefs, hero: Class, monster: Class) -> Seq<int> {
    class_ids_below(cards, hero, CARDS_SIZE as nat) + class_ids_below(cards, monster, CARDS_SIZE as nat)
}

/// The ids of the cards of both classes of a matchup: the hero's, then the
/// baddie's.
pub fn get_relevant_cards_for_matchup(cards: &CardDefs, matchup: Matchup) -> (r: Vec<CardId>)
    requires
        cards.wf(),
    ensures
        r@.len() == class_pair_ids(*cards, matchup.0, matchup.1).len(),
        forall|k: int| 0 <= k < r@.len() ==> r@[k] == class_pair_ids(*cards, matchup.0, matchup.1)[k],
{
    let mut a = get_relevant_cards_for_class(cards, matchup.0);
    let mut b = get_relevant_cards_for_class(cards, matchup.1);
    a.append(&mut b);
    a
}

/// How a solved state ends: won in a number of turns, or lost.
#[derive(Copy, Clone, Debug, PartialEq, Eq, Hash, Structural)]
pub enum StateEval {
    Win(usize),
    Loss,
}

/// The score of a solved state: the turns to win, or 100 for a loss.
pub fn state_eval_to_score(s: StateEval) -> (r: usize)
    ensures
        r == match s {
            StateEval::Win(v) => v,
            StateEval::Loss => 100,
        },
{
    match s {
        StateEval::Win(v) => v,
        StateEval::Loss => 100,
    }
}

/// How many states of each search level to keep when generating examples.
pub fn per_level_keep_states(hero: Class, monster: Class) -> (r: usize)
    ensures
        r == if hero == Class::Beastmaster && monster == Class::Flora {
            80000
        } else {
            (if hero == Class::Beastmaster {
                400000int / 3
            } else {
                400000int
            }) / (if monster == Class::Vampire {
                2int
            } else {
                1int
            })
        },
{
    if hero == Class::Beastmaster && monster == Class::Flora {
        return 80000;
    }
    let mut result: usize = 400000;
    if hero == Class::Beastmaster {
        result /= 3;
    }
    if monster == Class::Vampire {
        result /= 2;
    }
    result
}

/// How many levels past the first win to keep searching.
pub fn extra_levels(hero: Class, monster: Class) -> (r: usize)
    ensures
        r == if hero == Class::Beastmaster && monster == Class::Flora {
            0usize
        } else if hero == Class::Beastmaster {
            1usize
        } else {
            2usize
        },
{
    if hero == Class::Beastmaster && monster == Class::Flora {
        return 0;
    }
    if hero == Class::Beastmaster {
        return 1;
    }
    2
}

/// Position `i` holds the smallest size, and no earlier position does.
pub open spec fn first_smallest(sizes: Seq<u64>, i: int) -> bool {
    &&& 0 <= i < sizes.len()
    &&& forall|j: int| 0 <= j < sizes.len() ==> sizes[i] <= #[trigger] sizes[j]
    &&& forall|j: int| 0 <= j < i ==> #[trigger] sizes[j] > sizes[i]
}

/// The first matchup whose training file is the smallest, given the file
/// size of each matchup (0 for a missing file).
pub fn find_least_used_matchup(matchups: &[Matchup], file_sizes: &[u64]) -> (r: Matchup)
    requires
        matchups@.len() > 0,
        file_sizes@.len() == matchups@.len(),
    ensures
        exists|i: int| #[trigger] first_smallest(file_sizes@, i) && matchups@[i] == r,
{
    let mut best: usize = 0;
    let mut i: usize = 1;
    while i < matchups.len()
        invariant
            file_sizes@.len() == matchups@.len(),
            1 <= i <= matchups@.len(),
            best < i,
            forall|j: int| 0 <= j < i ==> file_sizes@[best as int] <= #[trigger] file_sizes@[j],
            forall|j: int| 0 <= j < best ==> #[trigger] file_sizes@[j] > file_sizes@[best as int],
        decreases matchups@.len() - i,
    {
        if file_sizes[i] < file_sizes[best] {
            best = i;
        }
        i += 1;
    }
    assert(first_smallest(file_sizes@, best as int));
    matchups[best]
}

/// The matchups that training asks for: those given, every matchup of each
/// class given, and with `all` every matchup of a hero class against a
/// baddie class.
pub open spec fn wanted_matchup(all: bool, classes: Seq<Class>, matchups: Seq<Matchup>, m: Matchup) -> bool {
    ||| matchups.contains(m)
    ||| (classes.contains(m.0) && spec_is_solver_hero(m.0) && spec_solver_baddies().contains(m.1))
    ||| (classes.contains(m.1) && !spec_is_solver_hero(m.1) && spec_solver_heros().contains(m.0))
    ||| (all && spec_solver_heros().contains(m.0) && spec_solver_baddies().contains(m.1))
}

fn push_unique(list: &mut Vec<Matchup>, m: Matchup)
    requires
        old(list)@.no_duplicates(),
    ensures
        final(list)@.no_duplicates(),
        forall|x: Matchup| final(list)@.contains(x) <==> (old(list)@.contains(x) || x == m),
{
    let mut i: usize = 0;
    while i < list.len()
        invariant
            i <= list@.len(),
            list@ == old(list)@,
            old(list)@.no_duplicates(),
            forall|j: int| 0 <= j < i ==> list@[j] != m,
        decreases list@.len() - i,
    {
        if list[i].0 == m.0 && list[i].1 == m.1 {
            proof {
                assert(list@[i as int] == m);
                assert forall|x: Matchup| list@.contains(x) <==> (old(list)@.contains(x) || x == m) by {
                    if x == m {
                        assert(list@[i as int] == x);
                    }
                }
            }
            return;
        }
        i += 1;
    }
    let ghost before = list@;
    list.push(m);
    proof {
        assert forall|x: Matchup| list@.contains(x) <==> (before.contains(x) || x == m) by {
            if list@.contains(x) {
                let k = choose|k: int| 0 <= k < list@.len() && list@[k] == x;
                if k < before.len() {
                    assert(before[k] == x);
                }
            }
            if before.contains(x) {
                let k = choose|k: int| 0 <= k < before.len() && before[k] == x;
                assert(list@[k] == x);
            }
            if x == m {
                assert(list@[before.len() as int] == x);
            }
        }
    }
}

/// Adds each pairing of `fixed` with a class of `others`: `fixed` first when
/// `fixed_first`, else second. Nothing already in the list is added again.
fn push_pairings(list: &mut Vec<Matchup>, fixed: Class, others: &Vec<Class>, fixed_first: bool)
    requires
        old(list)@.no_duplicates(),
    ensures
        final(list)@.no_duplicates(),
        forall|m: Matchup|
            final(list)@.contains(m) <==> (old(list)@.contains(m) || (if fixed_first {
                m.0 == fixed && others@.contains(m.1)
            } else {
                m.1 == fixed && others@.contains(m.0)
            })),
{
    let mut k: usize = 0;
    while k < others.len()
        invariant
            k <= others@.len(),
            list@.no_duplicates(),
            forall|m: Matchup|
                list@.contains(m) <==> (old(list)@.contains(m) || (if fixed_first {
                    m.0 == fixed && others@.subrange(0, k as int).contains(m.1)
                } else {
                    m.1 == fixed && others@.subrange(0, k as int).contains(m.0)
                })),
        decreases others@.len() - k,
    {
        let other = others[k];
        let pair = if fixed_first {
            (fixed, other)
        } else {
            (other, fixed)
        };
        push_unique(list, pair);
        proof {
            assert forall|m: Matchup|
                list@.contains(m) <==> (old(list)@.contains(m) || (if fixed_first {
                    m.0 == fixed && others@.subrange(0, k + 1).contains(m.1)
                } else {
                    m.1 == fixed && others@.subrange(0, k + 1).contains(m.0)
                })) by {
                lemma_prefix_contains(others@, k as int, m.0);
                lemma_prefix_contains(others@, k as int, m.1);
            }
        }
        k += 1;
    }
    assert(others@.subrange(0, others@.len() as int) =~= others@);
}

/// The matchups that training asks for, each once: see `wanted_matchup`.
pub fn get_training_matchups_from_args(all: bool, classes: &Vec<Class>, matchups: &Vec<Matchup>) -> (r: Vec<Matchup>)
    ensures
        r@.no_duplicates(),
        forall|m: Matchup| r@.contains(m) <==> wanted_matchup(all, classes@, matchups@, m),
{
    let mut result: Vec<Matchup> = Vec::new();
    let hero_list = solver_heros();
    let baddie_list = solver_baddies();
    let mut i: usize = 0;
    while i < matchups.len()
        invariant
            i <= matchups@.len(),
            result@.no_duplicates(),
            forall|m: Matchup| result@.contains(m) <==> matchups@.subrange(0, i as int).contains(m),
        decreases matchups@.len() - i,
    {
        push_unique(&mut result, matchups[i]);
        proof {
            assert forall|m: Matchup| result@.contains(m) <==> matchups@.subrange(0, i + 1).contains(m) by {
                lemma_prefix_contains(matchups@, i as int, m);
            }
        }
        i += 1;
    }
    assert(matchups@.subrange(0, matchups@.len() as int) =~= matchups@);
    let mut c: usize = 0;
    while c < classes.len()
        invariant
            c <= classes@.len(),
            hero_list@ == spec_solver_heros(),
            baddie_list@ == spec_solver_baddies(),
            result@.no_duplicates(),
            forall|m: Matchup|
                result@.contains(m) <==> (matchups@.contains(m) || (classes@.subrange(0, c as int).contains(m.0)
                    && spec_is_solver_hero(m.0) && spec_solver_baddies().contains(m.1)) || (classes@.subrange(0, c as int).contains(
                    m.1,
                ) && !spec_is_solver_hero(m.1) && spec_solver_heros().contains(m.0))),
        decreases classes@.len() - c,
    {
        let class = classes[c];
        let ghost before = result@;
        let hero = is_hero_class(class);
        if hero {
            push_pairings(&mut result, class, &baddie_list, true);
        } else {
            push_pairings(&mut result, class, &hero_list, false);
        }
        proof {
            assert forall|m: Matchup|
                result@.contains(m) <==> (matchups@.contains(m) || (classes@.subrange(0, c + 1).contains(m.0)
                    && spec_is_solver_hero(m.0) && spec_solver_baddies().contains(m.1)) || (classes@.subrange(0, c + 1).contains(
                    m.1,
                ) && !spec_is_solver_hero(m.1) && spec_solver_heros().contains(m.0))) by {
                lemma_solver_lists(m.0);
                lemma_solver_lists(m.1);
                lemma_prefix_contains(classes@, c as int, m.0);
                lemma_prefix_contains(classes@, c as int, m.1);
            }
        }
        c += 1;
    }
    assert(classes@.subrange(0, classes@.len() as int) =~= classes@);
    if all {
        let ghost before = result@;
        let mut h: usize = 0;
        while h < hero_list.len()
            invariant
                h <= hero_list@.len(),
                hero_list@ == spec_solver_heros(),
                baddie_list@ == spec_solver_baddies(),
                result@.no_duplicates(),
                forall|m: Matchup|
                    #[trigger] result@.contains(m) <==> (before.contains(m) || (hero_list@.subrange(0, h as int).contains(m.0)
                        && spec_solver_baddies().contains(m.1))),
            decreases hero_list@.len() - h,
        {
            let ghost mid = result@;
            let hero = hero_list[h];
            push_pairings(&mut result, hero, &baddie_list, true);
            proof {
                assert forall|m: Matchup|
                    #[trigger] result@.contains(m) <==> (before.contains(m) || (hero_list@.subrange(0, h + 1).contains(m.0)
                        && spec_solver_baddies().contains(m.1))) by {
                    lemma_prefix_contains(hero_list@, h as int, m.0);
                    assert(result@.contains(m) <==> (mid.contains(m) || (m.0 == hero && baddie_list@.contains(m.1))));
                    assert(mid.contains(m) <==> (before.contains(m) || (hero_list@.subrange(0, h as int).contains(m.0)
                        && spec_solver_baddies().contains(m.1))));
                }
            }
            h += 1;
        }
        assert(hero_list@.subrange(0, hero_list@.len() as int) =~= hero_list@);
    }
    result
}


/// Writing a matchup as the command line does, `hero.baddie` with both
/// classes by their command-line names, and reading it back gives the
/// matchup, for a hero class against a class that is not one.
pub proof fn lemma_matchup_text_round_trip(m: Matchup)
    requires
        spec_is_solver_hero(m.0),
        !spec_is_solver_hero(m.1),
    ensures
        spec_parse_matchup(class_arg_name(m.0) + "."@ + class_arg_name(m.1)) == Ok::<Matchup, Seq<char>>(m),
{
    reveal_strlit(".");
    lemma_class_arg_name_round_trip(m.0);
    lemma_class_arg_name_round_trip(m.1);
    let a = class_arg_name(m.0);
    let b = class_arg_name(m.1);
    let s = a + "."@ + b;
    assert(s[a.len() as int] == '.');
    assert(s.contains('.'));
    s.index_of_first_ensures('.');
    let k = s.index_of_first('.').unwrap();
    if k < a.len() {
        assert(s[k] == a[k]);
        assert(a.contains('.'));
    }
    assert(k == a.len());
    assert(s.subrange(0, k) =~= a);
    assert(s.subrange(k + 1, s.len() as int) =~= b);
}

} // verus!
