//! The exhaustive search: every pile a number of turns away, turn by turn,
//! with the piles each was reached from, until some pile meets the goal;
//! then every path back from those piles to the start.
use vstd::prelude::*;
use crate::card_defs::CardDefs;
use crate::card_ptr::CardPtr;
use crate::engine::{card_ids, pile_ruled, resolve_top_card, state_ok};
use crate::game_state::{pile_eq, EngineGameState, GameStateNoEventLog, GameStateWithEventLog};
use crate::primitives::Event;
use crate::pile::{pile_cards, pile_clone, Pile};
use crate::victory::{spec_condition_result, VictoryCondition, VictoryConditionResult};

verus! {

/// How many turns a search without a set number of turns looks ahead
/// before it gives up.
pub const SEARCH_TURN_LIMIT: usize = 64;

/// The piles reached in one turn, each with the piles of the turn before
/// from which it was reached.
pub type ParentLevel = Vec<(Pile, Vec<Pile>)>;

/// Some entry of the level is the pile.
pub open spec fn has_key(level: Seq<(Pile, Vec<Pile>)>, p: Seq<CardPtr>) -> bool {
    exists|j: int| 0 <= j < level.len() && pile_cards(#[trigger] level[j].0) == p
}

/// A pile of the search from `init`: the same cards as `init`, in some
/// order and on some faces, each read by the rules.
pub open spec fn search_pile(cards: CardDefs, init: Seq<CardPtr>, p: Seq<CardPtr>) -> bool {
    &&& p.len() == init.len()
    &&& card_ids(p) == card_ids(init)
    &&& pile_ruled(cards, p)
}

/// No pile is listed twice in the level.
pub open spec fn keys_distinct(level: Seq<(Pile, Vec<Pile>)>) -> bool {
    forall|a: int, b: int|
        0 <= a < level.len() && 0 <= b < level.len() && a != b ==> pile_cards(#[trigger] level[a].0) != pile_cards(
            #[trigger] level[b].0,
        )
}

/// The levels of a search from `init`: every pile in them is a pile of
/// the search, listed once in its level, and each pile was reached from at
/// least one pile: the start (first level) or a pile of the level before.
pub open spec fn levels_linked(cards: CardDefs, init: Seq<CardPtr>, levels: Seq<Vec<(Pile, Vec<Pile>)>>) -> bool {
    &&& forall|i: int, j: int|
        0 <= i < levels.len() && 0 <= j < levels[i]@.len() ==> search_pile(
            cards,
            init,
            pile_cards(#[trigger] levels[i]@[j].0),
        )
    &&& forall|i: int, j: int|
        0 <= i < levels.len() && 0 <= j < levels[i]@.len() ==> (#[trigger] levels[i]@[j]).1@.len() > 0
    &&& forall|i: int| 0 <= i < levels.len() ==> keys_distinct(#[trigger] levels[i]@)
    &&& forall|i: int, j: int, k: int|
        0 <= i < levels.len() && 0 <= j < levels[i]@.len() && 0 <= k < levels[i]@[j].1@.len() ==> {
            let parent = pile_cards(#[trigger] levels[i]@[j].1@[k]);
            if i == 0 {
                parent == init
            } else {
                has_key(levels[i - 1]@, parent)
            }
        }
}

/// The position of the pile among the level's entries.
fn find_entry(level: &Vec<(Pile, Vec<Pile>)>, p: &Pile) -> (r: Option<usize>)
    ensures
        match r {
            Some(j) => j < level@.len() && pile_cards(level@[j as int].0) == pile_cards(*p),
            None => !has_key(level@, pile_cards(*p)),
        },
{
    let mut j: usize = 0;
    while j < level.len()
        invariant
            j <= level@.len(),
            forall|k: int| 0 <= k < j ==> pile_cards(#[trigger] level@[k].0) != pile_cards(*p),
        decreases level@.len() - j,
    {
        if pile_eq(&level[j].0, p) {
            return Some(j);
        }
        j += 1;
    }
    None
}

/// A copy of the piles.
fn clone_path(path: &Vec<Pile>) -> (r: Vec<Pile>)
    ensures
        r@.len() == path@.len(),
        forall|i: int| 0 <= i < r@.len() ==> pile_cards(#[trigger] r@[i]) == pile_cards(path@[i]),
{
    let mut r: Vec<Pile> = Vec::new();
    let mut i: usize = 0;
    while i < path.len()
        invariant
            i <= path@.len(),
            r@.len() == i,
            forall|k: int| 0 <= k < r@.len() ==> pile_cards(#[trigger] r@[k]) == pile_cards(path@[k]),
        decreases path@.len() - i,
    {
        r.push(pile_clone(&path[i]));
        i += 1;
    }
    r
}

/// `q` is a path of the search that continues `path`: it holds the piles
/// of `path`, then `level + 1` more, the first of them `pile` and the last
/// the start, each a pile of the search.
pub open spec fn continues(
    cards: CardDefs,
    init: Seq<CardPtr>,
    q: Seq<Pile>,
    path: Seq<Pile>,
    pile: Seq<CardPtr>,
    level: nat,
) -> bool {
    &&& q.len() == path.len() + level + 1
    &&& forall|i: int| 0 <= i < path.len() ==> pile_cards(#[trigger] q[i]) == pile_cards(path[i])
    &&& pile_cards(q[path.len() as int]) == pile
    &&& pile_cards(q[q.len() - 1]) == init
    &&& forall|i: int|
        path.len() < i < q.len() ==> search_pile(cards, init, pile_cards(#[trigger] q[i])) || pile_cards(q[i])
            == init
}

/// The piles of a path, as plain values.
pub open spec fn piles_of(q: Seq<Pile>) -> Seq<Seq<CardPtr>> {
    q.map_values(|p: Pile| pile_cards(p))
}

/// `parent` is one of the piles that `child` was reached from in the level.
pub open spec fn is_parent(level: Seq<(Pile, Vec<Pile>)>, child: Seq<CardPtr>, parent: Seq<CardPtr>) -> bool {
    exists|e: int, k: int|
        0 <= e < level.len() && 0 <= k < level[e].1@.len() && pile_cards(level[e].0) == child && pile_cards(
            #[trigger] level[e].1@[k],
        ) == parent
}

/// `c` is a chain of `level` turns back through the levels: each pile of
/// it after the first is one that the pile before it was reached from, in
/// the level of that pile.
pub open spec fn chain_ok(levels: Seq<Vec<(Pile, Vec<Pile>)>>, level: nat, c: Seq<Seq<CardPtr>>) -> bool
    decreases level,
{
    if level == 0 {
        c.len() == 1
    } else {
        &&& c.len() == level + 1
        &&& is_parent(levels[level - 1]@, c[0], c[1])
        &&& chain_ok(levels, (level - 1) as nat, c.drop_first())
    }
}

/// One of the paths holds exactly the piles `t`.
pub open spec fn has_path(r: Seq<Vec<Pile>>, t: Seq<Seq<CardPtr>>) -> bool {
    exists|s: int| 0 <= s < r.len() && #[trigger] piles_of(r[s]@) == t
}

proof fn lemma_has_path_grow(r: Seq<Vec<Pile>>, r2: Seq<Vec<Pile>>, t: Seq<Seq<CardPtr>>)
    requires
        has_path(r, t),
        r.len() <= r2.len(),
        forall|s: int| 0 <= s < r.len() ==> r2[s] == r[s],
    ensures
        has_path(r2, t),
{
    let s = choose|s: int| 0 <= s < r.len() && #[trigger] piles_of(r[s]@) == t;
    assert(r2[s] == r[s]);
    assert(piles_of(r2[s]@) == t);
}

/// Every path from `pile`, reached at `level`, back to the start through
/// the piles it was reached from, each after the path so far. A path
/// lists the piles from the last reached back to the start.
pub fn unwrap_solutions(
    cards: &CardDefs,
    pile: &Pile,
    level: usize,
    path: Vec<Pile>,
    parent_map: &Vec<ParentLevel>,
    Ghost(init): Ghost<Seq<CardPtr>>,
) -> (r: Vec<Vec<Pile>>)
    requires
        level <= parent_map@.len(),
        levels_linked(*cards, init, parent_map@),
        level == 0 ==> pile_cards(*pile) == init,
        level > 0 ==> has_key(parent_map@[level - 1]@, pile_cards(*pile)),
    ensures
        r@.len() > 0,
        forall|c: Seq<Seq<CardPtr>>|
            #[trigger] chain_ok(parent_map@, level as nat, c) && c[0] == pile_cards(*pile) ==> has_path(
                r@,
                piles_of(path@) + c,
            ),
        forall|s: int|
            0 <= s < r@.len() ==> continues(*cards, init, (#[trigger] r@[s])@, path@, pile_cards(*pile), level as nat),
    decreases level,
{
    let ghost given = path@;
    let mut path = path;
    path.push(pile_clone(pile));
    let mut result: Vec<Vec<Pile>> = Vec::new();
    if level == 0 {
        result.push(path);
        proof {
            assert forall|c: Seq<Seq<CardPtr>>|
                #[trigger] chain_ok(parent_map@, level as nat, c) && c[0] == pile_cards(*pile) implies has_path(
                result@,
                piles_of(given) + c,
            ) by {
                assert(piles_of(result@[0]@) =~= piles_of(given) + c);
            }
        }
        return result;
    }
    let entry = find_entry(&parent_map[level - 1], pile);
    let j = match entry {
        Some(j) => j,
        None => {
            assert(false);
            return result;
        },
    };
    let parents = &parent_map[level - 1][j].1;
    assert(parent_map@[level - 1]@[j as int].1@.len() > 0);
    let ghost lvl = parent_map@[level - 1]@;
    let mut k: usize = 0;
    while k < parents.len()
        invariant
            level > 0,
            level <= parent_map@.len(),
            levels_linked(*cards, init, parent_map@),
            j < lvl.len(),
            lvl == parent_map@[level - 1]@,
            *parents == lvl[j as int].1,
            parents@.len() > 0,
            k > 0 ==> result@.len() > 0,
            path@ == given.push(path@.last()),
            pile_cards(path@.last()) == pile_cards(*pile),
            forall|s: int|
                0 <= s < result@.len() ==> continues(*cards, init, (#[trigger] result@[s])@, given, pile_cards(*pile), level as nat),
            k <= parents@.len(),
            forall|kk: int, c: Seq<Seq<CardPtr>>|
                0 <= kk < k && #[trigger] chain_ok(parent_map@, (level - 1) as nat, c) && c[0] == pile_cards(
                    #[trigger] parents@[kk],
                ) ==> has_path(result@, piles_of(given) + seq![pile_cards(*pile)] + c),
        decreases parents@.len() - k,
    {
        let parent = &parents[k];
        let ghost pj = pile_cards(*parent);
        proof {
            assert(pj == pile_cards(parent_map@[level - 1]@[j as int].1@[k as int]));
        }
        let extended = clone_path(&path);
        let more = unwrap_solutions(cards, parent, level - 1, extended, parent_map, Ghost(init));
        proof {
            if level - 1 > 0 {
                let jj = choose|jj: int| 0 <= jj < parent_map@[level - 2]@.len() && pile_cards(#[trigger] parent_map@[level - 2]@[jj].0) == pj;
                assert(search_pile(*cards, init, pile_cards(parent_map@[level - 2]@[jj].0)));
            }
        }
        let ghost snap = result@;
        let mut m: usize = 0;
        while m < more.len()
            invariant
                result@.len() == snap.len() + m,
                m <= more@.len(),
                forall|t: int| 0 <= t < snap.len() ==> result@[t] == snap[t],
                forall|t: int| 0 <= t < m ==> piles_of(result@[snap.len() + t]@) == piles_of((#[trigger] more@[t])@),
                path@ == given.push(path@.last()),
                pile_cards(path@.last()) == pile_cards(*pile),
                extended@.len() == path@.len(),
                forall|i: int| 0 <= i < extended@.len() ==> pile_cards(#[trigger] extended@[i]) == pile_cards(path@[i]),
                level > 0,
                level - 1 > 0 ==> search_pile(*cards, init, pj),
                level - 1 == 0 ==> pj == init,
                more@.len() > 0,
                (k > 0 || m > 0) ==> result@.len() > 0,
                forall|s: int|
                    0 <= s < more@.len() ==> continues(*cards, init, (#[trigger] more@[s])@, extended@, pj, (level - 1) as nat),
                forall|s: int|
                    0 <= s < result@.len() ==> continues(*cards, init, (#[trigger] result@[s])@, given, pile_cards(*pile), level as nat),
            decreases more@.len() - m,
        {
            let q = clone_path(&more[m]);
            proof {
                let old_q = more@[m as int]@;
                assert(continues(*cards, init, old_q, extended@, pj, (level - 1) as nat));
                assert forall|i: int| 0 <= i < given.len() implies pile_cards(#[trigger] q@[i]) == pile_cards(given[i]) by {
                    assert(pile_cards(q@[i]) == pile_cards(old_q[i]));
                    assert(pile_cards(old_q[i]) == pile_cards(extended@[i]));
                    assert(pile_cards(extended@[i]) == pile_cards(path@[i]));
                    assert(path@[i] == given[i]);
                }
                assert(pile_cards(q@[given.len() as int]) == pile_cards(*pile)) by {
                    assert(pile_cards(old_q[given.len() as int]) == pile_cards(extended@[given.len() as int]));
                    assert(path@[given.len() as int] == path@.last());
                }
                assert forall|i: int| given.len() < i < q@.len() implies search_pile(*cards, init, pile_cards(#[trigger] q@[i])) || pile_cards(q@[i]) == init by {
                    assert(pile_cards(q@[i]) == pile_cards(old_q[i]));
                    if i == extended@.len() {
                    } else {
                    }
                }
                assert(pile_cards(q@[q@.len() - 1]) == init) by {
                    assert(pile_cards(q@[q@.len() - 1]) == pile_cards(old_q[old_q.len() - 1]));
                }
                assert(continues(*cards, init, q@, given, pile_cards(*pile), level as nat));
            }
            proof {
                assert(piles_of(q@) =~= piles_of(more@[m as int]@));
            }
            result.push(q);
            m += 1;
        }
        proof {
            assert(piles_of(extended@) =~= piles_of(given) + seq![pile_cards(*pile)]) by {
                assert forall|i: int| 0 <= i < extended@.len() implies piles_of(extended@)[i] == (piles_of(given) + seq![pile_cards(*pile)])[i] by {
                    assert(pile_cards(extended@[i]) == pile_cards(path@[i]));
                    if i < given.len() {
                        assert(path@[i] == given[i]);
                    }
                }
            }
            assert forall|kk: int, c: Seq<Seq<CardPtr>>|
                0 <= kk < k + 1 && #[trigger] chain_ok(parent_map@, (level - 1) as nat, c) && c[0] == pile_cards(
                    #[trigger] parents@[kk],
                ) implies has_path(result@, piles_of(given) + seq![pile_cards(*pile)] + c) by {
                if kk < k {
                    lemma_has_path_grow(snap, result@, piles_of(given) + seq![pile_cards(*pile)] + c);
                } else {
                    assert(has_path(more@, piles_of(extended@) + c));
                    let t = choose|t: int| 0 <= t < more@.len() && #[trigger] piles_of(more@[t]@) == piles_of(extended@) + c;
                    assert(piles_of(result@[snap.len() + t]@) == piles_of(more@[t]@));
                    assert(piles_of(result@[snap.len() + t]@) == piles_of(given) + seq![pile_cards(*pile)] + c);
                }
            }
        }
        k += 1;
    }
    proof {
        assert forall|c: Seq<Seq<CardPtr>>|
            #[trigger] chain_ok(parent_map@, level as nat, c) && c[0] == pile_cards(*pile) implies has_path(
            result@,
            piles_of(given) + c,
        ) by {
            let (e, kk) = choose|e: int, kk: int|
                0 <= e < lvl.len() && 0 <= kk < lvl[e].1@.len() && pile_cards(lvl[e].0) == c[0] && pile_cards(
                    #[trigger] lvl[e].1@[kk],
                ) == c[1];
            assert(keys_distinct(parent_map@[level - 1]@));
            assert(pile_cards(lvl[j as int].0) == pile_cards(*pile));
            assert(e == j);
            let c2 = c.drop_first();
            assert(chain_ok(parent_map@, (level - 1) as nat, c2));
            assert(c2[0] == pile_cards(parents@[kk]));
            assert(has_path(result@, piles_of(given) + seq![pile_cards(*pile)] + c2));
            assert(piles_of(given) + seq![pile_cards(*pile)] + c2 =~= piles_of(given) + c);
        }
    }
    result
}

/// Where a pile of the current turn came from: the start on the first
/// turn, a pile of the last level later.
pub open spec fn from_last_level(init: Seq<CardPtr>, levels: Seq<Vec<(Pile, Vec<Pile>)>>, p: Seq<CardPtr>) -> bool {
    if levels.len() == 0 {
        p == init
    } else {
        has_key(levels[levels.len() - 1]@, p)
    }
}

/// Every pile of the level that meets the goal is the first pile of one of
/// the paths.
pub open spec fn wins_begin_paths(
    cards: CardDefs,
    condition: VictoryCondition,
    level: Seq<(Pile, Vec<Pile>)>,
    paths: Seq<Vec<Pile>>,
) -> bool {
    forall|j: int|
        0 <= j < level.len() && spec_condition_result(condition, cards, pile_cards(#[trigger] level[j].0))
            == VictoryConditionResult::Win ==> exists|s: int|
            0 <= s < paths.len() && (#[trigger] paths[s])@.len() > 0 && pile_cards(paths[s]@[0]) == pile_cards(
                level[j].0,
            )
}

/// Every pile of the level that meets the goal is one of `victories`.
pub open spec fn wins_listed(
    cards: CardDefs,
    condition: VictoryCondition,
    level: Seq<(Pile, Vec<Pile>)>,
    victories: Seq<Pile>,
) -> bool {
    forall|j: int|
        0 <= j < level.len() && spec_condition_result(condition, cards, pile_cards(#[trigger] level[j].0))
            == VictoryConditionResult::Win ==> exists|v: int|
            0 <= v < victories.len() && pile_cards(#[trigger] victories[v]) == pile_cards(level[j].0)
}

/// The search's solutions: every path, from the last pile back to
/// `init_pile`, of piles each reached by one turn from the next, ending
/// (first in the path) at a pile that meets the goal. Every pile of a path
/// holds the cards of `init_pile`, and all paths take the same number of
/// turns. With a set number of
/// turns, the paths take exactly that many turns (at least one); without
/// one, they take the fewest turns at which the goal is met, looking at
/// most `SEARCH_TURN_LIMIT` turns ahead. A pile that meets the goal, or
/// loses, is not searched past; a pile reached twice in one turn is
/// searched once, remembering both piles it came from.
pub fn solve(cards: &CardDefs, init_pile: &Pile, condition: VictoryCondition, turns: Option<usize>) -> (r: Vec<Vec<Pile>>)
    requires
        cards.wf(),
        pile_ruled(*cards, pile_cards(*init_pile)),
        pile_cards(*init_pile).len() >= 1,
    ensures
        forall|s: int|
            0 <= s < r@.len() ==> {
                let q = (#[trigger] r@[s])@;
                &&& q.len() >= 2
                &&& (turns matches Some(t) ==> q.len() == (if t == 0 { 1 } else { t }) + 1)
                &&& (turns is None ==> q.len() <= SEARCH_TURN_LIMIT + 1)
                &&& pile_cards(q[q.len() - 1]) == pile_cards(*init_pile)
                &&& spec_condition_result(condition, *cards, pile_cards(q[0])) == VictoryConditionResult::Win
                &&& forall|i: int|
                    0 <= i < q.len() ==> search_pile(*cards, pile_cards(*init_pile), pile_cards(#[trigger] q[i]))
            },
        forall|s: int, t: int| 0 <= s < r@.len() && 0 <= t < r@.len() ==> (#[trigger] r@[s])@.len() == (#[trigger] r@[t])@.len(),
{
    let (r, _levels) = solve_with_levels(cards, init_pile, condition, turns);
    r
}

/// The search of `solve`, with the levels it searched: the piles reached at
/// each turn, each with the piles it was reached from. The search is
/// complete at its last level: every pile of it that meets the goal is the
/// first pile of some returned path, and every returned path starts at a
/// pile of it.
pub fn solve_with_levels(
    cards: &CardDefs,
    init_pile: &Pile,
    condition: VictoryCondition,
    turns: Option<usize>,
) -> (r: (Vec<Vec<Pile>>, Vec<ParentLevel>))
    requires
        cards.wf(),
        pile_ruled(*cards, pile_cards(*init_pile)),
        pile_cards(*init_pile).len() >= 1,
    ensures
        forall|s: int|
            0 <= s < r.0@.len() ==> {
                let q = (#[trigger] r.0@[s])@;
                &&& q.len() >= 2
                &&& (turns matches Some(t) ==> q.len() == (if t == 0 { 1 } else { t }) + 1)
                &&& (turns is None ==> q.len() <= SEARCH_TURN_LIMIT + 1)
                &&& pile_cards(q[q.len() - 1]) == pile_cards(*init_pile)
                &&& spec_condition_result(condition, *cards, pile_cards(q[0])) == VictoryConditionResult::Win
                &&& forall|i: int|
                    0 <= i < q.len() ==> search_pile(*cards, pile_cards(*init_pile), pile_cards(#[trigger] q[i]))
            },
        forall|s: int, t: int| 0 <= s < r.0@.len() && 0 <= t < r.0@.len() ==> (#[trigger] r.0@[s])@.len() == (#[trigger] r.0@[t])@.len(),
        r.1@.len() >= 1,
        levels_linked(*cards, pile_cards(*init_pile), r.1@),
        wins_begin_paths(*cards, condition, r.1@.last()@, r.0@),
        forall|c: Seq<Seq<CardPtr>>|
            #[trigger] chain_ok(r.1@, r.1@.len(), c) && spec_condition_result(condition, *cards, c[0])
                == VictoryConditionResult::Win ==> has_path(r.0@, c),
        forall|s: int| 0 <= s < r.0@.len() ==> has_key(r.1@.last()@, pile_cards((#[trigger] r.0@[s])@[0])),
{
    let ghost init = pile_cards(*init_pile);
    let ghost n = init.len();
    let limit = match turns {
        Some(t) => if t == 0 {
            1
        } else {
            t
        },
        None => SEARCH_TURN_LIMIT,
    };
    let mut levels: Vec<ParentLevel> = Vec::new();
    let mut current: Vec<Pile> = Vec::new();
    current.push(pile_clone(init_pile));
    let mut turn_number: usize = 0;
    let mut result: Vec<Vec<Pile>> = Vec::new();
    while turn_number < limit
        invariant
            cards.wf(),
            n == init.len(),
            n >= 1,
            init == pile_cards(*init_pile),
            search_pile(*cards, init, init),
            1 <= limit,
            turns matches Some(t) ==> limit == (if t == 0 { 1 } else { t }),
            turns is None ==> limit == SEARCH_TURN_LIMIT,
            turn_number <= limit,
            levels@.len() == turn_number,
            levels_linked(*cards, init, levels@),
            forall|c: int|
                0 <= c < current@.len() ==> search_pile(*cards, init, pile_cards(#[trigger] current@[c]))
                    && from_last_level(init, levels@, pile_cards(current@[c])),
            result@.len() == 0,
            turns is Some ==> turn_number < limit,
            turns is None && turn_number > 0 ==> wins_begin_paths(*cards, condition, levels@.last()@, result@),
        decreases limit - turn_number,
    {
        let mut parent_states: ParentLevel = Vec::new();
        let mut next: Vec<Pile> = Vec::new();
        let mut victories: Vec<Pile> = Vec::new();
        let mut idx = current.len();
        while idx > 0
            invariant
                cards.wf(),
                n == init.len(),
                n >= 1,
                idx <= current@.len(),
                levels@.len() == turn_number,
                forall|c: int|
                    0 <= c < current@.len() ==> search_pile(*cards, init, pile_cards(#[trigger] current@[c]))
                        && from_last_level(init, levels@, pile_cards(current@[c])),
                forall|e: int|
                    0 <= e < parent_states@.len() ==> search_pile(*cards, init, pile_cards(#[trigger] parent_states@[e].0)),
                forall|e: int, k: int|
                    0 <= e < parent_states@.len() && 0 <= k < parent_states@[e].1@.len() ==> from_last_level(
                        init,
                        levels@,
                        pile_cards(#[trigger] parent_states@[e].1@[k]),
                    ),
                forall|v: int|
                    0 <= v < victories@.len() ==> has_key(parent_states@, pile_cards(#[trigger] victories@[v]))
                        && spec_condition_result(condition, *cards, pile_cards(victories@[v]))
                        == VictoryConditionResult::Win,
                forall|e: int| 0 <= e < parent_states@.len() ==> (#[trigger] parent_states@[e]).1@.len() > 0,
                wins_listed(*cards, condition, parent_states@, victories@),
                keys_distinct(parent_states@),
                forall|v: int|
                    0 <= v < next@.len() ==> has_key(parent_states@, pile_cards(#[trigger] next@[v])) && search_pile(
                        *cards,
                        init,
                        pile_cards(next@[v]),
                    ),
            decreases idx,
        {
            idx -= 1;
            let pile = &current[idx];
            assert(search_pile(*cards, init, pile_cards(current@[idx as int])));
            let state = GameStateNoEventLog::new(pile_clone(pile));
            let children = resolve_top_card(cards, &state);
            let mut k: usize = 0;
            while k < children.len()
                invariant
                    cards.wf(),
                    n >= 1,
                    levels@.len() == turn_number,
                    search_pile(*cards, init, pile_cards(*pile)),
                    state.pile_view() == pile_cards(*pile),
                    n == init.len(),
                    from_last_level(init, levels@, pile_cards(*pile)),
                    crate::engine::all_ok(*cards, n, card_ids(state.pile_view()), state.event_view(), children@),
                    forall|e: int|
                        0 <= e < parent_states@.len() ==> search_pile(*cards, init, pile_cards(#[trigger] parent_states@[e].0)),
                    forall|e: int, k: int|
                        0 <= e < parent_states@.len() && 0 <= k < parent_states@[e].1@.len() ==> from_last_level(
                            init,
                            levels@,
                            pile_cards(#[trigger] parent_states@[e].1@[k]),
                        ),
                    forall|v: int|
                        0 <= v < victories@.len() ==> has_key(parent_states@, pile_cards(#[trigger] victories@[v]))
                            && spec_condition_result(condition, *cards, pile_cards(victories@[v]))
                            == VictoryConditionResult::Win,
                    forall|e: int| 0 <= e < parent_states@.len() ==> (#[trigger] parent_states@[e]).1@.len() > 0,
                    wins_listed(*cards, condition, parent_states@, victories@),
                    keys_distinct(parent_states@),
                    forall|v: int|
                        0 <= v < next@.len() ==> has_key(parent_states@, pile_cards(#[trigger] next@[v])) && search_pile(
                            *cards,
                            init,
                            pile_cards(next@[v]),
                        ),
                decreases children@.len() - k,
            {
                assert(state_ok(*cards, n, crate::engine::card_ids(state.pile_view()), state.event_view(), children@[k as int]));
                let child_pile = &children[k].pile;
                let ghost old_states = parent_states@;
                match find_entry(&parent_states, child_pile) {
                    Some(j) => {
                        let key = pile_clone(&parent_states[j].0);
                        let mut parents = clone_path(&parent_states[j].1);
                        parents.push(pile_clone(pile));
                        let ghost new_parents = parents@;
                        parent_states.set(j, (key, parents));
                        proof {
                            assert forall|e: int| 0 <= e < parent_states@.len() implies search_pile(*cards, init, pile_cards(#[trigger] parent_states@[e].0)) by {
                                if e != j {
                                    assert(parent_states@[e] == old_states[e]);
                                }
                            }
                            assert forall|e: int, kk: int|
                                0 <= e < parent_states@.len() && 0 <= kk < parent_states@[e].1@.len() implies from_last_level(
                                init,
                                levels@,
                                pile_cards(#[trigger] parent_states@[e].1@[kk]),
                            ) by {
                                if e != j {
                                    assert(parent_states@[e] == old_states[e]);
                                } else if kk < new_parents.len() - 1 {
                                    assert(pile_cards(new_parents[kk]) == pile_cards(old_states[j as int].1@[kk]));
                                }
                            }
                            assert forall|p: Seq<CardPtr>| has_key(old_states, p) implies has_key(parent_states@, p) by {
                                let jj = choose|jj: int| 0 <= jj < old_states.len() && pile_cards(#[trigger] old_states[jj].0) == p;
                                if jj != j {
                                    assert(parent_states@[jj] == old_states[jj]);
                                } else {
                                    assert(pile_cards(parent_states@[jj].0) == p);
                                }
                            }
                            assert forall|v: int| 0 <= v < victories@.len() implies has_key(parent_states@, pile_cards(#[trigger] victories@[v])) by {
                                assert(has_key(old_states, pile_cards(victories@[v])));
                            }
                            assert forall|v: int| 0 <= v < next@.len() implies has_key(parent_states@, pile_cards(#[trigger] next@[v])) by {
                                assert(has_key(old_states, pile_cards(next@[v])));
                            }
                            assert forall|e: int| 0 <= e < parent_states@.len() implies (#[trigger] parent_states@[e]).1@.len() > 0 by {
                                if e != j {
                                    assert(parent_states@[e] == old_states[e]);
                                }
                            }
                            assert forall|e: int|
                                0 <= e < parent_states@.len() && spec_condition_result(
                                    condition,
                                    *cards,
                                    pile_cards(#[trigger] parent_states@[e].0),
                                ) == VictoryConditionResult::Win implies exists|v: int|
                                0 <= v < victories@.len() && pile_cards(#[trigger] victories@[v]) == pile_cards(
                                    parent_states@[e].0,
                                ) by {
                                if e != j {
                                    assert(parent_states@[e] == old_states[e]);
                                } else {
                                    assert(pile_cards(old_states[e].0) == pile_cards(parent_states@[e].0));
                                }
                            }
                        }
                    },
                    None => {
                        let mut parents: Vec<Pile> = Vec::new();
                        parents.push(pile_clone(pile));
                        parent_states.push((pile_clone(child_pile), parents));
                        proof {
                            let last = parent_states@.len() - 1;
                            assert(pile_cards(parent_states@[last].0) == pile_cards(*child_pile));
                            assert(has_key(parent_states@, pile_cards(*child_pile)));
                            assert forall|p: Seq<CardPtr>| has_key(old_states, p) implies has_key(parent_states@, p) by {
                                let jj = choose|jj: int| 0 <= jj < old_states.len() && pile_cards(#[trigger] old_states[jj].0) == p;
                                assert(parent_states@[jj] == old_states[jj]);
                            }
                            assert forall|v: int| 0 <= v < victories@.len() implies has_key(parent_states@, pile_cards(#[trigger] victories@[v])) by {
                                assert(has_key(old_states, pile_cards(victories@[v])));
                            }
                            assert forall|v: int| 0 <= v < next@.len() implies has_key(parent_states@, pile_cards(#[trigger] next@[v])) by {
                                assert(has_key(old_states, pile_cards(next@[v])));
                            }
                            assert forall|e: int, kk: int|
                                0 <= e < parent_states@.len() && 0 <= kk < parent_states@[e].1@.len() implies from_last_level(
                                init,
                                levels@,
                                pile_cards(#[trigger] parent_states@[e].1@[kk]),
                            ) by {
                                if e < last {
                                    assert(parent_states@[e] == old_states[e]);
                                }
                            }
                        }
                        let ghost old_vics = victories@;
                        let outcome = condition.condition_result(cards, child_pile);
                        match outcome {
                            VictoryConditionResult::Win => {
                                victories.push(pile_clone(child_pile));
                            },
                            VictoryConditionResult::Loss => {},
                            VictoryConditionResult::Continue => {
                                next.push(pile_clone(child_pile));
                            },
                        }
                        proof {
                            let last = parent_states@.len() - 1;
                            assert forall|e: int| 0 <= e < parent_states@.len() implies (#[trigger] parent_states@[e]).1@.len() > 0 by {
                                if e < last {
                                    assert(parent_states@[e] == old_states[e]);
                                }
                            }
                            assert forall|e: int|
                                0 <= e < parent_states@.len() && spec_condition_result(
                                    condition,
                                    *cards,
                                    pile_cards(#[trigger] parent_states@[e].0),
                                ) == VictoryConditionResult::Win implies exists|v: int|
                                0 <= v < victories@.len() && pile_cards(#[trigger] victories@[v]) == pile_cards(
                                    parent_states@[e].0,
                                ) by {
                                if e < last {
                                    assert(parent_states@[e] == old_states[e]);
                                    let v = choose|v: int|
                                        0 <= v < old_vics.len() && pile_cards(#[trigger] old_vics[v]) == pile_cards(old_states[e].0);
                                    assert(victories@[v] == old_vics[v]);
                                } else {
                                    assert(outcome == VictoryConditionResult::Win);
                                    assert(pile_cards(victories@[victories@.len() - 1]) == pile_cards(*child_pile));
                                }
                            }
                        }
                    },
                }
                k += 1;
            }
        }
        let ghost before_levels = levels@;
        let ghost last_level = parent_states@;
        levels.push(parent_states);
        turn_number += 1;
        proof {
            assert(levels@ == before_levels.push(levels@.last()));
            assert(levels@.last()@ == last_level);
            assert forall|i: int, j: int|
                0 <= i < levels@.len() && 0 <= j < levels@[i]@.len() implies (#[trigger] levels@[i]@[j]).1@.len() > 0 by {
                if i < before_levels.len() {
                    assert(levels@[i] == before_levels[i]);
                }
            }
            assert forall|i: int, j: int|
                0 <= i < levels@.len() && 0 <= j < levels@[i]@.len() implies search_pile(
                *cards,
                init,
                pile_cards(#[trigger] levels@[i]@[j].0),
            ) by {
                if i < before_levels.len() {
                    assert(levels@[i] == before_levels[i]);
                }
            }
            assert forall|i: int, j: int, k: int|
                0 <= i < levels@.len() && 0 <= j < levels@[i]@.len() && 0 <= k < levels@[i]@[j].1@.len() implies {
                let parent = pile_cards(#[trigger] levels@[i]@[j].1@[k]);
                if i == 0 {
                    parent == init
                } else {
                    has_key(levels@[i - 1]@, parent)
                }
            } by {
                if i < before_levels.len() {
                    assert(levels@[i] == before_levels[i]);
                    if i > 0 {
                        assert(levels@[i - 1] == before_levels[i - 1]);
                    }
                } else {
                    assert(from_last_level(init, before_levels, pile_cards(levels@[i]@[j].1@[k])));
                    if i > 0 {
                        assert(levels@[i - 1] == before_levels[i - 1]);
                    }
                }
            }
        }
        let finished = match turns {
            Some(t) => turn_number >= t,
            None => false,
        };
        if victories.len() > 0 && (turns.is_none() || finished) {
            let mut v: usize = 0;
            while v < victories.len()
                invariant
                    levels@.len() == turn_number,
                    turn_number >= 1,
                    turn_number <= limit,
                    turns matches Some(t) ==> limit == (if t == 0 { 1 } else { t }) && turn_number >= t,
                    turns is None ==> limit == SEARCH_TURN_LIMIT,
                    levels_linked(*cards, init, levels@),
                    search_pile(*cards, init, init),
                    n == init.len(),
                    init == pile_cards(*init_pile),
                    forall|w: int|
                        0 <= w < victories@.len() ==> has_key(levels@[turn_number - 1]@, pile_cards(#[trigger] victories@[w]))
                            && spec_condition_result(condition, *cards, pile_cards(victories@[w]))
                            == VictoryConditionResult::Win,
                    wins_listed(*cards, condition, levels@[turn_number - 1]@, victories@),
                    v <= victories@.len(),
                    forall|w: int, c: Seq<Seq<CardPtr>>|
                        0 <= w < v && #[trigger] chain_ok(levels@, turn_number as nat, c) && c[0] == pile_cards(
                            #[trigger] victories@[w],
                        ) ==> has_path(result@, c),
                    forall|w: int|
                        0 <= w < v ==> exists|s: int|
                            0 <= s < result@.len() && (#[trigger] result@[s])@.len() > 0 && pile_cards(result@[s]@[0])
                                == pile_cards(#[trigger] victories@[w]),
                    forall|s: int|
                        0 <= s < result@.len() ==> has_key(levels@[turn_number - 1]@, pile_cards((#[trigger] result@[s])@[0])),
                    forall|s: int|
                        0 <= s < result@.len() ==> {
                            let q = (#[trigger] result@[s])@;
                            &&& q.len() == turn_number + 1
                            &&& pile_cards(q[q.len() - 1]) == init
                            &&& spec_condition_result(condition, *cards, pile_cards(q[0])) == VictoryConditionResult::Win
                            &&& forall|i: int| 0 <= i < q.len() ==> search_pile(*cards, init, pile_cards(#[trigger] q[i]))
                        },
                decreases victories@.len() - v,
            {
                let paths = unwrap_solutions(cards, &victories[v], turn_number, Vec::new(), &levels, Ghost(init));
                let ghost res_before = result@;
                let mut m: usize = 0;
                while m < paths.len()
                    invariant
                        forall|s: int|
                            0 <= s < paths@.len() ==> continues(
                                *cards,
                                init,
                                (#[trigger] paths@[s])@,
                                Seq::<Pile>::empty(),
                                pile_cards(victories@[v as int]),
                                turn_number as nat,
                            ),
                        v < victories@.len(),
                        spec_condition_result(condition, *cards, pile_cards(victories@[v as int]))
                            == VictoryConditionResult::Win,
                        has_key(levels@[turn_number - 1]@, pile_cards(victories@[v as int])),
                        paths@.len() > 0,
                        m <= paths@.len(),
                        forall|w: int, c: Seq<Seq<CardPtr>>|
                            0 <= w < v && #[trigger] chain_ok(levels@, turn_number as nat, c) && c[0] == pile_cards(
                                #[trigger] victories@[w],
                            ) ==> has_path(res_before, c),
                        forall|c: Seq<Seq<CardPtr>>|
                            #[trigger] chain_ok(levels@, turn_number as nat, c) && c[0] == pile_cards(victories@[v as int])
                                ==> has_path(paths@, piles_of(Seq::<Pile>::empty()) + c),
                        result@.len() == res_before.len() + m,
                        forall|t: int| 0 <= t < m ==> piles_of(result@[res_before.len() + t]@) == piles_of((#[trigger] paths@[t])@),
                        res_before.len() <= result@.len(),
                        forall|s: int| 0 <= s < res_before.len() ==> result@[s] == res_before[s],
                        m == 0 ==> result@.len() == res_before.len(),
                        m > 0 ==> result@.len() > res_before.len() && result@[res_before.len() as int]@.len() > 0
                            && pile_cards(result@[res_before.len() as int]@[0]) == pile_cards(victories@[v as int]),
                        forall|s: int|
                            0 <= s < result@.len() ==> has_key(levels@[turn_number - 1]@, pile_cards((#[trigger] result@[s])@[0])),
                        levels_linked(*cards, init, levels@),
                        levels@.len() == turn_number,
                        turn_number >= 1,
                        search_pile(*cards, init, init),
                        n == init.len(),
                        init == pile_cards(*init_pile),
                        forall|s: int|
                            0 <= s < result@.len() ==> {
                                let q = (#[trigger] result@[s])@;
                                &&& q.len() == turn_number + 1
                                &&& pile_cards(q[q.len() - 1]) == init
                                &&& spec_condition_result(condition, *cards, pile_cards(q[0])) == VictoryConditionResult::Win
                                &&& forall|i: int| 0 <= i < q.len() ==> search_pile(*cards, init, pile_cards(#[trigger] q[i]))
                            },
                    decreases paths@.len() - m,
                {
                    let q = clone_path(&paths[m]);
                    proof {
                        let old_q = paths@[m as int]@;
                        assert(continues(*cards, init, old_q, Seq::<Pile>::empty(), pile_cards(victories@[v as int]), turn_number as nat));
                        let jj = choose|jj: int| 0 <= jj < levels@[turn_number - 1]@.len() && pile_cards(#[trigger] levels@[turn_number - 1]@[jj].0) == pile_cards(victories@[v as int]);
                        assert(search_pile(*cards, init, pile_cards(levels@[turn_number - 1]@[jj].0)));
                        assert forall|i: int| 0 <= i < q@.len() implies search_pile(*cards, init, pile_cards(#[trigger] q@[i])) by {
                            assert(pile_cards(q@[i]) == pile_cards(old_q[i]));
                        }
                        assert(pile_cards(q@[q@.len() - 1]) == pile_cards(old_q[old_q.len() - 1]));
                        assert(pile_cards(q@[0]) == pile_cards(old_q[0]));
                        assert(pile_cards(q@[0]) == pile_cards(victories@[v as int]));
                        assert(piles_of(q@) =~= piles_of(paths@[m as int]@));
                    }
                    result.push(q);
                    m += 1;
                }
                v += 1;
                proof {
                    assert forall|w: int, c: Seq<Seq<CardPtr>>|
                        0 <= w < v && #[trigger] chain_ok(levels@, turn_number as nat, c) && c[0] == pile_cards(
                            #[trigger] victories@[w],
                        ) implies has_path(result@, c) by {
                        if w < v - 1 {
                            lemma_has_path_grow(res_before, result@, c);
                        } else {
                            assert(piles_of(Seq::<Pile>::empty()) + c =~= c);
                            let t = choose|t: int| 0 <= t < paths@.len() && #[trigger] piles_of(paths@[t]@) == piles_of(Seq::<Pile>::empty()) + c;
                            assert(piles_of(result@[res_before.len() + t]@) == piles_of(paths@[t]@));
                            assert(piles_of(result@[res_before.len() + t]@) == c);
                            assert(0 <= res_before.len() + t < result@.len());
                        }
                    }
                    assert forall|w: int| 0 <= w < v implies exists|s: int|
                        0 <= s < result@.len() && (#[trigger] result@[s])@.len() > 0 && pile_cards(result@[s]@[0])
                            == pile_cards(#[trigger] victories@[w]) by {
                        if w < v - 1 {
                            let s = choose|s: int|
                                0 <= s < res_before.len() && (#[trigger] res_before[s])@.len() > 0 && pile_cards(
                                    res_before[s]@[0],
                                ) == pile_cards(victories@[w]);
                            assert(result@[s] == res_before[s]);
                        } else {
                            assert(result@[res_before.len() as int]@.len() > 0);
                        }
                    }
                }
            }
            proof {
                let lvl = levels@.last()@;
                assert(levels@[turn_number - 1] == levels@.last());
                assert forall|j: int|
                    0 <= j < lvl.len() && spec_condition_result(condition, *cards, pile_cards(#[trigger] lvl[j].0))
                        == VictoryConditionResult::Win implies exists|s: int|
                    0 <= s < result@.len() && (#[trigger] result@[s])@.len() > 0 && pile_cards(result@[s]@[0])
                        == pile_cards(lvl[j].0) by {
                    let w = choose|w: int| 0 <= w < victories@.len() && pile_cards(#[trigger] victories@[w]) == pile_cards(lvl[j].0);
                    assert(0 <= w < v);
                }
            }
            return (result, levels);
        }
        proof {
            assert(levels@[turn_number - 1] == levels@.last());
        }
        if finished {
            return (result, levels);
        }
        current = next;
        proof {
            assert forall|c: int| 0 <= c < current@.len() implies search_pile(*cards, init, pile_cards(#[trigger] current@[c]))
                && from_last_level(init, levels@, pile_cards(current@[c])) by {
                assert(has_key(levels@[levels@.len() - 1]@, pile_cards(current@[c])));
            }
        }
    }
    (result, levels)
}

/// The events of one turn from `parent` that ends at `child`, the first
/// such turn in the order the turn's outcomes come; `None` when no turn
/// from `parent` ends at `child`. These are the steps shown between two
/// piles of a path of the search.
pub fn print_steps_between_piles(cards: &CardDefs, parent: &Pile, child: &Pile) -> (r: Option<Vec<Event>>)
    requires
        cards.wf(),
        pile_ruled(*cards, pile_cards(*parent)),
        pile_cards(*parent).len() >= 1,
    ensures
        r matches Some(events) ==> events@.len() > 0 && events@.last() == Event::BottomCard,
        r is Some ==> pile_cards(*child).len() == pile_cards(*parent).len() && pile_ruled(*cards, pile_cards(*child))
            && card_ids(pile_cards(*child)) == card_ids(pile_cards(*parent)),
{
    let state = GameStateWithEventLog::new(pile_clone(parent));
    let outcomes = resolve_top_card(cards, &state);
    let mut k: usize = 0;
    while k < outcomes.len()
        invariant
            forall|j: int|
                0 <= j < outcomes@.len() ==> (#[trigger] outcomes@[j]).events@.len() > 0
                    && outcomes@[j].events@.last() == Event::BottomCard,
            crate::engine::all_ok(*cards, pile_cards(*parent).len(), card_ids(state.pile_view()), state.event_view(), outcomes@),
            state.pile_view() == pile_cards(*parent),
        decreases outcomes@.len() - k,
    {
        if pile_eq(&outcomes[k].pile, child) {
            assert(state_ok(*cards, pile_cards(*parent).len(), card_ids(state.pile_view()), state.event_view(), outcomes@[k as int]));
            let found = outcomes[k].clone_state();
            return Some(found.events);
        }
        k += 1;
    }
    None
}

} // verus!
