use vstd::prelude::*;

use crate::keys::{key_label, Key};

verus! {

/// A user intent: quit the session, type one character, or delete the last
/// typed character. The characters that may be typed form a fixed alphabet
/// (letters, space, period and apostrophe).
#[derive(Debug, Clone, Copy, PartialEq, Eq, Structural)]
pub enum Action {
    Quit,
    Typing(char),
    BackwardDeleteChar,
}

/// The supported typing alphabet: ASCII letters, space, period, apostrophe.
pub open spec fn is_typable(c: char) -> bool {
    ||| 'a' as int <= c as int <= 'z' as int
    ||| 'A' as int <= c as int <= 'Z' as int
    ||| c == ' '
    ||| c == '.'
    ||| c == '\''
}

/// An action is well formed when any character it carries lies in the
/// supported alphabet.
pub open spec fn action_supported(a: Action) -> bool {
    a matches Action::Typing(c) ==> is_typable(c)
}

/// The single chord each action is bound to.
pub open spec fn key_of(a: Action) -> Key {
    match a {
        Action::Quit => Key::Ctrl('c'),
        Action::Typing(c) => Key::Char(c),
        Action::BackwardDeleteChar => Key::Backspace,
    }
}

/// Distinct actions are bound to distinct chords: the binding map is
/// unambiguous by construction, so a chord resolves to at most one action.
pub proof fn lemma_key_of_injective(a1: Action, a2: Action)
    ensures
        key_of(a1) == key_of(a2) ==> a1 == a2,
{
}

/// Every action of the closed action universe, in a fixed order: quit first,
/// then one typing action per alphabet character, then delete-last-char.
pub open spec fn all_actions() -> Seq<Action> {
    seq![
        Action::Quit,
        Action::Typing('a'),
        Action::Typing('b'),
        Action::Typing('c'),
        Action::Typing('d'),
        Action::Typing('e'),
        Action::Typing('f'),
        Action::Typing('g'),
        Action::Typing('h'),
        Action::Typing('i'),
        Action::Typing('j'),
        Action::Typing('k'),
        Action::Typing('l'),
        Action::Typing('m'),
        Action::Typing('n'),
        Action::Typing('o'),
        Action::Typing('p'),
        Action::Typing('q'),
        Action::Typing('r'),
        Action::Typing('s'),
        Action::Typing('t'),
        Action::Typing('u'),
        Action::Typing('v'),
        Action::Typing('w'),
        Action::Typing('x'),
        Action::Typing('y'),
        Action::Typing('z'),
        Action::Typing('A'),
        Action::Typing('B'),
        Action::Typing('C'),
        Action::Typing('D'),
        Action::Typing('E'),
        Action::Typing('F'),
        Action::Typing('G'),
        Action::Typing('H'),
        Action::Typing('I'),
        Action::Typing('J'),
        Action::Typing('K'),
        Action::Typing('L'),
        Action::Typing('M'),
        Action::Typing('N'),
        Action::Typing('O'),
        Action::Typing('P'),
        Action::Typing('Q'),
        Action::Typing('R'),
        Action::Typing('S'),
        Action::Typing('T'),
        Action::Typing('U'),
        Action::Typing('V'),
        Action::Typing('W'),
        Action::Typing('X'),
        Action::Typing('Y'),
        Action::Typing('Z'),
        Action::Typing(' '),
        Action::Typing('.'),
        Action::Typing('\''),
        Action::BackwardDeleteChar,
    ]
}

/// Every action of the closed universe is well formed.
pub proof fn lemma_all_actions_supported()
    ensures
        forall|i: int|
            0 <= i < all_actions().len() ==> action_supported(#[trigger] all_actions()[i]),
{
}

/// No two distinct actions of the closed universe share a chord.
pub proof fn lemma_all_actions_distinct_keys()
    ensures
        forall|i: int, j: int|
            0 <= i < j < all_actions().len() ==> key_of(#[trigger] all_actions()[i]) != key_of(
                #[trigger] all_actions()[j],
            ),
{
}

impl Action {
    /// The chords bound to this action (always exactly one).
    pub fn keys(&self) -> (r: Vec<Key>)
        requires
            action_supported(*self),
        ensures
            r@ =~= seq![key_of(*self)],
    {
        match self {
            Action::Quit => vec![Key::Ctrl('c')],
            Action::Typing(c) => vec![Key::Char(*c)],
            Action::BackwardDeleteChar => vec![Key::Backspace],
        }
    }

    /// Every action of the closed universe, in its fixed order.
    pub fn iterator() -> (r: Vec<Action>)
        ensures
            r@ =~= all_actions(),
    {
        vec![
            Action::Quit,
            Action::Typing('a'),
            Action::Typing('b'),
            Action::Typing('c'),
            Action::Typing('d'),
            Action::Typing('e'),
            Action::Typing('f'),
            Action::Typing('g'),
            Action::Typing('h'),
            Action::Typing('i'),
            Action::Typing('j'),
            Action::Typing('k'),
            Action::Typing('l'),
            Action::Typing('m'),
            Action::Typing('n'),
            Action::Typing('o'),
            Action::Typing('p'),
            Action::Typing('q'),
            Action::Typing('r'),
            Action::Typing('s'),
            Action::Typing('t'),
            Action::Typing('u'),
            Action::Typing('v'),
            Action::Typing('w'),
            Action::Typing('x'),
            Action::Typing('y'),
            Action::Typing('z'),
            Action::Typing('A'),
            Action::Typing('B'),
            Action::Typing('C'),
            Action::Typing('D'),
            Action::Typing('E'),
            Action::Typing('F'),
            Action::Typing('G'),
            Action::Typing('H'),
            Action::Typing('I'),
            Action::Typing('J'),
            Action::Typing('K'),
            Action::Typing('L'),
            Action::Typing('M'),
            Action::Typing('N'),
            Action::Typing('O'),
            Action::Typing('P'),
            Action::Typing('Q'),
            Action::Typing('R'),
            Action::Typing('S'),
            Action::Typing('T'),
            Action::Typing('U'),
            Action::Typing('V'),
            Action::Typing('W'),
            Action::Typing('X'),
            Action::Typing('Y'),
            Action::Typing('Z'),
            Action::Typing(' '),
            Action::Typing('.'),
            Action::Typing('\''),
            Action::BackwardDeleteChar,
        ]
    }

    /// The chord this action is bound to.
    fn chord(&self) -> (k: Key)
        ensures
            k == key_of(*self),
    {
        match self {
            Action::Quit => Key::Ctrl('c'),
            Action::Typing(c) => Key::Char(*c),
            Action::BackwardDeleteChar => Key::Backspace,
        }
    }

    /// Whether this action is well formed.
    fn supported(&self) -> (r: bool)
        ensures
            r == action_supported(*self),
    {
        match self {
            Action::Typing(c) => {
                let u = *c as u32;
                (97 <= u && u <= 122) || (65 <= u && u <= 90) || *c == ' ' || *c == '.' || *c
                    == '\''
            },
            _ => true,
        }
    }
}

/// The actions of `s` bound to chord `k`, in order, with multiplicity.
pub open spec fn bound_to(s: Seq<Action>, k: Key) -> Seq<Action>
    decreases s.len(),
{
    if s.len() == 0 {
        Seq::empty()
    } else if key_of(s.last()) == k {
        bound_to(s.drop_last(), k).push(s.last())
    } else {
        bound_to(s.drop_last(), k)
    }
}

/// An action set is conflict free when no two of its entries (distinct
/// positions, equal or distinct actions) are bound to the same chord.
pub open spec fn conflict_free(s: Seq<Action>) -> bool {
    forall|i: int, j: int| 0 <= i < j < s.len() ==> key_of(s[i]) != key_of(s[j])
}

proof fn lemma_bound_to_push(s: Seq<Action>, a: Action, k: Key)
    ensures
        bound_to(s.push(a), k) == if key_of(a) == k {
            bound_to(s, k).push(a)
        } else {
            bound_to(s, k)
        },
{
    assert(s.push(a).drop_last() =~= s);
    assert(s.push(a).last() == a);
}

proof fn lemma_bound_to_one(s: Seq<Action>, k: Key, i: int)
    requires
        0 <= i < s.len(),
        key_of(s[i]) == k,
    ensures
        bound_to(s, k).len() >= 1,
    decreases s.len(),
{
    if i < s.len() - 1 {
        lemma_bound_to_one(s.drop_last(), k, i);
    }
}

proof fn lemma_bound_to_two(s: Seq<Action>, k: Key, i: int, j: int)
    requires
        0 <= i < j < s.len(),
        key_of(s[i]) == k,
        key_of(s[j]) == k,
    ensures
        bound_to(s, k).len() >= 2,
    decreases s.len(),
{
    if j == s.len() - 1 {
        lemma_bound_to_one(s.drop_last(), k, i);
    } else {
        lemma_bound_to_two(s.drop_last(), k, i, j);
    }
}

proof fn lemma_bound_to_one_exists(s: Seq<Action>, k: Key)
    requires
        bound_to(s, k).len() >= 1,
    ensures
        exists|i: int| 0 <= i < s.len() && key_of(#[trigger] s[i]) == k,
    decreases s.len(),
{
    if s.len() > 0 {
        if key_of(s.last()) == k {
            assert(key_of(s[s.len() - 1]) == k);
        } else {
            lemma_bound_to_one_exists(s.drop_last(), k);
        }
    }
}

proof fn lemma_bound_to_two_exists(s: Seq<Action>, k: Key)
    requires
        bound_to(s, k).len() >= 2,
    ensures
        !conflict_free(s),
    decreases s.len(),
{
    if s.len() > 0 {
        if key_of(s.last()) == k {
            lemma_bound_to_one_exists(s.drop_last(), k);
            let i = choose|i: int|
                0 <= i < s.drop_last().len() && key_of(#[trigger] s.drop_last()[i]) == k;
            assert(key_of(s[i]) == k);
            assert(key_of(s[s.len() - 1]) == k);
        } else {
            lemma_bound_to_two_exists(s.drop_last(), k);
            let (i, j) = choose|i: int, j: int|
                0 <= i < j < s.drop_last().len() && key_of(#[trigger] s.drop_last()[i]) == key_of(
                    #[trigger] s.drop_last()[j],
                );
            assert(key_of(s[i]) == key_of(s[j]));
        }
    }
}

/// An action set is conflict free exactly when no chord has two or more
/// entries bound to it.
pub proof fn lemma_conflict_free_iff_bound(s: Seq<Action>)
    ensures
        conflict_free(s) <==> forall|k: Key| #[trigger] bound_to(s, k).len() <= 1,
{
    if conflict_free(s) {
        assert forall|k: Key| #[trigger] bound_to(s, k).len() <= 1 by {
            if bound_to(s, k).len() >= 2 {
                lemma_bound_to_two_exists(s, k);
            }
        }
    }
    if forall|k: Key| #[trigger] bound_to(s, k).len() <= 1 {
        assert forall|i: int, j: int| 0 <= i < j < s.len() implies key_of(s[i]) != key_of(
            s[j],
        ) by {
            if key_of(s[i]) == key_of(s[j]) {
                lemma_bound_to_two(s, key_of(s[i]), i, j);
            }
        }
    }
}

/// One chord together with every entry of an action set bound to it.
#[derive(Debug, Clone)]
pub struct ChordBinding {
    pub key: Key,
    pub actions: Vec<Action>,
}

/// A failed registry construction: for every chord bound more than once, the
/// chord and all the actions colliding on it.
#[derive(Debug, Clone)]
pub struct ConflictError {
    pub conflicts: Vec<ChordBinding>,
}

/// The bindings of `gs` on whose chord at least two entries collide, in order.
pub open spec fn conflicts_of(gs: Seq<ChordBinding>) -> Seq<ChordBinding>
    decreases gs.len(),
{
    if gs.len() == 0 {
        Seq::empty()
    } else if gs.first().actions@.len() >= 2 {
        seq![gs.first()] + conflicts_of(gs.drop_first())
    } else {
        conflicts_of(gs.drop_first())
    }
}

proof fn lemma_conflicts_of_membership(gs: Seq<ChordBinding>)
    ensures
        forall|c: int|
            0 <= c < conflicts_of(gs).len() ==> gs.contains(#[trigger] conflicts_of(gs)[c])
                && conflicts_of(gs)[c].actions@.len() >= 2,
        forall|g: int|
            0 <= g < gs.len() && (#[trigger] gs[g]).actions@.len() >= 2 ==> conflicts_of(
                gs,
            ).contains(gs[g]),
    decreases gs.len(),
{
    if gs.len() > 0 {
        let rest = gs.drop_first();
        lemma_conflicts_of_membership(rest);
        assert forall|c: int|
            0 <= c < conflicts_of(gs).len() implies gs.contains(#[trigger] conflicts_of(gs)[c])
            && conflicts_of(gs)[c].actions@.len() >= 2 by {
            let shift: int = if gs.first().actions@.len() >= 2 {
                1
            } else {
                0
            };
            if shift == 1 && c == 0 {
                assert(gs[0] == conflicts_of(gs)[0]);
            } else {
                assert(conflicts_of(gs)[c] == conflicts_of(rest)[c - shift]);
                assert(rest.contains(conflicts_of(rest)[c - shift]));
                let r = choose|r: int| 0 <= r < rest.len() && rest[r] == conflicts_of(gs)[c];
                assert(gs[r + 1] == conflicts_of(gs)[c]);
            }
        }
        assert forall|g: int|
            0 <= g < gs.len() && (#[trigger] gs[g]).actions@.len() >= 2 implies conflicts_of(
            gs,
        ).contains(gs[g]) by {
            if g == 0 {
                assert(conflicts_of(gs)[0] == gs[0]);
            } else {
                assert(rest[g - 1] == gs[g]);
                assert(conflicts_of(rest).contains(gs[g]));
                let c = choose|c: int|
                    0 <= c < conflicts_of(rest).len() && conflicts_of(rest)[c] == gs[g];
                let shift: int = if gs.first().actions@.len() >= 2 {
                    1
                } else {
                    0
                };
                assert(conflicts_of(gs)[c + shift] == gs[g]);
            }
        }
    }
}

proof fn lemma_conflicts_of_distinct_keys(gs: Seq<ChordBinding>)
    requires
        forall|g1: int, g2: int|
            0 <= g1 < g2 < gs.len() ==> (#[trigger] gs[g1]).key != (#[trigger] gs[g2]).key,
    ensures
        forall|c1: int, c2: int|
            0 <= c1 < c2 < conflicts_of(gs).len() ==> (#[trigger] conflicts_of(gs)[c1]).key
                != (#[trigger] conflicts_of(gs)[c2]).key,
    decreases gs.len(),
{
    if gs.len() > 0 {
        let rest = gs.drop_first();
        assert(forall|r1: int, r2: int|
            0 <= r1 < r2 < rest.len() ==> (#[trigger] rest[r1]).key != (#[trigger] rest[r2]).key);
        lemma_conflicts_of_distinct_keys(rest);
        lemma_conflicts_of_membership(rest);
        assert forall|c1: int, c2: int|
            0 <= c1 < c2 < conflicts_of(gs).len() implies (#[trigger] conflicts_of(gs)[c1]).key
            != (#[trigger] conflicts_of(gs)[c2]).key by {
            if gs.first().actions@.len() >= 2 {
                if c1 == 0 {
                    assert(conflicts_of(gs)[c2] == conflicts_of(rest)[c2 - 1]);
                    assert(rest.contains(conflicts_of(rest)[c2 - 1]));
                    let r = choose|r: int|
                        0 <= r < rest.len() && rest[r] == conflicts_of(gs)[c2];
                    assert(gs[r + 1] == conflicts_of(gs)[c2]);
                    assert(gs[0].key != gs[r + 1].key);
                } else {
                    assert(conflicts_of(gs)[c1] == conflicts_of(rest)[c1 - 1]);
                    assert(conflicts_of(gs)[c2] == conflicts_of(rest)[c2 - 1]);
                }
            } else {
                assert(conflicts_of(gs)[c1] == conflicts_of(rest)[c1]);
                assert(conflicts_of(gs)[c2] == conflicts_of(rest)[c2]);
            }
        }
    }
}

/// An ordered action set, the key-binding registry: chords are resolved
/// against it, and `build` refuses a set in which two entries share a chord.
#[derive(Debug, Clone)]
pub struct Actions(Vec<Action>);

impl View for Actions {
    type V = Seq<Action>;

    closed spec fn view(&self) -> Seq<Action> {
        self.0@
    }
}

impl Default for Actions {
    /// The empty action set: no chord resolves against it.
    fn default() -> (r: Self)
        ensures
            r@ == Seq::<Action>::empty(),
    {
        Actions(Vec::new())
    }
}

impl Actions {
    /// The actions of the set, in order.
    pub fn actions(&self) -> (r: &[Action])
        ensures
            r@ == self@,
    {
        self.0.as_slice()
    }

    /// Resolves a chord to the well-formed action of the set bound to it, or
    /// nothing when no action of the set is bound to it. Pure lookup: no
    /// partial match, no modifier fallback.
    pub fn find(&self, key: Key) -> (r: Option<&Action>)
        ensures
            match r {
                Some(a) => self@.contains(*a) && action_supported(*a) && key_of(*a) == key,
                None => forall|a: Action|
                    #[trigger] self@.contains(a) && action_supported(a) ==> key_of(a) != key,
            },
    {
        let n = self.0.len();
        let mut idx: usize = 0;
        while idx < n
            invariant
                n == self@.len(),
                idx <= n,
                forall|m: int|
                    0 <= m < idx ==> !(action_supported(#[trigger] self@[m]) && key_of(self@[m])
                        == key),
            decreases n - idx,
        {
            let a = &self.0[idx];
            if a.supported() && a.chord() == key {
                return Some(a);
            }
            idx = idx + 1;
        }
        proof {
            assert forall|a: Action|
                #[trigger] self@.contains(a) && action_supported(a) implies key_of(a) != key by {
                let m = choose|m: int| 0 <= m < self@.len() && self@[m] == a;
                assert(!(action_supported(self@[m]) && key_of(self@[m]) == key));
            }
        }
        None
    }

    /// Derives the chord-to-action mapping for an ordered action set. Returns
    /// the registry exactly when no two entries share a chord; otherwise fails
    /// with a report that enumerates every conflicting chord together with all
    /// the actions colliding on it.
    #[verifier::rlimit(50)]
    pub fn build(actions: Vec<Action>) -> (r: Result<Actions, ConflictError>)
        ensures
            match r {
                Ok(reg) => conflict_free(actions@) && reg@ == actions@,
                Err(e) => {
                    &&& !conflict_free(actions@)
                    &&& forall|c: int|
                        0 <= c < e.conflicts@.len() ==> {
                            &&& (#[trigger] e.conflicts@[c]).actions@ == bound_to(
                                actions@,
                                e.conflicts@[c].key,
                            )
                            &&& e.conflicts@[c].actions@.len() >= 2
                        }
                    &&& forall|c1: int, c2: int|
                        0 <= c1 < c2 < e.conflicts@.len() ==> (#[trigger] e.conflicts@[c1]).key
                            != (#[trigger] e.conflicts@[c2]).key
                    &&& forall|k: Key|
                        #[trigger] bound_to(actions@, k).len() >= 2 ==> exists|c: int|
                            0 <= c < e.conflicts@.len() && (#[trigger] e.conflicts@[c]).key == k
                },
            },
    {
        let n = actions.len();
        let mut groups: Vec<ChordBinding> = Vec::new();
        let mut idx: usize = 0;
        while idx < n
            invariant
                n == actions@.len(),
                idx <= n,
                forall|g1: int, g2: int|
                    0 <= g1 < g2 < groups@.len() ==> (#[trigger] groups@[g1]).key
                        != (#[trigger] groups@[g2]).key,
                forall|g: int|
                    0 <= g < groups@.len() ==> {
                        &&& (#[trigger] groups@[g]).actions@ == bound_to(
                            actions@.take(idx as int),
                            groups@[g].key,
                        )
                        &&& groups@[g].actions@.len() >= 1
                    },
                forall|k: Key|
                    #[trigger] bound_to(actions@.take(idx as int), k).len() >= 1 ==> exists|g: int|
                        0 <= g < groups@.len() && (#[trigger] groups@[g]).key == k,
            decreases n - idx,
        {
            let a = actions[idx];
            let k = a.chord();
            let ghost prefix = actions@.take(idx as int);
            proof {
                assert(actions@.take(idx as int + 1) =~= prefix.push(actions@[idx as int]));
            }
            let gn = groups.len();
            let mut g: usize = 0;
            let mut found = false;
            while g < gn
                invariant_except_break
                    !found,
                    g <= gn,
                    gn == groups@.len(),
                    forall|h: int| 0 <= h < g ==> (#[trigger] groups@[h]).key != k,
                ensures
                    gn == groups@.len(),
                    found ==> g < gn && groups@[g as int].key == k,
                    !found ==> forall|h: int| 0 <= h < gn ==> (#[trigger] groups@[h]).key != k,
                decreases gn - g,
            {
                if groups[g].key == k {
                    found = true;
                    break ;
                }
                g = g + 1;
            }
            if found {
                let ghost old_groups = groups@;
                groups[g].actions.push(a);
                proof {
                    assert(groups@.len() == old_groups.len());
                    assert(groups@[g as int].key == old_groups[g as int].key);
                    assert(groups@[g as int].actions@ == old_groups[g as int].actions@.push(a));
                    assert(forall|h: int|
                        0 <= h < old_groups.len() && h != g ==> groups@[h] == old_groups[h]);
                    assert forall|g2: int| 0 <= g2 < groups@.len() implies {
                        &&& (#[trigger] groups@[g2]).actions@ == bound_to(
                            actions@.take(idx as int + 1),
                            groups@[g2].key,
                        )
                        &&& groups@[g2].actions@.len() >= 1
                    } by {
                        lemma_bound_to_push(prefix, actions@[idx as int], groups@[g2].key);
                        if g2 != g {
                            assert(groups@[g2] == old_groups[g2]);
                            assert(groups@[g2].key != k);
                        }
                    }
                    assert forall|k2: Key|
                        #[trigger] bound_to(actions@.take(idx as int + 1), k2).len()
                            >= 1 implies exists|g2: int|
                        0 <= g2 < groups@.len() && (#[trigger] groups@[g2]).key == k2 by {
                        lemma_bound_to_push(prefix, actions@[idx as int], k2);
                        if k2 == k {
                            assert(groups@[g as int].key == k2);
                        } else {
                            assert(bound_to(prefix, k2).len() >= 1);
                            let g2 = choose|g2: int|
                                0 <= g2 < old_groups.len() && (#[trigger] old_groups[g2]).key == k2;
                            assert(groups@[g2].key == k2);
                        }
                    }
                }
            } else {
                let ghost old_groups = groups@;
                let single = vec![a];
                groups.push(ChordBinding { key: k, actions: single });
                proof {
                    let gl = groups@.len() - 1;
                    assert(groups@[gl].key == k);
                    assert(groups@[gl].actions@ =~= seq![a]);
                    assert(forall|h: int| 0 <= h < gl ==> groups@[h] == old_groups[h]);
                    if bound_to(prefix, k).len() >= 1 {
                        let gw = choose|gw: int|
                            0 <= gw < old_groups.len() && (#[trigger] old_groups[gw]).key == k;
                        assert(false);
                    }
                    assert(bound_to(prefix, k) =~= Seq::<Action>::empty());
                    assert forall|g2: int| 0 <= g2 < groups@.len() implies {
                        &&& (#[trigger] groups@[g2]).actions@ == bound_to(
                            actions@.take(idx as int + 1),
                            groups@[g2].key,
                        )
                        &&& groups@[g2].actions@.len() >= 1
                    } by {
                        lemma_bound_to_push(prefix, actions@[idx as int], groups@[g2].key);
                        if g2 < gl {
                            assert(groups@[g2] == old_groups[g2]);
                            assert(groups@[g2].key != k);
                        } else {
                            assert(bound_to(actions@.take(idx as int + 1), k) =~= seq![a]);
                        }
                    }
                    assert forall|k2: Key|
                        #[trigger] bound_to(actions@.take(idx as int + 1), k2).len()
                            >= 1 implies exists|g2: int|
                        0 <= g2 < groups@.len() && (#[trigger] groups@[g2]).key == k2 by {
                        lemma_bound_to_push(prefix, actions@[idx as int], k2);
                        if k2 == k {
                            assert(groups@[gl].key == k2);
                        } else {
                            let g2 = choose|g2: int|
                                0 <= g2 < old_groups.len() && (#[trigger] old_groups[g2]).key == k2;
                            assert(groups@[g2].key == k2);
                        }
                    }
                }
            }
            idx = idx + 1;
        }
        proof {
            assert(actions@.take(n as int) =~= actions@);
        }
        let ghost all_groups = groups@;
        let mut conflicts: Vec<ChordBinding> = Vec::new();
        while groups.len() > 0
            invariant
                conflicts@ + conflicts_of(groups@) =~= conflicts_of(all_groups),
                forall|g1: int, g2: int|
                    0 <= g1 < g2 < all_groups.len() ==> (#[trigger] all_groups[g1]).key
                        != (#[trigger] all_groups[g2]).key,
                forall|g: int|
                    0 <= g < all_groups.len() ==> {
                        &&& (#[trigger] all_groups[g]).actions@ == bound_to(
                            actions@,
                            all_groups[g].key,
                        )
                        &&& all_groups[g].actions@.len() >= 1
                    },
                forall|k: Key|
                    #[trigger] bound_to(actions@, k).len() >= 1 ==> exists|g: int|
                        0 <= g < all_groups.len() && (#[trigger] all_groups[g]).key == k,
            decreases groups@.len(),
        {
            let ghost before = groups@;
            let ghost conflicts_before = conflicts@;
            let entry = groups.remove(0);
            proof {
                assert(before.first() == entry);
                assert(before.drop_first() =~= groups@);
            }
            if entry.actions.len() >= 2 {
                conflicts.push(entry);
                proof {
                    assert(conflicts_of(before) =~= seq![entry] + conflicts_of(groups@));
                    assert(conflicts@ =~= conflicts_before + seq![entry]);
                    assert(conflicts@ + conflicts_of(groups@) =~= conflicts_before + conflicts_of(
                        before,
                    ));
                }
            } else {
                proof {
                    assert(conflicts_of(before) =~= conflicts_of(groups@));
                }
            }
        }
        proof {
            assert(groups@ =~= Seq::<ChordBinding>::empty());
            assert(conflicts@ =~= conflicts_of(all_groups));
        }
        if conflicts.len() == 0 {
            proof {
                lemma_conflicts_of_membership(all_groups);
                lemma_conflict_free_iff_bound(actions@);
                assert forall|k: Key| #[trigger] bound_to(actions@, k).len() <= 1 by {
                    if bound_to(actions@, k).len() >= 2 {
                        let g = choose|g: int|
                            0 <= g < all_groups.len() && (#[trigger] all_groups[g]).key == k;
                        assert(all_groups[g].actions@.len() >= 2);
                        assert(conflicts_of(all_groups).contains(all_groups[g]));
                        assert(false);
                    }
                }
            }
            Ok(Actions(actions))
        } else {
            proof {
                lemma_conflicts_of_membership(all_groups);
                lemma_conflicts_of_distinct_keys(all_groups);
                assert forall|c: int| 0 <= c < conflicts@.len() implies {
                    &&& (#[trigger] conflicts@[c]).actions@ == bound_to(
                        actions@,
                        conflicts@[c].key,
                    )
                    &&& conflicts@[c].actions@.len() >= 2
                } by {
                    assert(conflicts_of(all_groups)[c] == conflicts@[c]);
                    assert(all_groups.contains(conflicts@[c]));
                    let g = choose|g: int|
                        0 <= g < all_groups.len() && all_groups[g] == conflicts@[c];
                    assert(all_groups[g].actions@ == bound_to(actions@, all_groups[g].key));
                }
                assert forall|k: Key| #[trigger] bound_to(actions@, k).len() >= 2 implies exists|
                    c: int,
                | 0 <= c < conflicts@.len() && (#[trigger] conflicts@[c]).key == k by {
                    let g = choose|g: int|
                        0 <= g < all_groups.len() && (#[trigger] all_groups[g]).key == k;
                    assert(all_groups[g].actions@.len() >= 2);
                    assert(conflicts_of(all_groups).contains(all_groups[g]));
                    let c = choose|c: int|
                        0 <= c < conflicts_of(all_groups).len() && conflicts_of(all_groups)[c]
                            == all_groups[g];
                    assert(conflicts@[c].key == k);
                }
                let c0 = conflicts@[0];
                assert(conflicts_of(all_groups)[0] == c0);
                assert(all_groups.contains(c0));
                let g0 = choose|g: int| 0 <= g < all_groups.len() && all_groups[g] == c0;
                assert(bound_to(actions@, all_groups[g0].key).len() >= 2);
                lemma_bound_to_two_exists(actions@, all_groups[g0].key);
            }
            Err(ConflictError { conflicts })
        }
    }
}

/// The display name of an action: the quit action's name, the typed
/// character itself, or the delete action's name.
pub open spec fn action_label(a: Action) -> Seq<char> {
    match a {
        Action::Quit => "Quit"@,
        Action::Typing(c) => seq![c],
        Action::BackwardDeleteChar => "remove char"@,
    }
}

impl Action {
    /// The display name of this action.
    pub fn label(&self) -> (r: String)
        ensures
            r@ == action_label(*self),
    {
        match self {
            Action::Quit => "Quit".to_owned(),
            Action::Typing(c) => {
                let mut s = String::new();
                crate::text::push_char(&mut s, *c);
                proof {
                    assert(s@ =~= action_label(*self));
                }
                s
            },
            Action::BackwardDeleteChar => "remove char".to_owned(),
        }
    }
}

/// The display names of a run of colliding actions, separated by commas.
pub open spec fn joined_labels(acts: Seq<Action>) -> Seq<char>
    decreases acts.len(),
{
    if acts.len() == 0 {
        Seq::empty()
    } else if acts.len() == 1 {
        action_label(acts[0])
    } else {
        joined_labels(acts.drop_last()) + ", "@ + action_label(acts.last())
    }
}

/// The message of one conflict: the chord and every action colliding on it.
pub open spec fn conflict_line(c: ChordBinding) -> Seq<char> {
    "Conflict key "@ + key_label(c.key) + " with actions "@ + joined_labels(c.actions@)
}

/// The whole failure message: one entry per conflicting chord.
pub open spec fn conflict_message(cs: Seq<ChordBinding>) -> Seq<char>
    decreases cs.len(),
{
    if cs.len() == 0 {
        Seq::empty()
    } else if cs.len() == 1 {
        conflict_line(cs[0])
    } else {
        conflict_message(cs.drop_last()) + "; "@ + conflict_line(cs.last())
    }
}

impl ChordBinding {
    /// The message of this conflict.
    fn line(&self) -> (r: String)
        ensures
            r@ == conflict_line(*self),
    {
        let mut message = "Conflict key ".to_owned();
        let key_name = self.key.label();
        message.append(key_name.as_str());
        message.append(" with actions ");
        let m = self.actions.len();
        let mut j: usize = 0;
        while j < m
            invariant
                j <= m,
                m == self.actions@.len(),
                message@ == "Conflict key "@ + key_label(self.key) + " with actions "@
                    + joined_labels(self.actions@.take(j as int)),
            decreases m - j,
        {
            if j > 0 {
                message.append(", ");
            }
            let name = self.actions[j].label();
            message.append(name.as_str());
            proof {
                let taken = self.actions@.take(j + 1 as int);
                assert(taken.drop_last() =~= self.actions@.take(j as int));
                assert(taken.last() == self.actions@[j as int]);
                if j == 0 {
                    assert(joined_labels(taken) =~= joined_labels(self.actions@.take(j as int))
                        + action_label(self.actions@[j as int]));
                    assert(message@ =~= "Conflict key "@ + key_label(self.key)
                        + " with actions "@ + joined_labels(taken));
                } else {
                    assert(message@ =~= "Conflict key "@ + key_label(self.key)
                        + " with actions "@ + joined_labels(taken));
                }
            }
            j = j + 1;
        }
        proof {
            assert(self.actions@.take(m as int) =~= self.actions@);
        }
        message
    }
}

impl ConflictError {
    /// The failure message, as the fatal construction error reports it: it
    /// enumerates every conflicting chord with all the actions colliding on
    /// it.
    pub fn describe(&self) -> (r: String)
        ensures
            r@ == conflict_message(self.conflicts@),
    {
        let mut message = String::new();
        let n = self.conflicts.len();
        let mut i: usize = 0;
        while i < n
            invariant
                i <= n,
                n == self.conflicts@.len(),
                message@ == conflict_message(self.conflicts@.take(i as int)),
            decreases n - i,
        {
            if i > 0 {
                message.append("; ");
            }
            let entry_line = self.conflicts[i].line();
            message.append(entry_line.as_str());
            proof {
                let taken = self.conflicts@.take(i + 1 as int);
                assert(taken.drop_last() =~= self.conflicts@.take(i as int));
                assert(taken.last() == self.conflicts@[i as int]);
                assert(message@ =~= conflict_message(taken));
            }
            i = i + 1;
        }
        proof {
            assert(self.conflicts@.take(n as int) =~= self.conflicts@);
        }
        message
    }
}

} // verus!
