//! Random scramble generation for the supported puzzle families.

use vstd::prelude::*;

verus! {

/// Move groups of the 2x2x2 family: one group per face, each holding the
/// plain, inverse and half turns.
pub open spec fn groups_2x2x2() -> Seq<Seq<Seq<char>>> {
    seq![
        seq!["R"@, "R'"@, "R2"@],
        seq!["U"@, "U'"@, "U2"@],
        seq!["F"@, "F'"@, "F2"@],
    ]
}

/// Move groups of the 3x3x3 family.
pub open spec fn groups_3x3x3() -> Seq<Seq<Seq<char>>> {
    seq![
        seq!["R"@, "R'"@, "R2"@],
        seq!["L"@, "L'"@, "L2"@],
        seq!["U"@, "U'"@, "U2"@],
        seq!["D"@, "D'"@, "D2"@],
        seq!["F"@, "F'"@, "F2"@],
        seq!["B"@, "B'"@, "B2"@],
    ]
}

/// Move groups of the 4x4x4 family: R, U and F also turn wide.
pub open spec fn groups_4x4x4() -> Seq<Seq<Seq<char>>> {
    seq![
        seq!["R"@, "R'"@, "R2"@, "Rw"@, "Rw'"@, "Rw2"@],
        seq!["L"@, "L'"@, "L2"@],
        seq!["U"@, "U'"@, "U2"@, "Uw"@, "Uw'"@, "Uw2"@],
        seq!["D"@, "D'"@, "D2"@],
        seq!["F"@, "F'"@, "F2"@, "Fw"@, "Fw'"@, "Fw2"@],
        seq!["B"@, "B'"@, "B2"@],
    ]
}

/// The scramble length of a puzzle family; unknown families get length 0.
pub open spec fn family_len(t: Seq<char>) -> int {
    if t == "2x2x2"@ {
        9
    } else if t == "3x3x3"@ {
        21
    } else if t == "4x4x4"@ {
        43
    } else {
        0
    }
}

/// The move groups of a puzzle family; unknown families get none.
pub open spec fn family_groups(t: Seq<char>) -> Seq<Seq<Seq<char>>> {
    if t == "2x2x2"@ {
        groups_2x2x2()
    } else if t == "3x3x3"@ {
        groups_3x3x3()
    } else if t == "4x4x4"@ {
        groups_4x4x4()
    } else {
        Seq::empty()
    }
}

/// The tokens joined by single spaces, with no trailing space.
pub open spec fn joined(ts: Seq<Seq<char>>) -> Seq<char>
    decreases ts.len(),
{
    if ts.len() == 0 {
        Seq::empty()
    } else if ts.len() == 1 {
        ts[0]
    } else {
        joined(ts.drop_last()) + " "@ + ts.last()
    }
}

/// Appending a token extends the join by a separating space, except for
/// the very first token.
proof fn lemma_joined_push(ts: Seq<Seq<char>>, t: Seq<char>)
    ensures
        ts.len() == 0 ==> joined(ts.push(t)) == t,
        ts.len() > 0 ==> joined(ts.push(t)) == joined(ts) + " "@ + t,
{
    assert(ts.push(t).drop_last() =~= ts);
    assert(ts.push(t).last() == t);
    if ts.len() == 0 {
        assert(joined(ts.push(t)) == ts.push(t)[0]);
    }
}

/// Relies on `rand::random_range`: on the non-empty range `0..n` the
/// result is drawn uniformly from it, so in particular it is below `n`.
#[verifier::external_body]
fn rand_index(n: usize) -> (r: usize)
    requires
        n >= 1,
    ensures
        r < n,
{
    rand::random_range(0..n)
}

/// Scramble struct containing valid moves, current scramble and length
/// scramble should have.
pub struct Scramble {
    moves: Vec<Vec<String>>,
    scramble: String,
    length: usize,
    tokens: Vec<String>,
    picks: Ghost<Seq<int>>,
}

impl Scramble {
    /// The move groups as a mathematical value.
    pub closed spec fn moves_view(self) -> Seq<Seq<Seq<char>>> {
        Seq::new(
            self.moves@.len(),
            |g: int| Seq::new(self.moves@[g]@.len(), |k: int| self.moves@[g]@[k]@),
        )
    }

    /// The configured scramble length.
    pub closed spec fn spec_length(self) -> int {
        self.length as int
    }

    /// The tokens of the current scramble.
    pub closed spec fn current(self) -> Seq<Seq<char>> {
        Seq::new(self.tokens@.len(), |i: int| self.tokens@[i]@)
    }

    /// The group each current token was drawn from.
    pub closed spec fn groups_picked(self) -> Seq<int> {
        self.picks@
    }

    /// The characters of the current scramble string.
    pub closed spec fn str_view(self) -> Seq<char> {
        self.scramble@
    }

    /// Generation is possible: a positive length comes with at least one
    /// group, no group is empty, and a length above one needs a second
    /// group to alternate with.
    pub open spec fn ok_moves(self) -> bool {
        &&& self.spec_length() > 0 ==> {
            &&& self.moves_view().len() > 0
            &&& forall|g: int|
                0 <= g < self.moves_view().len() ==> (#[trigger] self.moves_view()[g]).len() > 0
        }
        &&& self.spec_length() > 1 ==> self.moves_view().len() > 1
    }

    /// The current scramble is sound: one token per configured position,
    /// each drawn from its group, and no two neighbours from the same
    /// group.
    pub open spec fn sound(self) -> bool {
        &&& self.str_view() == joined(self.current())
        &&& self.groups_picked().len() == self.current().len()
        &&& forall|i: int|
            0 <= i < self.groups_picked().len() ==> 0 <= #[trigger] self.groups_picked()[i]
                < self.moves_view().len()
        &&& forall|i: int|
            0 <= i < self.groups_picked().len() ==> self.moves_view()[self.groups_picked()[i]].contains(
                #[trigger] self.current()[i],
            )
        &&& forall|i: int|
            0 <= i < self.groups_picked().len() - 1 ==> #[trigger] self.groups_picked()[i]
                != self.groups_picked()[i + 1]
    }

    /// Creates a new [`Scramble`] based on the given type. Unknown types
    /// yield a scramble of length 0 with no moves.
    pub fn new(scramble_type: &str) -> (r: Scramble)
        ensures
            r.spec_length() == family_len(scramble_type@),
            r.moves_view() == family_groups(scramble_type@),
            r.current() =~= Seq::<Seq<char>>::empty(),
            r.groups_picked() =~= Seq::<int>::empty(),
            r.ok_moves(),
            r.sound(),
    {
        if crate::text::str_eq(scramble_type, "2x2x2") {
            let s = Scramble::custom(9, moves_2x2x2());
            proof {
                assert(s.moves_view() =~~= family_groups(scramble_type@));
            }
            s
        } else if crate::text::str_eq(scramble_type, "3x3x3") {
            let s = Scramble::custom(21, moves_3x3x3());
            proof {
                assert(s.moves_view() =~~= family_groups(scramble_type@));
            }
            s
        } else if crate::text::str_eq(scramble_type, "4x4x4") {
            let s = Scramble::custom(43, moves_4x4x4());
            proof {
                assert(s.moves_view() =~~= family_groups(scramble_type@));
            }
            s
        } else {
            let s = Scramble::custom(0, Vec::new());
            proof {
                assert(s.moves_view() =~~= family_groups(scramble_type@));
            }
            s
        }
    }

    /// Creates a new custom [`Scramble`] with the given length and moves.
    pub fn custom(len: usize, moves: Vec<Vec<String>>) -> (r: Scramble)
        ensures
            r.spec_length() == len,
            r.moves_view() == Seq::new(
                moves@.len(),
                |g: int| Seq::new(moves@[g]@.len(), |k: int| moves@[g]@[k]@),
            ),
            r.current() =~= Seq::<Seq<char>>::empty(),
            r.groups_picked() =~= Seq::<int>::empty(),
            r.sound(),
    {
        Scramble {
            moves,
            scramble: String::new(),
            length: len,
            tokens: Vec::new(),
            picks: Ghost(Seq::empty()),
        }
    }

    /// Generates a new scramble: `length` tokens, each from a group drawn
    /// uniformly among the groups other than the previous one, so that no
    /// two consecutive tokens turn the same face.
    pub fn generate(&mut self)
        requires
            old(self).ok_moves(),
        ensures
            final(self).spec_length() == old(self).spec_length(),
            final(self).moves_view() == old(self).moves_view(),
            final(self).ok_moves() == old(self).ok_moves(),
            final(self).sound(),
            final(self).current().len() == final(self).spec_length(),
    {
        self.tokens = Vec::new();
        self.scramble = String::new();
        self.picks = Ghost(Seq::empty());
        let mut last: usize = 0;
        let mut i: usize = 0;
        while i < self.length
            invariant
                i <= self.length,
                self.length > 0 ==> self.moves@.len() > 0,
                self.length > 1 ==> self.moves@.len() > 1,
                self.length > 0 ==> forall|g: int|
                    0 <= g < self.moves_view().len() ==> (
                    #[trigger] self.moves_view()[g]).len() > 0,
                self.moves_view() == old(self).moves_view(),
                self.length == old(self).length,
                self.sound(),
                self.tokens@.len() == i,
                self.scramble@ == joined(self.current()),
                i > 0 ==> last < self.moves@.len() && self.picks@.last() == last as int,
            decreases self.length - i,
        {
            let n = self.moves.len();
            let r: usize;
            if i == 0 {
                r = rand_index(n);
            } else {
                // One draw over the other groups has the same distribution
                // as redrawing until the group differs from the previous
                // one.
                let x = rand_index(n - 1);
                r = if x >= last {
                    x + 1
                } else {
                    x
                };
            }
            let group = &self.moves[r];
            proof {
                assert(self.moves_view()[r as int].len() > 0);
                assert(self.moves_view()[r as int].len() == group@.len());
            }
            let c = rand_index(group.len());
            let tok = group[c].clone();
            let ghost prev = self.current();
            let ghost prev_picks = self.picks@;
            let ghost tok_v = tok@;
            proof {
                assert(self.moves_view()[r as int][c as int] == self.moves@[r as int]@[c as int]@);
                assert(self.moves_view()[r as int].contains(tok_v));
            }
            if i > 0 {
                self.scramble.append(" ");
            }
            self.scramble.append(tok.as_str());
            self.tokens.push(tok);
            self.picks = Ghost(prev_picks.push(r as int));
            proof {
                assert(self.current() =~= prev.push(tok_v));
                lemma_joined_push(prev, tok_v);
                assert forall|k: int| 0 <= k < self.picks@.len() implies 0 <= #[trigger] self.picks@[k]
                    < self.moves_view().len() by {
                    if k < prev_picks.len() {
                        assert(prev_picks[k] == self.picks@[k]);
                    }
                }
                assert forall|k: int| 0 <= k < self.picks@.len() implies self.moves_view()[self.picks@[k]].contains(
                    #[trigger] self.current()[k],
                ) by {
                    if k < prev_picks.len() {
                        assert(prev[k] == self.current()[k]);
                        assert(prev_picks[k] == self.picks@[k]);
                    }
                }
                assert forall|k: int| 0 <= k < self.picks@.len() - 1 implies #[trigger] self.picks@[k]
                    != self.picks@[k + 1] by {
                    if k < prev_picks.len() - 1 {
                        assert(prev_picks[k] == self.picks@[k]);
                        assert(prev_picks[k + 1] == self.picks@[k + 1]);
                    } else {
                        assert(self.picks@[k] == prev_picks.last());
                        assert(self.picks@[k + 1] == r as int);
                    }
                }
            }
            last = r;
            i += 1;
        }
    }

    /// Gets the current scramble: the tokens joined by single spaces, the
    /// empty string until the first `generate`.
    pub fn get(&self) -> (r: &str)
        ensures
            r@ == self.str_view(),
            self.sound() ==> r@ == joined(self.current()),
    {
        self.scramble.as_str()
    }
}

/// The executable form of [`groups_2x2x2`].
fn moves_2x2x2() -> (r: Vec<Vec<String>>)
    ensures
        Seq::new(r@.len(), |g: int| Seq::new(r@[g]@.len(), |k: int| r@[g]@[k]@))
            =~~= groups_2x2x2(),
{
    let mut v: Vec<Vec<String>> = Vec::new();
    v.push(group3("R", "R'", "R2"));
    v.push(group3("U", "U'", "U2"));
    v.push(group3("F", "F'", "F2"));
    v
}

/// The executable form of [`groups_3x3x3`].
fn moves_3x3x3() -> (r: Vec<Vec<String>>)
    ensures
        Seq::new(r@.len(), |g: int| Seq::new(r@[g]@.len(), |k: int| r@[g]@[k]@))
            =~~= groups_3x3x3(),
{
    let mut v: Vec<Vec<String>> = Vec::new();
    v.push(group3("R", "R'", "R2"));
    v.push(group3("L", "L'", "L2"));
    v.push(group3("U", "U'", "U2"));
    v.push(group3("D", "D'", "D2"));
    v.push(group3("F", "F'", "F2"));
    v.push(group3("B", "B'", "B2"));
    v
}

/// The executable form of [`groups_4x4x4`].
fn moves_4x4x4() -> (r: Vec<Vec<String>>)
    ensures
        Seq::new(r@.len(), |g: int| Seq::new(r@[g]@.len(), |k: int| r@[g]@[k]@))
            =~~= groups_4x4x4(),
{
    let mut v: Vec<Vec<String>> = Vec::new();
    v.push(group6("R", "R'", "R2", "Rw", "Rw'", "Rw2"));
    v.push(group3("L", "L'", "L2"));
    v.push(group6("U", "U'", "U2", "Uw", "Uw'", "Uw2"));
    v.push(group3("D", "D'", "D2"));
    v.push(group6("F", "F'", "F2", "Fw", "Fw'", "Fw2"));
    v.push(group3("B", "B'", "B2"));
    v
}

/// A move group of three tokens.
fn group3(a: &str, b: &str, c: &str) -> (r: Vec<String>)
    ensures
        Seq::new(r@.len(), |k: int| r@[k]@) =~= seq![a@, b@, c@],
{
    let mut v: Vec<String> = Vec::new();
    v.push(String::from_str(a));
    v.push(String::from_str(b));
    v.push(String::from_str(c));
    v
}

/// A move group of six tokens.
fn group6(a: &str, b: &str, c: &str, d: &str, e: &str, f: &str) -> (r: Vec<String>)
    ensures
        Seq::new(r@.len(), |k: int| r@[k]@) =~= seq![a@, b@, c@, d@, e@, f@],
{
    let mut v: Vec<String> = Vec::new();
    v.push(String::from_str(a));
    v.push(String::from_str(b));
    v.push(String::from_str(c));
    v.push(String::from_str(d));
    v.push(String::from_str(e));
    v.push(String::from_str(f));
    v
}

/// Builds the [`Scramble`] of the given scramble type (e.g. `3x3x3`).
pub fn get_scramble(scramble_type: &str) -> (r: Scramble)
    ensures
        r.spec_length() == family_len(scramble_type@),
        r.moves_view() == family_groups(scramble_type@),
        r.current() =~= Seq::<Seq<char>>::empty(),
        r.ok_moves(),
        r.sound(),
{
    Scramble::new(scramble_type)
}

} // verus!
