//! The store of all sessions, keyed by unique session name.

use vstd::prelude::*;

use crate::error::Error;
use crate::solve_time::SolveTime;
use crate::stats::session::{Session, SessionV};
use crate::stats::stat::{Stat, StatV};
use crate::text::str_eq;
use vstd::arithmetic::div_mod::{
    lemma_div_is_ordered, lemma_div_multiples_vanish, lemma_fundamental_div_mod,
    lemma_hoist_over_denominator,
};

verus! {

/// The mathematical content of the store: the sessions in insertion
/// order, each with its name.
pub ghost struct StatsV {
    pub sessions: Seq<(Seq<char>, SessionV)>,
}

impl StatsV {
    /// There is a session of this name.
    pub open spec fn has_name(self, n: Seq<char>) -> bool {
        exists|i: int| 0 <= i < self.sessions.len() && (#[trigger] self.sessions[i]).0 == n
    }

    /// The position of the session of this name (meaningful when
    /// `has_name` holds and names are unique).
    pub open spec fn idx_of(self, n: Seq<char>) -> int {
        choose|i: int| 0 <= i < self.sessions.len() && (#[trigger] self.sessions[i]).0 == n
    }

    /// The session of this name.
    pub open spec fn session_of(self, n: Seq<char>) -> SessionV {
        self.sessions[self.idx_of(n)].1
    }

    /// No two sessions share a name.
    pub open spec fn names_unique(self) -> bool {
        forall|i: int, j: int|
            0 <= i < j < self.sessions.len() ==> (#[trigger] self.sessions[i]).0 != (
            #[trigger] self.sessions[j]).0
    }

    /// Session names are unique and every recorded time is well-formed.
    pub open spec fn wf(self) -> bool {
        &&& self.names_unique()
        &&& forall|i: int| 0 <= i < self.sessions.len() ==> (#[trigger] self.sessions[i]).1.wf()
    }

    /// The store after a successful `add_session(n, t)`.
    pub open spec fn with_session(self, n: Seq<char>, t: Seq<char>) -> StatsV {
        StatsV {
            sessions: self.sessions.push(
                (n, SessionV { scramble_type: t, stats: Seq::<StatV>::empty() }),
            ),
        }
    }

    /// The store after a successful `add(s, n)`.
    pub open spec fn with_stat(self, s: StatV, n: Seq<char>) -> StatsV {
        let i = self.idx_of(n);
        StatsV {
            sessions: self.sessions.update(
                i,
                (
                    n,
                    SessionV {
                        scramble_type: self.sessions[i].1.scramble_type,
                        stats: self.sessions[i].1.stats.push(s),
                    },
                ),
            ),
        }
    }

    /// The store after `remove(index, n)`: the indexed stat is gone iff
    /// the session exists and the index is in range; otherwise nothing
    /// changes.
    pub open spec fn without_stat(self, index: int, n: Seq<char>) -> StatsV {
        if self.has_name(n) && 0 <= index < self.session_of(n).stats.len() {
            let i = self.idx_of(n);
            StatsV {
                sessions: self.sessions.update(
                    i,
                    (
                        n,
                        SessionV {
                            scramble_type: self.sessions[i].1.scramble_type,
                            stats: self.sessions[i].1.stats.remove(index),
                        },
                    ),
                ),
            }
        } else {
            self
        }
    }
}

/// The sum of the whole-second parts of a stat sequence.
pub open spec fn sum_secs(ss: Seq<StatV>) -> int
    decreases ss.len(),
{
    if ss.len() == 0 {
        0
    } else {
        sum_secs(ss.drop_last()) + ss.last().secs
    }
}

/// The sum of the sub-second nanosecond parts of a stat sequence.
pub open spec fn sum_sub(ss: Seq<StatV>) -> int
    decreases ss.len(),
{
    if ss.len() == 0 {
        0
    } else {
        sum_sub(ss.drop_last()) + ss.last().nanos
    }
}

/// The summed duration of a stat sequence, in nanoseconds.
pub open spec fn sum_total(ss: Seq<StatV>) -> int
    decreases ss.len(),
{
    if ss.len() == 0 {
        0
    } else {
        sum_total(ss.drop_last()) + ss.last().total_nanos()
    }
}

/// The total is the seconds sum scaled up plus the nanosecond sum.
pub proof fn lemma_sum_split(ss: Seq<StatV>)
    ensures
        sum_total(ss) == sum_secs(ss) * 1_000_000_000 + sum_sub(ss),
    decreases ss.len(),
{
    if ss.len() > 0 {
        lemma_sum_split(ss.drop_last());
    }
}

/// Summing values below a bound keeps the sum below `len` times the bound.
proof fn lemma_sum_secs_bound(ss: Seq<StatV>)
    requires
        forall|i: int| 0 <= i < ss.len() ==> (#[trigger] ss[i]).wf(),
    ensures
        0 <= sum_secs(ss) <= ss.len() * 0xffff_ffff_ffff_ffff,
        0 <= sum_sub(ss) <= ss.len() * 0x3b9a_c9ff,
    decreases ss.len(),
{
    if ss.len() > 0 {
        lemma_sum_secs_bound(ss.drop_last());
    }
}

/// Stats struct: a mapping from unique session name to [`Session`].
#[derive(Debug)]
pub struct Stats {
    sessions: Vec<(String, Session)>,
}

impl View for Stats {
    type V = StatsV;

    closed spec fn view(&self) -> StatsV {
        StatsV {
            sessions: Seq::new(
                self.sessions@.len(),
                |i: int| (self.sessions@[i].0@, self.sessions@[i].1@),
            ),
        }
    }
}

impl Stats {
    /// The empty store.
    pub fn new() -> (r: Stats)
        ensures
            r@.sessions =~= Seq::<(Seq<char>, SessionV)>::empty(),
            r@.wf(),
    {
        Stats { sessions: Vec::new() }
    }

    /// How many sessions the store holds.
    pub fn session_count(&self) -> (r: usize)
        ensures
            r == self@.sessions.len(),
    {
        self.sessions.len()
    }

    /// The name and session at a position, in insertion order.
    pub fn entry_at(&self, i: usize) -> (r: (&String, &Session))
        requires
            i < self@.sessions.len(),
        ensures
            r.0@ == self@.sessions[i as int].0,
            r.1@ == self@.sessions[i as int].1,
    {
        (&self.sessions[i].0, &self.sessions[i].1)
    }

    /// The position of the named session, if any.
    fn find(&self, name: &str) -> (r: Option<usize>)
        ensures
            match r {
                Some(i) => 0 <= i < self@.sessions.len() && self@.sessions[i as int].0 == name@,
                None => !self@.has_name(name@),
            },
    {
        let mut i: usize = 0;
        while i < self.sessions.len()
            invariant
                i <= self.sessions.len(),
                forall|j: int| 0 <= j < i ==> (#[trigger] self@.sessions[j]).0 != name@,
            decreases self.sessions.len() - i,
        {
            if str_eq(self.sessions[i].0.as_str(), name) {
                return Some(i);
            }
            i += 1;
        }
        None
    }

    /// Checks whether a session of this name exists.
    pub fn has_session(&self, session: &str) -> (r: bool)
        ensures
            r == self@.has_name(session@),
    {
        self.find(session).is_some()
    }

    /// Adds a new, empty session under the given name; fails if the name
    /// is already taken, and then changes nothing.
    pub fn add_session(&mut self, session: &str, scramble_type: &str) -> (r: Result<(), Error>)
        requires
            old(self)@.wf(),
        ensures
            final(self)@.wf(),
            old(self)@.has_name(session@) ==> r == Result::<(), Error>::Err(Error::AlreadyExists)
                && final(self)@ == old(self)@,
            !old(self)@.has_name(session@) ==> r is Ok && final(self)@.sessions
                =~= old(self)@.with_session(session@, scramble_type@).sessions,
    {
        if self.has_session(session) {
            Err(Error::AlreadyExists)
        } else {
            self.sessions.push((session.to_owned(), Session::new(scramble_type)));
            proof {
                let m = old(self)@;
                let f = self@;
                assert forall|i: int, j: int|
                    0 <= i < j < f.sessions.len() implies (#[trigger] f.sessions[i]).0 != (
                #[trigger] f.sessions[j]).0 by {
                    if j < f.sessions.len() - 1 {
                        assert(m.sessions[i] == f.sessions[i]);
                        assert(m.sessions[j] == f.sessions[j]);
                    } else {
                        assert(f.sessions[j].0 == session@);
                        assert(m.sessions[i] == f.sessions[i]);
                        assert(!m.has_name(session@));
                    }
                }
                assert forall|i: int| 0 <= i < f.sessions.len() implies (
                #[trigger] f.sessions[i]).1.wf() by {
                    if i < f.sessions.len() - 1 {
                        assert(m.sessions[i] == f.sessions[i]);
                        assert(m.sessions[i].1.wf());
                    } else {
                        assert(f.sessions[i].1.stats.len() == 0);
                    }
                }
            }
            Ok(())
        }
    }

    /// Appends the given stat to the named session; fails with
    /// [`Error::NoSuchSession`] if there is none, and then changes nothing.
    pub fn add(&mut self, stat: Stat, session: &str) -> (r: Result<(), Error>)
        requires
            old(self)@.wf(),
            stat@.wf(),
        ensures
            final(self)@.wf(),
            !old(self)@.has_name(session@) ==> r == Result::<(), Error>::Err(Error::NoSuchSession)
                && final(self)@ == old(self)@,
            old(self)@.has_name(session@) ==> r is Ok && final(self)@.sessions
                =~= old(self)@.with_stat(stat@, session@).sessions,
    {
        match self.find(session) {
            Some(i) => {
                proof {
                    lemma_unique_idx(old(self)@, session@, i as int);
                }
                let mut entry = self.sessions.remove(i);
                entry.1.add(stat);
                self.sessions.insert(i, entry);
                proof {
                    let m = old(self)@;
                    assert(self@.sessions =~= m.with_stat(stat@, session@).sessions);
                    lemma_update_keeps_wf(
                        m,
                        i as int,
                        m.with_stat(stat@, session@).sessions[i as int].1,
                    );
                }
                Ok(())
            },
            None => Err(Error::NoSuchSession),
        }
    }

    /// Appends a parsed entry; the caller has checked that the name is
    /// still free.
    pub(crate) fn push_entry(&mut self, name: String, session: Session)
        requires
            old(self)@.wf(),
            !old(self)@.has_name(name@),
            session@.wf(),
        ensures
            final(self)@.wf(),
            final(self)@.sessions =~= old(self)@.sessions.push((name@, session@)),
    {
        self.sessions.push((name, session));
        proof {
            let m = old(self)@;
            let f = self@;
            assert forall|i: int, j: int|
                0 <= i < j < f.sessions.len() implies (#[trigger] f.sessions[i]).0 != (
            #[trigger] f.sessions[j]).0 by {
                if j < f.sessions.len() - 1 {
                    assert(m.sessions[i] == f.sessions[i]);
                    assert(m.sessions[j] == f.sessions[j]);
                } else {
                    assert(f.sessions[j].0 == name@);
                    assert(m.sessions[i] == f.sessions[i]);
                }
            }
            assert forall|i: int| 0 <= i < f.sessions.len() implies (
            #[trigger] f.sessions[i]).1.wf() by {
                if i < f.sessions.len() - 1 {
                    assert(m.sessions[i] == f.sessions[i]);
                    assert(m.sessions[i].1.wf());
                }
            }
        }
    }

    /// Deletes the indexed stat of the named session; if the session is
    /// missing or the index out of range, the store is unchanged.
    pub fn remove(&mut self, index: usize, session: &str)
        requires
            old(self)@.wf(),
        ensures
            final(self)@.wf(),
            final(self)@.sessions =~= old(self)@.without_stat(index as int, session@).sessions,
    {
        match self.find(session) {
            Some(i) => {
                proof {
                    lemma_unique_idx(old(self)@, session@, i as int);
                }
                if index < self.sessions[i].1.stats.len() {
                    let mut entry = self.sessions.remove(i);
                    entry.1.remove(index);
                    self.sessions.insert(i, entry);
                    proof {
                        let m = old(self)@;
                        assert(self@.sessions =~= m.without_stat(
                            index as int,
                            session@,
                        ).sessions);
                        lemma_update_keeps_wf(
                            m,
                            i as int,
                            m.without_stat(index as int, session@).sessions[i as int].1,
                        );
                    }
                } else {
                    proof {
                        assert(self@.sessions =~= old(self)@.without_stat(
                            index as int,
                            session@,
                        ).sessions);
                    }
                }
            },
            None => {
                proof {
                    assert(self@.sessions =~= old(self)@.without_stat(
                        index as int,
                        session@,
                    ).sessions);
                }
            },
        }
    }

    /// The named session, if it exists.
    pub fn get_session(&self, name: &str) -> (r: Option<&Session>)
        requires
            self@.names_unique(),
        ensures
            match r {
                Some(s) => self@.has_name(name@) && s@ == self@.session_of(name@),
                None => !self@.has_name(name@),
            },
    {
        match self.find(name) {
            Some(i) => {
                proof {
                    lemma_unique_idx(self@, name@, i as int);
                }
                Some(&self.sessions[i].1)
            },
            None => None,
        }
    }

    /// All session names, in insertion order.
    pub fn get_sessions(&self) -> (r: Vec<String>)
        ensures
            r@.len() == self@.sessions.len(),
            forall|i: int| 0 <= i < r@.len() ==> (#[trigger] r@[i])@ == self@.sessions[i].0,
    {
        let mut names: Vec<String> = Vec::new();
        let mut i: usize = 0;
        while i < self.sessions.len()
            invariant
                i <= self.sessions.len(),
                names@.len() == i,
                forall|j: int| 0 <= j < i ==> (#[trigger] names@[j])@ == self@.sessions[j].0,
            decreases self.sessions.len() - i,
        {
            names.push(self.sessions[i].0.clone());
            i += 1;
        }
        names
    }

    /// The arithmetic mean of the named session's times: the summed
    /// duration divided by the number of solves, rounded down to the
    /// nanosecond. `None` for a missing or empty session.
    pub fn avg(&self, session: &str) -> (r: Option<SolveTime>)
        requires
            self@.wf(),
        ensures
            match r {
                Some(t) => {
                    &&& self@.has_name(session@)
                    &&& self@.session_of(session@).stats.len() > 0
                    &&& t.wf()
                    &&& t.total_nanos() == sum_total(self@.session_of(session@).stats) as int
                        / self@.session_of(session@).stats.len() as int
                },
                None => !self@.has_name(session@) || self@.session_of(session@).stats.len() == 0,
            },
    {
        let i = match self.find(session) {
            Some(i) => i,
            None => {
                return None;
            },
        };
        proof {
            lemma_unique_idx(self@, session@, i as int);
        }
        let stats = &self.sessions[i].1.stats;
        let n = stats.len();
        if n == 0 {
            return None;
        }
        let ghost ss = self@.session_of(session@).stats;
        let mut secs_sum: u128 = 0;
        let mut sub_sum: u128 = 0;
        let mut k: usize = 0;
        proof {
            assert(ss.subrange(0, 0) =~= Seq::<StatV>::empty());
        }
        while k < n
            invariant
                k <= n,
                n == stats@.len(),
                n == ss.len(),
                forall|j: int|
                    0 <= j < n ==> (#[trigger] ss[j]).secs == stats@[j].time.secs && ss[j].nanos
                        == stats@[j].time.nanos,
                forall|j: int| 0 <= j < n ==> (#[trigger] ss[j]).wf(),
                secs_sum == sum_secs(ss.subrange(0, k as int)),
                sub_sum == sum_sub(ss.subrange(0, k as int)),
                secs_sum <= k * 0xffff_ffff_ffff_ffff,
                sub_sum <= k * 0x3b9a_c9ff,
            decreases n - k,
        {
            proof {
                assert(ss.subrange(0, k + 1).drop_last() =~= ss.subrange(0, k as int));
                assert(ss.subrange(0, k + 1).last() == ss[k as int]);
                lemma_mul_grows(k as int, n as int, 0xffff_ffff_ffff_ffff);
                lemma_mul_grows(k as int, n as int, 0x3b9a_c9ff);
            }
            secs_sum = secs_sum + stats[k].time.secs as u128;
            sub_sum = sub_sum + stats[k].time.nanos as u128;
            k += 1;
        }
        proof {
            assert(ss.subrange(0, n as int) =~= ss);
        }
        avg_of_sums(secs_sum, sub_sum, n, Ghost(ss))
    }
}

/// Divides the summed seconds and sub-second nanoseconds of a non-empty
/// stat sequence by its length, rounding down to the nanosecond.
fn avg_of_sums(secs_sum: u128, sub_sum: u128, n: usize, Ghost(ss): Ghost<Seq<StatV>>) -> (r: Option<
    SolveTime,
>)
    requires
        n > 0,
        n == ss.len(),
        secs_sum == sum_secs(ss),
        sub_sum == sum_sub(ss),
        secs_sum <= n * 0xffff_ffff_ffff_ffff,
        sub_sum <= n * 0x3b9a_c9ff,
    ensures
        r is Some,
        r->0.wf(),
        r->0.total_nanos() == sum_total(ss) / ss.len() as int,
{
    let ghost total: int = sum_total(ss);
    let ghost nni: int = n as int;
    proof {
        lemma_sum_split(ss);
        assert(total <= nni * 0x3b9a_c9ff_ffff_ffff_ffff_ffff) by (nonlinear_arith)
            requires
                total == secs_sum * 0x3b9aca00 + sub_sum,
                secs_sum <= nni * 0xffff_ffff_ffff_ffff,
                sub_sum <= nni * 0x3b9a_c9ff,
                nni > 0,
        ;
    }
    let nn = n as u128;
    let q_s = secs_sum / nn;
    let r_s = secs_sum % nn;
    proof {
        lemma_fundamental_div_mod(secs_sum as int, nn as int);
        // The quotient of the seconds sum is itself at most the largest
        // single seconds value.
        lemma_div_is_ordered(secs_sum as int, nni * 0xffff_ffff_ffff_ffff, nni);
        lemma_div_multiples_vanish(0xffff_ffff_ffff_ffff, nni);
        assert(nni * 0xffff_ffff_ffff_ffff == 0xffff_ffff_ffff_ffff * nni) by (nonlinear_arith);
        assert(q_s <= 0xffff_ffff_ffff_ffff);
        assert(r_s < nn);
        assert(r_s * 0x3b9aca00 <= 0xffff_ffff_ffff_fffe * 0x3b9aca00) by (nonlinear_arith)
            requires
                r_s <= 0xffff_ffff_ffff_fffe,
        ;
    }
    let b = r_s * 1_000_000_000 + sub_sum;
    let m = b / nn;
    let carry = m / 1_000_000_000;
    let nanos = (m % 1_000_000_000) as u32;
    proof {
        // total / n == q_s * 1e9 + m.
        assert(total == nni * (q_s * 0x3b9aca00) + b) by (nonlinear_arith)
            requires
                total == secs_sum * 0x3b9aca00 + sub_sum,
                secs_sum == nni * q_s + r_s,
                b == r_s * 0x3b9aca00 + sub_sum,
        ;
        lemma_hoist_over_denominator(b as int, q_s as int * 0x3b9aca00, n as nat);
        assert((q_s * 0x3b9aca00) * nni == nni * (q_s * 0x3b9aca00)) by (nonlinear_arith);
        assert(total / nni == q_s * 0x3b9aca00 + m);
        // That quantity is at most the largest representable duration.
        lemma_div_is_ordered(total, nni * 0x3b9a_c9ff_ffff_ffff_ffff_ffff, nni);
        lemma_div_multiples_vanish(0x3b9a_c9ff_ffff_ffff_ffff_ffff, nni);
        assert(nni * 0x3b9a_c9ff_ffff_ffff_ffff_ffff == 0x3b9a_c9ff_ffff_ffff_ffff_ffff * nni) by (nonlinear_arith);
        assert(total / nni <= 0x3b9a_c9ff_ffff_ffff_ffff_ffff);
        lemma_fundamental_div_mod(m as int, 0x3b9aca00);
    }
    let secs = q_s + carry;
    proof {
        assert(secs * 0x3b9aca00 + nanos == total / nni);
        assert(secs <= 0xffff_ffff_ffff_ffff);
    }
    Some(SolveTime::new(secs as u64, nanos))
}

/// Scaling a positive factor up cannot shrink a product.
proof fn lemma_mul_grows(a: int, b: int, c: int)
    requires
        0 <= a <= b,
        0 <= c,
    ensures
        a * c <= b * c,
{
    broadcast use vstd::arithmetic::mul::lemma_mul_inequality;

}

/// With unique names, replacing one session under its own name keeps the
/// store well-formed, provided the new session is.
proof fn lemma_update_keeps_wf(m: StatsV, i: int, s: SessionV)
    requires
        m.wf(),
        0 <= i < m.sessions.len(),
        s.wf(),
    ensures
        (StatsV { sessions: m.sessions.update(i, (m.sessions[i].0, s)) }).wf(),
{
}

/// Name uniqueness: once `add_session(n, t)` has succeeded, the name `n`
/// is present, so by `add_session`'s contract every later call with `n`
/// fails with [`Error::AlreadyExists`] and leaves the store unchanged.
pub proof fn lemma_add_session_at_most_once(m: StatsV, n: Seq<char>, t: Seq<char>)
    ensures
        m.with_session(n, t).has_name(n),
{
    let f = m.with_session(n, t);
    assert(f.sessions[f.sessions.len() - 1].0 == n);
}

/// Deletion bounds: `remove(index, n)` removes exactly one stat — the one
/// at `index`, every other stat and session staying in place — iff the
/// session exists and the index is in range; otherwise the store is
/// unchanged.
pub proof fn lemma_remove_exact(m: StatsV, index: int, n: Seq<char>)
    requires
        m.names_unique(),
    ensures
        m.has_name(n) && 0 <= index < m.session_of(n).stats.len() ==> {
            let f = m.without_stat(index, n);
            &&& f.sessions.len() == m.sessions.len()
            &&& f.has_name(n)
            &&& f.session_of(n).stats.len() == m.session_of(n).stats.len() - 1
            &&& forall|k: int|
                0 <= k < index ==> f.session_of(n).stats[k] == m.session_of(n).stats[k]
            &&& forall|k: int|
                index <= k < f.session_of(n).stats.len() ==> f.session_of(n).stats[k]
                    == m.session_of(n).stats[k + 1]
            &&& forall|j: int|
                0 <= j < m.sessions.len() && (#[trigger] m.sessions[j]).0 != n ==> f.sessions[j]
                    == m.sessions[j]
        },
        !(m.has_name(n) && 0 <= index < m.session_of(n).stats.len()) ==> m.without_stat(index, n)
            == m,
{
    if m.has_name(n) && 0 <= index < m.session_of(n).stats.len() {
        let i = m.idx_of(n);
        let f = m.without_stat(index, n);
        assert(f.sessions[i].0 == n);
        assert(f.has_name(n));
        assert forall|i2: int, j2: int|
            0 <= i2 < j2 < f.sessions.len() implies (#[trigger] f.sessions[i2]).0 != (
        #[trigger] f.sessions[j2]).0 by {
            assert(f.sessions[i2].0 == m.sessions[i2].0);
            assert(f.sessions[j2].0 == m.sessions[j2].0);
        }
        lemma_unique_idx(f, n, i);
    }
}

/// For a session holding a single solve, the average is exactly that
/// solve's time.
pub proof fn lemma_avg_single(s: StatV)
    ensures
        sum_total(seq![s]) / 1 == s.total_nanos(),
{
    assert(seq![s].drop_last() =~= Seq::<StatV>::empty());
    assert(sum_total(Seq::<StatV>::empty()) == 0);
    assert(seq![s].last() == s);
    assert(sum_total(seq![s]) == s.total_nanos());
}

/// With unique names, any position holding the name is `idx_of` it.
pub proof fn lemma_unique_idx(m: StatsV, n: Seq<char>, i: int)
    requires
        m.names_unique(),
        0 <= i < m.sessions.len(),
        m.sessions[i].0 == n,
    ensures
        m.has_name(n),
        m.idx_of(n) == i,
{
    assert(m.has_name(n));
    let j = m.idx_of(n);
    if i < j {
        assert(m.sessions[i].0 != m.sessions[j].0);
    } else if j < i {
        assert(m.sessions[j].0 != m.sessions[i].0);
    }
}

} // verus!
