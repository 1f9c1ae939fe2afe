//! The record of the paths that are relocated at the moment.
//!
//! The record is a sequence without repetition. Every change is reported to
//! the caller, who writes the record out before anything else happens.

use vstd::prelude::*;
use vstd::string::*;

verus! {

/// No entry occurs twice.
pub open spec fn distinct(s: Seq<Seq<char>>) -> bool {
    forall|i: int, j: int| 0 <= i < j < s.len() ==> s[i] != s[j]
}

/// Exactly one entry of `s` is `v`.
pub open spec fn occurs_once(s: Seq<Seq<char>>, v: Seq<char>) -> bool {
    exists|i: int|
        0 <= i < s.len() && #[trigger] s[i] == v && forall|j: int|
            0 <= j < s.len() && j != i ==> s[j] != v
}

/// The record with `v` in it: appended where it was missing.
pub open spec fn with_entry(s: Seq<Seq<char>>, v: Seq<char>) -> Seq<Seq<char>> {
    if s.contains(v) {
        s
    } else {
        s.push(v)
    }
}

/// The index of the first entry equal to `v` at or after `i`, or the length
/// of `s` where there is none.
pub open spec fn first_at(s: Seq<Seq<char>>, v: Seq<char>, i: int) -> int
    decreases s.len() - i,
{
    if i < 0 || i >= s.len() {
        s.len() as int
    } else if s[i] == v {
        i
    } else {
        first_at(s, v, i + 1)
    }
}

/// The record without the first entry equal to `v`.
pub open spec fn without_entry(s: Seq<Seq<char>>, v: Seq<char>) -> Seq<Seq<char>> {
    let k = first_at(s, v, 0);
    if k < s.len() {
        s.remove(k)
    } else {
        s
    }
}

/// The paths that have been moved to the volume, in the order in which they
/// were recorded.
#[derive(Debug)]
pub struct State {
    pub backup_paths: Vec<String>,
}

impl View for State {
    type V = Seq<Seq<char>>;

    open spec fn view(&self) -> Seq<Seq<char>> {
        self.backup_paths@.map_values(|s: String| s@)
    }
}

impl Default for State {
    fn default() -> (s: Self)
        ensures
            s@ == Seq::<Seq<char>>::empty(),
    {
        State::new()
    }
}

impl State {
    /// The record holds no path twice.
    pub open spec fn wf(&self) -> bool {
        distinct(self@)
    }

    /// The empty record, which stands for a missing state file.
    pub fn new() -> (s: State)
        ensures
            s@ == Seq::<Seq<char>>::empty(),
            s.wf(),
    {
        let s = State { backup_paths: Vec::new() };
        assert(s@ =~= Seq::<Seq<char>>::empty());
        s
    }

    /// The number of recorded paths.
    pub fn len(&self) -> (n: usize)
        ensures
            n == self@.len(),
    {
        self.backup_paths.len()
    }

    /// The position of the first entry equal to `path`, or the length.
    fn position(&self, path: &String) -> (k: usize)
        ensures
            k == first_at(self@, path@, 0),
            k <= self@.len(),
            k < self@.len() ==> self@[k as int] == path@,
            k == self@.len() <==> !self@.contains(path@),
    {
        let n: usize = self.backup_paths.len();
        let mut i: usize = 0;
        while i < n
            invariant
                n == self.backup_paths@.len(),
                n == self@.len(),
                i <= n,
                first_at(self@, path@, i as int) == first_at(self@, path@, 0),
                forall|j: int| 0 <= j < i ==> self@[j] != path@,
            decreases n - i,
        {
            if self.backup_paths[i] == *path {
                return i;
            }
            i += 1;
        }
        i
    }

    /// Whether `path` is recorded.
    pub fn contains(&self, path: &str) -> (b: bool)
        ensures
            b == self@.contains(path@),
    {
        let owned = String::from_str(path);
        self.position(&owned) < self.backup_paths.len()
    }

    /// Records `path`. Nothing changes where it is recorded already;
    /// otherwise it is appended. The result says whether the record changed
    /// and so has to be written out.
    pub fn add(&mut self, path: &str) -> (changed: bool)
        ensures
            changed == !old(self)@.contains(path@),
            final(self)@ == with_entry(old(self)@, path@),
            old(self).wf() ==> final(self).wf(),
            final(self)@.contains(path@),
    {
        let owned = String::from_str(path);
        if self.position(&owned) < self.backup_paths.len() {
            return false;
        }
        self.backup_paths.push(owned);
        proof {
            assert(self@ =~= old(self)@.push(path@));
            lemma_with_entry(old(self)@, path@);
        }
        true
    }

    /// Strikes `path` from the record. Nothing changes where it is not
    /// recorded; otherwise its first entry leaves. The result says whether
    /// the record changed and so has to be written out.
    pub fn remove(&mut self, path: &str) -> (changed: bool)
        ensures
            changed == old(self)@.contains(path@),
            final(self)@ == without_entry(old(self)@, path@),
            old(self).wf() ==> final(self).wf() && !final(self)@.contains(path@),
    {
        let owned = String::from_str(path);
        let k: usize = self.position(&owned);
        if k >= self.backup_paths.len() {
            proof {
                lemma_without_entry(old(self)@, path@);
            }
            return false;
        }
        self.backup_paths.remove(k);
        proof {
            assert(self@ =~= old(self)@.remove(k as int));
            lemma_without_entry(old(self)@, path@);
        }
        true
    }

    /// The recorded paths, copied out for writing.
    pub fn entries(&self) -> (out: Vec<String>)
        ensures
            out@.map_values(|s: String| s@) == self@,
    {
        let n: usize = self.backup_paths.len();
        let mut out: Vec<String> = Vec::new();
        let mut i: usize = 0;
        while i < n
            invariant
                n == self.backup_paths@.len(),
                i <= n,
                out@.len() == i,
                forall|j: int| 0 <= j < i ==> out@[j]@ == self.backup_paths@[j]@,
            decreases n - i,
        {
            out.push(self.backup_paths[i].clone());
            i += 1;
        }
        assert(out@.map_values(|s: String| s@) =~= self@);
        out
    }
}

/// Recording a path leaves it recorded, keeps every other entry, and keeps
/// the record free of repetition.
pub proof fn lemma_with_entry(s: Seq<Seq<char>>, v: Seq<char>)
    ensures
        with_entry(s, v).contains(v),
        forall|w: Seq<char>| s.contains(w) ==> with_entry(s, v).contains(w),
        distinct(s) ==> distinct(with_entry(s, v)),
{
    let r = with_entry(s, v);
    if !s.contains(v) {
        assert(r[s.len() as int] == v);
        assert forall|w: Seq<char>| s.contains(w) implies r.contains(w) by {
            let i = choose|i: int| 0 <= i < s.len() && s[i] == w;
            assert(r[i] == w);
        }
        if distinct(s) {
            assert forall|i: int, j: int| 0 <= i < j < r.len() implies r[i] != r[j] by {
                if j == s.len() {
                    assert(s[i] == r[i]);
                    assert(s.contains(r[i]));
                }
            }
        }
    }
}

/// Recording a path a second time changes nothing, and in a record without
/// repetition the path then has exactly one entry.
pub proof fn lemma_add_idempotent(s: Seq<Seq<char>>, v: Seq<char>)
    ensures
        with_entry(with_entry(s, v), v) == with_entry(s, v),
        distinct(s) ==> distinct(with_entry(s, v)) && occurs_once(with_entry(s, v), v),
{
    lemma_with_entry(s, v);
    if distinct(s) {
        let r = with_entry(s, v);
        let i = choose|i: int| 0 <= i < r.len() && r[i] == v;
        assert(r[i] == v);
        assert forall|j: int| 0 <= j < r.len() && j != i implies r[j] != v by {
            if j < i {
                assert(r[j] != r[i]);
            } else {
                assert(r[i] != r[j]);
            }
        }
    }
}

/// The first entry equal to `v` is found exactly where there is one.
pub proof fn lemma_first_at(s: Seq<Seq<char>>, v: Seq<char>, i: int)
    requires
        0 <= i <= s.len(),
    ensures
        i <= first_at(s, v, i) <= s.len(),
        first_at(s, v, i) < s.len() ==> s[first_at(s, v, i)] == v,
        forall|j: int| i <= j < first_at(s, v, i) ==> s[j] != v,
    decreases s.len() - i,
{
    if i < s.len() && s[i] != v {
        lemma_first_at(s, v, i + 1);
    }
}

/// Striking a path that is not recorded changes nothing. Striking one from
/// a record without repetition leaves it absent and the record without
/// repetition.
pub proof fn lemma_without_entry(s: Seq<Seq<char>>, v: Seq<char>)
    ensures
        !s.contains(v) ==> without_entry(s, v) == s,
        s.contains(v) ==> without_entry(s, v).len() == s.len() - 1,
        distinct(s) ==> distinct(without_entry(s, v)) && !without_entry(s, v).contains(v),
{
    lemma_first_at(s, v, 0);
    let k = first_at(s, v, 0);
    let r = without_entry(s, v);
    if k < s.len() {
        assert(s.contains(v));
        if distinct(s) {
            assert forall|i: int, j: int| 0 <= i < j < r.len() implies r[i] != r[j] by {
                let a = if i < k { i } else { i + 1 };
                let b = if j < k { j } else { j + 1 };
                assert(r[i] == s[a] && r[j] == s[b]);
            }
            assert forall|i: int| 0 <= i < r.len() implies r[i] != v by {
                let a = if i < k { i } else { i + 1 };
                assert(r[i] == s[a]);
            }
        }
    } else {
        assert(!s.contains(v));
    }
}

/// Striking an entry brings no entry in.
pub proof fn lemma_without_keeps_absent(s: Seq<Seq<char>>, v: Seq<char>)
    ensures
        forall|x: Seq<char>| !s.contains(x) ==> !without_entry(s, v).contains(x),
{
    let r = without_entry(s, v);
    lemma_without_entry(s, v);
    let k = first_at(s, v, 0);
    lemma_first_at(s, v, 0);
    assert forall|x: Seq<char>| r.contains(x) implies s.contains(x) by {
        let i = choose|i: int| 0 <= i < r.len() && r[i] == x;
        if k < s.len() {
            let a = if i < k {
                i
            } else {
                i + 1
            };
            assert(s[a] == x);
        } else {
            assert(s[i] == x);
        }
    }
}

} // verus!
