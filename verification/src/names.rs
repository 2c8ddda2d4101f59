//! Ordered sets of variable names.
//!
//! A `NameSet` keeps its members in the order in which they were first
//! inserted, so that walking it is deterministic. Its view is the sequence of
//! the members' character sequences; `as_set` forgets the order.

use vstd::prelude::*;
use vstd::seq_lib::lemma_seq_contains_after_push;

verus! {

/// A name as specifications see it.
pub type Name = Seq<char>;

/// `s` holds no element twice.
pub open spec fn distinct(s: Seq<Name>) -> bool {
    forall|i: int, j: int| 0 <= i < j < s.len() ==> s[i] != s[j]
}

/// `s` without every occurrence of `x`, the order of the rest kept.
pub open spec fn without(s: Seq<Name>, x: Name) -> Seq<Name>
    decreases s.len(),
{
    if s.len() == 0 {
        s
    } else if s.last() == x {
        without(s.drop_last(), x)
    } else {
        without(s.drop_last(), x).push(s.last())
    }
}

/// `s` followed by the elements of `t` that `s` lacks, each once, in the
/// order of their first occurrence in `t`.
pub open spec fn merged(s: Seq<Name>, t: Seq<Name>) -> Seq<Name>
    decreases t.len(),
{
    if t.len() == 0 {
        s
    } else {
        let m = merged(s, t.drop_last());
        if m.contains(t.last()) {
            m
        } else {
            m.push(t.last())
        }
    }
}

/// Membership in `without(s, x)`: the members of `s` other than `x`.
pub proof fn lemma_without(s: Seq<Name>, x: Name)
    ensures
        forall|y: Name| #[trigger] without(s, x).contains(y) <==> (s.contains(y) && y != x),
        distinct(s) ==> distinct(without(s, x)),
        without(s, x).len() <= s.len(),
        !s.contains(x) ==> without(s, x) == s,
    decreases s.len(),
{
    if s.len() > 0 {
        let t = s.drop_last();
        let l = s.last();
        lemma_without(t, x);
        let w = without(t, x);
        let r = without(s, x);
        assert(s =~= t.push(l));
        assert forall|y: Name| #[trigger] r.contains(y) <==> (s.contains(y) && y != x) by {
            lemma_seq_contains_after_push(t, l, y);
            lemma_seq_contains_after_push(w, l, y);
            assert(w.contains(y) <==> (t.contains(y) && y != x));
        }
        if distinct(s) && l != x {
            assert(distinct(t));
            if w.contains(l) {
                assert(t.contains(l));
                let k = choose|k: int| 0 <= k < t.len() && t[k] == l;
                assert(s[k] == s[s.len() - 1]);
            }
            assert forall|i: int, j: int| 0 <= i < j < r.len() implies r[i] != r[j] by {
                if j == w.len() {
                    assert(w.contains(w[i]));
                }
            }
        }
        if !s.contains(x) {
            lemma_seq_contains_after_push(t, l, x);
            assert(r =~= s);
        }
    }
}

/// Membership in `merged(s, t)`: the members of either.
pub proof fn lemma_merged(s: Seq<Name>, t: Seq<Name>)
    ensures
        forall|y: Name| #[trigger] merged(s, t).contains(y) <==> (s.contains(y) || t.contains(y)),
        distinct(s) ==> distinct(merged(s, t)),
        s.len() <= merged(s, t).len(),
        forall|i: int| 0 <= i < s.len() ==> merged(s, t)[i] == s[i],
    decreases t.len(),
{
    if t.len() > 0 {
        let u = t.drop_last();
        let l = t.last();
        lemma_merged(s, u);
        let m = merged(s, u);
        let r = merged(s, t);
        assert(t =~= u.push(l));
        assert forall|y: Name| #[trigger] r.contains(y) <==> (s.contains(y) || t.contains(y)) by {
            lemma_seq_contains_after_push(u, l, y);
            lemma_seq_contains_after_push(m, l, y);
            assert(m.contains(y) <==> (s.contains(y) || u.contains(y)));
        }
        if distinct(s) && !m.contains(l) {
            assert forall|i: int, j: int| 0 <= i < j < r.len() implies r[i] != r[j] by {
                if j == m.len() {
                    assert(m.contains(m[i]));
                }
            }
        }
    }
}

/// An insertion-ordered set of names.
#[derive(Debug)]
pub struct NameSet {
    names: Vec<String>,
}

impl View for NameSet {
    type V = Seq<Name>;

    closed spec fn view(&self) -> Seq<Name> {
        Seq::new(self.names@.len(), |i: int| self.names@[i]@)
    }
}

impl NameSet {
    /// No name occurs twice.
    pub open spec fn wf(&self) -> bool {
        distinct(self@)
    }

    /// The members, the order forgotten.
    pub open spec fn as_set(&self) -> Set<Name> {
        self@.to_set()
    }

    /// The empty set.
    pub fn new() -> (r: NameSet)
        ensures
            r@ == Seq::<Name>::empty(),
            r.wf(),
    {
        let r = NameSet { names: Vec::new() };
        assert(r@ =~= Seq::<Name>::empty());
        r
    }

    /// The number of members.
    pub fn len(&self) -> (n: usize)
        ensures
            n == self@.len(),
    {
        self.names.len()
    }

    /// The member at position `i`.
    pub fn get(&self, i: usize) -> (name: &String)
        requires
            i < self@.len(),
        ensures
            name@ == self@[i as int],
    {
        &self.names[i]
    }

    /// Whether `name` is a member.
    pub fn contains(&self, name: &str) -> (b: bool)
        ensures
            b == self@.contains(name@),
    {
        let wanted = name.to_owned();
        let mut i: usize = 0;
        while i < self.names.len()
            invariant
                i <= self.names@.len(),
                wanted@ == name@,
                forall|k: int| 0 <= k < i ==> self@[k] != name@,
            decreases self.names@.len() - i,
        {
            if self.names[i] == wanted {
                assert(self@[i as int] == name@);
                return true;
            }
            i += 1;
        }
        false
    }

    /// Adds `name` at the end unless it is a member already.
    pub fn insert(&mut self, name: String)
        ensures
            final(self)@ == (if old(self)@.contains(name@) {
                old(self)@
            } else {
                old(self)@.push(name@)
            }),
            old(self).wf() ==> final(self).wf(),
    {
        if !self.contains(name.as_str()) {
            let ghost before = self@;
            self.names.push(name);
            assert(self@ =~= before.push(name@));
            assert(forall|i: int| 0 <= i < before.len() ==> before[i] != name@);
        }
    }

    /// Takes `name` out, if it is a member.
    pub fn remove(&mut self, name: &str)
        ensures
            final(self)@ == without(old(self)@, name@),
            old(self).wf() ==> final(self).wf(),
    {
        let wanted = name.to_owned();
        let mut kept: Vec<String> = Vec::new();
        let mut i: usize = 0;
        while i < self.names.len()
            invariant
                i <= self.names@.len(),
                wanted@ == name@,
                Seq::new(kept@.len(), |k: int| kept@[k]@) == without(self@.take(i as int), name@),
            decreases self.names@.len() - i,
        {
            let ghost before = Seq::new(kept@.len(), |k: int| kept@[k]@);
            assert(self@.take(i as int + 1).drop_last() =~= self@.take(i as int));
            assert(self@.take(i as int + 1).last() == self@[i as int]);
            if self.names[i] != wanted {
                kept.push(self.names[i].clone());
                assert(Seq::new(kept@.len(), |k: int| kept@[k]@) =~= before.push(self@[i as int]));
            }
            i += 1;
        }
        assert(self@.take(i as int) =~= self@);
        proof {
            lemma_without(self@, name@);
        }
        self.names = kept;
        assert(self@ =~= without(old(self)@, name@));
    }

    /// Adds every member of `other` that is not a member yet, in `other`'s
    /// order.
    pub fn extend(&mut self, other: &NameSet)
        ensures
            final(self)@ == merged(old(self)@, other@),
            old(self).wf() ==> final(self).wf(),
    {
        let mut i: usize = 0;
        while i < other.names.len()
            invariant
                i <= other.names@.len(),
                self@ == merged(old(self)@, other@.take(i as int)),
                old(self).wf() ==> self.wf(),
            decreases other.names@.len() - i,
        {
            assert(other@.take(i as int + 1).drop_last() =~= other@.take(i as int));
            assert(other@.take(i as int + 1).last() == other@[i as int]);
            self.insert(other.names[i].clone());
            i += 1;
        }
        assert(other@.take(i as int) =~= other@);
    }

    /// A copy with the same members in the same order.
    pub fn clone(&self) -> (r: NameSet)
        ensures
            r@ == self@,
    {
        let mut names: Vec<String> = Vec::new();
        let mut i: usize = 0;
        while i < self.names.len()
            invariant
                i <= self.names@.len(),
                names@.len() == i,
                forall|k: int| 0 <= k < i ==> names@[k]@ == self.names@[k]@,
            decreases self.names@.len() - i,
        {
            names.push(self.names[i].clone());
            i += 1;
        }
        let r = NameSet { names };
        assert(r@ =~= self@);
        r
    }
}

} // verus!
