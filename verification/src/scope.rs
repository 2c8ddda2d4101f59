//! The scope: the variables that are bound at the point where code is being
//! emitted, each with the value it stands for and a count of the uses still
//! to come.
//!
//! The view of a scope is the sequence of its bindings in the order in which
//! they were pushed. The bindings of one name form that name's stack: the
//! latest is the one in force, and the earlier ones are shadowed.

use crate::ir::Value;
use crate::names::{distinct, Name, NameSet};
use vstd::prelude::*;

verus! {

/// The code that was emitted for an expression: the value it yields.
#[derive(Clone, Copy, PartialEq, Eq, Structural, Debug)]
pub struct ExprCode {
    pub ptr: Value,
}

/// A variable in scope.
#[derive(Clone, Copy, PartialEq, Eq, Structural, Debug)]
pub struct LocalVariable {
    pub code: ExprCode,
    /// The number of uses of the variable that are still to come on the
    /// current path, after the code being emitted.
    pub used_later: u32,
}

/// One binding as specifications see it.
pub struct Bound {
    pub name: Name,
    pub var: LocalVariable,
}

/// One binding of a name.
pub struct Binding {
    pub name: String,
    pub var: LocalVariable,
}

/// The scope.
#[derive(Default)]
pub struct LocalVariables {
    data: Vec<Binding>,
}

/// Whether `name` is bound.
pub open spec fn bound(s: Seq<Bound>, name: Name) -> bool {
    exists|i: int| 0 <= i < s.len() && s[i].name == name
}

/// The position of the binding of `name` that is in force, or -1.
pub open spec fn top_index(s: Seq<Bound>, name: Name) -> int
    decreases s.len(),
{
    if s.len() == 0 {
        -1
    } else if s.last().name == name {
        s.len() - 1
    } else {
        top_index(s.drop_last(), name)
    }
}

/// The variable that `name` stands for.
pub open spec fn top(s: Seq<Bound>, name: Name) -> LocalVariable {
    s[top_index(s, name)].var
}

/// The binding at `i` is the one in force for its name.
pub open spec fn is_top(s: Seq<Bound>, i: int) -> bool {
    forall|j: int| i < j < s.len() ==> s[j].name != s[i].name
}

/// The scope after the counter of every name in `names` has moved by `by`.
pub open spec fn bumped(s: Seq<Bound>, names: Set<Name>, by: int) -> Seq<Bound> {
    Seq::new(
        s.len(),
        |i: int|
            if names.contains(s[i].name) && is_top(s, i) {
                Bound {
                    name: s[i].name,
                    var: LocalVariable {
                        code: s[i].var.code,
                        used_later: (s[i].var.used_later + by) as u32,
                    },
                }
            } else {
                s[i]
            },
    )
}

/// The scope without the binding of `name` that is in force.
pub open spec fn popped(s: Seq<Bound>, name: Name) -> Seq<Bound> {
    s.remove(top_index(s, name))
}

/// Every counter of the names in `names` stays within `u32` when moved by
/// `by`.
pub open spec fn bump_fits(s: Seq<Bound>, names: Set<Name>, by: int) -> bool {
    forall|i: int|
        0 <= i < s.len() && names.contains(#[trigger] s[i].name) && is_top(s, i) ==> 0
            <= s[i].var.used_later + by <= u32::MAX
}

/// `top_index` finds the last binding of the name, if there is one.
pub proof fn lemma_top_index(s: Seq<Bound>, name: Name)
    ensures
        bound(s, name) ==> 0 <= top_index(s, name) < s.len() && s[top_index(s, name)].name == name
            && is_top(s, top_index(s, name)),
        !bound(s, name) ==> top_index(s, name) == -1,
        forall|i: int|
            0 <= i < s.len() && s[i].name == name && is_top(s, i) ==> top_index(s, name) == i,
    decreases s.len(),
{
    if s.len() > 0 {
        let t = s.drop_last();
        lemma_top_index(t, name);
        if s.last().name == name {
            assert(s[s.len() - 1].name == name);
        } else {
            if bound(s, name) {
                let i = choose|i: int| 0 <= i < s.len() && s[i].name == name;
                assert(t[i].name == name);
                let k = top_index(t, name);
                assert(s[k] == t[k]);
                assert forall|j: int| k < j < s.len() implies s[j].name != s[k].name by {
                    if j < t.len() {
                        assert(t[j].name != t[k].name);
                    }
                }
            } else {
                assert forall|i: int| 0 <= i < t.len() implies t[i].name != name by {
                    assert(s[i].name != name);
                }
            }
            assert forall|i: int|
                0 <= i < s.len() && s[i].name == name && is_top(s, i) implies top_index(s, name)
                == i by {
                assert(i < t.len());
                assert(t[i].name == name);
                assert forall|j: int| i < j < t.len() implies t[j].name != t[i].name by {
                    assert(s[j].name != s[i].name);
                }
            }
        }
    }
}

/// Moving the counters up and then down again by the same amount leaves the
/// scope as it was.
pub proof fn lemma_bump_back(s: Seq<Bound>, names: Set<Name>, by: int)
    requires
        bump_fits(s, names, by),
    ensures
        bumped(bumped(s, names, by), names, -by) == s,
        bump_fits(bumped(s, names, by), names, -by),
{
    let b = bumped(s, names, by);
    assert forall|i: int| 0 <= i < s.len() implies (is_top(b, i) <==> is_top(s, i)) by {
        if is_top(s, i) {
            assert forall|j: int| i < j < b.len() implies b[j].name != b[i].name by {
                assert(s[j].name != s[i].name);
            }
        }
        if is_top(b, i) {
            assert forall|j: int| i < j < s.len() implies s[j].name != s[i].name by {
                assert(b[j].name != b[i].name);
            }
        }
    }
    assert forall|i: int| 0 <= i < s.len() implies #[trigger] bumped(b, names, -by)[i] == s[i] by {
        assert(b[i].name == s[i].name);
        if names.contains(s[i].name) && is_top(s, i) {
            assert(0 <= s[i].var.used_later + by <= u32::MAX);
        }
    }
    assert(bumped(b, names, -by) =~= s);
    assert forall|i: int|
        0 <= i < b.len() && names.contains(#[trigger] b[i].name) && is_top(b, i) implies 0
        <= b[i].var.used_later - by <= u32::MAX by {
        assert(b[i].name == s[i].name);
        assert(is_top(s, i));
    }
}

/// A bump leaves names, values and positions as they were.
pub proof fn lemma_bumped_lookup(s: Seq<Bound>, names: Set<Name>, by: int, name: Name)
    ensures
        bound(bumped(s, names, by), name) == bound(s, name),
        top_index(bumped(s, names, by), name) == top_index(s, name),
        bound(s, name) ==> top(bumped(s, names, by), name).code == top(s, name).code,
        bound(s, name) && !names.contains(name) ==> top(bumped(s, names, by), name) == top(
            s,
            name,
        ),
        bound(s, name) && names.contains(name) ==> top(bumped(s, names, by), name).used_later
            == (top(s, name).used_later + by) as u32,
{
    let b = bumped(s, names, by);
    lemma_top_index(s, name);
    lemma_top_index(b, name);
    if bound(s, name) {
        let k = top_index(s, name);
        assert(b[k].name == name);
        assert forall|j: int| k < j < b.len() implies b[j].name != b[k].name by {
            assert(s[j].name != s[k].name);
        }
    }
    if bound(b, name) {
        let i = choose|i: int| 0 <= i < b.len() && b[i].name == name;
        assert(s[i].name == name);
    }
}

/// Bumping the first `k + 1` of the distinct names `names` is bumping the
/// first `k` and then the binding in force of the next one.
pub proof fn lemma_bump_one(s: Seq<Bound>, names: Seq<Name>, k: int, by: int)
    requires
        distinct(names),
        0 <= k < names.len(),
        bound(s, names[k]),
        bump_fits(s, names.to_set(), by),
    ensures
        ({
            let b = bumped(s, names.take(k).to_set(), by);
            let i = top_index(s, names[k]);
            &&& bound(b, names[k])
            &&& top_index(b, names[k]) == i
            &&& 0 <= i < s.len()
            &&& b[i] == s[i]
            &&& s[i].name == names[k]
            &&& 0 <= s[i].var.used_later + by <= u32::MAX
            &&& bumped(s, names.take(k + 1).to_set(), by) == b.update(
                i,
                Bound {
                    name: names[k],
                    var: LocalVariable {
                        code: s[i].var.code,
                        used_later: (s[i].var.used_later + by) as u32,
                    },
                },
            )
        }),
{
    let name = names[k];
    let done = names.take(k).to_set();
    let next = names.take(k + 1).to_set();
    let b = bumped(s, done, by);
    let i = top_index(s, name);
    lemma_top_index(s, name);
    lemma_bumped_lookup(s, done, by, name);
    assert(names.contains(name));
    assert(!done.contains(name)) by {
        if done.contains(name) {
            let j = choose|j: int| 0 <= j < names.take(k).len() && names.take(k)[j] == name;
            assert(names[j] == names[k]);
        }
    }
    assert(names.take(k + 1) =~= names.take(k).push(name));
    assert forall|n: Name| next.contains(n) <==> (done.contains(n) || n == name) by {
        vstd::seq_lib::lemma_seq_contains_after_push(names.take(k), name, n);
    }
    let target = b.update(
        i,
        Bound {
            name,
            var: LocalVariable {
                code: s[i].var.code,
                used_later: (s[i].var.used_later + by) as u32,
            },
        },
    );
    assert forall|j: int| 0 <= j < s.len() implies bumped(s, next, by)[j] == target[j] by {
        if j != i {
            if s[j].name == name && is_top(s, j) {
                assert(false);
            }
        }
    }
    assert(bumped(s, next, by) =~= target);
}

/// Pushing a binding and popping its name again leaves the scope as it was.
pub proof fn lemma_push_pop(s: Seq<Bound>, b: Bound)
    ensures
        popped(s.push(b), b.name) == s,
        top_index(s.push(b), b.name) == s.len(),
        top(s.push(b), b.name) == b.var,
        bound(s.push(b), b.name),
        forall|n: Name| bound(s, n) ==> bound(s.push(b), n),
        forall|n: Name| n != b.name ==> top_index(s.push(b), n) == top_index(s, n),
        forall|n: Name| n != b.name ==> bound(s.push(b), n) == bound(s, n),
{
    let p = s.push(b);
    assert(p.last() == b);
    assert(p[s.len() as int].name == b.name);
    assert(p.remove(s.len() as int) =~= s);
    assert forall|n: Name| bound(s, n) implies bound(p, n) by {
        let i = choose|i: int| 0 <= i < s.len() && s[i].name == n;
        assert(p[i].name == n);
    }
    assert forall|n: Name| n != b.name implies top_index(p, n) == top_index(s, n) by {
        assert(p.drop_last() =~= s);
    }
    assert forall|n: Name| n != b.name implies bound(p, n) == bound(s, n) by {
        if bound(p, n) {
            let i = choose|i: int| 0 <= i < p.len() && p[i].name == n;
            assert(s[i].name == n);
        }
    }
}

impl View for LocalVariables {
    type V = Seq<Bound>;

    closed spec fn view(&self) -> Seq<Bound> {
        Seq::new(
            self.data@.len(),
            |i: int| Bound { name: self.data@[i].name@, var: self.data@[i].var },
        )
    }
}

impl LocalVariables {
    /// The empty scope.
    pub fn new() -> (r: LocalVariables)
        ensures
            r@ == Seq::<Bound>::empty(),
    {
        let r = LocalVariables { data: Vec::new() };
        assert(r@ =~= Seq::<Bound>::empty());
        r
    }

    /// The position of the binding of `name` that is in force.
    fn find(&self, name: &str) -> (r: Option<usize>)
        ensures
            r is Some == bound(self@, name@),
            r matches Some(i) ==> i == top_index(self@, name@) && i < self@.len(),
    {
        let wanted = name.to_owned();
        let mut i: usize = self.data.len();
        proof {
            lemma_top_index(self@, name@);
        }
        while i > 0
            invariant
                i <= self.data@.len(),
                wanted@ == name@,
                forall|j: int| i <= j < self@.len() ==> self@[j].name != name@,
            decreases i,
        {
            i -= 1;
            if self.data[i].name == wanted {
                proof {
                    assert(self@[i as int].name == name@);
                    assert(is_top(self@, i as int));
                    lemma_top_index(self@, name@);
                }
                return Some(i);
            }
        }
        proof {
            lemma_top_index(self@, name@);
        }
        None
    }

    /// Binds `var_name` to `code`, shadowing an earlier binding of the name.
    pub fn push(&mut self, var_name: &str, code: &ExprCode)
        ensures
            final(self)@ == old(self)@.push(
                Bound { name: var_name@, var: LocalVariable { code: *code, used_later: 0 } },
            ),
    {
        self.data.push(
            Binding { name: var_name.to_owned(), var: LocalVariable { code: *code, used_later: 0 } },
        );
        assert(self@ =~= old(self)@.push(
            Bound { name: var_name@, var: LocalVariable { code: *code, used_later: 0 } },
        ));
    }

    /// Removes the binding of `var_name` that is in force.
    pub fn pop(&mut self, var_name: &str)
        requires
            bound(old(self)@, var_name@),
        ensures
            final(self)@ == popped(old(self)@, var_name@),
    {
        match self.find(var_name) {
            Some(i) => {
                self.data.remove(i);
                assert(self@ =~= popped(old(self)@, var_name@));
            },
            None => {},
        }
    }

    /// Whether `var_name` is bound.
    pub fn contains(&self, var_name: &str) -> (b: bool)
        ensures
            b == bound(self@, var_name@),
    {
        self.find(var_name).is_some()
    }

    /// The variable that `var_name` stands for.
    pub fn get(&self, var_name: &str) -> (var: LocalVariable)
        requires
            bound(self@, var_name@),
        ensures
            var == top(self@, var_name@),
    {
        match self.find(var_name) {
            Some(i) => self.data[i].var,
            None => vstd::pervasive::unreached(),
        }
    }

    /// Moves the counter of every name in `names` by `by`.
    pub fn modify_used_later(&mut self, names: &NameSet, by: i32)
        requires
            names.wf(),
            forall|i: int| 0 <= i < names@.len() ==> bound(old(self)@, names@[i]),
            bump_fits(old(self)@, names.as_set(), by as int),
        ensures
            final(self)@ == bumped(old(self)@, names.as_set(), by as int),
    {
        let mut k: usize = 0;
        assert(self@ =~= bumped(old(self)@, names@.take(0).to_set(), by as int));
        while k < names.len()
            invariant
                k <= names@.len(),
                names.wf(),
                forall|i: int| 0 <= i < names@.len() ==> bound(old(self)@, names@[i]),
                bump_fits(old(self)@, names.as_set(), by as int),
                self@ == bumped(old(self)@, names@.take(k as int).to_set(), by as int),
            decreases names@.len() - k,
        {
            let name = names.get(k);
            let ghost before = self@;
            proof {
                assert(names@.contains(name@));
                lemma_bump_one(old(self)@, names@, k as int, by as int);
            }
            match self.find(name.as_str()) {
                Some(i) => {
                    let var = self.data[i].var;
                    let used_later = add_i32_to_u32(var.used_later, by);
                    let binding = Binding {
                        name: self.data[i].name.clone(),
                        var: LocalVariable { code: var.code, used_later },
                    };
                    self.data.set(i, binding);
                    assert(self@ =~= before.update(
                        i as int,
                        Bound {
                            name: name@,
                            var: LocalVariable { code: var.code, used_later },
                        },
                    ));
                },
                None => {},
            }
            k += 1;
        }
        assert(names@.take(k as int) =~= names@);
    }

    /// Moves the counter of every name in `names` up by one.
    pub fn increment_used_later(&mut self, names: &NameSet)
        requires
            names.wf(),
            forall|i: int| 0 <= i < names@.len() ==> bound(old(self)@, names@[i]),
            bump_fits(old(self)@, names.as_set(), 1),
        ensures
            final(self)@ == bumped(old(self)@, names.as_set(), 1),
    {
        self.modify_used_later(names, 1);
    }

    /// Moves the counter of every name in `names` down by one.
    pub fn decrement_used_later(&mut self, names: &NameSet)
        requires
            names.wf(),
            forall|i: int| 0 <= i < names@.len() ==> bound(old(self)@, names@[i]),
            bump_fits(old(self)@, names.as_set(), -1),
        ensures
            final(self)@ == bumped(old(self)@, names.as_set(), -1),
    {
        self.modify_used_later(names, -1);
    }
}

/// The sum of an unsigned and a signed number, where it is a `u32`.
pub fn add_i32_to_u32(u: u32, i: i32) -> (r: u32)
    requires
        0 <= u + i <= u32::MAX,
    ensures
        r == u + i,
{
    if i < 0 {
        let magnitude: u32 = if i == i32::MIN {
            2147483648u32
        } else {
            (-i) as u32
        };
        u - magnitude
    } else {
        u + i as u32
    }
}

} // verus!
