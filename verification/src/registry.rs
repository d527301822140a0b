//! The macro registry: a mapping from macro name to a non-empty stack of
//! definitions, most recent last.
//!
//! Defining a name pushes onto its stack, so an earlier definition (or a
//! builtin) is shadowed, not destroyed.  Undefining a name removes the
//! *entire* stack — shadowed definitions and builtins of that name
//! included.  That full-stack removal mirrors the observed behavior of the
//! macro dialect and is stated here so nobody mis-reads it as pop-one.

use vstd::prelude::*;
use crate::builtins::BuiltinId;

verus! {

/// One macro definition.
pub enum MacroType {
    /// A builtin, identified by its catalog entry.
    Internal(BuiltinId),
    /// A user-defined macro body: `len` code points of the session text
    /// buffer starting at `offset`, defined in `file`.  `param` marks a
    /// parameterized definition (declared as `name()`).
    Runtime { file: String, offset: usize, len: usize, param: bool },
}

impl MacroType {
    /// The definition's span lies within a session buffer of `buflen`
    /// characters.  Builtins carry no span.
    pub open spec fn span_ok(self, buflen: nat) -> bool {
        match self {
            MacroType::Internal(_) => true,
            MacroType::Runtime { offset, len, .. } => offset + len <= buflen,
        }
    }
}

/// A name together with its stack of definitions, most recent last.
pub struct Entry {
    pub name: Vec<char>,
    pub defs: Vec<MacroType>,
}

/// The registry itself: entries with pairwise distinct names.
pub struct Registry {
    pub entries: Vec<Entry>,
}

/// The stack of definitions registered under `name`, if any.
pub open spec fn lookup_stack(entries: Seq<Entry>, name: Seq<char>) -> Option<Seq<MacroType>>
    decreases entries.len(),
{
    if entries.len() == 0 {
        None
    } else if entries[0].name@ == name {
        Some(entries[0].defs@)
    } else {
        lookup_stack(entries.drop_first(), name)
    }
}

impl Registry {
    /// Names are pairwise distinct and every stack is non-empty.
    pub open spec fn inv(self) -> bool {
        &&& forall|i: int, j: int|
            0 <= i < j < self.entries@.len() ==> self.entries@[i].name@ != self.entries@[j].name@
        &&& forall|i: int|
            0 <= i < self.entries@.len() ==> self.entries@[i].defs@.len() >= 1
    }

    /// Every registered span lies within a session buffer of `buflen`
    /// characters.
    pub open spec fn spans_ok(self, buflen: nat) -> bool {
        forall|i: int, k: int|
            0 <= i < self.entries@.len() && 0 <= k < self.entries@[i].defs@.len()
                ==> self.entries@[i].defs@[k].span_ok(buflen)
    }

    /// The stack registered under `name`, if any.
    pub open spec fn lookup_spec(self, name: Seq<char>) -> Option<Seq<MacroType>> {
        lookup_stack(self.entries@, name)
    }

    /// An empty registry.
    pub fn new() -> (r: Registry)
        ensures
            r.inv(),
            forall|n: Seq<char>| r.lookup_spec(n) is None,
            forall|b: nat| r.spans_ok(b),
    {
        let r = Registry { entries: Vec::new() };
        proof {
            assert forall|n: Seq<char>| r.lookup_spec(n) is None by {
                reveal(lookup_stack);
            }
        }
        r
    }

    /// The index of the entry for `name`, if one exists.
    fn find_index(&self, name: &Vec<char>) -> (r: Option<usize>)
        ensures
            r matches Some(i) ==> i < self.entries@.len() && self.entries@[i as int].name@
                == name@ && forall|j: int| 0 <= j < i ==> self.entries@[j].name@ != name@,
            r is None ==> forall|j: int|
                0 <= j < self.entries@.len() ==> self.entries@[j].name@ != name@,
    {
        let n = self.entries.len();
        let mut i: usize = 0;
        while i < n
            invariant
                n == self.entries@.len(),
                i <= n,
                forall|j: int| 0 <= j < i ==> self.entries@[j].name@ != name@,
            decreases n - i,
        {
            if crate::text::text_eq(&self.entries[i].name, name) {
                return Some(i);
            }
            i += 1;
        }
        None
    }

    /// Resolves `name` to its most recent definition.
    pub fn lookup(&self, name: &Vec<char>) -> (r: Option<&MacroType>)
        requires
            self.inv(),
        ensures
            match self.lookup_spec(name@) {
                Some(stack) => r matches Some(m) && *m == stack.last(),
                None => r is None,
            },
    {
        match self.find_index(name) {
            Some(i) => {
                proof {
                    lemma_lookup_at_index(self.entries@, name@, i as int);
                }
                let e = &self.entries[i];
                Some(&e.defs[e.defs.len() - 1])
            },
            None => {
                proof {
                    lemma_lookup_absent(self.entries@, name@);
                }
                None
            },
        }
    }

    /// Registers a definition for `name`: pushes onto the existing stack,
    /// or starts a fresh single-element stack for an unseen name.  Never
    /// fails; name syntax is the caller's business.
    pub fn define(&mut self, name: Vec<char>, def: MacroType)
        requires
            old(self).inv(),
        ensures
            final(self).inv(),
            final(self).lookup_spec(name@) == (match old(self).lookup_spec(name@) {
                Some(stack) => Some(stack.push(def)),
                None => Some(seq![def]),
            }),
            forall|n: Seq<char>|
                n != name@ ==> final(self).lookup_spec(n) == old(self).lookup_spec(n),
            forall|b: nat|
                old(self).spans_ok(b) && def.span_ok(b) ==> #[trigger] final(self).spans_ok(b),
    {
        match self.find_index(&name) {
            Some(i) => {
                proof {
                    lemma_lookup_at_index(self.entries@, name@, i as int);
                }
                let ghost entries0 = self.entries@;
                let mut e = self.entries.remove(i);
                e.defs.push(def);
                self.entries.insert(i, e);
                proof {
                    assert(self.entries@ =~= entries0.update(i as int, self.entries@[i as int]));
                    lemma_lookup_update(entries0, i as int, self.entries@[i as int]);
                }
            },
            None => {
                proof {
                    lemma_lookup_absent(self.entries@, name@);
                }
                let mut defs: Vec<MacroType> = Vec::new();
                defs.push(def);
                let ghost entries0 = self.entries@;
                self.entries.push(Entry { name, defs });
                proof {
                    lemma_lookup_push(entries0, self.entries@.last());
                    assert(self.entries@.last().defs@ =~= seq![def]);
                }
            },
        }
    }

    /// Removes the entire stack registered under `name` — every shadowed
    /// definition of that name goes with it.  A miss is a no-op.
    pub fn undefine(&mut self, name: &Vec<char>)
        requires
            old(self).inv(),
        ensures
            final(self).inv(),
            final(self).lookup_spec(name@) is None,
            forall|n: Seq<char>|
                n != name@ ==> final(self).lookup_spec(n) == old(self).lookup_spec(n),
            forall|b: nat| old(self).spans_ok(b) ==> #[trigger] final(self).spans_ok(b),
    {
        match self.find_index(name) {
            Some(i) => {
                let ghost entries0 = self.entries@;
                self.entries.remove(i);
                proof {
                    lemma_lookup_remove(entries0, i as int);
                    lemma_lookup_absent_still(entries0, i as int, name@);
                }
            },
            None => {
                proof {
                    lemma_lookup_absent(self.entries@, name@);
                }
            },
        }
    }

    /// Every definition a lookup can hand out respects the registered
    /// span bound.
    pub proof fn lemma_lookup_spans(self, name: Seq<char>, b: nat)
        requires
            self.inv(),
            self.spans_ok(b),
            self.lookup_spec(name) is Some,
        ensures
            self.lookup_spec(name).unwrap().len() >= 1,
            forall|k: int|
                0 <= k < self.lookup_spec(name).unwrap().len() ==> self.lookup_spec(
                    name,
                ).unwrap()[k].span_ok(b),
    {
        lemma_lookup_in_entries(self.entries@, name);
        let stack = self.lookup_spec(name).unwrap();
        let i = choose|i: int|
            0 <= i < self.entries@.len() && self.entries@[i].defs@ == stack;
        assert(self.entries@[i].defs@.len() >= 1);
        assert forall|k: int| 0 <= k < stack.len() implies stack[k].span_ok(b) by {
            assert(self.entries@[i].defs@[k].span_ok(b));
        }
    }

    /// How many names are registered.
    pub fn num_entries(&self) -> (n: usize)
        ensures
            n == self.entries@.len(),
    {
        self.entries.len()
    }
}

/// A hit comes from some entry of the registry.
proof fn lemma_lookup_in_entries(entries: Seq<Entry>, name: Seq<char>)
    requires
        lookup_stack(entries, name) is Some,
    ensures
        exists|i: int|
            0 <= i < entries.len() && entries[i].defs@ == lookup_stack(entries, name).unwrap(),
    decreases entries.len(),
{
    if entries.len() > 0 && entries[0].name@ != name {
        lemma_lookup_in_entries(entries.drop_first(), name);
        let i0 = choose|i: int|
            0 <= i < entries.drop_first().len() && entries.drop_first()[i].defs@ == lookup_stack(
                entries.drop_first(),
                name,
            ).unwrap();
        assert(entries[i0 + 1].defs@ == lookup_stack(entries, name).unwrap());
    }
}

/// If the first entry carrying `name` sits at index `i`, lookup returns
/// its stack.
proof fn lemma_lookup_at_index(entries: Seq<Entry>, name: Seq<char>, i: int)
    requires
        0 <= i < entries.len(),
        entries[i].name@ == name,
        forall|j: int| 0 <= j < i ==> entries[j].name@ != name,
    ensures
        lookup_stack(entries, name) == Some(entries[i].defs@),
    decreases i,
{
    if i > 0 {
        lemma_lookup_at_index(entries.drop_first(), name, i - 1);
    }
}

/// If no entry carries `name`, lookup misses.
proof fn lemma_lookup_absent(entries: Seq<Entry>, name: Seq<char>)
    requires
        forall|j: int| 0 <= j < entries.len() ==> entries[j].name@ != name,
    ensures
        lookup_stack(entries, name) is None,
    decreases entries.len(),
{
    if entries.len() > 0 {
        lemma_lookup_absent(entries.drop_first(), name);
    }
}

/// Replacing the first entry of a name by another entry of the same name
/// redirects that name's lookup and leaves every other name alone.
proof fn lemma_lookup_update(entries: Seq<Entry>, i: int, e2: Entry)
    requires
        0 <= i < entries.len(),
        e2.name@ == entries[i].name@,
        forall|j: int| 0 <= j < i ==> entries[j].name@ != entries[i].name@,
    ensures
        forall|n: Seq<char>|
            lookup_stack(entries.update(i, e2), n) == (if n == entries[i].name@ {
                Some(e2.defs@)
            } else {
                lookup_stack(entries, n)
            }),
    decreases i,
{
    let u = entries.update(i, e2);
    if i == 0 {
        assert(u.drop_first() =~= entries.drop_first());
        assert forall|n: Seq<char>|
            lookup_stack(u, n) == (if n == entries[i].name@ {
                Some(e2.defs@)
            } else {
                lookup_stack(entries, n)
            }) by {
            assert(u[0] == e2);
        }
    } else {
        assert(u[0] == entries[0]);
        assert(u.drop_first() =~= entries.drop_first().update(i - 1, e2));
        lemma_lookup_update(entries.drop_first(), i - 1, e2);
        assert forall|n: Seq<char>|
            lookup_stack(u, n) == (if n == entries[i].name@ {
                Some(e2.defs@)
            } else {
                lookup_stack(entries, n)
            }) by {
            assert(entries.drop_first()[i - 1] == entries[i]);
            if u[0].name@ == n {
                assert(lookup_stack(u, n) == Some(u[0].defs@));
                assert(lookup_stack(entries, n) == Some(entries[0].defs@));
            } else {
                assert(lookup_stack(u, n) == lookup_stack(u.drop_first(), n));
                assert(lookup_stack(entries, n) == lookup_stack(entries.drop_first(), n));
            }
        }
    }
}

/// Appending a fresh entry serves its name and leaves every name that was
/// already served alone.
proof fn lemma_lookup_push(entries: Seq<Entry>, e: Entry)
    requires
        entries.push(e).last() == e,
    ensures
        forall|n: Seq<char>|
            lookup_stack(entries.push(e), n) == (match lookup_stack(entries, n) {
                Some(s) => Some(s),
                None => if e.name@ == n {
                    Some(e.defs@)
                } else {
                    None
                },
            }),
    decreases entries.len(),
{
    let p = entries.push(e);
    if entries.len() == 0 {
        assert(p[0] == e);
        assert(p.drop_first() =~= entries);
    } else {
        assert(p[0] == entries[0]);
        assert(p.drop_first() =~= entries.drop_first().push(e));
        assert(entries.drop_first().push(e).last() == e);
        lemma_lookup_push(entries.drop_first(), e);
        assert forall|n: Seq<char>|
            lookup_stack(p, n) == (match lookup_stack(entries, n) {
                Some(s) => Some(s),
                None => if e.name@ == n {
                    Some(e.defs@)
                } else {
                    None
                },
            }) by {
            if p[0].name@ == n {
                assert(lookup_stack(p, n) == Some(p[0].defs@));
                assert(lookup_stack(entries, n) == Some(entries[0].defs@));
            } else {
                assert(lookup_stack(p, n) == lookup_stack(p.drop_first(), n));
                assert(lookup_stack(entries, n) == lookup_stack(entries.drop_first(), n));
            }
        }
    }
}

/// Removing the entry at `i` leaves the lookup of every other name alone.
proof fn lemma_lookup_remove(entries: Seq<Entry>, i: int)
    requires
        0 <= i < entries.len(),
        forall|j: int| 0 <= j < entries.len() && j != i ==> entries[j].name@ != entries[i].name@,
    ensures
        forall|n: Seq<char>|
            n != entries[i].name@ ==> lookup_stack(entries.remove(i), n) == lookup_stack(
                entries,
                n,
            ),
    decreases entries.len(),
{
    let r = entries.remove(i);
    if i == 0 {
        assert(r =~= entries.drop_first());
    } else {
        assert(r[0] == entries[0]);
        assert(r.drop_first() =~= entries.drop_first().remove(i - 1));
        lemma_lookup_remove(entries.drop_first(), i - 1);
        assert forall|n: Seq<char>|
            n != entries[i].name@ implies lookup_stack(r, n) == lookup_stack(entries, n) by {
            assert(entries.drop_first()[i - 1] == entries[i]);
            if r[0].name@ == n {
                assert(lookup_stack(r, n) == Some(r[0].defs@));
                assert(lookup_stack(entries, n) == Some(entries[0].defs@));
            } else {
                assert(lookup_stack(r, n) == lookup_stack(r.drop_first(), n));
                assert(lookup_stack(entries, n) == lookup_stack(entries.drop_first(), n));
            }
        }
    }
}

/// After removing the unique entry for a name, that name misses.
proof fn lemma_lookup_absent_still(entries: Seq<Entry>, i: int, name: Seq<char>)
    requires
        0 <= i < entries.len(),
        entries[i].name@ == name,
        forall|j: int| 0 <= j < entries.len() && j != i ==> entries[j].name@ != name,
    ensures
        lookup_stack(entries.remove(i), name) is None,
{
    let r = entries.remove(i);
    assert forall|j: int| 0 <= j < r.len() implies r[j].name@ != name by {
        if j < i {
            assert(r[j] == entries[j]);
        } else {
            assert(r[j] == entries[j + 1]);
        }
    }
    lemma_lookup_absent(r, name);
}

/// The documented quirk, stated once over the registry contracts: define a
/// name twice (`r0` to `r1` to `r2`, as `define`'s postcondition relates
/// them), then undefine it once (`r2` to `r3`, as `undefine`'s
/// postcondition relates them).  Right before the undefine the name held at
/// least the two stacked definitions — on top of whatever it held in `r0`,
/// a builtin included — and the single undefine still leaves nothing.
pub proof fn lemma_undefine_removes_whole_stack(
    r0: Registry,
    r1: Registry,
    r2: Registry,
    r3: Registry,
    name: Seq<char>,
    d1: MacroType,
    d2: MacroType,
)
    requires
        r1.lookup_spec(name) == (match r0.lookup_spec(name) {
            Some(s) => Some(s.push(d1)),
            None => Some(seq![d1]),
        }),
        r2.lookup_spec(name) == (match r1.lookup_spec(name) {
            Some(s) => Some(s.push(d2)),
            None => Some(seq![d2]),
        }),
        r3.lookup_spec(name) is None,
    ensures
        r2.lookup_spec(name) matches Some(s) && s.len() >= 2 && s.last() == d2,
        r0.lookup_spec(name) matches Some(s0) ==> r2.lookup_spec(name) == Some(
            s0.push(d1).push(d2),
        ),
        r3.lookup_spec(name) is None,
{
    let s1 = r1.lookup_spec(name).unwrap();
    assert(s1.last() == d1);
}

} // verus!
