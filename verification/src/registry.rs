//! Where each flattened chat tool name came from, so that a tool call coming back from
//! the chat side can be restored to its original name, namespace and kind.
use vstd::prelude::*;
use crate::text::text_eq;

verus! {

/// The original identity of a tool declaration.
#[derive(Debug, Clone)]
pub struct ToolIdentity {
    pub original_name: String,
    pub namespace_name: Option<String>,
    pub original_tool_type: String,
}

/// The mathematical form of a `ToolIdentity`.
pub struct IdentityV {
    pub original_name: Seq<char>,
    pub namespace_name: Option<Seq<char>>,
    pub original_tool_type: Seq<char>,
}

pub open spec fn opt_string_view(o: Option<String>) -> Option<Seq<char>> {
    match o {
        Some(s) => Some(s@),
        None => None,
    }
}

impl View for ToolIdentity {
    type V = IdentityV;

    open spec fn view(&self) -> IdentityV {
        IdentityV {
            original_name: self.original_name@,
            namespace_name: opt_string_view(self.namespace_name),
            original_tool_type: self.original_tool_type@,
        }
    }
}

impl ToolIdentity {
    /// A copy of the identity.
    pub fn duplicate(&self) -> (r: ToolIdentity)
        ensures
            r@ == self@,
    {
        ToolIdentity {
            original_name: self.original_name.clone(),
            namespace_name: match &self.namespace_name {
                Some(n) => Some(n.clone()),
                None => None,
            },
            original_tool_type: self.original_tool_type.clone(),
        }
    }
}

/// The identity that a list of entries gives to `key`: that of the first entry with it.
pub open spec fn lookup(s: Seq<(String, ToolIdentity)>, key: Seq<char>) -> Option<IdentityV>
    decreases s.len(),
{
    if s.len() == 0 {
        None
    } else if s[0].0@ == key {
        Some(s[0].1@)
    } else {
        lookup(s.drop_first(), key)
    }
}

/// Flattened tool name to original identity (a map: registering a name again replaces it).
#[derive(Debug)]
pub struct ToolIdentityRegistry {
    by_flat_name: Vec<(String, ToolIdentity)>,
}

impl View for ToolIdentityRegistry {
    type V = Map<Seq<char>, IdentityV>;

    closed spec fn view(&self) -> Map<Seq<char>, IdentityV> {
        Map::new(
            |k: Seq<char>| lookup(self.by_flat_name@, k) is Some,
            |k: Seq<char>| lookup(self.by_flat_name@, k)->Some_0,
        )
    }
}

proof fn lemma_lookup_push(s: Seq<(String, ToolIdentity)>, e: (String, ToolIdentity), k: Seq<char>)
    requires
        forall|j: int| 0 <= j < s.len() ==> (#[trigger] s[j]).0@ != e.0@,
    ensures
        lookup(s.push(e), k) == if k == e.0@ {
            Some(e.1@)
        } else {
            lookup(s, k)
        },
    decreases s.len(),
{
    if s.len() > 0 {
        assert(s.push(e).drop_first() =~= s.drop_first().push(e));
        assert(s.push(e)[0] == s[0]);
        assert forall|j: int| 0 <= j < s.drop_first().len() implies (#[trigger] s.drop_first()[j]).0@
            != e.0@ by {
            assert(s.drop_first()[j] == s[j + 1]);
        }
        lemma_lookup_push(s.drop_first(), e, k);
    } else {
        assert(s.push(e)[0] == e);
        assert(s.push(e).drop_first().len() == 0);
        assert(lookup(s.push(e).drop_first(), k) is None);
    }
}

proof fn lemma_lookup_update(s: Seq<(String, ToolIdentity)>, i: int, e: (String, ToolIdentity), k: Seq<char>)
    requires
        0 <= i < s.len(),
        s[i].0@ == e.0@,
        forall|j: int| 0 <= j < i ==> (#[trigger] s[j]).0@ != e.0@,
    ensures
        lookup(s.update(i, e), k) == if k == e.0@ {
            Some(e.1@)
        } else {
            lookup(s, k)
        },
    decreases s.len(),
{
    if i > 0 {
        assert(s.update(i, e).drop_first() =~= s.drop_first().update(i - 1, e));
        assert(s.update(i, e)[0] == s[0]);
        assert forall|j: int| 0 <= j < i - 1 implies (#[trigger] s.drop_first()[j]).0@ != e.0@ by {
            assert(s.drop_first()[j] == s[j + 1]);
        }
        lemma_lookup_update(s.drop_first(), i - 1, e, k);
    } else {
        assert(s.update(i, e)[0] == e);
        assert(s.update(i, e).drop_first() =~= s.drop_first());
    }
}

impl Default for ToolIdentityRegistry {
    fn default() -> (r: ToolIdentityRegistry)
        ensures
            r@ == Map::<Seq<char>, IdentityV>::empty(),
    {
        ToolIdentityRegistry::new()
    }
}

impl ToolIdentityRegistry {
    /// No flattened name is recorded twice.
    #[verifier::type_invariant]
    spec fn names_distinct(self) -> bool {
        forall|i: int, j: int|
            0 <= i < j < self.by_flat_name@.len() ==> (#[trigger] self.by_flat_name@[i]).0@
                != (#[trigger] self.by_flat_name@[j]).0@
    }

    /// An empty registry.
    pub fn new() -> (r: ToolIdentityRegistry)
        ensures
            r@ == Map::<Seq<char>, IdentityV>::empty(),
    {
        let r = ToolIdentityRegistry { by_flat_name: Vec::new() };
        assert(r@ =~= Map::<Seq<char>, IdentityV>::empty());
        r
    }

    /// Records the identity of a flattened name, replacing an earlier one.
    pub fn register(&mut self, flat_name: String, identity: ToolIdentity)
        ensures
            final(self)@ == old(self)@.insert(flat_name@, identity@),
    {
        proof {
            use_type_invariant(&*self);
        }
        let ghost old_s = self.by_flat_name@;
        let ghost k = flat_name@;
        let ghost v = identity@;
        let mut entries: Vec<(String, ToolIdentity)> = Vec::new();
        std::mem::swap(&mut entries, &mut self.by_flat_name);
        let mut i: usize = 0;
        while i < entries.len()
            invariant
                i <= entries.len(),
                entries@ == old_s,
                old_s == old(self).by_flat_name@,
                k == flat_name@,
                v == identity@,
                forall|j: int| 0 <= j < i ==> (#[trigger] old_s[j]).0@ != k,
                forall|a: int, b: int| 0 <= a < b < old_s.len() ==> (#[trigger] old_s[a]).0@ != (#[trigger] old_s[b]).0@,
            decreases entries.len() - i,
        {
            if text_eq(entries[i].0.as_str(), flat_name.as_str()) {
                let e = (flat_name, identity);
                entries.set(i, e);
                proof {
                    assert forall|key: Seq<char>| lookup(entries@, key) == if key == k {
                        Some(v)
                    } else {
                        lookup(old_s, key)
                    } by {
                        lemma_lookup_update(old_s, i as int, e, key);
                    }
                    assert forall|a: int, b: int| 0 <= a < b < entries@.len() implies (#[trigger] entries@[a]).0@
                        != (#[trigger] entries@[b]).0@ by {
                        assert(old_s[a].0@ != old_s[b].0@);
                    }
                }
                self.by_flat_name = entries;
                proof {
                    assert(self@ =~= old(self)@.insert(k, v));
                }
                return;
            }
            i += 1;
        }
        let e = (flat_name, identity);
        entries.push(e);
        proof {
            assert forall|key: Seq<char>| lookup(entries@, key) == if key == k {
                Some(v)
            } else {
                lookup(old_s, key)
            } by {
                lemma_lookup_push(old_s, e, key);
            }
            assert forall|a: int, b: int| 0 <= a < b < entries@.len() implies (#[trigger] entries@[a]).0@
                != (#[trigger] entries@[b]).0@ by {
                if b < old_s.len() {
                    assert(old_s[a].0@ != old_s[b].0@);
                } else {
                    assert(old_s[a].0@ != k);
                }
            }
        }
        self.by_flat_name = entries;
        proof {
            assert(self@ =~= old(self)@.insert(k, v));
        }
    }

    /// The identity recorded for a flattened name.
    pub fn resolve(&self, flat_name: &str) -> (r: Option<&ToolIdentity>)
        ensures
            match r {
                Some(t) => self@.contains_key(flat_name@) && self@[flat_name@] == t@,
                None => !self@.contains_key(flat_name@),
            },
    {
        let ghost s = self.by_flat_name@;
        let mut i: usize = 0;
        assert(s.skip(0) =~= s);
        while i < self.by_flat_name.len()
            invariant
                i <= self.by_flat_name.len(),
                s == self.by_flat_name@,
                lookup(s, flat_name@) == lookup(s.skip(i as int), flat_name@),
            decreases self.by_flat_name.len() - i,
        {
            assert(s.skip(i as int).drop_first() =~= s.skip(i + 1));
            if text_eq(self.by_flat_name[i].0.as_str(), flat_name) {
                return Some(&self.by_flat_name[i].1);
            }
            i += 1;
        }
        None
    }

    /// A copy of the registry.
    pub fn duplicate(&self) -> (r: ToolIdentityRegistry)
        ensures
            r@ == self@,
    {
        proof {
            use_type_invariant(self);
        }
        let mut out: Vec<(String, ToolIdentity)> = Vec::new();
        let mut i: usize = 0;
        while i < self.by_flat_name.len()
            invariant
                i <= self.by_flat_name.len(),
                out.len() == i,
                forall|j: int| 0 <= j < i ==> (#[trigger] out@[j]).0@ == self.by_flat_name@[j].0@
                    && out@[j].1@ == self.by_flat_name@[j].1@,
            decreases self.by_flat_name.len() - i,
        {
            out.push((self.by_flat_name[i].0.clone(), self.by_flat_name[i].1.duplicate()));
            i += 1;
        }
        let r = ToolIdentityRegistry { by_flat_name: out };
        proof {
            assert forall|key: Seq<char>| lookup(out@, key) == lookup(self.by_flat_name@, key) by {
                lemma_lookup_same(out@, self.by_flat_name@, key);
            }
            assert(r@ =~= self@);
        }
        r
    }
}

proof fn lemma_lookup_same(a: Seq<(String, ToolIdentity)>, b: Seq<(String, ToolIdentity)>, k: Seq<char>)
    requires
        a.len() == b.len(),
        forall|j: int| 0 <= j < a.len() ==> (#[trigger] a[j]).0@ == b[j].0@ && a[j].1@ == b[j].1@,
    ensures
        lookup(a, k) == lookup(b, k),
    decreases a.len(),
{
    if a.len() > 0 {
        assert(a[0].0@ == b[0].0@);
        assert forall|j: int| 0 <= j < a.drop_first().len() implies (#[trigger] a.drop_first()[j]).0@
            == b.drop_first()[j].0@ && a.drop_first()[j].1@ == b.drop_first()[j].1@ by {
            assert(a.drop_first()[j] == a[j + 1]);
            assert(b.drop_first()[j] == b[j + 1]);
        }
        lemma_lookup_same(a.drop_first(), b.drop_first(), k);
    }
}

/// Resolving a name right after registering it gives the registered identity, and
/// registering leaves every other name as it was.
pub proof fn law_resolve_after_register(
    before: Map<Seq<char>, IdentityV>,
    name: Seq<char>,
    identity: IdentityV,
    other: Seq<char>,
)
    requires
        other != name,
    ensures
        before.insert(name, identity).contains_key(name),
        before.insert(name, identity)[name] == identity,
        before.insert(name, identity).contains_key(other) == before.contains_key(other),
        before.contains_key(other) ==> before.insert(name, identity)[other] == before[other],
{
}

} // verus!
