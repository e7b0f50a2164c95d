//! The compilation session: the three registries that let a declaration
//! processed later in one compilation see decisions made for earlier ones.
//!
//! One session lives for one compilation; the caller constructs it once and
//! threads it through every transformation.  Each registry is an association
//! list with pairwise-distinct keys; `assoc_get` (first match wins) is the
//! mathematical model every contract speaks of.

use vstd::prelude::*;

use crate::model::TraitMethod;
use crate::model::TraitMethodV;

verus! {

/// The first value associated with key `k`, if any.
pub open spec fn assoc_get<T>(s: Seq<(Seq<char>, T)>, k: Seq<char>) -> Option<T>
    decreases s.len(),
{
    if s.len() == 0 {
        None
    } else if s[0].0 == k {
        Some(s[0].1)
    } else {
        assoc_get(s.drop_first(), k)
    }
}

/// Dropping a prefix that holds no match leaves `assoc_get` unchanged.
pub proof fn lemma_assoc_get_skip<T>(s: Seq<(Seq<char>, T)>, k: Seq<char>, i: int)
    requires
        0 <= i <= s.len(),
        forall|j: int| 0 <= j < i ==> s[j].0 != k,
    ensures
        assoc_get(s, k) == assoc_get(s.skip(i), k),
    decreases i,
{
    if i > 0 {
        assert(s.skip(1) =~= s.drop_first());
        lemma_assoc_get_skip(s.drop_first(), k, i - 1);
        assert(s.drop_first().skip(i - 1) =~= s.skip(i));
    } else {
        assert(s.skip(0) =~= s);
    }
}

/// A match at `i`, with no match before it, is what `assoc_get` finds.
pub proof fn lemma_assoc_get_found<T>(s: Seq<(Seq<char>, T)>, k: Seq<char>, i: int)
    requires
        0 <= i < s.len(),
        s[i].0 == k,
        forall|j: int| 0 <= j < i ==> s[j].0 != k,
    ensures
        assoc_get(s, k) == Some(s[i].1),
{
    lemma_assoc_get_skip(s, k, i);
    assert(s.skip(i)[0] == s[i]);
}

/// No match anywhere means `assoc_get` finds nothing.
pub proof fn lemma_assoc_get_none<T>(s: Seq<(Seq<char>, T)>, k: Seq<char>)
    requires
        forall|j: int| 0 <= j < s.len() ==> s[j].0 != k,
    ensures
        assoc_get(s, k) == None::<T>,
{
    lemma_assoc_get_skip(s, k, s.len() as int);
    assert(s.skip(s.len() as int) =~= Seq::<(Seq<char>, T)>::empty());
}

/// The list with `k` bound to `v`: an existing binding is replaced in
/// place, a new one is appended.  Registry mutation is last-writer-wins.
pub open spec fn assoc_put<T>(s: Seq<(Seq<char>, T)>, k: Seq<char>, v: T) -> Seq<(Seq<char>, T)>
    decreases s.len(),
{
    if s.len() == 0 {
        seq![(k, v)]
    } else if s[0].0 == k {
        seq![(k, v)] + s.drop_first()
    } else {
        seq![s[0]] + assoc_put(s.drop_first(), k, v)
    }
}

/// What a lookup finds after a put.
pub proof fn lemma_assoc_get_put<T>(s: Seq<(Seq<char>, T)>, k: Seq<char>, v: T, q: Seq<char>)
    ensures
        q == k ==> assoc_get(assoc_put(s, k, v), q) == Some(v),
        q != k ==> assoc_get(assoc_put(s, k, v), q) == assoc_get(s, q),
    decreases s.len(),
{
    if s.len() == 0 {
        let p = assoc_put(s, k, v);
        assert(p[0] == (k, v));
        assert(p.drop_first() =~= Seq::<(Seq<char>, T)>::empty());
        assert(assoc_get(p.drop_first(), q) is None);
    } else if s[0].0 == k {
        let p = assoc_put(s, k, v);
        assert(p[0] == (k, v));
        assert(p.drop_first() =~= s.drop_first());
    } else {
        let p = assoc_put(s, k, v);
        assert(p[0] == s[0]);
        assert(p.drop_first() =~= assoc_put(s.drop_first(), k, v));
        lemma_assoc_get_put(s.drop_first(), k, v, q);
        if s[0].0 == q {
            assert(assoc_get(p, q) == Some(s[0].1));
            assert(assoc_get(s, q) == Some(s[0].1));
        } else {
            assert(assoc_get(p, q) == assoc_get(p.drop_first(), q));
            assert(assoc_get(s, q) == assoc_get(s.drop_first(), q));
        }
    }
}

/// A put with a fresh key appends; with a present key it updates in place.
pub proof fn lemma_assoc_put_shape<T>(s: Seq<(Seq<char>, T)>, k: Seq<char>, v: T, i: int)
    requires
        0 <= i < s.len(),
        s[i].0 == k,
        forall|j: int| 0 <= j < i ==> s[j].0 != k,
    ensures
        assoc_put(s, k, v) == s.update(i, (k, v)),
    decreases s.len(),
{
    if i == 0 {
        assert(assoc_put(s, k, v) =~= s.update(0, (k, v)));
    } else {
        lemma_assoc_put_shape(s.drop_first(), k, v, i - 1);
        assert(s.drop_first().update(i - 1, (k, v)) =~= s.update(i, (k, v)).drop_first());
        assert(assoc_put(s, k, v) =~= seq![s[0]] + s.update(i, (k, v)).drop_first());
        assert(assoc_put(s, k, v) =~= s.update(i, (k, v)));
    }
}

/// A put with an absent key appends.
pub proof fn lemma_assoc_put_append<T>(s: Seq<(Seq<char>, T)>, k: Seq<char>, v: T)
    requires
        forall|j: int| 0 <= j < s.len() ==> s[j].0 != k,
    ensures
        assoc_put(s, k, v) == s.push((k, v)),
    decreases s.len(),
{
    if s.len() == 0 {
        assert(assoc_put(s, k, v) =~= s.push((k, v)));
    } else {
        lemma_assoc_put_append(s.drop_first(), k, v);
        assert(assoc_put(s, k, v) =~= seq![s[0]] + s.drop_first().push((k, v)));
        assert(assoc_put(s, k, v) =~= s.push((k, v)));
    }
}

/// The session registries.
pub struct Session {
    /// The free-function names for which a dispatch type and its static
    /// binding were already emitted.
    pub namings: Vec<String>,
    /// For each processed trait, the names of its overloaded methods.
    pub trait_idents: Vec<(String, Vec<String>)>,
    /// For each processed trait, its methods keyed by normalized signature.
    pub default_definition: Vec<(String, Vec<(String, TraitMethod)>)>,
}

/// The view of a session.
pub struct SessionV {
    pub namings: Seq<Seq<char>>,
    pub trait_idents: Seq<(Seq<char>, Seq<Seq<char>>)>,
    pub default_definition: Seq<(Seq<char>, Seq<(Seq<char>, TraitMethodV)>)>,
}

impl DeepView for Session {
    type V = SessionV;

    open spec fn deep_view(&self) -> SessionV {
        SessionV {
            namings: self.namings.deep_view(),
            trait_idents: self.trait_idents.deep_view(),
            default_definition: self.default_definition.deep_view(),
        }
    }
}

/// Keys pairwise distinct in an association list.
pub open spec fn distinct_keys<T>(s: Seq<(Seq<char>, T)>) -> bool {
    forall|i: int, j: int| 0 <= i < j < s.len() ==> s[i].0 != s[j].0
}

impl Session {
    /// A well-formed session: each registry's keys are distinct.
    pub open spec fn wf(&self) -> bool {
        &&& distinct_keys(self.deep_view().trait_idents)
        &&& distinct_keys(self.deep_view().default_definition)
    }

    /// A fresh session with empty registries.
    pub fn new() -> (r: Session)
        ensures
            r.wf(),
            r.deep_view().namings.len() == 0,
            r.deep_view().trait_idents.len() == 0,
            r.deep_view().default_definition.len() == 0,
    {
        Session { namings: Vec::new(), trait_idents: Vec::new(), default_definition: Vec::new() }
    }

    /// Records a free-function name; reports whether it was new.
    pub fn insert_naming(&mut self, name: &String) -> (fresh: bool)
        ensures
            fresh == !old(self).deep_view().namings.contains(name@),
            fresh ==> final(self).deep_view().namings =~= old(self).deep_view().namings.push(
                name@,
            ),
            !fresh ==> final(self).deep_view().namings =~= old(self).deep_view().namings,
            final(self).deep_view().trait_idents == old(self).deep_view().trait_idents,
            final(self).deep_view().default_definition == old(
                self,
            ).deep_view().default_definition,
            final(self).wf() == old(self).wf(),
    {
        let mut i: usize = 0;
        while i < self.namings.len()
            invariant
                i <= self.namings.len(),
                *self == *old(self),
                forall|j: int| 0 <= j < i ==> self.deep_view().namings[j] != name@,
                self.deep_view().namings.len() == self.namings@.len(),
            decreases self.namings.len() - i,
        {
            if self.namings[i] == *name {
                proof {
                    assert(self.deep_view().namings[i as int] == self.namings@[i as int]@);
                }
                return false;
            }
            proof {
                assert(self.deep_view().namings[i as int] == self.namings@[i as int]@);
            }
            i += 1;
        }
        self.namings.push(name.clone());
        proof {
            assert(self.deep_view().namings =~= old(self).deep_view().namings.push(name@));
        }
        true
    }

    /// The overloaded-method names recorded for a trait.
    pub fn get_trait_idents(&self, name: &String) -> (r: Option<&Vec<String>>)
        ensures
            match r {
                Some(v) => assoc_get(self.deep_view().trait_idents, name@) == Some(v.deep_view()),
                None => assoc_get(self.deep_view().trait_idents, name@) is None,
            },
    {
        let ghost s = self.deep_view().trait_idents;
        let mut i: usize = 0;
        while i < self.trait_idents.len()
            invariant
                i <= self.trait_idents.len(),
                s == self.deep_view().trait_idents,
                s.len() == self.trait_idents@.len(),
                forall|j: int| 0 <= j < i ==> s[j].0 != name@,
            decreases self.trait_idents.len() - i,
        {
            proof {
                assert(s[i as int] == self.trait_idents@[i as int].deep_view());
            }
            if self.trait_idents[i].0 == *name {
                proof {
                    lemma_assoc_get_found(s, name@, i as int);
                }
                return Some(&self.trait_idents[i].1);
            }
            i += 1;
        }
        proof {
            lemma_assoc_get_none(s, name@);
        }
        None
    }

    /// Records the overloaded-method names of a trait, replacing any
    /// earlier record for the same trait.
    pub fn set_trait_idents(&mut self, name: String, fields: Vec<String>)
        ensures
            final(self).deep_view().trait_idents == assoc_put(
                old(self).deep_view().trait_idents,
                name@,
                fields.deep_view(),
            ),
            final(self).deep_view().namings == old(self).deep_view().namings,
            final(self).deep_view().default_definition == old(
                self,
            ).deep_view().default_definition,
            old(self).wf() ==> final(self).wf(),
    {
        let ghost s = self.deep_view().trait_idents;
        let ghost nv = name@;
        let ghost fv = fields.deep_view();
        let mut i: usize = 0;
        while i < self.trait_idents.len()
            invariant
                i <= self.trait_idents.len(),
                *self == *old(self),
                s == self.deep_view().trait_idents,
                s.len() == self.trait_idents@.len(),
                nv == name@,
                fv == fields.deep_view(),
                forall|j: int| 0 <= j < i ==> s[j].0 != nv,
            decreases self.trait_idents.len() - i,
        {
            proof {
                assert(s[i as int] == self.trait_idents@[i as int].deep_view());
            }
            if self.trait_idents[i].0 == name {
                let ghost mid = old(self).trait_idents@.remove(i as int);
                let entry = (name, fields);
                proof {
                    assert(entry.0.deep_view() == nv);
                    assert(entry.1.deep_view() == fv);
                    assert(entry.deep_view() == (nv, fv));
                }
                self.trait_idents.remove(i);
                self.trait_idents.insert(i, entry);
                proof {
                    lemma_assoc_put_shape(s, nv, fv, i as int);
                    assert(self.trait_idents@[i as int].deep_view() == (nv, fv));
                    assert forall|j: int| 0 <= j < self.trait_idents@.len() implies self
                        .deep_view().trait_idents[j] == s.update(i as int, (nv, fv))[j] by {
                        assert(self.deep_view().trait_idents[j] == self.trait_idents@[
                            j].deep_view());
                        if j < i as int {
                            assert(self.trait_idents@[j] == old(self).trait_idents@[j]);
                            assert(s[j] == old(self).trait_idents@[j].deep_view());
                        } else if j > i as int {
                            assert(self.trait_idents@[j] == mid[j - 1]);
                            assert(mid[j - 1] == old(self).trait_idents@[j]);
                            assert(s[j] == old(self).trait_idents@[j].deep_view());
                        }
                    }
                    assert(self.deep_view().trait_idents =~= s.update(i as int, (nv, fv)));
                    if old(self).wf() {
                        assert forall|x: int, y: int|
                            0 <= x < y < self.deep_view().trait_idents.len() implies self
                            .deep_view().trait_idents[x].0 != self.deep_view().trait_idents[y].0
                        by {
                            assert(s[x].0 == self.deep_view().trait_idents[x].0 || x
                                == i as int);
                            assert(s[y].0 == self.deep_view().trait_idents[y].0 || y
                                == i as int);
                        }
                    }
                }
                return ;
            }
            i += 1;
        }
        self.trait_idents.push((name, fields));
        proof {
            lemma_assoc_put_append(s, nv, fv);
            assert(self.deep_view().trait_idents =~= s.push((nv, fv)));
            if old(self).wf() {
                assert forall|x: int, y: int|
                    0 <= x < y < self.deep_view().trait_idents.len() implies self
                    .deep_view().trait_idents[x].0 != self.deep_view().trait_idents[y].0 by {
                    if y == s.len() as int {
                        assert(self.deep_view().trait_idents[x].0 == s[x].0);
                    }
                }
            }
        }
    }

    /// The recorded methods of a trait, keyed by normalized signature.
    pub fn get_default_definition(&self, name: &String) -> (r: Option<
        &Vec<(String, TraitMethod)>,
    >)
        ensures
            match r {
                Some(v) => assoc_get(self.deep_view().default_definition, name@) == Some(
                    v.deep_view(),
                ),
                None => assoc_get(self.deep_view().default_definition, name@) is None,
            },
    {
        let ghost s = self.deep_view().default_definition;
        let mut i: usize = 0;
        while i < self.default_definition.len()
            invariant
                i <= self.default_definition.len(),
                s == self.deep_view().default_definition,
                s.len() == self.default_definition@.len(),
                forall|j: int| 0 <= j < i ==> s[j].0 != name@,
            decreases self.default_definition.len() - i,
        {
            proof {
                assert(s[i as int] == self.default_definition@[i as int].deep_view());
            }
            if self.default_definition[i].0 == *name {
                proof {
                    lemma_assoc_get_found(s, name@, i as int);
                }
                return Some(&self.default_definition[i].1);
            }
            i += 1;
        }
        proof {
            lemma_assoc_get_none(s, name@);
        }
        None
    }

    /// Records the methods of a trait keyed by normalized signature,
    /// replacing any earlier record for the same trait.
    pub fn set_default_definition(&mut self, name: String, defs: Vec<(String, TraitMethod)>)
        ensures
            final(self).deep_view().default_definition == assoc_put(
                old(self).deep_view().default_definition,
                name@,
                defs.deep_view(),
            ),
            final(self).deep_view().namings == old(self).deep_view().namings,
            final(self).deep_view().trait_idents == old(self).deep_view().trait_idents,
            old(self).wf() ==> final(self).wf(),
    {
        let ghost s = self.deep_view().default_definition;
        let ghost nv = name@;
        let ghost dv = defs.deep_view();
        let mut i: usize = 0;
        while i < self.default_definition.len()
            invariant
                i <= self.default_definition.len(),
                *self == *old(self),
                s == self.deep_view().default_definition,
                s.len() == self.default_definition@.len(),
                nv == name@,
                dv == defs.deep_view(),
                forall|j: int| 0 <= j < i ==> s[j].0 != nv,
            decreases self.default_definition.len() - i,
        {
            proof {
                assert(s[i as int] == self.default_definition@[i as int].deep_view());
            }
            if self.default_definition[i].0 == name {
                let ghost mid = old(self).default_definition@.remove(i as int);
                let entry = (name, defs);
                proof {
                    assert(entry.0.deep_view() == nv);
                    assert(entry.1.deep_view() == dv);
                    assert(entry.deep_view() == (nv, dv));
                }
                self.default_definition.remove(i);
                self.default_definition.insert(i, entry);
                proof {
                    lemma_assoc_put_shape(s, nv, dv, i as int);
                    assert(self.default_definition@[i as int].deep_view() == (nv, dv));
                    assert forall|j: int| 0 <= j < self.default_definition@.len() implies self
                        .deep_view().default_definition[j] == s.update(i as int, (nv, dv))[j]
                    by {
                        assert(self.deep_view().default_definition[j] == self
                            .default_definition@[j].deep_view());
                        if j < i as int {
                            assert(self.default_definition@[j] == old(
                                self,
                            ).default_definition@[j]);
                            assert(s[j] == old(self).default_definition@[j].deep_view());
                        } else if j > i as int {
                            assert(self.default_definition@[j] == mid[j - 1]);
                            assert(mid[j - 1] == old(self).default_definition@[j]);
                            assert(s[j] == old(self).default_definition@[j].deep_view());
                        }
                    }
                    assert(self.deep_view().default_definition =~= s.update(i as int, (nv, dv)));
                    if old(self).wf() {
                        assert forall|x: int, y: int|
                            0 <= x < y < self.deep_view().default_definition.len() implies self
                            .deep_view().default_definition[x].0 != self
                            .deep_view().default_definition[y].0 by {
                            assert(s[x].0 == self.deep_view().default_definition[x].0 || x
                                == i as int);
                            assert(s[y].0 == self.deep_view().default_definition[y].0 || y
                                == i as int);
                        }
                    }
                }
                return ;
            }
            i += 1;
        }
        self.default_definition.push((name, defs));
        proof {
            lemma_assoc_put_append(s, nv, dv);
            assert(self.deep_view().default_definition =~= s.push((nv, dv)));
            if old(self).wf() {
                assert forall|x: int, y: int|
                    0 <= x < y < self.deep_view().default_definition.len() implies self
                    .deep_view().default_definition[x].0 != self
                    .deep_view().default_definition[y].0 by {
                    if y == s.len() as int {
                        assert(self.deep_view().default_definition[x].0 == s[x].0);
                    }
                }
            }
        }
    }
}

} // verus!
