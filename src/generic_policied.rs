//! The guarded value: one value paired with the one policy that decides where
//! it may go.
use vstd::prelude::*;

use crate::filter::Context;
use crate::policy::{
    Policy, PolicyError, PolicyModel, lemma_merge_all_failure_persists, merge_all, policy_check,
    policy_merge,
};
use vstd::std_specs::hash::obeys_key_model;

verus! {

/// A value of type `T` guarded by a policy. The value leaves only through
/// `export_check` or `export_check_borrow`, which ask the policy first, or
/// through the accessors whose names start with `unsafe_`, which do not and
/// are meant for trusted plumbing alone.
pub struct GPolicied<T> {
    inner: T,
    policy: Policy,
}

impl<T> GPolicied<T> {
    /// The guarded value.
    pub closed spec fn value(&self) -> T {
        self.inner
    }

    /// The model of the policy that guards the value.
    pub closed spec fn policy_model(&self) -> PolicyModel {
        self.policy@
    }

    /// Pairs `inner` with `policy`. Creating is no release: nothing is checked.
    pub fn make(inner: T, policy: Policy) -> (r: Self)
        ensures
            r.value() == inner,
            r.policy_model() == policy@,
    {
        GPolicied { inner, policy }
    }

    /// Guards `inner` with the baseline policy.
    pub fn make_default(inner: T) -> (r: Self)
        ensures
            r.value() == inner,
            r.policy_model() == None::<Seq<Seq<char>>>,
    {
        GPolicied::make(inner, Policy::NonePolicy)
    }

    /// The policy that guards the value.
    pub fn get_policy(&self) -> (r: &Policy)
        ensures
            r@ == self.policy_model(),
    {
        &self.policy
    }

    /// Declassifies the value: its policy becomes the baseline, which lets it
    /// through every context. Only code trusted to make that decision should
    /// call this.
    pub fn declassify(&mut self)
        ensures
            final(self).value() == old(self).value(),
            final(self).policy_model() == None::<Seq<Seq<char>>>,
            forall|c: Context|
                policy_check(final(self).policy_model(), c) == Ok::<(), PolicyError>(()),
    {
        self.policy = Policy::NonePolicy;
    }

    /// Releases the value through `ctxt` if the policy allows it. On refusal
    /// the value is dropped with the wrapper.
    pub fn export_check(self, ctxt: &Context) -> (r: Result<T, PolicyError>)
        ensures
            match policy_check(self.policy_model(), *ctxt) {
                Ok(_) => r == Ok::<T, PolicyError>(self.value()),
                Err(e) => r == Err::<T, PolicyError>(e),
            },
    {
        match self.policy.check(ctxt) {
            Ok(()) => Ok(self.inner),
            Err(e) => Err(e),
        }
    }

    /// Lends the value for a release through `ctxt` if the policy allows it;
    /// the wrapper stays with its owner.
    pub fn export_check_borrow(&self, ctxt: &Context) -> (r: Result<&T, PolicyError>)
        ensures
            match policy_check(self.policy_model(), *ctxt) {
                Ok(_) => r is Ok && *r->Ok_0 == self.value(),
                Err(e) => r == Err::<&T, PolicyError>(e),
            },
    {
        match self.policy.check(ctxt) {
            Ok(()) => Ok(&self.inner),
            Err(e) => Err(e),
        }
    }

    /// Takes the value out without asking the policy.
    pub fn unsafe_export(self) -> (r: T)
        ensures
            r == self.value(),
    {
        self.inner
    }

    /// A wrapper around a reference to the value, under the same policy.
    pub fn as_ref(&self) -> (r: GPolicied<&T>)
        ensures
            *r.value() == self.value(),
            r.policy_model() == self.policy_model(),
    {
        GPolicied::make(&self.inner, self.policy.clone())
    }

    /// Applies the guarded function to the guarded argument `x`. The result is
    /// guarded by the merge of both policies; where they cannot be merged the
    /// function is not called and the merge's error is returned.
    pub fn apply<X, V>(self, x: GPolicied<X>) -> (r: Result<GPolicied<V>, PolicyError>)
        where
            T: Fn(X) -> V,
        requires
            self.value().requires((x.value(),)),
        ensures
            match policy_merge(self.policy_model(), x.policy_model()) {
                Ok(m) => r is Ok && r->Ok_0.policy_model() == m
                    && self.value().ensures((x.value(),), r->Ok_0.value()),
                Err(e) => r is Err && r->Err_0 == e,
            },
    {
        let GPolicied { inner, policy } = self;
        let GPolicied { inner: arg, policy: p2 } = x;
        match policy.merge(&p2) {
            Ok(merged) => Ok(GPolicied::make(inner(arg), merged)),
            Err(e) => Err(e),
        }
    }

    /// Transforms the value with `f`; the policy carries over unchanged.
    pub fn map<V, F: Fn(T) -> V>(self, f: F) -> (r: GPolicied<V>)
        requires
            f.requires((self.value(),)),
        ensures
            f.ensures((self.value(),), r.value()),
            r.policy_model() == self.policy_model(),
    {
        let GPolicied { inner, policy } = self;
        GPolicied::make(f(inner), policy)
    }

    /// Takes the value out without asking the policy.
    pub fn unsafe_into_inner(self) -> (r: T)
        ensures
            r == self.value(),
    {
        self.inner
    }

    /// Splits the wrapper into its value and its policy without asking the
    /// policy.
    pub fn unsafe_decompose(self) -> (r: (T, Policy))
        ensures
            r.0 == self.value(),
            r.1@ == self.policy_model(),
    {
        (self.inner, self.policy)
    }

    /// Lends the value without asking the policy.
    pub fn unsafe_borrow_inner(&self) -> (r: &T)
        ensures
            *r == self.value(),
    {
        &self.inner
    }

    /// Lends the value for change without asking the policy.
    pub fn unsafe_borrow_inner_mut(&mut self) -> (r: &mut T)
        ensures
            *r == old(self).value(),
            final(self).value() == *final(r),
            final(self).policy_model() == old(self).policy_model(),
    {
        &mut self.inner
    }

    /// Lends the value and the policy without asking the policy.
    pub fn unsafe_borrow_decompose(&self) -> (r: (&T, &Policy))
        ensures
            *r.0 == self.value(),
            r.1@ == self.policy_model(),
    {
        (&self.inner, &self.policy)
    }

    /// Lends the value and the policy for change without asking the policy.
    pub fn unsafe_borrow_decompose_mut(&mut self) -> (r: (&mut T, &mut Policy))
        ensures
            *r.0 == old(self).value(),
            (*r.1)@ == old(self).policy_model(),
            final(self).value() == *final(r.0),
            final(self).policy_model() == (*final(r.1))@,
    {
        (&mut self.inner, &mut self.policy)
    }
}

/// A sequence guarded by one policy: the merge of the policies of all the
/// elements pushed into it.
pub type GPoliciedVec<T> = GPolicied<Vec<T>>;

impl<T> GPolicied<Vec<T>> {
    /// Appends the value of `e` and folds its policy into the sequence's.
    /// Where the two policies cannot be merged, the sequence is left as it
    /// was and the merge's error is returned.
    pub fn push(&mut self, e: GPolicied<T>) -> (r: Result<(), PolicyError>)
        ensures
            match policy_merge(old(self).policy_model(), e.policy_model()) {
                Ok(m) => r is Ok && final(self).policy_model() == m
                    && final(self).value()@ == old(self).value()@.push(e.value()),
                Err(err) => r == Err::<(), PolicyError>(err)
                    && final(self).policy_model() == old(self).policy_model()
                    && final(self).value()@ == old(self).value()@,
            },
    {
        let GPolicied { inner, policy } = e;
        match self.policy.merge(&policy) {
            Ok(merged) => {
                self.policy = merged;
                self.inner.push(inner);
                Ok(())
            },
            Err(err) => Err(err),
        }
    }

    /// Removes the last value and hands it back under the sequence's policy.
    pub fn pop(&mut self) -> (r: Option<GPolicied<T>>)
        ensures
            final(self).policy_model() == old(self).policy_model(),
            old(self).value()@.len() == 0 ==> r is None && final(self).value()@ == old(self).value()@,
            old(self).value()@.len() > 0 ==> r is Some
                && r->Some_0.value() == old(self).value()@.last()
                && r->Some_0.policy_model() == old(self).policy_model()
                && final(self).value()@ == old(self).value()@.drop_last(),
    {
        match self.inner.pop() {
            Some(e) => Some(GPolicied { inner: e, policy: self.policy.clone() }),
            None => None,
        }
    }
}

/// A map whose values are guarded by one policy: the merge of the policies of
/// all the values inserted into it.
pub type PoliciedValHashMap<K, V> = GPolicied<std::collections::HashMap<K, V>>;

impl<K: Eq + std::hash::Hash, V> GPolicied<std::collections::HashMap<K, V>> {
    /// Maps `k` to the value of `v` and folds its policy into the map's. A
    /// value that `k` mapped to before comes back under the map's policy as
    /// it was before this insert. Where the two policies cannot be merged, the
    /// map is left as it was and the merge's error is returned.
    pub fn insert(&mut self, k: K, v: GPolicied<V>) -> (r: Result<Option<GPolicied<V>>, PolicyError>)
        requires
            obeys_key_model::<K>(),
        ensures
            match policy_merge(old(self).policy_model(), v.policy_model()) {
                Ok(m) => r is Ok && final(self).policy_model() == m
                    && final(self).value()@ == old(self).value()@.insert(k, v.value())
                    && match r->Ok_0 {
                        Some(prev) => old(self).value()@.contains_key(k)
                            && prev.value() == old(self).value()@[k]
                            && prev.policy_model() == old(self).policy_model(),
                        None => !old(self).value()@.contains_key(k),
                    },
                Err(err) => r == Err::<Option<GPolicied<V>>, PolicyError>(err)
                    && final(self).policy_model() == old(self).policy_model()
                    && final(self).value()@ == old(self).value()@,
            },
    {
        let GPolicied { inner, policy } = v;
        match self.policy.merge(&policy) {
            Ok(merged) => {
                let prev = match self.inner.insert(k, inner) {
                    Some(old_value) => Some(GPolicied::make(old_value, self.policy.clone())),
                    None => None,
                };
                self.policy = merged;
                Ok(prev)
            },
            Err(err) => Err(err),
        }
    }

    /// The value that `k` maps to, lent under the map's policy.
    pub fn get(&self, k: &K) -> (r: Option<GPolicied<&V>>)
        requires
            obeys_key_model::<K>(),
        ensures
            match r {
                Some(g) => self.value()@.contains_key(*k) && *g.value() == self.value()@[*k]
                    && g.policy_model() == self.policy_model(),
                None => !self.value()@.contains_key(*k),
            },
    {
        match self.inner.get(k) {
            Some(v) => Some(GPolicied::make(v, self.policy.clone())),
            None => None,
        }
    }

    /// Inserts a guarded key and value pair, as `insert` does.
    pub fn insert_kv(&mut self, kv: GPolicied<(K, V)>) -> (r: Result<Option<GPolicied<V>>, PolicyError>)
        requires
            obeys_key_model::<K>(),
        ensures
            match policy_merge(old(self).policy_model(), kv.policy_model()) {
                Ok(m) => r is Ok && final(self).policy_model() == m
                    && final(self).value()@ == old(self).value()@.insert(kv.value().0, kv.value().1)
                    && match r->Ok_0 {
                        Some(prev) => old(self).value()@.contains_key(kv.value().0)
                            && prev.value() == old(self).value()@[kv.value().0]
                            && prev.policy_model() == old(self).policy_model(),
                        None => !old(self).value()@.contains_key(kv.value().0),
                    },
                Err(err) => r == Err::<Option<GPolicied<V>>, PolicyError>(err)
                    && final(self).policy_model() == old(self).policy_model()
                    && final(self).value()@ == old(self).value()@,
            },
    {
        let GPolicied { inner: (k, v), policy } = kv;
        self.insert(k, GPolicied { inner: v, policy })
    }
}

/// The elements of `v` in reverse order.
fn reversed<T>(v: Vec<T>) -> (r: Vec<T>)
    ensures
        r@.len() == v@.len(),
        forall|i: int| 0 <= i < r@.len() ==> r@[i] == v@[v@.len() - 1 - i],
{
    let ghost orig = v@;
    let mut v = v;
    let mut r: Vec<T> = Vec::new();
    while v.len() > 0
        invariant
            v@ == orig.subrange(0, v@.len() as int),
            r@.len() == orig.len() - v@.len(),
            forall|i: int| 0 <= i < r@.len() ==> r@[i] == orig[orig.len() - 1 - i],
        decreases v@.len(),
    {
        let e = v.pop().unwrap();
        r.push(e);
        assert(v@ =~= orig.subrange(0, v@.len() as int));
    }
    r
}

/// Moves a collection of guarded values under one policy over the whole
/// collection.
pub trait ExternalizePolicy: Sized {
    type Result;

    /// Whether `r` is what externalizing `self` gives.
    spec fn externalizes_to(self, r: Self::Result) -> bool;

    fn externalize_policy(self) -> (r: Self::Result)
        ensures
            self.externalizes_to(r),
    ;
}

/// Splits a guarded collection into guarded elements, each under the
/// collection's policy.
pub trait InternalizePolicy: Sized {
    type Result;

    /// Whether `r` is what internalizing `self` gives.
    spec fn internalizes_to(self, r: Self::Result) -> bool;

    fn internalize_policy(self) -> (r: Self::Result)
        ensures
            self.internalizes_to(r),
    ;
}

/// Guards any value.
pub trait AsPolicied: Sized {
    /// Guards `self` with the baseline policy.
    fn policied(self) -> (r: GPolicied<Self>)
        ensures
            r.value() == self,
            r.policy_model() == None::<Seq<Seq<char>>>,
    {
        GPolicied::make_default(self)
    }

    /// Guards `self` with `policy`.
    fn policied_with(self, policy: Policy) -> (r: GPolicied<Self>)
        ensures
            r.value() == self,
            r.policy_model() == policy@,
    {
        GPolicied::make(self, policy)
    }
}

impl<T> AsPolicied for T {}

impl<T> ExternalizePolicy for Option<GPolicied<T>> {
    type Result = GPolicied<Option<T>>;

    /// `None` under the baseline policy, or the value in `Some` under its own
    /// policy.
    open spec fn externalizes_to(self, r: GPolicied<Option<T>>) -> bool {
        match self {
            Some(g) => r.value() == Some(g.value()) && r.policy_model() == g.policy_model(),
            None => r.value() == None::<T> && r.policy_model() == None::<Seq<Seq<char>>>,
        }
    }

    fn externalize_policy(self) -> (r: GPolicied<Option<T>>) {
        match self {
            Some(g) => {
                let (inner, policy) = g.unsafe_decompose();
                GPolicied::make(Some(inner), policy)
            },
            None => GPolicied::make_default(None),
        }
    }
}

/// The policy models of a sequence of guarded values.
pub open spec fn policy_models<T>(s: Seq<GPolicied<T>>) -> Seq<PolicyModel> {
    s.map_values(|g: GPolicied<T>| g.policy_model())
}

/// The values of a sequence of guarded values.
pub open spec fn values<T>(s: Seq<GPolicied<T>>) -> Seq<T> {
    s.map_values(|g: GPolicied<T>| g.value())
}

impl<T> ExternalizePolicy for Vec<GPolicied<T>> {
    type Result = Result<GPolicied<Vec<T>>, PolicyError>;

    /// The values in order, under the fold of all their policies into the
    /// baseline; the fold's error where it fails.
    open spec fn externalizes_to(self, r: Result<GPolicied<Vec<T>>, PolicyError>) -> bool {
        match merge_all(None, policy_models(self@)) {
            Ok(m) => r is Ok && r->Ok_0.policy_model() == m && r->Ok_0.value()@ == values(self@),
            Err(e) => r is Err && r->Err_0 == e,
        }
    }

    fn externalize_policy(self) -> (r: Result<GPolicied<Vec<T>>, PolicyError>) {
        let ghost elems = self@;
        let ghost ps = policy_models(elems);
        let n = self.len();
        let mut rest = reversed(self);
        let mut acc: GPolicied<Vec<T>> = GPolicied::make_default(Vec::new());
        let mut i: usize = 0;
        while i < n
            invariant
                n == elems.len(),
                elems == self@,
                ps == policy_models(elems),
                rest@.len() == n - i,
                forall|j: int| 0 <= j < rest@.len() ==> rest@[j] == elems[n - 1 - j],
                merge_all(None, ps.subrange(0, i as int)) == Ok::<PolicyModel, PolicyError>(
                    acc.policy_model(),
                ),
                acc.value()@ == values(elems).subrange(0, i as int),
            decreases n - i,
        {
            let e = rest.pop().unwrap();
            assert(e == elems[i as int]);
            let ghost prefix = ps.subrange(0, i as int + 1);
            assert(prefix.drop_last() =~= ps.subrange(0, i as int));
            match acc.push(e) {
                Ok(()) => {},
                Err(err) => {
                    proof {
                        assert(prefix.last() == e.policy_model());
                        assert(merge_all(None, prefix) == Err::<PolicyModel, PolicyError>(err));
                        lemma_merge_all_failure_persists(None, ps, i as int + 1);
                    }
                    return Err(err);
                },
            }
            assert(acc.value()@ =~= values(elems).subrange(0, i as int + 1));
            i = i + 1;
        }
        assert(ps.subrange(0, n as int) =~= ps);
        assert(values(elems).subrange(0, n as int) =~= values(elems));
        Ok(acc)
    }
}

impl<T> InternalizePolicy for GPolicied<Vec<T>> {
    type Result = Vec<GPolicied<T>>;

    /// The values in order, each under the sequence's policy.
    open spec fn internalizes_to(self, r: Vec<GPolicied<T>>) -> bool {
        &&& values(r@) == self.value()@
        &&& forall|i: int| 0 <= i < r@.len() ==> (#[trigger] r@[i]).policy_model() == self.policy_model()
    }

    fn internalize_policy(self) -> (r: Vec<GPolicied<T>>) {
        let ghost elems = self.value()@;
        let ghost pm = self.policy_model();
        let (inner, policy) = self.unsafe_decompose();
        let n = inner.len();
        let mut rest = reversed(inner);
        let mut out: Vec<GPolicied<T>> = Vec::new();
        let mut i: usize = 0;
        while i < n
            invariant
                n == elems.len(),
                policy@ == pm,
                rest@.len() == n - i,
                forall|j: int| 0 <= j < rest@.len() ==> rest@[j] == elems[n - 1 - j],
                values(out@) == elems.subrange(0, i as int),
                forall|j: int| 0 <= j < out@.len() ==> (#[trigger] out@[j]).policy_model() == pm,
            decreases n - i,
        {
            let e = rest.pop().unwrap();
            assert(e == elems[i as int]);
            let ghost before = out@;
            let g = GPolicied::make(e, policy.clone());
            out.push(g);
            assert(out@ == before.push(g));
            assert(values(out@) =~= values(before).push(g.value()));
            assert(values(out@) =~= elems.subrange(0, i as int + 1));
            i = i + 1;
        }
        assert(elems.subrange(0, n as int) =~= elems);
        out
    }
}

impl<T: Clone> Clone for GPolicied<T> {
    /// A copy of the value, as `T`'s own `clone` makes it, under the same
    /// policy.
    fn clone(&self) -> (r: Self)
        ensures
            vstd::pervasive::cloned::<T>(self.value(), r.value()),
            r.policy_model() == self.policy_model(),
    {
        GPolicied { inner: self.inner.clone(), policy: self.policy.clone() }
    }
}

impl<T> InternalizePolicy for GPolicied<Option<T>> {
    type Result = Option<GPolicied<T>>;

    /// `None`, or the value in `Some` under the option's policy.
    open spec fn internalizes_to(self, r: Option<GPolicied<T>>) -> bool {
        match self.value() {
            Some(v) => r is Some && r->Some_0.value() == v && r->Some_0.policy_model()
                == self.policy_model(),
            None => r is None,
        }
    }

    fn internalize_policy(self) -> (r: Option<GPolicied<T>>) {
        let (inner, policy) = self.unsafe_decompose();
        match inner {
            Some(v) => Some(GPolicied::make(v, policy)),
            None => None,
        }
    }
}

} // verus!
