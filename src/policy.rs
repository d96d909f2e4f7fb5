//! Policies: what decides whether a value may leave through a context, and
//! how two policies combine when the values they guard are combined.
use vstd::prelude::*;

use crate::filter::Context;

verus! {

broadcast use vstd::seq_lib::group_filter_ensures;

/// Why a policy refused a release or a combination.
#[derive(Clone, Copy, Debug, PartialEq, Eq, Structural)]
pub enum PolicyError {
    /// The policy knows the context and forbids the release.
    ContextRejected,
    /// The two policies cannot be combined soundly.
    UnmergeablePolicies,
    /// The policy does not know this kind of context; it refuses it.
    UnsupportedContext,
}

/// The mathematical model of a policy: `None` for the baseline policy, which
/// allows everything, and `Some(readers)` for a policy that binds the value
/// to the listed readers.
pub type PolicyModel = Option<Seq<Seq<char>>>;

/// A policy that binds a value to its readers: the value may be written to a
/// file named after one of them, and goes nowhere else.
pub struct OwnerPolicy {
    pub readers: Vec<String>,
}

impl View for OwnerPolicy {
    type V = Seq<Seq<char>>;

    open spec fn view(&self) -> Seq<Seq<char>> {
        self.readers@.map_values(|s: String| s@)
    }
}

/// A policy guarding one value.
pub enum Policy {
    /// The baseline: no restriction at all.
    NonePolicy,
    /// Bound to a list of readers.
    Owned(OwnerPolicy),
}

impl View for Policy {
    type V = PolicyModel;

    open spec fn view(&self) -> PolicyModel {
        match self {
            Policy::NonePolicy => None,
            Policy::Owned(o) => Some(o@),
        }
    }
}

/// What checking a policy modelled by `p` against context `c` returns.
pub open spec fn policy_check(p: PolicyModel, c: Context) -> Result<(), PolicyError> {
    match p {
        None => Ok(()),
        Some(readers) => match c {
            Context::File(f) => if readers.contains(f.file_name@) {
                Ok(())
            } else {
                Err(PolicyError::ContextRejected)
            },
            Context::ClientNetwork(_) => Err(PolicyError::ContextRejected),
            Context::ServerNetwork(_) => Err(PolicyError::ContextRejected),
            Context::KVContext(_) => Err(PolicyError::UnsupportedContext),
            Context::CustomContext(_) => Err(PolicyError::UnsupportedContext),
        },
    }
}

/// Whether a policy modelled by `p` lets a value leave through context `c`.
pub open spec fn permits(p: PolicyModel, c: Context) -> bool {
    policy_check(p, c) is Ok
}

/// The readers of `a` that are also readers of `b`, in the order of `a`.
pub open spec fn common_readers(a: Seq<Seq<char>>, b: Seq<Seq<char>>) -> Seq<Seq<char>> {
    a.filter(|n: Seq<char>| b.contains(n))
}

/// What merging the policies modelled by `p` and `q` returns: the baseline is
/// an identity on either side; two reader lists meet in their common readers,
/// and have no merge when they share none.
pub open spec fn policy_merge(p: PolicyModel, q: PolicyModel) -> Result<PolicyModel, PolicyError> {
    match (p, q) {
        (None, _) => Ok(q),
        (_, None) => Ok(p),
        (Some(a), Some(b)) => {
            let common = common_readers(a, b);
            if common.len() == 0 {
                Err(PolicyError::UnmergeablePolicies)
            } else {
                Ok(Some(common))
            }
        },
    }
}

impl Clone for OwnerPolicy {
    fn clone(&self) -> (r: Self)
        ensures
            r@ == self@,
    {
        let readers = self.readers.clone();
        assert(readers@.map_values(|s: String| s@) =~= self.readers@.map_values(|s: String| s@));
        OwnerPolicy { readers }
    }
}

impl Clone for Policy {
    fn clone(&self) -> (r: Self)
        ensures
            r@ == self@,
    {
        match self {
            Policy::NonePolicy => Policy::NonePolicy,
            Policy::Owned(o) => Policy::Owned(o.clone()),
        }
    }
}

impl OwnerPolicy {
    /// A policy whose only reader is `owner`.
    pub fn new(owner: String) -> (r: Self)
        ensures
            r@ == seq![owner@],
    {
        let mut readers: Vec<String> = Vec::new();
        readers.push(owner);
        let r = OwnerPolicy { readers };
        assert(r@ =~= seq![owner@]);
        r
    }

    /// Whether `name` is one of the readers.
    pub fn allows_reader(&self, name: &String) -> (r: bool)
        ensures
            r == self@.contains(name@),
    {
        let mut i: usize = 0;
        while i < self.readers.len()
            invariant
                0 <= i <= self.readers@.len(),
                forall|j: int| 0 <= j < i ==> self@[j] != name@,
            decreases self.readers@.len() - i,
        {
            if self.readers[i] == *name {
                assert(self@[i as int] == name@);
                return true;
            }
            i = i + 1;
        }
        false
    }

    /// The readers that this policy shares with `other`, in this policy's order.
    pub fn common_with(&self, other: &OwnerPolicy) -> (r: OwnerPolicy)
        ensures
            r@ == common_readers(self@, other@),
    {
        let ghost pred = |n: Seq<char>| other@.contains(n);
        let mut readers: Vec<String> = Vec::new();
        let mut i: usize = 0;
        while i < self.readers.len()
            invariant
                0 <= i <= self.readers@.len(),
                pred == (|n: Seq<char>| other@.contains(n)),
                readers@.map_values(|s: String| s@) == self@.subrange(0, i as int).filter(pred),
            decreases self.readers@.len() - i,
        {
            let keep = other.allows_reader(&self.readers[i]);
            let ghost before = readers@.map_values(|s: String| s@);
            if keep {
                readers.push(self.readers[i].clone());
            }
            proof {
                let s = self@.subrange(0, i as int + 1);
                assert(s.drop_last() =~= self@.subrange(0, i as int));
                assert(s.last() == self@[i as int]);
                reveal(Seq::filter);
                if keep {
                    assert(readers@.map_values(|s: String| s@) =~= before.push(self@[i as int]));
                } else {
                    assert(readers@.map_values(|s: String| s@) =~= before);
                }
            }
            i = i + 1;
        }
        assert(self@.subrange(0, self@.len() as int) =~= self@);
        OwnerPolicy { readers }
    }
}

impl Policy {
    /// A policy that binds a value to `owner` alone.
    pub fn owned_by(owner: String) -> (r: Policy)
        ensures
            r@ == Some(seq![owner@]),
    {
        Policy::Owned(OwnerPolicy::new(owner))
    }

    /// Decides whether a value guarded by this policy may leave through `ctxt`.
    pub fn check(&self, ctxt: &Context) -> (r: Result<(), PolicyError>)
        ensures
            r == policy_check(self@, *ctxt),
    {
        match self {
            Policy::NonePolicy => Ok(()),
            Policy::Owned(o) => match ctxt {
                Context::File(f) => {
                    if o.allows_reader(&f.file_name) {
                        Ok(())
                    } else {
                        Err(PolicyError::ContextRejected)
                    }
                },
                Context::ClientNetwork(_) => Err(PolicyError::ContextRejected),
                Context::ServerNetwork(_) => Err(PolicyError::ContextRejected),
                Context::KVContext(_) => Err(PolicyError::UnsupportedContext),
                Context::CustomContext(_) => Err(PolicyError::UnsupportedContext),
            },
        }
    }

    /// Combines this policy with `other` into one at least as restrictive as
    /// both, or fails where no such policy leaves the value anywhere to go.
    pub fn merge(&self, other: &Policy) -> (r: Result<Policy, PolicyError>)
        ensures
            match r {
                Ok(m) => policy_merge(self@, other@) == Ok::<PolicyModel, PolicyError>(m@),
                Err(e) => policy_merge(self@, other@) == Err::<PolicyModel, PolicyError>(e),
            },
    {
        match (self, other) {
            (Policy::NonePolicy, _) => Ok(other.clone()),
            (_, Policy::NonePolicy) => Ok(self.clone()),
            (Policy::Owned(a), Policy::Owned(b)) => {
                let common = a.common_with(b);
                if common.readers.len() == 0 {
                    Err(PolicyError::UnmergeablePolicies)
                } else {
                    Ok(Policy::Owned(common))
                }
            },
        }
    }
}

/// The baseline policy lets a value leave through every context.
pub proof fn lemma_baseline_permits_all(c: Context)
    ensures
        policy_check(None, c) == Ok::<(), PolicyError>(()),
{
}

/// Merging the baseline policy with `p` gives back `p`, which then decides
/// every context exactly as `p` does.
pub proof fn lemma_merge_identity(p: PolicyModel, c: Context)
    ensures
        policy_merge(None, p) == Ok::<PolicyModel, PolicyError>(p),
        policy_merge(p, None) == Ok::<PolicyModel, PolicyError>(p),
        policy_check(policy_merge(None, p)->Ok_0, c) == policy_check(p, c),
{
}

/// Where the merge of `p1` and `p2` lets a value through a context, both
/// `p1` and `p2` let it through as well.
pub proof fn lemma_merge_sound(p1: PolicyModel, p2: PolicyModel, c: Context)
    requires
        policy_merge(p1, p2) is Ok,
        permits(policy_merge(p1, p2)->Ok_0, c),
    ensures
        permits(p1, c),
        permits(p2, c),
{
    if p1 is Some && p2 is Some {
        let a = p1->Some_0;
        let b = p2->Some_0;
        if let Context::File(f) = c {
            let pred = |n: Seq<char>| b.contains(n);
            assert(a.filter(pred).contains(f.file_name@));
            a.lemma_filter_contains_rev(pred, f.file_name@);
            let i = choose|i: int| 0 <= i < a.filter(pred).len() && a.filter(pred)[i] == f.file_name@;
            a.lemma_filter_pred(pred, i);
        }
    }
}

/// A policy bound to a single owner refuses every network context, whatever
/// its address.
pub proof fn lemma_owner_denies_network(owner: Seq<char>, c: Context)
    requires
        c is ClientNetwork || c is ServerNetwork,
    ensures
        policy_check(Some(seq![owner]), c) == Err::<(), PolicyError>(PolicyError::ContextRejected),
{
}

/// What folding the policies `ps` one by one into `start` returns: each step
/// merges the result so far with the next policy, and the first failing
/// merge ends the fold with its error.
pub open spec fn merge_all(start: PolicyModel, ps: Seq<PolicyModel>) -> Result<PolicyModel, PolicyError>
    decreases ps.len(),
{
    if ps.len() == 0 {
        Ok(start)
    } else {
        match merge_all(start, ps.drop_last()) {
            Ok(m) => policy_merge(m, ps.last()),
            Err(e) => Err(e),
        }
    }
}

/// Once a fold fails on a prefix of `ps`, the fold of all of `ps` fails with
/// the same error.
pub proof fn lemma_merge_all_failure_persists(start: PolicyModel, ps: Seq<PolicyModel>, j: int)
    requires
        0 <= j <= ps.len(),
        merge_all(start, ps.subrange(0, j)) is Err,
    ensures
        merge_all(start, ps) == merge_all(start, ps.subrange(0, j)),
    decreases ps.len() - j,
{
    if j < ps.len() {
        let next = ps.subrange(0, j + 1);
        assert(next.drop_last() =~= ps.subrange(0, j));
        lemma_merge_all_failure_persists(start, ps, j + 1);
    } else {
        assert(ps.subrange(0, j) =~= ps);
    }
}

/// A fold of policies refuses every context that the starting policy or any
/// one of the folded policies refuses.
pub proof fn lemma_merge_all_restricts(start: PolicyModel, ps: Seq<PolicyModel>, c: Context)
    requires
        merge_all(start, ps) is Ok,
    ensures
        !permits(start, c) ==> !permits(merge_all(start, ps)->Ok_0, c),
        forall|i: int|
            0 <= i < ps.len() && !permits(#[trigger] ps[i], c) ==> !permits(
                merge_all(start, ps)->Ok_0,
                c,
            ),
    decreases ps.len(),
{
    if ps.len() > 0 {
        let rest = ps.drop_last();
        let prev = merge_all(start, rest);
        lemma_merge_all_restricts(start, rest, c);
        if permits(merge_all(start, ps)->Ok_0, c) {
            lemma_merge_sound(prev->Ok_0, ps.last(), c);
            assert forall|i: int| 0 <= i < ps.len() implies permits(#[trigger] ps[i], c) by {
                if i < ps.len() - 1 {
                    assert(ps[i] == rest[i]);
                }
            }
        }
    }
}

} // verus!
