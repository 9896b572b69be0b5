//! The active validator set and quorum arithmetic.
//!
//! Quorum over a cork is evaluated against the validator set as it stands
//! at evaluation time, never against a cached snapshot: endorsement weight
//! must strictly exceed the configured threshold fraction of the total
//! active weight.

use vstd::prelude::*;

verus! {

/// Why a validator could not be added to the set.
#[derive(Clone, Copy, Debug, PartialEq, Eq, Structural)]
pub enum ValidatorSetError {
    /// The identity is already a member.
    DuplicateValidator,
    /// Adding the weight would push the total past what fits.
    WeightOverflow,
}

/// One validator operator: an identity and its voting weight.
#[derive(Clone, Copy, Debug, PartialEq, Eq, Structural)]
pub struct Validator {
    pub id: u64,
    pub weight: u64,
}

/// The mapping from validator identity to voting weight at the current
/// consensus context.
#[derive(Clone, Debug)]
pub struct ValidatorSet {
    members: Vec<Validator>,
}

/// Whether no two members share an identity.
pub open spec fn ids_distinct(s: Seq<Validator>) -> bool {
    forall|i: int, j: int| 0 <= i < j < s.len() ==> s[i].id != s[j].id
}

/// Whether some member carries identity `id`.
pub open spec fn contains_id(s: Seq<Validator>, id: u64) -> bool {
    exists|i: int| 0 <= i < s.len() && s[i].id == id
}

/// The sum of every member's voting weight.
pub open spec fn total_weight(s: Seq<Validator>) -> int
    decreases s.len(),
{
    if s.len() == 0 {
        0
    } else {
        total_weight(s.drop_last()) + s.last().weight
    }
}

/// The summed weight of the members whose identity is listed in `es`.
pub open spec fn endorsed_weight(s: Seq<Validator>, es: Seq<u64>) -> int
    decreases s.len(),
{
    if s.len() == 0 {
        0
    } else {
        endorsed_weight(s.drop_last(), es) + (if es.contains(s.last().id) {
            s.last().weight as int
        } else {
            0
        })
    }
}

/// Whether the endorsing weight strictly exceeds the fraction
/// `threshold_num / threshold_den` of the total active weight.
pub open spec fn quorum_met(
    s: Seq<Validator>,
    es: Seq<u64>,
    threshold_num: u64,
    threshold_den: u64,
) -> bool {
    endorsed_weight(s, es) * threshold_den > total_weight(s) * threshold_num
}

/// The total weight never goes negative.
pub proof fn lemma_total_weight_nonneg(s: Seq<Validator>)
    ensures
        total_weight(s) >= 0,
    decreases s.len(),
{
    if s.len() > 0 {
        lemma_total_weight_nonneg(s.drop_last());
    }
}

/// The endorsing weight lies between zero and the total weight.
pub proof fn lemma_endorsed_weight_bounds(s: Seq<Validator>, es: Seq<u64>)
    ensures
        0 <= endorsed_weight(s, es) <= total_weight(s),
    decreases s.len(),
{
    if s.len() > 0 {
        lemma_endorsed_weight_bounds(s.drop_last(), es);
    }
}

/// With nobody endorsing, the endorsed weight is zero.
pub proof fn lemma_endorsed_weight_empty(s: Seq<Validator>, es: Seq<u64>)
    requires
        es.len() == 0,
    ensures
        endorsed_weight(s, es) == 0,
    decreases s.len(),
{
    if s.len() > 0 {
        lemma_endorsed_weight_empty(s.drop_last(), es);
    }
}

/// With nobody endorsing, no quorum threshold is exceeded.
pub proof fn lemma_no_quorum_without_endorsement(s: Seq<Validator>, es: Seq<u64>, num: u64, den: u64)
    requires
        es.len() == 0,
    ensures
        !quorum_met(s, es, num, den),
{
    lemma_endorsed_weight_empty(s, es);
    lemma_total_weight_nonneg(s);
    assert(total_weight(s) * num >= 0) by (nonlinear_arith)
        requires
            total_weight(s) >= 0,
            num >= 0,
    ;
    assert(endorsed_weight(s, es) * den == 0) by (nonlinear_arith)
        requires
            endorsed_weight(s, es) == 0,
    ;
}

/// A prefix of the members never weighs more than the whole set.
pub proof fn lemma_total_weight_prefix(s: Seq<Validator>, i: int)
    requires
        0 <= i <= s.len(),
    ensures
        total_weight(s.take(i)) <= total_weight(s),
    decreases s.len() - i,
{
    if i == s.len() {
        assert(s.take(i) =~= s);
    } else {
        assert(s.take(i + 1).drop_last() =~= s.take(i));
        lemma_total_weight_prefix(s, i + 1);
    }
}

/// Whether `v` lists the value `x`.
pub fn contains_u64(v: &Vec<u64>, x: u64) -> (r: bool)
    ensures
        r == v@.contains(x),
{
    let n = v.len();
    let mut i: usize = 0;
    while i < n
        invariant
            n == v@.len(),
            i <= n,
            forall|j: int| 0 <= j < i ==> v@[j] != x,
        decreases n - i,
    {
        if v[i] == x {
            return true;
        }
        i = i + 1;
    }
    assert(!v@.contains(x));
    false
}

impl View for ValidatorSet {
    type V = Seq<Validator>;

    closed spec fn view(&self) -> Seq<Validator> {
        self.members@
    }
}

impl ValidatorSet {
    /// Member identities are distinct and the total weight fits a
    /// 64-bit value.
    pub open spec fn wf(&self) -> bool {
        ids_distinct(self@) && total_weight(self@) <= u64::MAX
    }

    /// An empty validator set.
    pub fn new() -> (r: ValidatorSet)
        ensures
            r@ =~= Seq::<Validator>::empty(),
            r.wf(),
    {
        ValidatorSet { members: Vec::new() }
    }

    /// How many members the set holds.
    pub fn member_count(&self) -> (r: usize)
        ensures
            r == self@.len(),
    {
        self.members.len()
    }

    /// Whether `id` is an active member identity.
    pub fn is_member(&self, id: u64) -> (r: bool)
        ensures
            r == contains_id(self@, id),
    {
        let n = self.members.len();
        let mut i: usize = 0;
        while i < n
            invariant
                n == self@.len(),
                i <= n,
                forall|j: int| 0 <= j < i ==> self@[j].id != id,
            decreases n - i,
        {
            if self.members[i].id == id {
                return true;
            }
            i = i + 1;
        }
        false
    }

    /// The summed weight of every member.
    pub fn total(&self) -> (r: u64)
        requires
            self.wf(),
        ensures
            r == total_weight(self@),
    {
        let n = self.members.len();
        let mut sum: u64 = 0;
        let mut i: usize = 0;
        while i < n
            invariant
                self.wf(),
                n == self@.len(),
                i <= n,
                sum == total_weight(self@.take(i as int)),
            decreases n - i,
        {
            proof {
                assert(self@.take(i + 1).drop_last() =~= self@.take(i as int));
                lemma_total_weight_nonneg(self@.take(i as int));
                lemma_total_weight_prefix(self@, i + 1);
            }
            sum = sum + self.members[i].weight;
            i = i + 1;
        }
        proof {
            assert(self@.take(n as int) =~= self@);
        }
        sum
    }

    /// Adds a member, keeping identities distinct and the total weight
    /// within bounds; on failure the set is unchanged.
    pub fn add(&mut self, id: u64, weight: u64) -> (r: Result<(), ValidatorSetError>)
        requires
            old(self).wf(),
        ensures
            final(self).wf(),
            r is Ok <==> !contains_id(old(self)@, id) && total_weight(old(self)@) + weight
                <= u64::MAX,
            r is Ok ==> final(self)@ == old(self)@.push(Validator { id, weight }),
            r is Err ==> final(self)@ == old(self)@,
            r == Result::<(), ValidatorSetError>::Err(ValidatorSetError::DuplicateValidator)
                <==> contains_id(old(self)@, id),
            r == Result::<(), ValidatorSetError>::Err(ValidatorSetError::WeightOverflow) <==> (
            !contains_id(old(self)@, id) && total_weight(old(self)@) + weight > u64::MAX),
    {
        if self.is_member(id) {
            return Err(ValidatorSetError::DuplicateValidator);
        }
        let current = self.total();
        proof {
            lemma_total_weight_nonneg(self@);
        }
        if weight > u64::MAX - current {
            return Err(ValidatorSetError::WeightOverflow);
        }
        let ghost before = self@;
        self.members.push(Validator { id, weight });
        proof {
            assert(self@.drop_last() =~= before);
            assert(total_weight(self@) == total_weight(before) + weight);
            assert(ids_distinct(self@)) by {
                assert(forall|i: int| 0 <= i < before.len() ==> self@[i] == before[i]);
            }
        }
        Ok(())
    }

    /// The summed weight of the members whose identity appears in `es`.
    pub fn endorsed(&self, es: &Vec<u64>) -> (r: u64)
        requires
            self.wf(),
        ensures
            r == endorsed_weight(self@, es@),
    {
        let n = self.members.len();
        let mut sum: u64 = 0;
        let mut i: usize = 0;
        while i < n
            invariant
                self.wf(),
                n == self@.len(),
                i <= n,
                sum == endorsed_weight(self@.take(i as int), es@),
                sum <= total_weight(self@.take(i as int)),
            decreases n - i,
        {
            proof {
                assert(self@.take(i + 1).drop_last() =~= self@.take(i as int));
                lemma_total_weight_prefix(self@, i + 1);
            }
            let m = self.members[i];
            if contains_u64(es, m.id) {
                sum = sum + m.weight;
            }
            i = i + 1;
        }
        proof {
            assert(self@.take(n as int) =~= self@);
        }
        sum
    }

    /// Whether the members listed in `es` hold strictly more than the
    /// fraction `threshold_num / threshold_den` of the total weight.
    pub fn check_quorum(&self, es: &Vec<u64>, threshold_num: u64, threshold_den: u64) -> (r: bool)
        requires
            self.wf(),
        ensures
            r == quorum_met(self@, es@, threshold_num, threshold_den),
    {
        let e = self.endorsed(es);
        let t = self.total();
        proof {
            assert((e as int) * (threshold_den as int) <= u128::MAX && (t as int) * (
            threshold_num as int) <= u128::MAX) by (nonlinear_arith)
                requires
                    e <= u64::MAX,
                    t <= u64::MAX,
                    threshold_den <= u64::MAX,
                    threshold_num <= u64::MAX,
            ;
        }
        let lhs: u128 = (e as u128) * (threshold_den as u128);
        let rhs: u128 = (t as u128) * (threshold_num as u128);
        lhs > rhs
    }
}

} // verus!
