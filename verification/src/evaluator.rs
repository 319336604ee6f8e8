//! The flag evaluation algorithm: which variation of a flag applies to a
//! user, decided from a store snapshot alone.
//!
//! The decision procedure, in order and short-circuiting: an off flag takes
//! its off variation; a failing prerequisite takes the off variation too; a
//! matching target wins outright; declared rules are unsupported and fail;
//! otherwise the fallthrough decides, either as a fixed variation or by
//! bucketing the user into a percentage rollout. The chosen index must lie
//! within the flag's variations.

use vstd::prelude::*;

use crate::bucket::{bucket_spec, bucket_value, BUCKET_DIVIDER};
use crate::models::{FeatureFlagState, Prerequisite, Rollout, Target, Variation, WeightedVariation};
use crate::store::MemoryStore;
use crate::text::str_eq;

verus! {

/// Why an evaluation failed.
#[derive(Clone, Copy, Debug, PartialEq, Eq)]
pub enum Error {
    /// The requested flag is not in the store.
    FlagNotFound,
    /// A prerequisite flag is off.
    FlagOff,
    /// A prerequisite evaluated to a different variation than required.
    PrerequisiteFailed,
    /// A prerequisite entry is missing its key or its variation.
    InvalidPrerequisite,
    /// A target entry is missing its values or its variation.
    InvalidTarget,
    /// The rollout is missing, empty, malformed, or its weights do not
    /// cover the user's bucket.
    InvalidRollout,
    /// The flag declares targeting rules, which are not supported.
    UnsupportedRules,
    /// The fallthrough has neither a fixed variation nor a rollout.
    EmptyFallthrough,
    /// The chosen index is not within the flag's variations.
    IndexOutOfRange,
    /// The variation value is not of the requested type.
    InvalidVariationType,
    /// Prerequisites nest deeper than the store holds flags, which only a
    /// dependency cycle can cause.
    CyclicPrerequisite,
}

/// A user, known by a single key.
#[derive(Clone, Copy, Debug)]
pub struct User<'a> {
    pub key: &'a str,
}

impl<'a> User<'a> {
    /// Creates a user from a key.
    pub fn new(key: &'a str) -> (r: Self)
        ensures
            r.key == key,
    {
        User { key }
    }
}

/// Whether one of the strings reads as the given character sequence.
pub open spec fn seq_contains_string(vals: Seq<String>, user: Seq<char>) -> bool {
    exists|i: int| 0 <= i < vals.len() && vals[i]@ == user
}

/// The individual-targeting check: the first target listing the user's key
/// wins, scanned in declared order; a target missing its values or its
/// variation fails the evaluation.
pub open spec fn targets_spec(targets: Seq<Target>, user: Seq<char>) -> Result<
    Option<i64>,
    Error,
>
    decreases targets.len(),
{
    if targets.len() == 0 {
        Ok(None)
    } else {
        match targets[0].values {
            None => Err(Error::InvalidTarget),
            Some(vals) => match targets[0].variation {
                None => Err(Error::InvalidTarget),
                Some(v) => if seq_contains_string(vals@, user) {
                    Ok(Some(v))
                } else {
                    targets_spec(targets.drop_first(), user)
                },
            },
        }
    }
}

/// One step of the rollout walk: with `cum` the weight already passed, the
/// user takes the first variation whose cumulative weight his bucket falls
/// under. `bucket * 100000 < cum' * BUCKET_DIVIDER` is the exact form of
/// `bucket / BUCKET_DIVIDER < cum' / 100000`. A missing weight, a weight
/// outside 0 to 100000, a missing variation, or a walk past the end — the
/// weights do not cover the bucket — is a malformed rollout.
pub open spec fn rollout_walk(
    ws: Seq<WeightedVariation>,
    bucket: int,
    cum: int,
) -> Result<int, Error>
    decreases ws.len(),
{
    if ws.len() == 0 {
        Err(Error::InvalidRollout)
    } else {
        match ws[0].weight {
            None => Err(Error::InvalidRollout),
            Some(w) => if w < 0 || w > 100000 {
                Err(Error::InvalidRollout)
            } else if bucket * 100000 < (cum + w) * (BUCKET_DIVIDER as int) {
                match ws[0].variation {
                    None => Err(Error::InvalidRollout),
                    Some(v) => Ok(v as int),
                }
            } else {
                rollout_walk(ws.drop_first(), bucket, cum + w)
            },
        }
    }
}

/// The variation a rollout gives a bucket: the walk from zero over the
/// declared variations; a missing or empty variations list is malformed.
pub open spec fn rollout_result_spec(r: Rollout, bucket: int) -> Result<int, Error> {
    match r.variations {
        None => Err(Error::InvalidRollout),
        Some(ws) => if ws@.len() == 0 {
            Err(Error::InvalidRollout)
        } else {
            rollout_walk(ws@, bucket, 0)
        },
    }
}

/// The fallthrough's raw result: a declared fixed variation wins; else the
/// declared rollout decides by the user's bucket; neither is a failure.
pub open spec fn fallthrough_raw_spec(flag: FeatureFlagState, user: Seq<char>) -> Result<
    int,
    Error,
> {
    match flag.fallthrough.variation {
        Some(v) => Ok(v as int),
        None => match flag.fallthrough.rollout {
            None => Err(Error::EmptyFallthrough),
            Some(r) => rollout_result_spec(r, bucket_spec(flag.key@, flag.salt@, user)),
        },
    }
}

/// The recursion budget for prerequisite evaluation: one more than the
/// number of stored flags. An acyclic prerequisite graph can never nest
/// deeper, so only a cycle exhausts it.
pub open spec fn default_fuel(store: MemoryStore) -> nat {
    if store.flags().len() >= usize::MAX as nat {
        store.flags().len()
    } else {
        store.flags().len() + 1
    }
}

/// The prerequisite check, walked in declared order: each entry must name a
/// stored flag that is on and evaluates to the required variation, with the
/// whole decision procedure applied recursively under a smaller budget.
pub open spec fn prereqs_spec(
    store: MemoryStore,
    prereqs: Seq<Prerequisite>,
    user: Seq<char>,
    fuel: nat,
) -> Result<(), Error>
    decreases fuel, 1int, prereqs.len(),
{
    if prereqs.len() == 0 {
        Ok(())
    } else {
        match prereqs[0].key {
            None => Err(Error::InvalidPrerequisite),
            Some(key) => match prereqs[0].variation {
                None => Err(Error::InvalidPrerequisite),
                Some(expected) => {
                    if !store.flags().contains_key(key@) {
                        Err(Error::FlagNotFound)
                    } else if !store.flags()[key@].on {
                        Err(Error::FlagOff)
                    } else if fuel == 0 {
                        Err(Error::CyclicPrerequisite)
                    } else {
                        match index_spec(store, store.flags()[key@], user, (fuel - 1) as nat) {
                            Err(e) => Err(e),
                            Ok(idx) => if idx != expected as int {
                                Err(Error::PrerequisiteFailed)
                            } else {
                                prereqs_spec(store, prereqs.drop_first(), user, fuel)
                            },
                        }
                    }
                },
            },
        }
    }
}

/// The raw decision, before the bounds check: the off variation for an off
/// flag or a failed prerequisite (a cycle propagates instead), a matching
/// target's variation, a failure for declared rules, else the fallthrough.
pub open spec fn raw_index_spec(
    store: MemoryStore,
    flag: FeatureFlagState,
    user: Seq<char>,
    fuel: nat,
) -> Result<int, Error>
    decreases fuel, 2int, 0int,
{
    if !flag.on {
        Ok(flag.off_variation as int)
    } else {
        match prereqs_spec(store, flag.prerequisites@, user, fuel) {
            Err(Error::CyclicPrerequisite) => Err(Error::CyclicPrerequisite),
            Err(_) => Ok(flag.off_variation as int),
            Ok(_) => match targets_spec(flag.targets@, user) {
                Err(e) => Err(e),
                Ok(Some(v)) => Ok(v as int),
                Ok(None) => if flag.rules@.len() != 0 {
                    Err(Error::UnsupportedRules)
                } else {
                    fallthrough_raw_spec(flag, user)
                },
            },
        }
    }
}

/// The variation index a flag takes for a user: the raw decision, which
/// must lie within the flag's variations.
pub open spec fn index_spec(
    store: MemoryStore,
    flag: FeatureFlagState,
    user: Seq<char>,
    fuel: nat,
) -> Result<int, Error>
    decreases fuel, 3int, 0int,
{
    match raw_index_spec(store, flag, user, fuel) {
        Err(e) => Err(e),
        Ok(i) => if 0 <= i < flag.variations@.len() {
            Ok(i)
        } else {
            Err(Error::IndexOutOfRange)
        },
    }
}

/// The variation value an evaluation yields: the value at the chosen index.
pub open spec fn run_spec(store: MemoryStore, flag: FeatureFlagState, user: Seq<char>) -> Result<
    Variation,
    Error,
> {
    match index_spec(store, flag, user, default_fuel(store)) {
        Err(e) => Err(e),
        Ok(i) => Ok(flag.variations@[i]),
    }
}

/// The value a flag key evaluates to for a user, from a store snapshot.
pub open spec fn evaluate_spec(store: MemoryStore, key: Seq<char>, user: Seq<char>) -> Result<
    Variation,
    Error,
> {
    if !store.flags().contains_key(key) {
        Err(Error::FlagNotFound)
    } else {
        run_spec(store, store.flags()[key], user)
    }
}

/// The boolean reading of an evaluation: only a boolean variation value
/// converts; any other value is a type mismatch.
pub open spec fn bool_variation_spec(store: MemoryStore, key: Seq<char>, user: Seq<char>) -> Result<
    bool,
    Error,
> {
    match evaluate_spec(store, key, user) {
        Err(e) => Err(e),
        Ok(Variation::Bool(b)) => Ok(b),
        Ok(_) => Err(Error::InvalidVariationType),
    }
}

/// Picks the variation a rollout gives a bucket numerator.
#[verifier::loop_isolation(false)]
pub fn rollout_variation(rollout: &Rollout, bucket: u64) -> (r: Result<i64, Error>)
    requires
        bucket <= BUCKET_DIVIDER,
    ensures
        match r {
            Ok(v) => rollout_result_spec(*rollout, bucket as int) == Ok::<int, Error>(v as int),
            Err(e) => rollout_result_spec(*rollout, bucket as int) == Err::<int, Error>(e),
        },
{
    let ws = match &rollout.variations {
        None => {
            return Err(Error::InvalidRollout);
        },
        Some(ws) => ws,
    };
    if ws.len() == 0 {
        return Err(Error::InvalidRollout);
    }
    let mut cum: u64 = 0;
    let mut i: usize = 0;
    proof {
        assert(ws@.skip(0) =~= ws@);
    }
    loop
        invariant
            0 < ws@.len(),
            i <= ws@.len(),
            cum <= 100000,
            bucket <= BUCKET_DIVIDER,
            rollout_walk(ws@.skip(i as int), bucket as int, cum as int) == rollout_walk(
                ws@,
                bucket as int,
                0,
            ),
        decreases ws@.len() - i,
    {
        if i == ws.len() {
            return Err(Error::InvalidRollout);
        }
        let wv = ws[i];
        proof {
            assert(ws@.skip(i as int)[0] == ws@[i as int]);
        }
        let w = match wv.weight {
            None => {
                return Err(Error::InvalidRollout);
            },
            Some(w) => w,
        };
        if w < 0 || w > 100000 {
            return Err(Error::InvalidRollout);
        }
        let cum2 = cum + (w as u64);
        if (bucket as u128) * 100000 < (cum2 as u128) * (BUCKET_DIVIDER as u128) {
            return match wv.variation {
                None => Err(Error::InvalidRollout),
                Some(v) => Ok(v),
            };
        }
        proof {
            assert(cum2 <= 100000) by (nonlinear_arith)
                requires
                    (cum2 as int) * (BUCKET_DIVIDER as int) <= (bucket as int) * 100000,
                    bucket <= BUCKET_DIVIDER,
            ;
            assert(ws@.skip(i as int).drop_first() =~= ws@.skip(i as int + 1));
        }
        cum = cum2;
        i += 1;
    }
}

/// The weight of one rollout slice; zero when missing.
pub open spec fn weight_of(wv: WeightedVariation) -> int {
    match wv.weight {
        Some(w) => w as int,
        None => 0,
    }
}

/// The cumulative weight of the first `i` slices.
pub open spec fn cum_weight(ws: Seq<WeightedVariation>, i: int) -> int
    decreases i,
{
    if i <= 0 {
        0
    } else {
        cum_weight(ws, i - 1) + weight_of(ws[i - 1])
    }
}

/// Every slice carries a weight between 0 and 100000 and a variation.
pub open spec fn rollout_slices_wf(ws: Seq<WeightedVariation>) -> bool {
    forall|i: int|
        0 <= i < ws.len() ==> (#[trigger] ws[i]).weight is Some && 0 <= weight_of(ws[i]) <= 100000
            && ws[i].variation is Some
}

/// The bucket numerator falls in slice `i`: at or past the slice's lower
/// cumulative bound and below its upper one, in the exact integer form of
/// `cum_i / 100000 <= bucket / BUCKET_DIVIDER < cum_(i+1) / 100000`.
pub open spec fn in_slice(ws: Seq<WeightedVariation>, bucket: int, i: int) -> bool {
    &&& 0 <= i < ws.len()
    &&& cum_weight(ws, i) * (BUCKET_DIVIDER as int) <= bucket * 100000
    &&& bucket * 100000 < cum_weight(ws, i + 1) * (BUCKET_DIVIDER as int)
}

proof fn lemma_cum_weight_shift(ws: Seq<WeightedVariation>, i: int)
    requires
        0 <= i < ws.len(),
    ensures
        cum_weight(ws, i + 1) == weight_of(ws[0]) + cum_weight(ws.drop_first(), i),
    decreases i,
{
    if i == 0 {
        assert(cum_weight(ws, 0) == 0);
        assert(cum_weight(ws.drop_first(), 0) == 0);
    } else {
        lemma_cum_weight_shift(ws, i - 1);
        assert(ws.drop_first()[i - 1] == ws[i]);
    }
}

proof fn lemma_cum_weight_mono(ws: Seq<WeightedVariation>, i: int, j: int)
    requires
        rollout_slices_wf(ws),
        0 <= i <= j <= ws.len(),
    ensures
        cum_weight(ws, i) <= cum_weight(ws, j),
    decreases j - i,
{
    if i < j {
        lemma_cum_weight_mono(ws, i, j - 1);
    }
}

/// The walk from `cum` finds the slice whose cumulative range holds the
/// bucket, whenever the bucket lies at or past `cum` and below the total.
proof fn lemma_walk_selects(ws: Seq<WeightedVariation>, bucket: int, cum: int)
    requires
        rollout_slices_wf(ws),
        cum * (BUCKET_DIVIDER as int) <= bucket * 100000,
        bucket * 100000 < (cum + cum_weight(ws, ws.len() as int)) * (BUCKET_DIVIDER as int),
    ensures
        exists|i: int|
            {
                &&& 0 <= i < ws.len()
                &&& (cum + cum_weight(ws, i)) * (BUCKET_DIVIDER as int) <= bucket * 100000
                &&& bucket * 100000 < (cum + cum_weight(ws, i + 1)) * (BUCKET_DIVIDER as int)
                &&& rollout_walk(ws, bucket, cum) == Ok::<int, Error>(
                    ws[i].variation->Some_0 as int,
                )
            },
    decreases ws.len(),
{
    if ws.len() == 0 {
        assert(false);
    } else {
        let d = BUCKET_DIVIDER as int;
        let w0 = weight_of(ws[0]);
        assert(cum_weight(ws, 0) == 0);
        assert(cum_weight(ws, 1) == w0);
        if bucket * 100000 < (cum + w0) * d {
            assert({
                &&& 0 <= 0 < ws.len()
                &&& (cum + cum_weight(ws, 0)) * d <= bucket * 100000
                &&& bucket * 100000 < (cum + cum_weight(ws, 1)) * d
                &&& rollout_walk(ws, bucket, cum) == Ok::<int, Error>(
                    ws[0].variation->Some_0 as int,
                )
            });
        } else {
            let rest = ws.drop_first();
            assert forall|k: int| 0 <= k < rest.len() implies (#[trigger] rest[k]).weight is Some
                && 0 <= weight_of(rest[k]) <= 100000 && rest[k].variation is Some by {
                assert(rest[k] == ws[k + 1]);
            }
            lemma_cum_weight_shift(ws, ws.len() - 1);
            lemma_walk_selects(rest, bucket, cum + w0);
            let i2 = choose|i: int|
                {
                    &&& 0 <= i < rest.len()
                    &&& (cum + w0 + cum_weight(rest, i)) * d <= bucket * 100000
                    &&& bucket * 100000 < (cum + w0 + cum_weight(rest, i + 1)) * d
                    &&& rollout_walk(rest, bucket, cum + w0) == Ok::<int, Error>(
                        rest[i].variation->Some_0 as int,
                    )
                };
            lemma_cum_weight_shift(ws, i2);
            lemma_cum_weight_shift(ws, i2 + 1);
            assert({
                &&& 0 <= i2 + 1 < ws.len()
                &&& (cum + cum_weight(ws, i2 + 1)) * d <= bucket * 100000
                &&& bucket * 100000 < (cum + cum_weight(ws, i2 + 2)) * d
                &&& rollout_walk(ws, bucket, cum) == Ok::<int, Error>(
                    ws[i2 + 1].variation->Some_0 as int,
                )
            });
        }
    }
}

/// Coverage of a full rollout: when the weights sum to exactly 100000,
/// every bucket numerator in `[0, BUCKET_DIVIDER)` falls in exactly one
/// slice — no gap and no double match — and the walk selects that slice's
/// variation.
pub proof fn lemma_rollout_coverage(ws: Seq<WeightedVariation>, bucket: int)
    requires
        rollout_slices_wf(ws),
        cum_weight(ws, ws.len() as int) == 100000,
        0 <= bucket < BUCKET_DIVIDER as int,
    ensures
        exists|i: int| #[trigger] in_slice(ws, bucket, i),
        forall|i: int, j: int| in_slice(ws, bucket, i) && in_slice(ws, bucket, j) ==> i == j,
        forall|i: int| #[trigger]
            in_slice(ws, bucket, i) ==> rollout_walk(ws, bucket, 0) == Ok::<int, Error>(
                ws[i].variation->Some_0 as int,
            ),
{
    let d = BUCKET_DIVIDER as int;
    lemma_walk_selects(ws, bucket, 0);
    let i0 = choose|i: int|
        {
            &&& 0 <= i < ws.len()
            &&& (0 + cum_weight(ws, i)) * d <= bucket * 100000
            &&& bucket * 100000 < (0 + cum_weight(ws, i + 1)) * d
            &&& rollout_walk(ws, bucket, 0) == Ok::<int, Error>(ws[i].variation->Some_0 as int)
        };
    assert(in_slice(ws, bucket, i0));
    assert forall|i: int, j: int|
        in_slice(ws, bucket, i) && in_slice(ws, bucket, j) implies i == j by {
        if i < j {
            lemma_cum_weight_mono(ws, i + 1, j);
            assert(cum_weight(ws, i + 1) * d <= cum_weight(ws, j) * d) by (nonlinear_arith)
                requires
                    cum_weight(ws, i + 1) <= cum_weight(ws, j),
                    d >= 0,
            ;
        } else if j < i {
            lemma_cum_weight_mono(ws, j + 1, i);
            assert(cum_weight(ws, j + 1) * d <= cum_weight(ws, i) * d) by (nonlinear_arith)
                requires
                    cum_weight(ws, j + 1) <= cum_weight(ws, i),
                    d >= 0,
            ;
        }
    }
    assert forall|i: int| #[trigger]
        in_slice(ws, bucket, i) implies rollout_walk(ws, bucket, 0) == Ok::<int, Error>(
        ws[i].variation->Some_0 as int,
    ) by {
        assert(i == i0);
    }
}

/// The off short-circuit: a flag that is off evaluates to its off
/// variation, whatever its prerequisites, targets, rules and fallthrough
/// hold, as long as the off variation is within the flag's variations.
pub proof fn lemma_off_short_circuit(
    store: MemoryStore,
    flag: FeatureFlagState,
    user: Seq<char>,
    fuel: nat,
)
    requires
        !flag.on,
        flag.off_variation < flag.variations@.len(),
    ensures
        index_spec(store, flag, user, fuel) == Ok::<int, Error>(flag.off_variation as int),
{
}

/// Evaluates flags by reading from a store it owns.
pub struct Evaluator {
    store: MemoryStore,
}

/// A single evaluation: one flag, one user, and the store the flag came
/// from, kept at hand for the prerequisite step.
pub struct Evaluation<'a, 'u> {
    pub flag: &'a FeatureFlagState,
    pub user: &'a User<'u>,
    pub store: &'a MemoryStore,
}

impl<'a, 'u> Evaluation<'a, 'u> {
    /// Creates an evaluation of one flag for one user against a store.
    pub fn new(store: &'a MemoryStore, flag: &'a FeatureFlagState, user: &'a User<'u>) -> (r: Self)
        ensures
            r.store == store,
            r.flag == flag,
            r.user == user,
    {
        Evaluation { flag, user, store }
    }

    /// Runs the decision procedure and returns the chosen variation value.
    pub fn run(&self) -> (r: Result<Variation, Error>)
        ensures
            r == run_spec(*self.store, *self.flag, self.user.key@),
    {
        let index = match self.index() {
            Err(e) => {
                return Err(e);
            },
            Ok(i) => i,
        };
        Ok(self.flag.variations[index].clone())
    }

    /// Finds the variation index for this evaluation; the result indexes
    /// into the flag's variations.
    pub fn index(&self) -> (r: Result<usize, Error>)
        ensures
            match r {
                Ok(i) => index_spec(
                    *self.store,
                    *self.flag,
                    self.user.key@,
                    default_fuel(*self.store),
                ) == Ok::<int, Error>(i as int),
                Err(e) => index_spec(
                    *self.store,
                    *self.flag,
                    self.user.key@,
                    default_fuel(*self.store),
                ) == Err::<int, Error>(e),
            },
    {
        let count = self.store.flag_count();
        let fuel = if count == usize::MAX {
            count
        } else {
            count + 1
        };
        self.index_with_fuel(fuel)
    }

    /// The decision procedure under an explicit recursion budget.
    fn index_with_fuel(&self, fuel: usize) -> (r: Result<usize, Error>)
        ensures
            match r {
                Ok(i) => index_spec(*self.store, *self.flag, self.user.key@, fuel as nat)
                    == Ok::<int, Error>(i as int),
                Err(e) => index_spec(*self.store, *self.flag, self.user.key@, fuel as nat)
                    == Err::<int, Error>(e),
            },
        decreases fuel, 3int, 0int,
    {
        let raw = match self.raw_index(fuel) {
            Err(e) => {
                return Err(e);
            },
            Ok(v) => v,
        };
        let n = self.flag.variations.len();
        if 0 <= raw && raw < n as i128 {
            Ok(raw as usize)
        } else {
            Err(Error::IndexOutOfRange)
        }
    }

    /// Steps one through seven of the decision procedure, before the final
    /// bounds check.
    fn raw_index(&self, fuel: usize) -> (r: Result<i128, Error>)
        ensures
            match r {
                Ok(v) => raw_index_spec(*self.store, *self.flag, self.user.key@, fuel as nat)
                    == Ok::<int, Error>(v as int),
                Err(e) => raw_index_spec(*self.store, *self.flag, self.user.key@, fuel as nat)
                    == Err::<int, Error>(e),
            },
        decreases fuel, 2int, 0int,
    {
        if !self.flag.on {
            return Ok(self.flag.off_variation as i128);
        }
        match self.prerequisites(fuel) {
            Err(Error::CyclicPrerequisite) => {
                return Err(Error::CyclicPrerequisite);
            },
            Err(_) => {
                return Ok(self.flag.off_variation as i128);
            },
            Ok(_) => {},
        }
        match self.targets() {
            Err(e) => {
                return Err(e);
            },
            Ok(Some(v)) => {
                return Ok(v as i128);
            },
            Ok(None) => {},
        }
        if self.flag.rules.len() != 0 {
            return Err(Error::UnsupportedRules);
        }
        self.fallthrough()
    }

    /// The prerequisite check: walks the declared prerequisites in order.
    #[verifier::loop_isolation(false)]
    fn prerequisites(&self, fuel: usize) -> (r: Result<(), Error>)
        ensures
            r == prereqs_spec(*self.store, self.flag.prerequisites@, self.user.key@, fuel as nat),
        decreases fuel, 1int, 0int,
    {
        let ps = &self.flag.prerequisites;
        let mut i: usize = 0;
        proof {
            assert(ps@.skip(0) =~= ps@);
        }
        loop
            invariant
                i <= ps@.len(),
                prereqs_spec(*self.store, ps@.skip(i as int), self.user.key@, fuel as nat)
                    == prereqs_spec(*self.store, ps@, self.user.key@, fuel as nat),
            decreases fuel, 0int, ps@.len() - i,
        {
            if i == ps.len() {
                return Ok(());
            }
            proof {
                assert(ps@.skip(i as int)[0] == ps@[i as int]);
            }
            let p = &ps[i];
            let key = match &p.key {
                None => {
                    return Err(Error::InvalidPrerequisite);
                },
                Some(k) => k,
            };
            let expected = match p.variation {
                None => {
                    return Err(Error::InvalidPrerequisite);
                },
                Some(v) => v,
            };
            let flag = match self.store.flag(key.as_str()) {
                None => {
                    return Err(Error::FlagNotFound);
                },
                Some(f) => f,
            };
            if !flag.on {
                return Err(Error::FlagOff);
            }
            if fuel == 0 {
                return Err(Error::CyclicPrerequisite);
            }
            let sub = Evaluation::new(self.store, flag, self.user);
            let idx = match sub.index_with_fuel(fuel - 1) {
                Err(e) => {
                    return Err(e);
                },
                Ok(v) => v,
            };
            if expected < 0 || idx as u64 != expected as u64 {
                return Err(Error::PrerequisiteFailed);
            }
            proof {
                assert(ps@.skip(i as int).drop_first() =~= ps@.skip(i as int + 1));
            }
            i += 1;
        }
    }

    /// The individual-targeting check: scans targets in declared order.
    #[verifier::loop_isolation(false)]
    fn targets(&self) -> (r: Result<Option<i64>, Error>)
        ensures
            r == targets_spec(self.flag.targets@, self.user.key@),
    {
        let ts = &self.flag.targets;
        let mut i: usize = 0;
        proof {
            assert(ts@.skip(0) =~= ts@);
        }
        loop
            invariant
                i <= ts@.len(),
                targets_spec(ts@.skip(i as int), self.user.key@) == targets_spec(
                    ts@,
                    self.user.key@,
                ),
            decreases ts@.len() - i,
        {
            if i == ts.len() {
                return Ok(None);
            }
            proof {
                assert(ts@.skip(i as int)[0] == ts@[i as int]);
            }
            let t = &ts[i];
            let vals = match &t.values {
                None => {
                    return Err(Error::InvalidTarget);
                },
                Some(v) => v,
            };
            let variation = match t.variation {
                None => {
                    return Err(Error::InvalidTarget);
                },
                Some(v) => v,
            };
            if contains_user_key(vals, self.user.key) {
                return Ok(Some(variation));
            }
            proof {
                assert(ts@.skip(i as int).drop_first() =~= ts@.skip(i as int + 1));
            }
            i += 1;
        }
    }

    /// The fallthrough: a fixed variation if one is declared, else the
    /// declared rollout bucketed by this user, else a failure.
    fn fallthrough(&self) -> (r: Result<i128, Error>)
        ensures
            match r {
                Ok(v) => fallthrough_raw_spec(*self.flag, self.user.key@) == Ok::<int, Error>(
                    v as int,
                ),
                Err(e) => fallthrough_raw_spec(*self.flag, self.user.key@) == Err::<int, Error>(e),
            },
    {
        if let Some(v) = self.flag.fallthrough.variation {
            return Ok(v as i128);
        }
        let rollout = match &self.flag.fallthrough.rollout {
            None => {
                return Err(Error::EmptyFallthrough);
            },
            Some(r) => r,
        };
        let bucket = bucket_value(
            self.flag.key.as_str(),
            self.flag.salt.as_str(),
            self.user.key,
        );
        match rollout_variation(rollout, bucket) {
            Err(e) => Err(e),
            Ok(v) => Ok(v as i128),
        }
    }
}

impl Evaluator {
    /// The store this evaluator reads from.
    pub closed spec fn store_state(&self) -> MemoryStore {
        self.store
    }

    /// Creates an evaluator that owns a store.
    pub fn new(store: MemoryStore) -> (r: Evaluator)
        ensures
            r.store_state() == store,
    {
        Evaluator { store }
    }

    /// Determines the variation value for a flag.
    pub fn evaluate(&self, flag: &str, user: &User) -> (r: Result<Variation, Error>)
        ensures
            r == evaluate_spec(self.store_state(), flag@, user.key@),
    {
        let f = match self.store.flag(flag) {
            None => {
                return Err(Error::FlagNotFound);
            },
            Some(f) => f,
        };
        Evaluation::new(&self.store, f, user).run()
    }

    /// Determines a boolean flag variation value.
    pub fn bool_variation(&self, flag: &str, user: &User) -> (r: Result<bool, Error>)
        ensures
            r == bool_variation_spec(self.store_state(), flag@, user.key@),
    {
        match self.evaluate(flag, user) {
            Err(e) => Err(e),
            Ok(Variation::Bool(b)) => Ok(b),
            Ok(_) => Err(Error::InvalidVariationType),
        }
    }
}

/// Whether one of the strings equals the user's key.
#[verifier::loop_isolation(false)]
fn contains_user_key(vals: &Vec<String>, user: &str) -> (r: bool)
    ensures
        r == seq_contains_string(vals@, user@),
{
    let mut j: usize = 0;
    while j < vals.len()
        invariant
            j <= vals@.len(),
            forall|k: int| 0 <= k < j ==> vals@[k]@ != user@,
        decreases vals@.len() - j,
    {
        if str_eq(vals[j].as_str(), user) {
            return true;
        }
        j += 1;
    }
    false
}

} // verus!
