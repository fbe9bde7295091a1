//! The carrier phase ambiguities that were resolved, kept over a rolling window.
use crate::carrier::Carrier;
use crate::sv::SV;
use crate::time::{Duration, Epoch};
use vstd::prelude::*;

verus! {

/// The default length of the window: 120 seconds, in nanoseconds.
pub const DEFAULT_WINDOW: i128 = 120_000_000_000;

/// The whole numbers of cycles resolved for one vehicle, filed under the
/// carrier that its phase combination refers to.
#[derive(Clone, Copy, Debug, PartialEq, Eq, Structural)]
pub struct Ambiguity {
    pub sv: SV,
    /// The carrier that the phase combination refers to
    pub reference: Carrier,
    /// Instant of the estimate
    pub t: Epoch,
    /// Cycles on the first frequency
    pub n1: i32,
    /// Cycles on the second frequency
    pub n2: i32,
}

/// The ambiguities resolved lately, one per vehicle and reference carrier.
#[derive(Clone, Debug, PartialEq, Eq)]
pub struct AmbiguitySolver {
    /// How long an estimate is kept
    pub window: Duration,
    /// The estimates, in the order they first came in
    pub entries: Vec<Ambiguity>,
}

/// The first estimate for `sv` and `reference` among `entries`, if there is one.
pub open spec fn filed(entries: Seq<Ambiguity>, sv: SV, reference: Carrier) -> Option<Ambiguity>
    decreases entries.len(),
{
    if entries.len() == 0 {
        None
    } else if entries[0].sv == sv && entries[0].reference == reference {
        Some(entries[0])
    } else {
        filed(entries.drop_first(), sv, reference)
    }
}

/// The estimates once `estimate` is filed: in place of the first one for its
/// vehicle and reference carrier, or behind all where there is none.
pub open spec fn observed(entries: Seq<Ambiguity>, estimate: Ambiguity) -> Seq<Ambiguity>
    decreases entries.len(),
{
    if entries.len() == 0 {
        seq![estimate]
    } else if entries[0].sv == estimate.sv && entries[0].reference == estimate.reference {
        seq![estimate] + entries.drop_first()
    } else {
        seq![entries[0]] + observed(entries.drop_first(), estimate)
    }
}

/// The estimates once each of `estimates` is filed, in their order.
pub open spec fn noted(entries: Seq<Ambiguity>, estimates: Seq<Ambiguity>) -> Seq<Ambiguity>
    decreases estimates.len(),
{
    if estimates.len() == 0 {
        entries
    } else {
        observed(noted(entries, estimates.drop_last()), estimates.last())
    }
}

/// The estimates that are not older than `window` at the instant `t`, and
/// are counted in the time scale of `t`.
pub open spec fn fresh(window: Duration, t: Epoch) -> spec_fn(Ambiguity) -> bool {
    |a: Ambiguity|
        match t.elapsed_since(a.t) {
            Some(age) => age <= window.total(),
            None => false,
        }
}

impl AmbiguitySolver {
    /// The estimate kept for `sv` and `reference`.
    pub open spec fn kept(self, sv: SV, reference: Carrier) -> Option<Ambiguity> {
        filed(self.entries@, sv, reference)
    }

    /// A tracker that keeps each estimate for `window`, and holds none yet.
    pub fn new(window: Duration) -> (s: Self)
        ensures
            s.window == window,
            s.entries@.len() == 0,
    {
        AmbiguitySolver { window, entries: Vec::new() }
    }

    /// A copy of the tracker.
    pub fn duplicate(&self) -> (copy: Self)
        ensures
            copy.window == self.window,
            copy.entries@ == self.entries@,
    {
        let n: usize = self.entries.len();
        let mut entries: Vec<Ambiguity> = Vec::new();
        let mut i: usize = 0;
        while i < n
            invariant
                n == self.entries@.len(),
                i <= n,
                entries@ == self.entries@.subrange(0, i as int),
            decreases n - i,
        {
            entries.push(self.entries[i]);
            i += 1;
            assert(entries@ =~= self.entries@.subrange(0, i as int));
        }
        assert(self.entries@.subrange(0, n as int) =~= self.entries@);
        AmbiguitySolver { window: self.window, entries }
    }

    /// Place of the first estimate for `sv` and `reference`.
    fn find(&self, sv: SV, reference: Carrier) -> (r: Option<usize>)
        ensures
            match r {
                Some(i) => i < self.entries@.len() && self.entries@[i as int].sv == sv
                    && self.entries@[i as int].reference == reference && self.kept(sv, reference)
                    == Some(self.entries@[i as int]) && forall|k: int|
                    0 <= k < i ==> !((#[trigger] self.entries@[k]).sv == sv
                        && self.entries@[k].reference == reference),
                None => self.kept(sv, reference) is None && forall|k: int|
                    0 <= k < self.entries@.len() ==> !((#[trigger] self.entries@[k]).sv == sv
                        && self.entries@[k].reference == reference),
            },
    {
        let n: usize = self.entries.len();
        let mut i: usize = 0;
        assert(self.entries@.subrange(0, n as int) =~= self.entries@);
        while i < n
            invariant
                n == self.entries@.len(),
                i <= n,
                filed(self.entries@, sv, reference) == filed(
                    self.entries@.subrange(i as int, n as int),
                    sv,
                    reference,
                ),
                forall|k: int|
                    0 <= k < i ==> !((#[trigger] self.entries@[k]).sv == sv
                        && self.entries@[k].reference == reference),
            decreases n - i,
        {
            let ghost rest = self.entries@.subrange(i as int, n as int);
            assert(rest[0] == self.entries@[i as int]);
            assert(rest.drop_first() =~= self.entries@.subrange(i + 1, n as int));
            if self.entries[i].sv == sv && self.entries[i].reference == reference {
                return Some(i);
            }
            i += 1;
        }
        assert(self.entries@.subrange(n as int, n as int).len() == 0);
        None
    }

    /// The estimate kept for `sv` and `reference`.
    pub fn get(&self, sv: SV, reference: Carrier) -> (r: Option<Ambiguity>)
        ensures
            r == self.kept(sv, reference),
    {
        match self.find(sv, reference) {
            Some(i) => Some(self.entries[i]),
            None => None,
        }
    }

    /// Files `estimate` in place of what was kept for its vehicle and reference carrier.
    pub fn observe(&mut self, estimate: Ambiguity)
        ensures
            final(self).window == old(self).window,
            final(self).entries@ == observed(old(self).entries@, estimate),
            forall|sv: SV, reference: Carrier|
                #[trigger] final(self).kept(sv, reference) == if sv == estimate.sv && reference
                    == estimate.reference {
                    Some(estimate)
                } else {
                    old(self).kept(sv, reference)
                },
    {
        let ghost before = self.entries@;
        match self.find(estimate.sv, estimate.reference) {
            Some(i) => {
                self.entries.set(i, estimate);
                proof {
                    lemma_observed_at(before, i as int, estimate);
                    let after = self.entries@;
                    assert forall|sv: SV, reference: Carrier| #[trigger]
                        filed(after, sv, reference) == if sv == estimate.sv && reference
                            == estimate.reference {
                            Some(estimate)
                        } else {
                            filed(before, sv, reference)
                        } by {
                        lemma_filed_update(before, i as int, estimate, sv, reference);
                    }
                }
            },
            None => {
                self.entries.push(estimate);
                proof {
                    lemma_observed_behind(before, estimate);
                    let after = self.entries@;
                    assert forall|sv: SV, reference: Carrier| #[trigger]
                        filed(after, sv, reference) == if sv == estimate.sv && reference
                            == estimate.reference {
                            Some(estimate)
                        } else {
                            filed(before, sv, reference)
                        } by {
                        lemma_filed_push(before, estimate, sv, reference);
                    }
                }
            },
        }
    }

    /// Files each of `estimates`, in their order.
    pub fn note(&mut self, estimates: &Vec<Ambiguity>)
        ensures
            final(self).window == old(self).window,
            final(self).entries@ == noted(old(self).entries@, estimates@),
    {
        let ghost before = self.entries@;
        let ghost window = self.window;
        let n: usize = estimates.len();
        let mut i: usize = 0;
        while i < n
            invariant
                n == estimates@.len(),
                i <= n,
                self.window == window,
                self.entries@ == noted(before, estimates@.subrange(0, i as int)),
            decreases n - i,
        {
            let ghost grown = estimates@.subrange(0, i + 1);
            assert(grown.drop_last() =~= estimates@.subrange(0, i as int));
            assert(grown.last() == estimates@[i as int]);
            self.observe(estimates[i]);
            i += 1;
        }
        assert(estimates@.subrange(0, n as int) =~= estimates@);
    }

    /// Drops the estimates that are older than the window at the instant `t`.
    pub fn evict(&mut self, t: Epoch)
        ensures
            final(self).window == old(self).window,
            final(self).entries@ == old(self).entries@.filter(fresh(old(self).window, t)),
    {
        let n: usize = self.entries.len();
        let mut kept: Vec<Ambiguity> = Vec::new();
        let mut i: usize = 0;
        let window = self.window;
        while i < n
            invariant
                n == self.entries@.len(),
                i <= n,
                window == self.window,
                kept@ == self.entries@.subrange(0, i as int).filter(fresh(window, t)),
            decreases n - i,
        {
            let a = self.entries[i];
            proof {
                reveal(Seq::filter);
                let s = self.entries@.subrange(0, i + 1);
                assert(s.drop_last() =~= self.entries@.subrange(0, i as int));
                assert(s.last() == a);
            }
            let keep = match t.since(&a.t) {
                Some(age) => age.le(&window),
                None => false,
            };
            if keep {
                kept.push(a);
            }
            i += 1;
        }
        assert(self.entries@.subrange(0, n as int) =~= self.entries@);
        self.entries = kept;
    }

    /// The estimates that hold at the instant `t`: drops those that are
    /// older than the window, and tells the others.
    pub fn resolve(&mut self, t: Epoch) -> (r: Vec<Ambiguity>)
        ensures
            final(self).window == old(self).window,
            final(self).entries@ == old(self).entries@.filter(fresh(old(self).window, t)),
            r@ == final(self).entries@,
    {
        self.evict(t);
        let n: usize = self.entries.len();
        let mut r: Vec<Ambiguity> = Vec::new();
        let mut i: usize = 0;
        while i < n
            invariant
                n == self.entries@.len(),
                i <= n,
                r@ == self.entries@.subrange(0, i as int),
            decreases n - i,
        {
            r.push(self.entries[i]);
            i += 1;
            assert(r@ =~= self.entries@.subrange(0, i as int));
        }
        assert(self.entries@.subrange(0, n as int) =~= self.entries@);
        r
    }
}

impl Default for AmbiguitySolver {
    fn default() -> (s: Self)
        ensures
            s.window.total() == DEFAULT_WINDOW,
            s.entries@.len() == 0,
    {
        AmbiguitySolver::new(Duration { nanoseconds: DEFAULT_WINDOW })
    }
}

/// Looking up after an estimate was appended.
proof fn lemma_filed_push(entries: Seq<Ambiguity>, estimate: Ambiguity, sv: SV, reference: Carrier)
    ensures
        filed(entries.push(estimate), sv, reference) == if filed(entries, sv, reference) is Some {
            filed(entries, sv, reference)
        } else if sv == estimate.sv && reference == estimate.reference {
            Some(estimate)
        } else {
            None
        },
    decreases entries.len(),
{
    if entries.len() > 0 {
        assert(entries.push(estimate).drop_first() =~= entries.drop_first().push(estimate));
        if !(entries[0].sv == sv && entries[0].reference == reference) {
            lemma_filed_push(entries.drop_first(), estimate, sv, reference);
        }
    } else {
        assert(entries.push(estimate).drop_first() =~= entries);
    }
}

/// Looking up after the first estimate of a key was replaced by another of that key.
proof fn lemma_filed_update(
    entries: Seq<Ambiguity>,
    i: int,
    estimate: Ambiguity,
    sv: SV,
    reference: Carrier,
)
    requires
        0 <= i < entries.len(),
        entries[i].sv == estimate.sv,
        entries[i].reference == estimate.reference,
        forall|k: int|
            0 <= k < i ==> !((#[trigger] entries[k]).sv == estimate.sv && entries[k].reference
                == estimate.reference),
    ensures
        filed(entries.update(i, estimate), sv, reference) == if sv == estimate.sv && reference
            == estimate.reference {
            Some(estimate)
        } else {
            filed(entries, sv, reference)
        },
    decreases entries.len(),
{
    let updated = entries.update(i, estimate);
    if i == 0 {
        assert(updated.drop_first() =~= entries.drop_first());
    } else {
        assert(updated[0] == entries[0]);
        assert(updated.drop_first() =~= entries.drop_first().update(i - 1, estimate));
        assert forall|k: int| 0 <= k < i - 1 implies !((#[trigger] entries.drop_first()[k]).sv
            == estimate.sv && entries.drop_first()[k].reference == estimate.reference) by {
            assert(entries.drop_first()[k] == entries[k + 1]);
        }
        lemma_filed_update(entries.drop_first(), i - 1, estimate, sv, reference);
    }
}

/// Filing an estimate whose key is first met at `i` replaces the estimate at `i`.
proof fn lemma_observed_at(entries: Seq<Ambiguity>, i: int, estimate: Ambiguity)
    requires
        0 <= i < entries.len(),
        entries[i].sv == estimate.sv,
        entries[i].reference == estimate.reference,
        forall|k: int|
            0 <= k < i ==> !((#[trigger] entries[k]).sv == estimate.sv && entries[k].reference
                == estimate.reference),
    ensures
        observed(entries, estimate) == entries.update(i, estimate),
    decreases entries.len(),
{
    if i == 0 {
        assert(seq![estimate] + entries.drop_first() =~= entries.update(i, estimate));
    } else {
        assert forall|k: int| 0 <= k < i - 1 implies !((#[trigger] entries.drop_first()[k]).sv
            == estimate.sv && entries.drop_first()[k].reference == estimate.reference) by {
            assert(entries.drop_first()[k] == entries[k + 1]);
        }
        lemma_observed_at(entries.drop_first(), i - 1, estimate);
        assert(seq![entries[0]] + entries.drop_first().update(i - 1, estimate) =~= entries.update(
            i,
            estimate,
        ));
    }
}

/// Filing an estimate whose key is not met puts it behind all.
proof fn lemma_observed_behind(entries: Seq<Ambiguity>, estimate: Ambiguity)
    requires
        forall|k: int|
            0 <= k < entries.len() ==> !((#[trigger] entries[k]).sv == estimate.sv
                && entries[k].reference == estimate.reference),
    ensures
        observed(entries, estimate) == entries.push(estimate),
    decreases entries.len(),
{
    if entries.len() == 0 {
        assert(seq![estimate] =~= entries.push(estimate));
    } else {
        assert forall|k: int| 0 <= k < entries.drop_first().len() implies !((
        #[trigger] entries.drop_first()[k]).sv == estimate.sv && entries.drop_first()[k].reference
            == estimate.reference) by {
            assert(entries.drop_first()[k] == entries[k + 1]);
        }
        lemma_observed_behind(entries.drop_first(), estimate);
        assert(seq![entries[0]] + entries.drop_first().push(estimate) =~= entries.push(estimate));
    }
}

} // verus!
