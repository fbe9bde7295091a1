//! What is remembered of each vehicle from one epoch to the next.
use crate::orbit::Vector3;
use crate::sv::SV;
use crate::time::Epoch;
use vstd::prelude::*;

verus! {

/// Where a vehicle was when it last sent a signal that was used.
#[derive(Clone, Copy, Debug, PartialEq, Eq, Structural)]
pub struct SvRecord {
    pub sv: SV,
    /// Instant at which the signal was sent
    pub t_tx: Epoch,
    /// Position of the vehicle at that instant
    pub position: Vector3,
}

/// The last record of each vehicle.
#[derive(Clone, Debug, PartialEq, Eq)]
pub struct SvStates {
    pub records: Vec<SvRecord>,
}

/// The first record of `sv` among `records`, if there is one.
pub open spec fn lookup(records: Seq<SvRecord>, sv: SV) -> Option<SvRecord>
    decreases records.len(),
{
    if records.len() == 0 {
        None
    } else if records[0].sv == sv {
        Some(records[0])
    } else {
        lookup(records.drop_first(), sv)
    }
}

impl SvStates {
    /// What is remembered of `sv`.
    pub open spec fn state_of(self, sv: SV) -> Option<SvRecord> {
        lookup(self.records@, sv)
    }

    /// Nothing is remembered yet.
    pub fn new() -> (s: Self)
        ensures
            forall|sv: SV| s.state_of(sv) is None,
    {
        SvStates { records: Vec::new() }
    }

    /// A copy of what is remembered.
    pub fn duplicate(&self) -> (copy: Self)
        ensures
            copy.records@ == self.records@,
            forall|sv: SV| copy.state_of(sv) == self.state_of(sv),
    {
        let n: usize = self.records.len();
        let mut records: Vec<SvRecord> = Vec::new();
        let mut i: usize = 0;
        while i < n
            invariant
                n == self.records@.len(),
                i <= n,
                records@ == self.records@.subrange(0, i as int),
            decreases n - i,
        {
            records.push(self.records[i]);
            i += 1;
            assert(records@ =~= self.records@.subrange(0, i as int));
        }
        assert(self.records@.subrange(0, n as int) =~= self.records@);
        SvStates { records }
    }

    /// Place of the first record of `sv`.
    fn find(&self, sv: SV) -> (r: Option<usize>)
        ensures
            match r {
                Some(i) => i < self.records@.len() && self.records@[i as int].sv == sv
                    && self.state_of(sv) == Some(self.records@[i as int]) && forall|k: int|
                    0 <= k < i ==> (#[trigger] self.records@[k]).sv != sv,
                None => self.state_of(sv) is None && forall|k: int|
                    0 <= k < self.records@.len() ==> (#[trigger] self.records@[k]).sv != sv,
            },
    {
        let n: usize = self.records.len();
        let mut i: usize = 0;
        assert(self.records@.subrange(0, n as int) =~= self.records@);
        while i < n
            invariant
                n == self.records@.len(),
                i <= n,
                lookup(self.records@, sv) == lookup(self.records@.subrange(i as int, n as int), sv),
                forall|k: int| 0 <= k < i ==> (#[trigger] self.records@[k]).sv != sv,
            decreases n - i,
        {
            let ghost rest = self.records@.subrange(i as int, n as int);
            assert(rest[0] == self.records@[i as int]);
            assert(rest.drop_first() =~= self.records@.subrange(i + 1, n as int));
            if self.records[i].sv == sv {
                return Some(i);
            }
            i += 1;
        }
        assert(self.records@.subrange(n as int, n as int).len() == 0);
        None
    }

    /// What is remembered of `sv`.
    pub fn get(&self, sv: SV) -> (r: Option<SvRecord>)
        ensures
            r == self.state_of(sv),
    {
        match self.find(sv) {
            Some(i) => Some(self.records[i]),
            None => None,
        }
    }

    /// Remembers `record` in place of what was remembered of its vehicle.
    pub fn insert(&mut self, record: SvRecord)
        ensures
            forall|sv: SV|
                #[trigger] final(self).state_of(sv) == if sv == record.sv {
                    Some(record)
                } else {
                    old(self).state_of(sv)
                },
    {
        let ghost before = self.records@;
        match self.find(record.sv) {
            Some(i) => {
                self.records.set(i, record);
                proof {
                    let after = self.records@;
                    assert forall|sv: SV| #[trigger] lookup(after, sv) == if sv == record.sv {
                        Some(record)
                    } else {
                        lookup(before, sv)
                    } by {
                        lemma_lookup_update(before, i as int, record, sv);
                    }
                }
            },
            None => {
                self.records.push(record);
                proof {
                    let after = self.records@;
                    assert forall|sv: SV| #[trigger] lookup(after, sv) == if sv == record.sv {
                        Some(record)
                    } else {
                        lookup(before, sv)
                    } by {
                        lemma_lookup_push(before, record, sv);
                    }
                }
            },
        }
    }
}

/// Looking up after a record was appended.
proof fn lemma_lookup_push(records: Seq<SvRecord>, record: SvRecord, sv: SV)
    ensures
        lookup(records.push(record), sv) == if lookup(records, sv) is Some {
            lookup(records, sv)
        } else if sv == record.sv {
            Some(record)
        } else {
            None
        },
    decreases records.len(),
{
    if records.len() > 0 {
        assert(records.push(record).drop_first() =~= records.drop_first().push(record));
        if records[0].sv != sv {
            lemma_lookup_push(records.drop_first(), record, sv);
        }
    } else {
        assert(records.push(record).drop_first() =~= records);
    }
}

/// Looking up after the first record of a vehicle was replaced by another of that vehicle.
proof fn lemma_lookup_update(records: Seq<SvRecord>, i: int, record: SvRecord, sv: SV)
    requires
        0 <= i < records.len(),
        records[i].sv == record.sv,
        forall|k: int| 0 <= k < i ==> (#[trigger] records[k]).sv != record.sv,
    ensures
        lookup(records.update(i, record), sv) == if sv == record.sv {
            Some(record)
        } else {
            lookup(records, sv)
        },
    decreases records.len(),
{
    let updated = records.update(i, record);
    if i == 0 {
        assert(updated.drop_first() =~= records.drop_first());
    } else {
        assert(updated[0] == records[0]);
        assert(updated.drop_first() =~= records.drop_first().update(i - 1, record));
        assert forall|k: int| 0 <= k < i - 1 implies (#[trigger] records.drop_first()[k]).sv
            != record.sv by {
            assert(records.drop_first()[k] == records[k + 1]);
        }
        lemma_lookup_update(records.drop_first(), i - 1, record, sv);
    }
}

} // verus!
