use vstd::prelude::*;

verus! {

/// Per-address counters: `period` counts frames since the last report and is
/// reset every reporting interval; `total` counts frames since start and
/// only grows.
#[derive(Clone, Copy, Debug, PartialEq, Eq, Structural)]
pub struct Stat {
    pub period: u64,
    pub total: u64,
}

impl Stat {
    /// Counts one more frame in both windows.
    pub fn inc(&mut self)
        requires
            old(self).period < u64::MAX,
            old(self).total < u64::MAX,
        ensures
            final(self).period == old(self).period + 1,
            final(self).total == old(self).total + 1,
    {
        self.period = self.period + 1;
        self.total = self.total + 1;
    }
}

/// One row of the table: a hardware address and its counters.
#[derive(Clone, Copy, Debug)]
pub struct StatEntry {
    pub addr: [u8; 6],
    pub stat: Stat,
}

/// The per-source-address statistics table: one entry per distinct address,
/// in order of first appearance, never evicted.
pub struct StatTable {
    entries: Vec<StatEntry>,
}

/// One element of a snapshot: an address with the counter values it had
/// when the snapshot was taken.
#[derive(Clone, Copy, Debug)]
pub struct SnapRow {
    pub addr: [u8; 6],
    pub total: u64,
    pub period: u64,
}

/// Both counters bumped by one.
pub open spec fn stat_inc(st: Stat) -> Stat {
    Stat { period: (st.period + 1) as u64, total: (st.total + 1) as u64 }
}

/// The counters of the first entry keyed `a`, if any.
pub open spec fn lookup_stat(s: Seq<(Seq<u8>, Stat)>, a: Seq<u8>) -> Option<Stat>
    decreases s.len(),
{
    if s.len() == 0 {
        None
    } else if s[0].0 == a {
        Some(s[0].1)
    } else {
        lookup_stat(s.skip(1), a)
    }
}

/// The table after one frame from address `a`: the entry keyed `a` has both
/// counters bumped, or a fresh entry counting one frame is appended.
pub open spec fn spec_record(s: Seq<(Seq<u8>, Stat)>, a: Seq<u8>) -> Seq<(Seq<u8>, Stat)>
    decreases s.len(),
{
    if s.len() == 0 {
        seq![(a, Stat { period: 1, total: 1 })]
    } else if s[0].0 == a {
        seq![(s[0].0, stat_inc(s[0].1))] + s.skip(1)
    } else {
        seq![s[0]] + spec_record(s.skip(1), a)
    }
}

/// The table after a snapshot: every `period` back to zero, every `total`
/// and the order of entries untouched.
pub open spec fn spec_reset(s: Seq<(Seq<u8>, Stat)>) -> Seq<(Seq<u8>, Stat)> {
    Seq::new(s.len(), |i: int| (s[i].0, Stat { period: 0, total: s[i].1.total }))
}

impl View for StatTable {
    type V = Seq<(Seq<u8>, Stat)>;

    closed spec fn view(&self) -> Seq<(Seq<u8>, Stat)> {
        self.entries@.map_values(|e: StatEntry| (e.addr@, e.stat))
    }
}

fn mac_eq(a: &[u8; 6], b: &[u8; 6]) -> (r: bool)
    ensures
        r == (a@ == b@),
{
    let r = a[0] == b[0] && a[1] == b[1] && a[2] == b[2] && a[3] == b[3] && a[4] == b[4] && a[5]
        == b[5];
    proof {
        if r {
            assert(a@ =~= b@);
        }
    }
    r
}

impl StatTable {
    /// An empty table.
    pub fn new() -> (r: StatTable)
        ensures
            r@ == Seq::<(Seq<u8>, Stat)>::empty(),
    {
        let t = StatTable { entries: Vec::new() };
        proof {
            assert(t@ =~= Seq::<(Seq<u8>, Stat)>::empty());
        }
        t
    }

    /// Whether another frame from `a` can still be counted without the
    /// lifetime counter overflowing.
    pub fn can_record(&self, a: &[u8; 6]) -> (r: bool)
        ensures
            r == match lookup_stat(self@, a@) {
                Some(st) => st.total < u64::MAX && st.period < u64::MAX,
                None => true,
            },
    {
        let mut i: usize = 0;
        proof {
            assert(self@.skip(0) =~= self@);
        }
        while i < self.entries.len()
            invariant
                i <= self.entries@.len(),
                lookup_stat(self@, a@) == lookup_stat(self@.skip(i as int), a@),
            decreases self.entries@.len() - i,
        {
            proof {
                assert(self@.skip(i as int)[0] == self@[i as int]);
                assert(self@.skip(i as int).skip(1) =~= self@.skip(i as int + 1));
            }
            if mac_eq(&self.entries[i].addr, a) {
                let st = self.entries[i].stat;
                return st.total < u64::MAX && st.period < u64::MAX;
            }
            i = i + 1;
        }
        proof {
            assert(self@.skip(i as int) =~= Seq::<(Seq<u8>, Stat)>::empty());
        }
        true
    }

    /// Counts one frame from address `a`, creating the entry on first sight.
    pub fn record(&mut self, a: &[u8; 6])
        requires
            match lookup_stat(old(self)@, a@) {
                Some(st) => st.total < u64::MAX && st.period < u64::MAX,
                None => true,
            },
        ensures
            final(self)@ == spec_record(old(self)@, a@),
    {
        let ghost s0 = self@;
        let mut i: usize = 0;
        proof {
            assert(s0.skip(0) =~= s0);
        }
        while i < self.entries.len()
            invariant
                self@ == s0,
                s0 == old(self)@,
                match lookup_stat(s0, a@) {
                    Some(st) => st.total < u64::MAX && st.period < u64::MAX,
                    None => true,
                },
                i <= self.entries@.len(),
                forall|j: int| 0 <= j < i ==> s0[j].0 != a@,
                lookup_stat(s0, a@) == lookup_stat(s0.skip(i as int), a@),
            decreases self.entries@.len() - i,
        {
            proof {
                assert(s0.skip(i as int)[0] == s0[i as int]);
                assert(s0.skip(i as int).skip(1) =~= s0.skip(i as int + 1));
            }
            if mac_eq(&self.entries[i].addr, a) {
                let mut e = self.entries[i];
                proof {
                    assert(s0[i as int] == (self.entries@[i as int].addr@, self.entries@[i as int].stat));
                    assert(lookup_stat(old(self)@, a@) == Some(s0[i as int].1));
                }
                e.stat.inc();
                self.entries[i] = e;
                proof {
                    lemma_spec_record_update(s0, a@, i as int);
                    assert(self@ =~= s0.update(i as int, (a@, stat_inc(s0[i as int].1))));
                }
                return ;
            }
            i = i + 1;
        }
        proof {
            assert(s0.skip(i as int) =~= Seq::<(Seq<u8>, Stat)>::empty());
        }
        self.entries.push(StatEntry { addr: *a, stat: Stat { period: 1, total: 1 } });
        proof {
            lemma_spec_record_append(s0, a@);
            assert(self@ =~= s0.push((a@, Stat { period: 1, total: 1 })));
        }
    }

    /// Reports and resets the one tracked address: returns its `period`
    /// count (zero where the address was never seen, creating its entry),
    /// then resets that entry's `period` alone, leaving its `total` and
    /// every other entry untouched.
    pub fn take_period(&mut self, a: &[u8; 6]) -> (r: u64)
        ensures
            final(self)@ == spec_take(old(self)@, a@),
            r == match lookup_stat(old(self)@, a@) {
                Some(st) => st.period,
                None => 0u64,
            },
    {
        let ghost s0 = self@;
        let mut i: usize = 0;
        proof {
            assert(s0.skip(0) =~= s0);
        }
        while i < self.entries.len()
            invariant
                self@ == s0,
                s0 == old(self)@,
                i <= self.entries@.len(),
                forall|j: int| 0 <= j < i ==> s0[j].0 != a@,
                lookup_stat(s0, a@) == lookup_stat(s0.skip(i as int), a@),
            decreases self.entries@.len() - i,
        {
            proof {
                assert(s0.skip(i as int)[0] == s0[i as int]);
                assert(s0.skip(i as int).skip(1) =~= s0.skip(i as int + 1));
            }
            if mac_eq(&self.entries[i].addr, a) {
                let e = self.entries[i];
                proof {
                    assert(s0[i as int] == (self.entries@[i as int].addr@, self.entries@[i as int].stat));
                    assert(lookup_stat(old(self)@, a@) == Some(s0[i as int].1));
                }
                self.entries[i] = StatEntry {
                    addr: e.addr,
                    stat: Stat { period: 0, total: e.stat.total },
                };
                proof {
                    lemma_spec_take_update(s0, a@, i as int);
                    assert(self@ =~= s0.update(
                        i as int,
                        (a@, Stat { period: 0, total: s0[i as int].1.total }),
                    ));
                }
                return e.stat.period;
            }
            i = i + 1;
        }
        proof {
            assert(s0.skip(i as int) =~= Seq::<(Seq<u8>, Stat)>::empty());
        }
        self.entries.push(StatEntry { addr: *a, stat: Stat { period: 0, total: 0 } });
        proof {
            lemma_spec_take_append(s0, a@);
            assert(self@ =~= s0.push((a@, Stat { period: 0, total: 0 })));
        }
        0
    }

    /// Returns every known address with the counters it accumulated, then
    /// resets every `period` counter to zero in one step.
    pub fn snapshot_and_reset_period(&mut self) -> (r: Vec<SnapRow>)
        ensures
            final(self)@ == spec_reset(old(self)@),
            r@.len() == old(self)@.len(),
            forall|i: int|
                0 <= i < r@.len() ==> (#[trigger] r@[i]).addr@ == old(self)@[i].0 && r@[i].total
                    == old(self)@[i].1.total && r@[i].period == old(self)@[i].1.period,
    {
        let ghost s0 = self@;
        let mut rows: Vec<SnapRow> = Vec::new();
        let mut i: usize = 0;
        while i < self.entries.len()
            invariant
                i <= self.entries@.len(),
                self.entries@.len() == s0.len(),
                rows@.len() == i,
                forall|j: int| i <= j < s0.len() ==> self@[j] == s0[j],
                forall|j: int| 0 <= j < i ==> self@[j] == spec_reset(s0)[j],
                forall|j: int|
                    0 <= j < i ==> (#[trigger] rows@[j]).addr@ == s0[j].0 && rows@[j].total
                        == s0[j].1.total && rows@[j].period == s0[j].1.period,
            decreases self.entries@.len() - i,
        {
            let e = self.entries[i];
            rows.push(SnapRow { addr: e.addr, total: e.stat.total, period: e.stat.period });
            self.entries[i] = StatEntry { addr: e.addr, stat: Stat { period: 0, total: e.stat.total } };
            i = i + 1;
        }
        proof {
            assert(self@ =~= spec_reset(s0));
        }
        rows
    }
}

/// The table after a single-address report of `a`: that entry's `period`
/// reset and its `total` kept, or a fresh zero entry appended where the
/// address was never seen.
pub open spec fn spec_take(s: Seq<(Seq<u8>, Stat)>, a: Seq<u8>) -> Seq<(Seq<u8>, Stat)>
    decreases s.len(),
{
    if s.len() == 0 {
        seq![(a, Stat { period: 0, total: 0 })]
    } else if s[0].0 == a {
        seq![(s[0].0, Stat { period: 0, total: s[0].1.total })] + s.skip(1)
    } else {
        seq![s[0]] + spec_take(s.skip(1), a)
    }
}

/// Where the first `i` entries miss `a` and entry `i` carries it, the
/// single-address report resets exactly that entry's `period`.
proof fn lemma_spec_take_update(s: Seq<(Seq<u8>, Stat)>, a: Seq<u8>, i: int)
    requires
        0 <= i < s.len(),
        s[i].0 == a,
        forall|j: int| 0 <= j < i ==> s[j].0 != a,
    ensures
        spec_take(s, a) == s.update(i, (a, Stat { period: 0, total: s[i].1.total })),
    decreases i,
{
    if i == 0 {
        assert(spec_take(s, a) =~= s.update(0, (a, Stat { period: 0, total: s[0].1.total })));
    } else {
        lemma_spec_take_update(s.skip(1), a, i - 1);
        assert(spec_take(s, a) =~= s.update(i, (a, Stat { period: 0, total: s[i].1.total })));
    }
}

/// Where no entry carries `a`, the single-address report appends a fresh
/// zero entry.
proof fn lemma_spec_take_append(s: Seq<(Seq<u8>, Stat)>, a: Seq<u8>)
    requires
        forall|j: int| 0 <= j < s.len() ==> s[j].0 != a,
    ensures
        spec_take(s, a) == s.push((a, Stat { period: 0, total: 0 })),
    decreases s.len(),
{
    if s.len() == 0 {
        assert(spec_take(s, a) =~= s.push((a, Stat { period: 0, total: 0 })));
    } else {
        lemma_spec_take_append(s.skip(1), a);
        assert(spec_take(s, a) =~= s.push((a, Stat { period: 0, total: 0 })));
    }
}

/// Where the first `i` entries miss `a` and entry `i` carries it, one more
/// frame from `a` bumps exactly that entry.
proof fn lemma_spec_record_update(s: Seq<(Seq<u8>, Stat)>, a: Seq<u8>, i: int)
    requires
        0 <= i < s.len(),
        s[i].0 == a,
        forall|j: int| 0 <= j < i ==> s[j].0 != a,
    ensures
        spec_record(s, a) == s.update(i, (a, stat_inc(s[i].1))),
    decreases i,
{
    if i == 0 {
        assert(spec_record(s, a) =~= s.update(0, (a, stat_inc(s[0].1))));
    } else {
        lemma_spec_record_update(s.skip(1), a, i - 1);
        assert(spec_record(s, a) =~= s.update(i, (a, stat_inc(s[i].1))));
    }
}

/// Where no entry carries `a`, one frame from `a` appends a fresh entry.
proof fn lemma_spec_record_append(s: Seq<(Seq<u8>, Stat)>, a: Seq<u8>)
    requires
        forall|j: int| 0 <= j < s.len() ==> s[j].0 != a,
    ensures
        spec_record(s, a) == s.push((a, Stat { period: 1, total: 1 })),
    decreases s.len(),
{
    if s.len() == 0 {
        assert(spec_record(s, a) =~= s.push((a, Stat { period: 1, total: 1 })));
    } else {
        lemma_spec_record_append(s.skip(1), a);
        assert(spec_record(s, a) =~= s.push((a, Stat { period: 1, total: 1 })));
    }
}

/// What one recorded frame does to every lookup: the recorded address gains
/// one in both counters (starting from one when new), every other address
/// is untouched.
pub proof fn lemma_record_lookup(s: Seq<(Seq<u8>, Stat)>, a: Seq<u8>, b: Seq<u8>)
    ensures
        lookup_stat(spec_record(s, a), b) == if a == b {
            match lookup_stat(s, a) {
                Some(st) => Some(stat_inc(st)),
                None => Some(Stat { period: 1, total: 1 }),
            }
        } else {
            lookup_stat(s, b)
        },
    decreases s.len(),
{
    if s.len() == 0 {
        let r = spec_record(s, a);
        assert(r.skip(1) =~= Seq::<(Seq<u8>, Stat)>::empty());
        if a == b {
            assert(lookup_stat(r, b) == Some(Stat { period: 1, total: 1 }));
        } else {
            assert(lookup_stat(r.skip(1), b) is None);
            assert(lookup_stat(r, b) is None);
        }
    } else if s[0].0 == a {
        let r = spec_record(s, a);
        assert(r[0] == (s[0].0, stat_inc(s[0].1)));
        assert(r.skip(1) =~= s.skip(1));
        if a == b {
            assert(lookup_stat(r, b) == Some(stat_inc(s[0].1)));
            assert(lookup_stat(s, a) == Some(s[0].1));
        } else {
            assert(lookup_stat(r, b) == lookup_stat(s.skip(1), b));
            assert(lookup_stat(s, b) == lookup_stat(s.skip(1), b));
        }
    } else {
        lemma_record_lookup(s.skip(1), a, b);
        let r = spec_record(s, a);
        assert(r[0] == s[0]);
        assert(r.skip(1) =~= spec_record(s.skip(1), a));
        if s[0].0 == b {
            assert(lookup_stat(r, b) == Some(s[0].1));
            assert(lookup_stat(s, b) == Some(s[0].1));
        } else {
            assert(lookup_stat(r, b) == lookup_stat(spec_record(s.skip(1), a), b));
            assert(lookup_stat(s, b) == lookup_stat(s.skip(1), b));
        }
    }
}

/// A snapshot's reset zeroes every `period`, keeps every `total`.
pub proof fn lemma_reset_lookup(s: Seq<(Seq<u8>, Stat)>, b: Seq<u8>)
    ensures
        lookup_stat(spec_reset(s), b) == match lookup_stat(s, b) {
            Some(st) => Some(Stat { period: 0, total: st.total }),
            None => None::<Stat>,
        },
    decreases s.len(),
{
    if s.len() == 0 {
    } else {
        lemma_reset_lookup(s.skip(1), b);
        assert(spec_reset(s).skip(1) =~= spec_reset(s.skip(1)));
        assert(spec_reset(s)[0] == (s[0].0, Stat { period: 0, total: s[0].1.total }));
    }
}

/// `n` recorded frames from one address, one after the other.
pub open spec fn spec_record_n(s: Seq<(Seq<u8>, Stat)>, a: Seq<u8>, n: nat) -> Seq<(Seq<u8>, Stat)>
    decreases n,
{
    if n == 0 {
        s
    } else {
        spec_record(spec_record_n(s, a, (n - 1) as nat), a)
    }
}

/// After `n` frames from an address the table had never seen, both of its
/// counters read exactly `n`; the next snapshot-reset restarts `period` at
/// zero and leaves `total` at `n`.
pub proof fn lemma_record_n(s: Seq<(Seq<u8>, Stat)>, a: Seq<u8>, n: nat)
    requires
        lookup_stat(s, a) is None,
        0 < n <= u64::MAX,
    ensures
        lookup_stat(spec_record_n(s, a, n), a) == Some(Stat { period: n as u64, total: n as u64 }),
        lookup_stat(spec_reset(spec_record_n(s, a, n)), a) == Some(
            Stat { period: 0, total: n as u64 },
        ),
    decreases n,
{
    if n == 1 {
        lemma_record_lookup(s, a, a);
    } else {
        lemma_record_n(s, a, (n - 1) as nat);
        lemma_record_lookup(spec_record_n(s, a, (n - 1) as nat), a, a);
    }
    lemma_reset_lookup(spec_record_n(s, a, n), a);
}

/// A second snapshot taken immediately after another changes nothing: every
/// `period` it reports is already zero and every `total` is what the first
/// snapshot reported.
pub proof fn lemma_snapshot_twice(s: Seq<(Seq<u8>, Stat)>)
    ensures
        spec_reset(spec_reset(s)) == spec_reset(s),
        forall|i: int| 0 <= i < s.len() ==> (#[trigger] spec_reset(s)[i]).1.period == 0,
        forall|i: int|
            0 <= i < s.len() ==> (#[trigger] spec_reset(s)[i]).1.total == s[i].1.total,
{
    assert(spec_reset(spec_reset(s)) =~= spec_reset(s));
}

} // verus!
