//! Latency statistics: the latencies observed per sender and payload, and their
//! maximum, minimum and average.
use vstd::prelude::*;
use crate::message::Identity;
use crate::payload::Payload;

verus! {

/// Latency summary of one sender and payload.
#[derive(Debug, Clone, Copy, PartialEq, Eq, Structural)]
pub struct Latency {
    pub max: u128,
    pub min: u128,
    pub average: u128,
    pub packets: usize,
}

pub open spec fn seq_max(s: Seq<u128>) -> u128
    decreases s.len(),
{
    if s.len() <= 1 {
        if s.len() == 1 { s[0] } else { 0 }
    } else {
        let m = seq_max(s.drop_last());
        if s.last() > m { s.last() } else { m }
    }
}

pub open spec fn seq_min(s: Seq<u128>) -> u128
    decreases s.len(),
{
    if s.len() <= 1 {
        if s.len() == 1 { s[0] } else { 0 }
    } else {
        let m = seq_min(s.drop_last());
        if s.last() < m { s.last() } else { m }
    }
}

pub open spec fn seq_sum(s: Seq<u128>) -> int
    decreases s.len(),
{
    if s.len() == 0 {
        0
    } else {
        seq_sum(s.drop_last()) + s.last()
    }
}

/// The summary of a non-empty list of latencies: its maximum, its minimum, the
/// integer average of its sum, and its length.
pub open spec fn summary(s: Seq<u128>) -> Latency {
    Latency {
        max: seq_max(s),
        min: seq_min(s),
        average: (seq_sum(s) / s.len() as int) as u128,
        packets: s.len() as usize,
    }
}

proof fn lemma_sum_monotone(s: Seq<u128>, k: int)
    requires
        0 <= k <= s.len(),
    ensures
        seq_sum(s.take(k)) <= seq_sum(s),
        0 <= seq_sum(s.take(k)),
    decreases s.len() - k,
{
    if k < s.len() {
        lemma_sum_monotone(s, k + 1);
        assert(s.take(k + 1).drop_last() =~= s.take(k));
    } else {
        assert(s.take(k) =~= s);
    }
    lemma_sum_nonneg(s.take(k));
}

proof fn lemma_sum_nonneg(s: Seq<u128>)
    ensures
        seq_sum(s) >= 0,
    decreases s.len(),
{
    if s.len() > 0 {
        lemma_sum_nonneg(s.drop_last());
    }
}

impl Latency {
    /// Summarizes `latencies`; none for an empty list.  The sum must fit in a `u128`.
    pub fn of(latencies: &Vec<u128>) -> (r: Option<Latency>)
        requires
            seq_sum(latencies@) <= u128::MAX,
        ensures
            latencies@.len() == 0 ==> r is None,
            latencies@.len() > 0 ==> r == Some(summary(latencies@)),
    {
        let n = latencies.len();
        if n == 0 {
            return None;
        }
        let mut max = latencies[0];
        let mut min = latencies[0];
        let mut sum: u128 = latencies[0];
        let mut i: usize = 1;
        proof {
            let s = latencies@;
            assert(s.take(1).drop_last() =~= s.take(0));
            assert(s.take(0) =~= Seq::<u128>::empty());
            assert(seq_sum(s.take(0)) == 0);
            assert(s.take(1).last() == s[0]);
            assert(seq_sum(s.take(1)) == s[0]);
            lemma_sum_monotone(s, 1);
        }
        while i < n
            invariant
                1 <= i <= n,
                n == latencies@.len(),
                seq_sum(latencies@) <= u128::MAX,
                max == seq_max(latencies@.take(i as int)),
                min == seq_min(latencies@.take(i as int)),
                sum == seq_sum(latencies@.take(i as int)),
            decreases n - i,
        {
            let ghost s = latencies@;
            let x = latencies[i];
            proof {
                assert(s.take(i + 1).drop_last() =~= s.take(i as int));
                assert(s.take(i + 1).last() == x);
                lemma_sum_monotone(s, i + 1);
            }
            if x > max {
                max = x;
            }
            if x < min {
                min = x;
            }
            sum = sum + x;
            i = i + 1;
        }
        proof {
            assert(latencies@.take(n as int) =~= latencies@);
        }
        let average = sum / (n as u128);
        Some(Latency { max, min, average, packets: n })
    }
}

/// Every latency lies between the minimum and the maximum.
pub proof fn lemma_summary_bounds(s: Seq<u128>, i: int)
    requires
        0 <= i < s.len(),
    ensures
        seq_min(s) <= s[i] <= seq_max(s),
    decreases s.len(),
{
    if s.len() > 1 && i < s.len() - 1 {
        lemma_summary_bounds(s.drop_last(), i);
    }
}

/// The average of a non-empty list is the integer quotient of its sum by its
/// length: `average * n <= sum < (average + 1) * n`; the count is the length.
pub proof fn lemma_average_is_quotient(s: Seq<u128>)
    requires
        s.len() > 0,
        s.len() <= usize::MAX,
        seq_sum(s) <= u128::MAX,
    ensures
        summary(s).average * s.len() <= seq_sum(s),
        seq_sum(s) < (summary(s).average + 1) * s.len(),
        summary(s).packets == s.len(),
{
    lemma_sum_nonneg(s);
    let n = s.len() as int;
    let t = seq_sum(s);
    let q = t / n;
    assert(0 <= q <= t) by (nonlinear_arith)
        requires
            n > 0,
            t >= 0,
            q == t / n,
    ;
    assert(q * n <= t < (q + 1) * n) by (nonlinear_arith)
        requires
            n > 0,
            q == t / n,
    ;
}

proof fn lemma_constant_list(x: u128, n: nat)
    requires
        n > 0,
    ensures
        seq_sum(Seq::new(n, |i: int| x)) == x * n,
        seq_max(Seq::new(n, |i: int| x)) == x,
        seq_min(Seq::new(n, |i: int| x)) == x,
    decreases n,
{
    let s = Seq::new(n, |i: int| x);
    assert(s.last() == x);
    if n == 1 {
        assert(s.drop_last() =~= Seq::<u128>::empty());
        assert(seq_sum(s.drop_last()) == 0);
        assert(x * n == x) by (nonlinear_arith)
            requires
                n == 1,
        ;
    } else {
        lemma_constant_list(x, (n - 1) as nat);
        assert(s.drop_last() =~= Seq::new((n - 1) as nat, |i: int| x));
        assert(x * n == x * (n - 1) + x) by (nonlinear_arith)
            requires
                n > 1,
        ;
    }
}

/// `n` packets with the same latency `x` summarize to `x` as maximum, minimum and
/// average.
pub proof fn lemma_equal_latencies(x: u128, n: nat)
    requires
        n > 0,
    ensures
        summary(Seq::new(n, |i: int| x)) == (Latency { max: x, min: x, average: x, packets: n as usize }),
{
    lemma_constant_list(x, n);
    assert((x * n) / (n as int) == x) by (nonlinear_arith)
        requires
            n > 0,
    ;
}

/// Latencies of one sender, per payload.
pub type PayloadLatencies = Seq<(Payload, Seq<u128>)>;

/// The latencies observed so far, per sender (by name and hash) and payload.
pub struct Statistics {
    data: Vec<(Identity, Vec<(Payload, Vec<u128>)>)>,
}

pub open spec fn payloads_view(v: Seq<(Payload, Vec<u128>)>) -> PayloadLatencies {
    v.map_values(|e: (Payload, Vec<u128>)| (e.0, e.1@))
}

pub open spec fn has_payload(entries: PayloadLatencies, p: Payload) -> bool {
    exists|j: int| 0 <= j < entries.len() && entries[j].0 == p
}

pub open spec fn payload_index(entries: PayloadLatencies, p: Payload) -> int {
    choose|j: int| 0 <= j < entries.len() && entries[j].0 == p
}

/// `entries` with latency `l` appended to payload `p`'s list (a new list if none).
pub open spec fn record_payload(entries: PayloadLatencies, p: Payload, l: u128) -> PayloadLatencies {
    if has_payload(entries, p) {
        let j = payload_index(entries, p);
        entries.update(j, (p, entries[j].1.push(l)))
    } else {
        entries.push((p, seq![l]))
    }
}

pub open spec fn has_identity(data: Seq<((Seq<char>, Seq<char>), PayloadLatencies)>, id: (Seq<char>, Seq<char>)) -> bool {
    exists|i: int| 0 <= i < data.len() && data[i].0 == id
}

pub open spec fn identity_index(data: Seq<((Seq<char>, Seq<char>), PayloadLatencies)>, id: (Seq<char>, Seq<char>)) -> int {
    choose|i: int| 0 <= i < data.len() && data[i].0 == id
}

/// `data` with latency `l` recorded for sender `id` and payload `p`.
pub open spec fn record(
    data: Seq<((Seq<char>, Seq<char>), PayloadLatencies)>,
    id: (Seq<char>, Seq<char>),
    p: Payload,
    l: u128,
) -> Seq<((Seq<char>, Seq<char>), PayloadLatencies)> {
    if has_identity(data, id) {
        let i = identity_index(data, id);
        data.update(i, (id, record_payload(data[i].1, p, l)))
    } else {
        data.push((id, seq![(p, seq![l])]))
    }
}

/// Summaries of the non-empty lists of `entries`, in order.
pub open spec fn summaries(entries: PayloadLatencies) -> Seq<(Payload, Latency)>
    decreases entries.len(),
{
    if entries.len() == 0 {
        Seq::empty()
    } else {
        let rest = summaries(entries.drop_last());
        let (p, l) = entries.last();
        if l.len() == 0 {
            rest
        } else {
            rest.push((p, summary(l)))
        }
    }
}

pub open spec fn unique_payloads(entries: PayloadLatencies) -> bool {
    forall|a: int, b: int| 0 <= a < b < entries.len() ==> #[trigger] entries[a].0 != #[trigger] entries[b].0
}

impl Statistics {
    pub closed spec fn view(&self) -> Seq<((Seq<char>, Seq<char>), PayloadLatencies)> {
        self.data@.map_values(|e: (Identity, Vec<(Payload, Vec<u128>)>)| (e.0@, payloads_view(e.1@)))
    }

    /// Senders are unique, and so are the payloads of each sender.
    pub open spec fn wf(&self) -> bool {
        &&& forall|a: int, b: int| 0 <= a < b < self@.len() ==> #[trigger] self@[a].0 != #[trigger] self@[b].0
        &&& forall|i: int| 0 <= i < self@.len() ==> unique_payloads(#[trigger] self@[i].1)
    }

    /// Whether every list's sum fits in a `u128`, as averaging needs.
    pub open spec fn sums_fit_spec(&self) -> bool {
        forall|i: int, j: int|
            0 <= i < self@.len() && 0 <= j < self@[i].1.len() ==> seq_sum(#[trigger] self@[i].1[j].1) <= u128::MAX
    }

    pub fn new() -> (r: Self)
        ensures
            r@ == Seq::<((Seq<char>, Seq<char>), PayloadLatencies)>::empty(),
            r.wf(),
    {
        let r = Statistics { data: Vec::new() };
        assert(r@ =~= Seq::<((Seq<char>, Seq<char>), PayloadLatencies)>::empty());
        r
    }

    fn find_identity(&self, identity: &Identity) -> (r: Option<usize>)
        requires
            self.wf(),
        ensures
            r is None <==> !has_identity(self@, identity@),
            r matches Some(i) ==> i < self@.len() && self@[i as int].0 == identity@
                && identity_index(self@, identity@) == i,
    {
        let mut i: usize = 0;
        while i < self.data.len()
            invariant
                i <= self.data@.len(),
                self.wf(),
                self@.len() == self.data@.len(),
                forall|j: int| 0 <= j < i ==> self@[j].0 != identity@,
            decreases self.data@.len() - i,
        {
            assert(self@[i as int].0 == self.data@[i as int].0@);
            if self.data[i].0.same(identity) {
                proof {
                    let k = identity_index(self@, identity@);
                    if k < i {
                        assert(self@[k].0 != self@[i as int].0);
                    } else if k > i {
                        assert(self@[i as int].0 != self@[k].0);
                    }
                }
                return Some(i);
            }
            i = i + 1;
        }
        None
    }

    /// Records `latency` for `identity` and `payload`.
    pub fn insert(&mut self, identity: Identity, payload: Payload, latency: u128)
        requires
            old(self).wf(),
        ensures
            final(self).wf(),
            final(self)@ == record(old(self)@, identity@, payload, latency),
    {
        let ghost before = self@;
        let ghost id = identity@;
        match self.find_identity(&identity) {
            Some(i) => {
                let (ident, mut entries) = self.data.remove(i);
                let ghost pv = payloads_view(entries@);
                assert(pv == before[i as int].1);
                let found = find_payload(&entries, payload);
                proof {
                    assert(unique_payloads(pv));
                }
                if let Some(j) = found {
                    assert(pv[j as int].0 == payload);
                    proof {
                        let k = payload_index(pv, payload);
                        if k < j {
                            assert(pv[k].0 != pv[j as int].0);
                        } else if k > j {
                            assert(pv[j as int].0 != pv[k].0);
                        }
                    }
                    let (p, mut lats) = entries.remove(j);
                    lats.push(latency);
                    entries.insert(j, (p, lats));
                    assert(payloads_view(entries@) =~= record_payload(pv, payload, latency));
                } else {
                    assert(!has_payload(pv, payload));
                    let mut lats: Vec<u128> = Vec::new();
                    lats.push(latency);
                    entries.push((payload, lats));
                    assert(payloads_view(entries@) =~= record_payload(pv, payload, latency));
                }
                proof {
                    let np = payloads_view(entries@);
                    assert forall|a: int, b: int| 0 <= a < b < np.len() implies #[trigger] np[a].0 != #[trigger] np[b].0 by {
                        if b < pv.len() {
                            assert(pv[a].0 != pv[b].0);
                        } else if !has_payload(pv, payload) {
                            assert(pv[a].0 != payload);
                        }
                    }
                }
                self.data.insert(i, (ident, entries));
                assert(self@ =~= before.update(i as int, (id, record_payload(pv, payload, latency))));
                proof {
                    assert forall|a: int, b: int| 0 <= a < b < self@.len() implies #[trigger] self@[a].0 != #[trigger] self@[b].0 by {
                        assert(before[a].0 != before[b].0);
                    }
                    assert forall|k: int| 0 <= k < self@.len() implies unique_payloads(#[trigger] self@[k].1) by {
                        if k != i {
                            assert(unique_payloads(before[k].1));
                        }
                    }
                }
            },
            None => {
                let mut lats: Vec<u128> = Vec::new();
                lats.push(latency);
                let mut entries: Vec<(Payload, Vec<u128>)> = Vec::new();
                entries.push((payload, lats));
                assert(payloads_view(entries@) =~= seq![(payload, seq![latency])]);
                self.data.push((identity, entries));
                assert(self@ =~= before.push((id, seq![(payload, seq![latency])])));
                proof {
                    assert forall|a: int, b: int| 0 <= a < b < self@.len() implies #[trigger] self@[a].0 != #[trigger] self@[b].0 by {
                        if b == before.len() {
                            if before[a].0 == id {
                                assert(has_identity(before, id));
                            }
                        } else {
                            assert(before[a].0 != before[b].0);
                        }
                    }
                    assert forall|k: int| 0 <= k < self@.len() implies unique_payloads(#[trigger] self@[k].1) by {
                        if k < before.len() {
                            assert(unique_payloads(before[k].1));
                        }
                    }
                }
            },
        }
    }

    /// Whether every list's sum fits in a `u128`.
    pub fn sums_fit(&self) -> (r: bool)
        ensures
            r == self.sums_fit_spec(),
    {
        let mut i: usize = 0;
        while i < self.data.len()
            invariant
                i <= self.data@.len(),
                self@.len() == self.data@.len(),
                forall|a: int, b: int| 0 <= a < i && 0 <= b < self@[a].1.len() ==> seq_sum(#[trigger] self@[a].1[b].1) <= u128::MAX,
            decreases self.data@.len() - i,
        {
            let entries = &self.data[i].1;
            assert(payloads_view(entries@) == self@[i as int].1);
            let mut j: usize = 0;
            while j < entries.len()
                invariant
                    i < self@.len(),
                    self@.len() == self.data@.len(),
                    j <= entries@.len(),
                    payloads_view(entries@) == self@[i as int].1,
                    forall|b: int| 0 <= b < j ==> seq_sum(#[trigger] self@[i as int].1[b].1) <= u128::MAX,
                decreases entries@.len() - j,
            {
                let lats = &entries[j].1;
                assert(lats@ == self@[i as int].1[j as int].1);
                if !sum_fits(lats) {
                    assert(!(seq_sum(self@[i as int].1[j as int].1) <= u128::MAX));
                    return false;
                }
                j = j + 1;
            }
            assert forall|a: int, b: int| 0 <= a < i + 1 && 0 <= b < self@[a].1.len() implies seq_sum(#[trigger] self@[a].1[b].1) <= u128::MAX by {
                if a == i {
                    assert(seq_sum(self@[i as int].1[b].1) <= u128::MAX);
                }
            }
            i = i + 1;
        }
        true
    }

    fn summarize(entries: &Vec<(Payload, Vec<u128>)>) -> (r: Vec<(Payload, Latency)>)
        requires
            forall|b: int| 0 <= b < entries@.len() ==> seq_sum(#[trigger] payloads_view(entries@)[b].1) <= u128::MAX,
        ensures
            r@ == summaries(payloads_view(entries@)),
    {
        let ghost pv = payloads_view(entries@);
        let mut out: Vec<(Payload, Latency)> = Vec::new();
        let mut j: usize = 0;
        assert(pv.take(0) =~= PayloadLatencies::empty());
        while j < entries.len()
            invariant
                j <= entries@.len(),
                pv == payloads_view(entries@),
                forall|b: int| 0 <= b < entries@.len() ==> seq_sum(#[trigger] pv[b].1) <= u128::MAX,
                out@ == summaries(pv.take(j as int)),
            decreases entries@.len() - j,
        {
            assert(pv.take(j + 1).drop_last() =~= pv.take(j as int));
            assert(pv.take(j + 1).last() == pv[j as int]);
            let p = entries[j].0;
            let lats = &entries[j].1;
            assert(lats@ == pv[j as int].1);
            match Latency::of(lats) {
                Some(l) => out.push((p, l)),
                None => {},
            }
            j = j + 1;
        }
        assert(pv.take(entries@.len() as int) =~= pv);
        out
    }

    /// Latency summaries of `identity`, per payload (empty for an unknown sender).
    pub fn average_identity_latencies(&self, identity: &Identity) -> (r: Vec<(Payload, Latency)>)
        requires
            self.wf(),
            self.sums_fit_spec(),
        ensures
            r@ == (if has_identity(self@, identity@) {
                summaries(self@[identity_index(self@, identity@)].1)
            } else {
                Seq::empty()
            }),
    {
        match self.find_identity(identity) {
            Some(i) => {
                let entries = &self.data[i].1;
                assert(payloads_view(entries@) == self@[i as int].1);
                assert forall|b: int| 0 <= b < entries@.len() implies seq_sum(#[trigger] payloads_view(entries@)[b].1) <= u128::MAX by {
                    assert(seq_sum(self@[i as int].1[b].1) <= u128::MAX);
                }
                Self::summarize(entries)
            },
            None => Vec::new(),
        }
    }

    /// Latency summaries of every sender, in the order senders were first seen.
    pub fn average_latencies(&self) -> (r: Vec<(Identity, Vec<(Payload, Latency)>)>)
        requires
            self.sums_fit_spec(),
        ensures
            r@.len() == self@.len(),
            forall|i: int| 0 <= i < r@.len() ==> (#[trigger] r@[i]).0@ == self@[i].0 && r@[i].1@ == summaries(self@[i].1),
    {
        let mut out: Vec<(Identity, Vec<(Payload, Latency)>)> = Vec::new();
        let mut i: usize = 0;
        while i < self.data.len()
            invariant
                i <= self.data@.len(),
                self@.len() == self.data@.len(),
                self.sums_fit_spec(),
                out@.len() == i,
                forall|k: int| 0 <= k < i ==> (#[trigger] out@[k]).0@ == self@[k].0 && out@[k].1@ == summaries(self@[k].1),
            decreases self.data@.len() - i,
        {
            let (ident, entries) = &self.data[i];
            assert(payloads_view(entries@) == self@[i as int].1);
            assert(ident@ == self@[i as int].0);
            assert forall|b: int| 0 <= b < entries@.len() implies seq_sum(#[trigger] payloads_view(entries@)[b].1) <= u128::MAX by {
                assert(seq_sum(self@[i as int].1[b].1) <= u128::MAX);
            }
            let sums = Self::summarize(entries);
            let copy = Identity { name: ident.name.clone(), hash: ident.hash.clone() };
            out.push((copy, sums));
            i = i + 1;
        }
        out
    }
}

fn find_payload(entries: &Vec<(Payload, Vec<u128>)>, payload: Payload) -> (r: Option<usize>)
    ensures
        r is None <==> !has_payload(payloads_view(entries@), payload),
        r matches Some(j) ==> j < entries@.len() && payloads_view(entries@)[j as int].0 == payload,
{
    let ghost pv = payloads_view(entries@);
    let mut j: usize = 0;
    while j < entries.len()
        invariant
            j <= entries@.len(),
            pv == payloads_view(entries@),
            forall|k: int| 0 <= k < j ==> pv[k].0 != payload,
        decreases entries@.len() - j,
    {
        assert(pv[j as int].0 == entries@[j as int].0);
        if entries[j].0 == payload {
            return Some(j);
        }
        j = j + 1;
    }
    None
}

/// Whether the sum of `lats` fits in a `u128`.
fn sum_fits(lats: &Vec<u128>) -> (r: bool)
    ensures
        r == (seq_sum(lats@) <= u128::MAX),
{
    let mut sum: u128 = 0;
    let mut i: usize = 0;
    assert(lats@.take(0) =~= Seq::<u128>::empty());
    while i < lats.len()
        invariant
            i <= lats@.len(),
            sum == seq_sum(lats@.take(i as int)),
        decreases lats@.len() - i,
    {
        assert(lats@.take(i + 1).drop_last() =~= lats@.take(i as int));
        assert(lats@.take(i + 1).last() == lats@[i as int]);
        match sum.checked_add(lats[i]) {
            Some(s2) => {
                sum = s2;
            },
            None => {
                proof {
                    lemma_sum_monotone(lats@, i + 1);
                }
                return false;
            },
        }
        i = i + 1;
    }
    assert(lats@.take(lats@.len() as int) =~= lats@);
    true
}

/// The latencies recorded in `data` for sender `id` and payload `p` (none if never recorded).
pub open spec fn latencies_of(
    data: Seq<((Seq<char>, Seq<char>), PayloadLatencies)>,
    id: (Seq<char>, Seq<char>),
    p: Payload,
) -> Seq<u128> {
    if has_identity(data, id) {
        let e = data[identity_index(data, id)].1;
        if has_payload(e, p) {
            e[payload_index(e, p)].1
        } else {
            Seq::empty()
        }
    } else {
        Seq::empty()
    }
}

/// Senders are unique, and so are the payloads of each sender.
pub open spec fn well_keyed(data: Seq<((Seq<char>, Seq<char>), PayloadLatencies)>) -> bool {
    &&& forall|a: int, b: int| 0 <= a < b < data.len() ==> #[trigger] data[a].0 != #[trigger] data[b].0
    &&& forall|i: int| 0 <= i < data.len() ==> unique_payloads(#[trigger] data[i].1)
}

proof fn lemma_identity_at(data: Seq<((Seq<char>, Seq<char>), PayloadLatencies)>, i: int)
    requires
        forall|a: int, b: int| 0 <= a < b < data.len() ==> #[trigger] data[a].0 != #[trigger] data[b].0,
        0 <= i < data.len(),
    ensures
        has_identity(data, data[i].0),
        identity_index(data, data[i].0) == i,
{
    let k = identity_index(data, data[i].0);
    if k < i {
        assert(data[k].0 != data[i].0);
    } else if k > i {
        assert(data[i].0 != data[k].0);
    }
}

proof fn lemma_payload_at(e: PayloadLatencies, j: int)
    requires
        unique_payloads(e),
        0 <= j < e.len(),
    ensures
        has_payload(e, e[j].0),
        payload_index(e, e[j].0) == j,
{
    let k = payload_index(e, e[j].0);
    if k < j {
        assert(e[k].0 != e[j].0);
    } else if k > j {
        assert(e[j].0 != e[k].0);
    }
}

/// Recording into one sender's payloads appends to that payload's list and leaves
/// the others as they were.
proof fn lemma_record_payload(e: PayloadLatencies, p: Payload, l: u128, q: Payload)
    requires
        unique_payloads(e),
    ensures
        unique_payloads(record_payload(e, p, l)),
        has_payload(record_payload(e, p, l), p),
        ({
            let e2 = record_payload(e, p, l);
            let before = if has_payload(e, q) { e[payload_index(e, q)].1 } else { Seq::<u128>::empty() };
            let after = if has_payload(e2, q) { e2[payload_index(e2, q)].1 } else { Seq::<u128>::empty() };
            after == (if q == p { before.push(l) } else { before })
        }),
{
    let e2 = record_payload(e, p, l);
    if has_payload(e, p) {
        let j = payload_index(e, p);
        assert(e2.len() == e.len());
        assert forall|a: int, b: int| 0 <= a < b < e2.len() implies #[trigger] e2[a].0 != #[trigger] e2[b].0 by {
            assert(e[a].0 != e[b].0);
        }
        lemma_payload_at(e2, j);
        if has_payload(e, q) {
            let k = payload_index(e, q);
            lemma_payload_at(e2, k);
            if q == p {
                lemma_payload_at(e, j);
            }
        } else {
            assert forall|k: int| 0 <= k < e2.len() implies e2[k].0 != q by {
                assert(e[k].0 != q);
            }
        }
    } else {
        let n = e.len() as int;
        assert forall|k: int| 0 <= k < n implies e[k].0 != p by {
            if e[k].0 == p {
                assert(has_payload(e, p));
            }
        }
        assert forall|a: int, b: int| 0 <= a < b < e2.len() implies #[trigger] e2[a].0 != #[trigger] e2[b].0 by {
            if b == n {
                assert(e[a].0 != p);
            } else {
                assert(e[a].0 != e[b].0);
            }
        }
        lemma_payload_at(e2, n);
        if has_payload(e, q) {
            let k = payload_index(e, q);
            lemma_payload_at(e2, k);
        } else if q != p {
            assert forall|k: int| 0 <= k < e2.len() implies e2[k].0 != q by {
                if k < n {
                    assert(e[k].0 != q);
                }
            }
        }
    }
}

/// Read after write: recording latency `l` for sender `id` and payload `p` appends
/// `l` to exactly that sender's list for that payload; every other list is unchanged.
pub proof fn lemma_record_appends(
    data: Seq<((Seq<char>, Seq<char>), PayloadLatencies)>,
    id: (Seq<char>, Seq<char>),
    p: Payload,
    l: u128,
    id2: (Seq<char>, Seq<char>),
    q: Payload,
)
    requires
        well_keyed(data),
    ensures
        well_keyed(record(data, id, p, l)),
        latencies_of(record(data, id, p, l), id2, q) == (if id2 == id && q == p {
            latencies_of(data, id2, q).push(l)
        } else {
            latencies_of(data, id2, q)
        }),
{
    let r = record(data, id, p, l);
    if has_identity(data, id) {
        let i = identity_index(data, id);
        let e0 = data[i].1;
        assert(r.len() == data.len());
        assert forall|a: int, b: int| 0 <= a < b < r.len() implies #[trigger] r[a].0 != #[trigger] r[b].0 by {
            assert(data[a].0 != data[b].0);
        }
        lemma_record_payload(e0, p, l, q);
        assert forall|k: int| 0 <= k < r.len() implies unique_payloads(#[trigger] r[k].1) by {
            if k != i {
                assert(unique_payloads(data[k].1));
            }
        }
        lemma_identity_at(r, i);
        lemma_identity_at(data, i);
        if has_identity(data, id2) {
            let k = identity_index(data, id2);
            lemma_identity_at(r, k);
        } else {
            assert forall|k: int| 0 <= k < r.len() implies r[k].0 != id2 by {
                assert(data[k].0 != id2);
            }
        }
    } else {
        let n = data.len() as int;
        assert forall|k: int| 0 <= k < n implies data[k].0 != id by {
            if data[k].0 == id {
                assert(has_identity(data, id));
            }
        }
        assert forall|a: int, b: int| 0 <= a < b < r.len() implies #[trigger] r[a].0 != #[trigger] r[b].0 by {
            if b == n {
                assert(data[a].0 != id);
            } else {
                assert(data[a].0 != data[b].0);
            }
        }
        let e1: PayloadLatencies = seq![(p, seq![l])];
        assert forall|k: int| 0 <= k < r.len() implies unique_payloads(#[trigger] r[k].1) by {
            if k < n {
                assert(unique_payloads(data[k].1));
            }
        }
        lemma_identity_at(r, n);
        lemma_payload_at(e1, 0);
        if has_identity(data, id2) {
            let k = identity_index(data, id2);
            lemma_identity_at(r, k);
        } else if id2 != id {
            assert forall|k: int| 0 <= k < r.len() implies r[k].0 != id2 by {
                if k < n {
                    assert(data[k].0 != id2);
                }
            }
        } else if q != p {
            assert forall|k: int| 0 <= k < e1.len() implies e1[k].0 != q by {}
            assert(seq![l] =~= Seq::<u128>::empty().push(l));
        } else {
            assert(seq![l] =~= Seq::<u128>::empty().push(l));
        }
    }
}

} // verus!
