//! Per-address connection rate limiting for the PTY server.
//!
//! Every address may open at most a limit of connections (by default
//! `RateLimiter::MAX_PER_WINDOW`) within any `RateLimiter::WINDOW`
//! nanoseconds; a limit of zero turns rate limiting off. Times are
//! nanoseconds on a monotonic clock, counted from an origin the caller picks.
use vstd::prelude::*;

verus! {

/// A peer address: IPv4 or IPv6, by its numeric value.
#[derive(Clone, Copy, Debug, PartialEq, Eq, Structural)]
pub enum IpKey {
    V4(u32),
    V6(u128),
}

impl IpKey {
    /// The IPv4 address `a.b.c.d`.
    pub fn v4(a: u8, b: u8, c: u8, d: u8) -> (k: IpKey)
        ensures
            k == IpKey::V4((a * 16777216 + b * 65536 + c * 256 + d) as u32),
    {
        IpKey::V4((a as u32) * 16777216 + (b as u32) * 65536 + (c as u32) * 256 + (d as u32))
    }
}

/// The connection times remembered for one address.
pub struct RateEntry {
    ip: IpKey,
    stamps: Vec<u64>,
}

/// Per-address connection timestamps.
pub struct RateLimiter {
    connections: Vec<RateEntry>,
    max_per_window: usize,
}

/// Length of the rate window, in nanoseconds.
pub open spec fn window_nanos() -> u64 {
    10_000_000_000
}

/// Whether a connection at `t` is still inside the window that ends at `now`.
/// A time after `now` counts as no time ago.
pub open spec fn in_window(now: u64, t: u64) -> bool {
    (if now >= t {
        now - t
    } else {
        0
    }) < window_nanos()
}

/// The times of `s` that are still inside the window at `now`, in order.
pub open spec fn recent(now: u64, s: Seq<u64>) -> Seq<u64>
    decreases s.len(),
{
    if s.len() == 0 {
        s
    } else {
        let rest = recent(now, s.drop_last());
        if in_window(now, s.last()) {
            rest.push(s.last())
        } else {
            rest
        }
    }
}

/// The times remembered for `ip` in a list of entries; empty when the
/// address is not there.
pub open spec fn stamps_of(entries: Seq<(IpKey, Seq<u64>)>, ip: IpKey) -> Seq<u64>
    decreases entries.len(),
{
    if entries.len() == 0 {
        Seq::empty()
    } else if entries.last().0 == ip {
        entries.last().1
    } else {
        stamps_of(entries.drop_last(), ip)
    }
}

/// No address occurs twice, and every entry holds between one and `limit`
/// times.
pub open spec fn entries_wf(entries: Seq<(IpKey, Seq<u64>)>, limit: nat) -> bool {
    &&& forall|a: int, b: int|
        0 <= a < entries.len() && 0 <= b < entries.len() && a != b ==> #[trigger] entries[a].0
            != #[trigger] entries[b].0
    &&& forall|a: int|
        0 <= a < entries.len() ==> 1 <= (#[trigger] entries[a]).1.len() <= limit
}

/// The times of `s` stay inside the window at `now`.
pub open spec fn all_in_window(now: u64, s: Seq<u64>) -> bool {
    forall|i: int| 0 <= i < s.len() ==> in_window(now, #[trigger] s[i])
}

/// Whether a connection from an address whose remembered times are `s` is
/// allowed at `now` under `limit` connections per window (zero: no limit).
pub open spec fn allows(now: u64, s: Seq<u64>, limit: nat) -> bool {
    limit == 0 || recent(now, s).len() < limit
}

/// The times remembered for `k` after a call for `ip` at `now` that
/// returned `allowed`.
pub open spec fn stamps_after(
    old_stamps: Seq<u64>,
    k: IpKey,
    ip: IpKey,
    now: u64,
    allowed: bool,
) -> Seq<u64> {
    if k == ip && allowed {
        recent(now, old_stamps).push(now)
    } else {
        recent(now, old_stamps)
    }
}

proof fn lemma_recent_len(now: u64, s: Seq<u64>)
    ensures
        recent(now, s).len() <= s.len(),
    decreases s.len(),
{
    if s.len() > 0 {
        lemma_recent_len(now, s.drop_last());
    }
}

proof fn lemma_recent_in_window(now: u64, s: Seq<u64>)
    ensures
        all_in_window(now, recent(now, s)),
    decreases s.len(),
{
    if s.len() > 0 {
        lemma_recent_in_window(now, s.drop_last());
    }
}

proof fn lemma_recent_all_old(now: u64, s: Seq<u64>)
    requires
        forall|i: int| 0 <= i < s.len() ==> !in_window(now, #[trigger] s[i]),
    ensures
        recent(now, s).len() == 0,
    decreases s.len(),
{
    if s.len() > 0 {
        assert forall|i: int| 0 <= i < s.drop_last().len() implies !in_window(
            now,
            #[trigger] s.drop_last()[i],
        ) by {
            assert(s.drop_last()[i] == s[i]);
        }
        lemma_recent_all_old(now, s.drop_last());
    }
}

proof fn lemma_stamps_of_absent(entries: Seq<(IpKey, Seq<u64>)>, ip: IpKey)
    requires
        forall|a: int| 0 <= a < entries.len() ==> (#[trigger] entries[a]).0 != ip,
    ensures
        stamps_of(entries, ip) == Seq::<u64>::empty(),
    decreases entries.len(),
{
    if entries.len() > 0 {
        assert(entries.last() == entries[entries.len() - 1]);
        assert forall|a: int| 0 <= a < entries.drop_last().len() implies (
        #[trigger] entries.drop_last()[a]).0 != ip by {
            assert(entries.drop_last()[a] == entries[a]);
        }
        lemma_stamps_of_absent(entries.drop_last(), ip);
    }
}

proof fn lemma_stamps_of_present(entries: Seq<(IpKey, Seq<u64>)>, a: int, limit: nat)
    requires
        entries_wf(entries, limit),
        0 <= a < entries.len(),
    ensures
        stamps_of(entries, entries[a].0) == entries[a].1,
    decreases entries.len(),
{
    if a < entries.len() - 1 {
        let d = entries.drop_last();
        assert(entries[a].0 != entries[entries.len() - 1].0);
        assert(d[a] == entries[a]);
        assert forall|x: int, y: int|
            0 <= x < d.len() && 0 <= y < d.len() && x != y implies #[trigger] d[x].0
            != #[trigger] d[y].0 by {
            assert(d[x] == entries[x] && d[y] == entries[y]);
        }
        assert forall|x: int| 0 <= x < d.len() implies 1 <= (#[trigger] d[x]).1.len()
            <= limit by {
            assert(d[x] == entries[x]);
        }
        lemma_stamps_of_present(d, a, limit);
    }
}

impl RateLimiter {
    /// Length of the rate window, in nanoseconds.
    pub const WINDOW: u64 = 10_000_000_000;

    /// Most connections one address may open within a window, by default.
    pub const MAX_PER_WINDOW: usize = 5;

    /// Most connections one address may open within a window; zero when
    /// rate limiting is off.
    pub closed spec fn limit(&self) -> nat {
        self.max_per_window as nat
    }

    /// The remembered entries, each an address with its connection times.
    pub closed spec fn entries(&self) -> Seq<(IpKey, Seq<u64>)> {
        self.connections@.map_values(|e: RateEntry| (e.ip, e.stamps@))
    }

    /// The connection times remembered for `ip`.
    pub open spec fn stamps(&self, ip: IpKey) -> Seq<u64> {
        stamps_of(self.entries(), ip)
    }

    /// The limiter's invariant.
    pub open spec fn wf(&self) -> bool {
        entries_wf(self.entries(), self.limit())
    }

    /// An empty limiter with the default limit.
    pub fn new() -> (r: Self)
        ensures
            r.wf(),
            r.limit() == Self::MAX_PER_WINDOW,
            r.entries().len() == 0,
            forall|ip: IpKey| r.stamps(ip) == Seq::<u64>::empty(),
    {
        Self::with_max(Self::MAX_PER_WINDOW)
    }

    /// An empty limiter allowing `max_per_window` connections per address
    /// and window; zero turns rate limiting off.
    pub fn with_max(max_per_window: usize) -> (r: Self)
        ensures
            r.wf(),
            r.limit() == max_per_window,
            r.entries().len() == 0,
            forall|ip: IpKey| r.stamps(ip) == Seq::<u64>::empty(),
    {
        let r = RateLimiter { connections: Vec::new(), max_per_window };
        assert(r.entries() =~= Seq::<(IpKey, Seq<u64>)>::empty());
        r
    }

    /// The number of addresses the limiter remembers.
    pub fn tracked_ips(&self) -> (n: usize)
        ensures
            n == self.entries().len(),
    {
        self.connections.len()
    }

    /// Decide whether a connection from `ip` at time `now` is allowed, and
    /// record it when it is. Every call first forgets the times that have
    /// left the window and the addresses left with none, so the limiter only
    /// remembers addresses that connected within the last window. With rate
    /// limiting off every connection is allowed and nothing is remembered.
    pub fn check_and_record_at(&mut self, ip: IpKey, now: u64) -> (allowed: bool)
        requires
            old(self).wf(),
        ensures
            final(self).wf(),
            final(self).limit() == old(self).limit(),
            allowed == allows(now, old(self).stamps(ip), old(self).limit()),
            old(self).limit() == 0 ==> final(self).entries() == old(self).entries(),
            old(self).limit() > 0 ==> forall|k: IpKey|
                #[trigger] final(self).stamps(k) == stamps_after(
                    old(self).stamps(k),
                    k,
                    ip,
                    now,
                    allowed,
                ),
            forall|a: int|
                0 <= a < final(self).entries().len() ==> all_in_window(
                    now,
                    (#[trigger] final(self).entries()[a]).1,
                ),
    {
        if self.max_per_window == 0 {
            proof {
                assert forall|a: int| 0 <= a < self.entries().len() implies all_in_window(
                    now,
                    (#[trigger] self.entries()[a]).1,
                ) by {
                    assert(1 <= self.entries()[a].1.len() <= 0);
                }
            }
            return true;
        }
        let max = self.max_per_window;
        let ghost limit = self.limit();
        let ghost olds = self.entries();
        let mut old_conns: Vec<RateEntry> = Vec::new();
        std::mem::swap(&mut old_conns, &mut self.connections);
        assert(olds =~= old_conns@.map_values(|e: RateEntry| (e.ip, e.stamps@)));
        let mut kept: Vec<RateEntry> = Vec::new();
        let mut found = false;
        let mut allowed = true;
        let n = old_conns.len();
        let mut j: usize = 0;
        while j < n
            invariant
                n == old_conns@.len() == olds.len(),
                j <= n,
                max == limit,
                limit > 0,
                entries_wf(olds, limit),
                forall|a: int|
                    0 <= a < olds.len() ==> #[trigger] olds[a] == (
                        old_conns@[a].ip,
                        old_conns@[a].stamps@,
                    ),
                ({
                    let ks = kept@.map_values(|e: RateEntry| (e.ip, e.stamps@));
                    &&& entries_wf(ks, limit)
                    &&& forall|a: int, m: int|
                        0 <= a < ks.len() && j <= m < n ==> #[trigger] ks[a].0
                            != #[trigger] olds[m].0
                    &&& forall|a: int|
                        0 <= a < ks.len() ==> all_in_window(now, (#[trigger] ks[a]).1)
                    &&& !found ==> forall|a: int| 0 <= a < ks.len() ==> (#[trigger] ks[a]).0 != ip
                    &&& !found ==> stamps_of(olds.take(j as int), ip) == Seq::<u64>::empty()
                    &&& !found ==> allowed
                    &&& found ==> allowed == allows(now, stamps_of(olds.take(j as int), ip), limit)
                    &&& forall|k: IpKey|
                        #[trigger] stamps_of(ks, k) == if k == ip && !found {
                            Seq::<u64>::empty()
                        } else {
                            stamps_after(stamps_of(olds.take(j as int), k), k, ip, now, allowed)
                        }
                }),
            decreases n - j,
        {
            let ghost ks0 = kept@.map_values(|e: RateEntry| (e.ip, e.stamps@));
            let entry_ip = old_conns[j].ip;
            let src = &old_conns[j].stamps;
            let mut ts: Vec<u64> = Vec::new();
            let mut i: usize = 0;
            while i < src.len()
                invariant
                    i <= src@.len(),
                    ts@ == recent(now, src@.subrange(0, i as int)),
                decreases src@.len() - i,
            {
                let t = src[i];
                let age = if now >= t {
                    now - t
                } else {
                    0
                };
                assert(src@.subrange(0, i + 1).drop_last() =~= src@.subrange(0, i as int));
                if age < Self::WINDOW {
                    ts.push(t);
                }
                i = i + 1;
            }
            assert(src@.subrange(0, src@.len() as int) =~= src@);
            proof {
                lemma_recent_len(now, src@);
                lemma_recent_in_window(now, src@);
                assert(olds[j as int] == (entry_ip, src@));
                assert(olds.take(j + 1).drop_last() =~= olds.take(j as int));
                assert(olds.take(j + 1).last() == olds[j as int]);
            }
            let ghost filtered = ts@;
            if entry_ip == ip {
                found = true;
                if ts.len() >= max {
                    allowed = false;
                } else {
                    allowed = true;
                    ts.push(now);
                }
            }
            if ts.len() > 0 {
                kept.push(RateEntry { ip: entry_ip, stamps: ts });
            }
            proof {
                let ks = kept@.map_values(|e: RateEntry| (e.ip, e.stamps@));
                let tk = olds.take(j + 1);
                let before = olds.take(j as int);
                assert(tk.drop_last() == before);
                assert(tk.last() == (entry_ip, src@));
                assert forall|m: int| j < m < n implies olds[m].0 != entry_ip by {
                    assert(olds[j as int].0 == entry_ip);
                }
                assert forall|a: int| 0 <= a < before.len() implies (#[trigger] before[a]).0
                    != entry_ip by {
                    assert(before[a] == olds[a]);
                    assert(olds[j as int].0 == entry_ip);
                }
                lemma_stamps_of_absent(before, entry_ip);
                assert forall|a: int| 0 <= a < ks0.len() implies (#[trigger] ks0[a]).0
                    != entry_ip by {
                    assert(olds[j as int].0 == entry_ip);
                }
                lemma_stamps_of_absent(ks0, entry_ip);
                if ts@.len() > 0 {
                    assert(ks =~= ks0.push((entry_ip, ts@)));
                    assert(ks.drop_last() == ks0);
                    assert(ks.last() == (entry_ip, ts@));
                } else {
                    assert(ks =~= ks0);
                }
                assert(all_in_window(now, ts@)) by {
                    assert forall|x: int| 0 <= x < ts@.len() implies in_window(
                        now,
                        #[trigger] ts@[x],
                    ) by {
                        if x < filtered.len() {
                            assert(ts@[x] == filtered[x]);
                        }
                    }
                }
                assert forall|k: IpKey| #[trigger]
                    stamps_of(ks, k) == if k == ip && !found {
                        Seq::<u64>::empty()
                    } else {
                        stamps_after(stamps_of(tk, k), k, ip, now, allowed)
                    } by {
                    if k == entry_ip {
                        assert(stamps_of(tk, k) == src@);
                        assert(recent(now, Seq::<u64>::empty()) =~= Seq::<u64>::empty());
                    } else {
                        assert(stamps_of(tk, k) == stamps_of(before, k));
                        if ts@.len() > 0 {
                            assert(stamps_of(ks, k) == stamps_of(ks0, k));
                        }
                    }
                }
            }
            j = j + 1;
        }
        proof {
            assert(olds.take(n as int) =~= olds);
        }
        let ghost ks0 = kept@.map_values(|e: RateEntry| (e.ip, e.stamps@));
        if !found {
            let mut ts: Vec<u64> = Vec::new();
            ts.push(now);
            kept.push(RateEntry { ip, stamps: ts });
        }
        proof {
            let ks = kept@.map_values(|e: RateEntry| (e.ip, e.stamps@));
            assert(recent(now, Seq::<u64>::empty()) =~= Seq::<u64>::empty());
            assert(recent(now, Seq::<u64>::empty()).push(now) =~= seq![now]);
            if !found {
                assert(ks =~= ks0.push((ip, seq![now])));
                assert(ks.drop_last() == ks0);
                assert(ks.last() == (ip, seq![now]));
                assert(all_in_window(now, seq![now]));
                assert forall|k: IpKey| #[trigger]
                    stamps_of(ks, k) == stamps_after(stamps_of(olds, k), k, ip, now, allowed) by {
                    if k != ip {
                        assert(stamps_of(ks, k) == stamps_of(ks0, k));
                    }
                }
            } else {
                assert(ks == ks0);
            }
        }
        let ghost ks_final = kept@.map_values(|e: RateEntry| (e.ip, e.stamps@));
        self.connections = kept;
        proof {
            assert(self.entries() == ks_final);
            assert(self.limit() == limit);
        }
        allowed
    }
}

/// A refused connection leaves the address's budget as it was, apart from
/// times that left the window: refusing never records anything.
pub proof fn law_refusal_records_nothing(
    before: &RateLimiter,
    after: &RateLimiter,
    ip: IpKey,
    now: u64,
)
    requires
        before.wf(),
        !allows(now, before.stamps(ip), before.limit()),
        forall|k: IpKey| #[trigger]
            after.stamps(k) == stamps_after(before.stamps(k), k, ip, now, false),
    ensures
        after.stamps(ip) == recent(now, before.stamps(ip)),
{
}

/// Once every remembered time of an address has left the window, the
/// address has its full budget again.
pub proof fn law_window_rolls_off(limiter: &RateLimiter, ip: IpKey, now: u64)
    requires
        forall|i: int|
            0 <= i < limiter.stamps(ip).len() ==> !in_window(now, #[trigger] limiter.stamps(ip)[i]),
    ensures
        allows(now, limiter.stamps(ip), limiter.limit()),
{
    lemma_recent_all_old(now, limiter.stamps(ip));
}

/// No address ever has more remembered times than the limit, so no
/// address is allowed more than that many connections in one window.
pub proof fn law_budget_bounded(limiter: &RateLimiter, ip: IpKey)
    requires
        limiter.wf(),
    ensures
        limiter.stamps(ip).len() <= limiter.limit(),
{
    let e = limiter.entries();
    if exists|a: int| 0 <= a < e.len() && #[trigger] e[a].0 == ip {
        let a = choose|a: int| 0 <= a < e.len() && #[trigger] e[a].0 == ip;
        lemma_stamps_of_present(e, a, limiter.limit());
    } else {
        lemma_stamps_of_absent(e, ip);
    }
}

} // verus!
