use vstd::prelude::*;

use crate::keyed::StrMap;
use crate::store::StrSet;
use crate::text::{occurs_in, sort_texts, text_le, texts, texts_sorted};

verus! {

/// How many bytes of recent log output a health entry keeps.
pub const MAX_LOG_BYTES: usize = 65536;

/// What `String::from_utf8_lossy` makes of a byte sequence.
pub uninterp spec fn utf8_lossy(bytes: Seq<u8>) -> Seq<char>;

/// Decode bytes as UTF-8, replacing invalid sequences with U+FFFD.
///
/// Calls `String::from_utf8_lossy` and takes ownership of the result.  The
/// contract names the result and, as std documents, says that valid UTF-8 is
/// decoded unchanged.
#[verifier::external_body]
fn lossy_text(bytes: &[u8]) -> (s: String)
    ensures
        s@ == utf8_lossy(bytes@),
        vstd::utf8::valid_utf8(bytes@) ==> s@ == vstd::utf8::decode_utf8(bytes@),
{
    String::from_utf8_lossy(bytes).into_owned()
}

/// Milliseconds since the Unix epoch by the system clock (0 if the clock is
/// before the epoch).
///
/// Calls `SystemTime::now`, `duration_since(UNIX_EPOCH)` (an error read as a
/// zero duration) and `as_millis`.  The reading depends on the clock, so
/// nothing is promised of it.
#[verifier::external_body]
fn epoch_millis() -> (ms: u128) {
    std::time::SystemTime::now().duration_since(std::time::SystemTime::UNIX_EPOCH).unwrap_or_default().as_millis()
}

/// A millisecond reading as an `i64`, saturating at `i64::MAX`.
pub fn saturating_ms(ms: u128) -> (r: i64)
    ensures
        r == (if ms > i64::MAX {
            i64::MAX as int
        } else {
            ms as int
        }),
{
    if ms > i64::MAX as u128 {
        i64::MAX
    } else {
        ms as i64
    }
}

/// Milliseconds since the Unix epoch by the system clock, saturating at
/// `i64::MAX`: never negative.
fn unix_time_ms() -> (ms: i64)
    ensures
        ms >= 0,
{
    saturating_ms(epoch_millis())
}

/// The log buffer after appending `bytes` to `logs`: the concatenation, cut
/// to its last `MAX_LOG_BYTES` bytes.
pub open spec fn appended_logs(logs: Seq<u8>, bytes: Seq<u8>) -> Seq<u8> {
    let c = logs + bytes;
    if c.len() > MAX_LOG_BYTES {
        c.subrange(c.len() - MAX_LOG_BYTES, c.len() as int)
    } else {
        c
    }
}

/// A wrapping counter after one more count.
pub open spec fn bumped(n: u64) -> u64 {
    if n == u64::MAX {
        0
    } else {
        (n + 1) as u64
    }
}

/// Health state for one bot slot.
pub struct BotHealthEntry {
    /// Team identity.
    pub team: String,
    /// Driver kind: `"ws"`, `"wasm"`, or `"default"`.
    pub kind: String,
    /// Whether the bot is connected / active.
    pub connected: bool,
    /// Ticks without an intent.
    pub skipped_ticks: u64,
    /// Fault count (fuel exhaustions + traps).
    pub crashes: u64,
    /// Unix time in milliseconds of the last timely response; `-1` means never.
    pub last_seen_ms: i64,
    /// Recent log output, at most `MAX_LOG_BYTES` bytes.
    pub logs: Vec<u8>,
}

/// JSON shape returned by `GET /admin/bots` for one bot.
pub struct BotHealthSnapshot {
    pub team: String,
    pub kind: String,
    pub connected: bool,
    /// Unix time (ms) of the last timely response, or `None`.
    pub last_seen: Option<u64>,
    pub skipped_ticks: u64,
    pub crashes: u64,
    /// Recent log output, decoded as UTF-8 with replacement characters.
    pub recent_logs: String,
}

impl BotHealthEntry {
    /// The log buffer stays within its cap.
    pub open spec fn wf(&self) -> bool {
        self.logs@.len() <= MAX_LOG_BYTES
    }

    /// A fresh entry: connected, no skips, no crashes, never seen, no logs.
    pub fn new(team: &str, kind: &str) -> (e: Self)
        ensures
            e.wf(),
            e.team@ == team@,
            e.kind@ == kind@,
            e.connected,
            e.skipped_ticks == 0,
            e.crashes == 0,
            e.last_seen_ms == -1,
            e.logs@ == Seq::<u8>::empty(),
    {
        BotHealthEntry {
            team: team.to_owned(),
            kind: kind.to_owned(),
            connected: true,
            skipped_ticks: 0,
            crashes: 0,
            last_seen_ms: -1,
            logs: Vec::new(),
        }
    }

    /// Mark the bot connected or disconnected.
    pub fn set_connected(&mut self, v: bool)
        ensures
            final(self).connected == v,
            final(self).team == old(self).team,
            final(self).kind == old(self).kind,
            final(self).skipped_ticks == old(self).skipped_ticks,
            final(self).crashes == old(self).crashes,
            final(self).last_seen_ms == old(self).last_seen_ms,
            final(self).logs@ == old(self).logs@,
            old(self).wf() ==> final(self).wf(),
    {
        self.connected = v;
    }

    /// Record a tick without an intent (missed deadline, fuel exhaustion or
    /// exclusion).  The counter wraps around like the atomic it models.
    pub fn increment_skipped(&mut self)
        ensures
            final(self).skipped_ticks == bumped(old(self).skipped_ticks),
            final(self).team == old(self).team,
            final(self).kind == old(self).kind,
            final(self).connected == old(self).connected,
            final(self).crashes == old(self).crashes,
            final(self).last_seen_ms == old(self).last_seen_ms,
            final(self).logs@ == old(self).logs@,
            old(self).wf() ==> final(self).wf(),
    {
        if self.skipped_ticks == u64::MAX {
            self.skipped_ticks = 0;
        } else {
            self.skipped_ticks = self.skipped_ticks + 1;
        }
    }

    /// Set the absolute crash count.
    pub fn set_crashes(&mut self, n: u64)
        ensures
            final(self).crashes == n,
            final(self).team == old(self).team,
            final(self).kind == old(self).kind,
            final(self).connected == old(self).connected,
            final(self).skipped_ticks == old(self).skipped_ticks,
            final(self).last_seen_ms == old(self).last_seen_ms,
            final(self).logs@ == old(self).logs@,
            old(self).wf() ==> final(self).wf(),
    {
        self.crashes = n;
    }

    /// Record `ms` (Unix time in milliseconds) as "last seen".
    pub fn touch_at(&mut self, ms: i64)
        ensures
            final(self).last_seen_ms == ms,
            final(self).team == old(self).team,
            final(self).kind == old(self).kind,
            final(self).connected == old(self).connected,
            final(self).skipped_ticks == old(self).skipped_ticks,
            final(self).crashes == old(self).crashes,
            final(self).logs@ == old(self).logs@,
            old(self).wf() ==> final(self).wf(),
    {
        self.last_seen_ms = ms;
    }

    /// Record the current wall-clock time as "last seen", and return it.
    ///
    /// Every call reads the clock and stores that reading, whatever was
    /// stored before; the reading itself depends on the clock, and is never
    /// negative, so a snapshot reports it.
    pub fn touch(&mut self) -> (now: i64)
        ensures
            now >= 0,
            final(self).last_seen_ms == now,
            final(self).last_seen_ms >= 0,
            final(self).team == old(self).team,
            final(self).kind == old(self).kind,
            final(self).connected == old(self).connected,
            final(self).skipped_ticks == old(self).skipped_ticks,
            final(self).crashes == old(self).crashes,
            final(self).logs@ == old(self).logs@,
            old(self).wf() ==> final(self).wf(),
    {
        let now = unix_time_ms();
        self.touch_at(now);
        now
    }

    /// Append raw bytes to the log buffer, keeping only the last
    /// `MAX_LOG_BYTES` bytes.
    pub fn append_logs(&mut self, bytes: &[u8])
        requires
            old(self).wf(),
        ensures
            final(self).wf(),
            final(self).logs@ == appended_logs(old(self).logs@, bytes@),
            final(self).team == old(self).team,
            final(self).kind == old(self).kind,
            final(self).connected == old(self).connected,
            final(self).skipped_ticks == old(self).skipped_ticks,
            final(self).crashes == old(self).crashes,
            final(self).last_seen_ms == old(self).last_seen_ms,
    {
        if bytes.len() == 0 {
            proof {
                assert(old(self).logs@ + bytes@ =~= old(self).logs@);
            }
            return;
        }
        let ghost c = self.logs@ + bytes@;
        let free: usize = MAX_LOG_BYTES - self.logs.len();
        if bytes.len() <= free {
            let mut i: usize = 0;
            while i < bytes.len()
                invariant
                    0 <= i <= bytes@.len(),
                    self.logs@ == old(self).logs@ + bytes@.subrange(0, i as int),
                    self.team == old(self).team,
                    self.kind == old(self).kind,
                    self.connected == old(self).connected,
                    self.skipped_ticks == old(self).skipped_ticks,
                    self.crashes == old(self).crashes,
                    self.last_seen_ms == old(self).last_seen_ms,
                decreases bytes@.len() - i,
            {
                self.logs.push(bytes[i]);
                i = i + 1;
                proof {
                    assert(self.logs@ =~= old(self).logs@ + bytes@.subrange(0, i as int));
                }
            }
            proof {
                assert(bytes@.subrange(0, bytes@.len() as int) =~= bytes@);
            }
        } else {
            let ghost cstart: int = c.len() - MAX_LOG_BYTES;
            let mut kept: Vec<u8> = Vec::new();
            if bytes.len() < MAX_LOG_BYTES {
                let keep_old: usize = MAX_LOG_BYTES - bytes.len();
                let from: usize = self.logs.len() - keep_old;
                let mut j: usize = from;
                while j < self.logs.len()
                    invariant
                        c == old(self).logs@ + bytes@,
                        self.logs@ == old(self).logs@,
                        cstart == from,
                        from <= j <= self.logs@.len(),
                        kept@ == c.subrange(cstart, j as int),
                    decreases self.logs@.len() - j,
                {
                    proof {
                        assert(c[j as int] == self.logs@[j as int]);
                    }
                    kept.push(self.logs[j]);
                    j = j + 1;
                    proof {
                        assert(kept@ =~= c.subrange(cstart, j as int));
                    }
                }
                let mut k: usize = 0;
                while k < bytes.len()
                    invariant
                        c == old(self).logs@ + bytes@,
                        self.logs@ == old(self).logs@,
                        cstart == from,
                        from <= self.logs@.len(),
                        0 <= k <= bytes@.len(),
                        kept@ == c.subrange(cstart, self.logs@.len() + k),
                    decreases bytes@.len() - k,
                {
                    proof {
                        assert(c[self.logs@.len() + k] == bytes@[k as int]);
                    }
                    kept.push(bytes[k]);
                    k = k + 1;
                    proof {
                        assert(kept@ =~= c.subrange(cstart, self.logs@.len() + k));
                    }
                }
            } else {
                let from: usize = bytes.len() - MAX_LOG_BYTES;
                let mut k: usize = from;
                while k < bytes.len()
                    invariant
                        c == old(self).logs@ + bytes@,
                        self.logs@ == old(self).logs@,
                        cstart == self.logs@.len() + from,
                        from <= k <= bytes@.len(),
                        kept@ == c.subrange(cstart, self.logs@.len() + k),
                    decreases bytes@.len() - k,
                {
                    proof {
                        assert(c[self.logs@.len() + k] == bytes@[k as int]);
                    }
                    kept.push(bytes[k]);
                    k = k + 1;
                    proof {
                        assert(kept@ =~= c.subrange(cstart, self.logs@.len() + k));
                    }
                }
            }
            self.logs = kept;
        }
    }

    /// A consistent snapshot for the admin listing.
    pub fn snapshot(&self) -> (s: BotHealthSnapshot)
        ensures
            snapshot_of(s, *self),
            vstd::utf8::valid_utf8(self.logs@) ==> s.recent_logs@ == vstd::utf8::decode_utf8(self.logs@),
            self.logs@.len() == 0 ==> s.recent_logs@ == Seq::<char>::empty(),
    {
        let last_seen = if self.last_seen_ms >= 0 {
            Some(self.last_seen_ms as u64)
        } else {
            None
        };
        BotHealthSnapshot {
            team: self.team.clone(),
            kind: self.kind.clone(),
            connected: self.connected,
            last_seen,
            skipped_ticks: self.skipped_ticks,
            crashes: self.crashes,
            recent_logs: lossy_text(self.logs.as_slice()),
        }
    }
}

/// `s` is the snapshot of entry `e`.
pub open spec fn snapshot_of(s: BotHealthSnapshot, e: BotHealthEntry) -> bool {
    &&& s.team@ == e.team@
    &&& s.kind@ == e.kind@
    &&& s.connected == e.connected
    &&& s.last_seen == (if e.last_seen_ms >= 0 {
        Some(e.last_seen_ms as u64)
    } else {
        None
    })
    &&& s.skipped_ticks == e.skipped_ticks
    &&& s.crashes == e.crashes
    &&& s.recent_logs@ == utf8_lossy(e.logs@)
}

/// Law: the time a bot was last seen is what its snapshot reports: an entry
/// touched at `ms` (any reading, which is never negative) is reported as
/// seen at `ms`, and an entry never touched is reported as not seen.
pub proof fn law_last_seen_is_reported(s: BotHealthSnapshot, e: BotHealthEntry)
    requires
        snapshot_of(s, e),
    ensures
        e.last_seen_ms >= 0 ==> s.last_seen == Some(e.last_seen_ms as u64) && s.last_seen->0 == e.last_seen_ms,
        e.last_seen_ms < 0 ==> s.last_seen is None,
{
}

/// Event-scoped registry of health entries keyed by team.
pub struct BotHealthStore {
    entries: StrMap<BotHealthEntry>,
}

impl View for BotHealthStore {
    type V = Map<Seq<char>, BotHealthEntry>;

    closed spec fn view(&self) -> Map<Seq<char>, BotHealthEntry> {
        self.entries@
    }
}

impl BotHealthStore {
    /// The map is well formed and every entry is filed under its own team.
    pub closed spec fn wf(&self) -> bool {
        &&& self.entries.wf()
        &&& forall|k: Seq<char>| #[trigger] self.entries@.contains_key(k) ==> self.entries@[k].team@ == k
    }

    /// An empty store.
    pub fn new() -> (r: Self)
        ensures
            r.wf(),
            r@ == Map::<Seq<char>, BotHealthEntry>::empty(),
    {
        BotHealthStore { entries: StrMap::new() }
    }

    /// Register (or replace) the entry for `entry.team`.
    pub fn register(&mut self, entry: BotHealthEntry)
        requires
            old(self).wf(),
        ensures
            final(self).wf(),
            final(self)@ == old(self)@.insert(entry.team@, entry),
    {
        let key = entry.team.clone();
        self.entries.insert(key, entry);
    }

    /// The entry registered for `team`, if any.
    pub fn get(&self, team: &str) -> (r: Option<&BotHealthEntry>)
        requires
            self.wf(),
        ensures
            match r {
                Some(e) => self@.contains_key(team@) && *e == self@[team@] && e.team@ == team@,
                None => !self@.contains_key(team@),
            },
    {
        self.entries.get(team)
    }

    /// Remove and return the entry for `team`, so that it can be updated and
    /// registered again.
    pub fn take(&mut self, team: &str) -> (r: Option<BotHealthEntry>)
        requires
            old(self).wf(),
        ensures
            final(self).wf(),
            final(self)@ == old(self)@.remove(team@),
            match r {
                Some(e) => old(self)@.contains_key(team@) && e == old(self)@[team@] && e.team@ == team@,
                None => !old(self)@.contains_key(team@),
            },
    {
        self.entries.remove(team)
    }

    /// Snapshots of every entry, sorted by team.
    pub fn list_snapshots(&self) -> (r: Vec<BotHealthSnapshot>)
        requires
            self.wf(),
        ensures
            r@.len() == self@.dom().len(),
            forall|i: int|
                0 <= i < r@.len() ==> self@.contains_key(#[trigger] r@[i].team@) && snapshot_of(
                    r@[i],
                    self@[r@[i].team@],
                ),
            forall|k: Seq<char>|
                self@.contains_key(k) ==> exists|i: int| 0 <= i < r@.len() && #[trigger] r@[i].team@ == k,
            forall|i: int, j: int|
                0 <= i < j < r@.len() ==> text_le(#[trigger] r@[i].team@, #[trigger] r@[j].team@),
            forall|i: int, j: int|
                0 <= i < r@.len() && 0 <= j < r@.len() && i != j ==> #[trigger] r@[i].team@
                    != #[trigger] r@[j].team@,
    {
        let keys = self.entries.keys();
        let ghost keys_seq = keys@;
        let sorted = sort_texts(keys);
        proof {
            assert(texts(keys_seq).no_duplicates()) by {
                assert forall|a: int, c: int|
                    0 <= a < texts(keys_seq).len() && 0 <= c < texts(keys_seq).len() && a != c implies texts(
                    keys_seq,
                )[a] != texts(keys_seq)[c] by {
                    assert(keys_seq[a]@ != keys_seq[c]@);
                }
            }
            texts(keys_seq).lemma_multiset_has_no_duplicates();
            texts(sorted@).lemma_multiset_has_no_duplicates_conv();
            assert forall|a: int| 0 <= a < sorted@.len() implies self@.contains_key(#[trigger] sorted@[a]@) by {
                assert(texts(sorted@)[a] == sorted@[a]@);
                assert(occurs_in(texts(sorted@)[a], texts(keys_seq)));
                let j = choose|j: int| 0 <= j < texts(keys_seq).len() && texts(keys_seq)[j] == texts(sorted@)[a];
                assert(texts(keys_seq)[j] == keys_seq[j]@);
            }
        }
        let n = sorted.len();
        let mut r: Vec<BotHealthSnapshot> = Vec::new();
        let mut i: usize = 0;
        while i < n
            invariant
                self.wf(),
                n == sorted@.len(),
                n == self@.dom().len(),
                texts_sorted(texts(sorted@)),
                forall|a: int| 0 <= a < n ==> self@.contains_key(#[trigger] sorted@[a]@),
                0 <= i <= n,
                r@.len() == i,
                forall|a: int|
                    0 <= a < i ==> #[trigger] r@[a].team@ == sorted@[a]@ && snapshot_of(
                        r@[a],
                        self@[sorted@[a]@],
                    ),
            decreases n - i,
        {
            let e = self.entries.get(sorted[i].as_str());
            match e {
                Some(entry) => {
                    r.push(entry.snapshot());
                },
                None => {
                    proof {
                        assert(false);
                    }
                },
            }
            i = i + 1;
        }
        proof {
            assert forall|a: int, c: int|
                0 <= a < r@.len() && 0 <= c < r@.len() && a != c implies #[trigger] r@[a].team@
                    != #[trigger] r@[c].team@ by {
                assert(texts(sorted@)[a] == sorted@[a]@);
                assert(texts(sorted@)[c] == sorted@[c]@);
            }
            assert forall|a: int, c: int| 0 <= a < c < r@.len() implies text_le(
                #[trigger] r@[a].team@,
                #[trigger] r@[c].team@,
            ) by {
                assert(texts(sorted@)[a] == sorted@[a]@);
                assert(texts(sorted@)[c] == sorted@[c]@);
            }
            assert forall|k: Seq<char>| self@.contains_key(k) implies exists|a: int|
                0 <= a < r@.len() && #[trigger] r@[a].team@ == k by {
                assert(exists|i: int| 0 <= i < keys_seq.len() && #[trigger] keys_seq[i]@ == k);
                let i0 = choose|i0: int| 0 <= i0 < keys_seq.len() && #[trigger] keys_seq[i0]@ == k;
                assert(texts(keys_seq)[i0] == k);
                assert(occurs_in(k, texts(sorted@)));
                let a0 = choose|a0: int| 0 <= a0 < texts(sorted@).len() && texts(sorted@)[a0] == k;
                assert(texts(sorted@)[a0] == sorted@[a0]@);
                assert(r@[a0].team@ == k);
            }
        }
        r
    }
}

/// Permanent (per-event) set of disqualified team names.
pub struct DqStore {
    disqualified: StrSet,
}

impl View for DqStore {
    type V = Set<Seq<char>>;

    closed spec fn view(&self) -> Set<Seq<char>> {
        self.disqualified@
    }
}

impl DqStore {
    /// The underlying set is well formed.
    pub closed spec fn wf(&self) -> bool {
        self.disqualified.wf()
    }

    /// No team disqualified.
    pub fn new() -> (r: Self)
        ensures
            r.wf(),
            r@ == Set::<Seq<char>>::empty(),
    {
        DqStore { disqualified: StrSet::new() }
    }

    /// Disqualify `team` for the rest of the event.
    pub fn disqualify(&mut self, team: &str)
        requires
            old(self).wf(),
        ensures
            final(self).wf(),
            final(self)@ == old(self)@.insert(team@),
    {
        self.disqualified.insert(team);
    }

    /// Whether `team` has been disqualified.
    pub fn is_disqualified(&self, team: &str) -> (b: bool)
        requires
            self.wf(),
        ensures
            b == self@.contains(team@),
    {
        self.disqualified.contains(team)
    }
}

/// The per-tick gate in front of a bot driver: a disqualified team is excluded
/// from the tick (its driver is not asked) and its health entry is marked
/// disconnected; anyone else passes with the entry untouched.
pub fn exclusion_check(dq: &DqStore, team: &str, health: &mut BotHealthEntry) -> (excluded: bool)
    requires
        dq.wf(),
    ensures
        excluded == dq@.contains(team@),
        excluded ==> !final(health).connected,
        excluded ==> final(health).team == old(health).team && final(health).kind == old(health).kind,
        excluded ==> final(health).skipped_ticks == old(health).skipped_ticks
            && final(health).crashes == old(health).crashes,
        excluded ==> final(health).last_seen_ms == old(health).last_seen_ms
            && final(health).logs@ == old(health).logs@,
        !excluded ==> *final(health) == *old(health),
{
    if dq.is_disqualified(team) {
        health.set_connected(false);
        true
    } else {
        false
    }
}

} // verus!
