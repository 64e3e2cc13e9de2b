//! Which recordings are removed: those that a new one replaces, those that are too old, and those
//! that no longer fit.

use vstd::prelude::*;

use crate::config::Config;
use crate::names::{is_recording_name, recording_name};
use crate::paths::{file_name_on, find_file_name_on};
use crate::platform::Platform;
use crate::scan::{same_str, same_text};
use crate::text::chars_of;

verus! {

/// The positions below `n` that `chosen` holds of, in order.
pub open spec fn positions(n: int, chosen: spec_fn(int) -> bool) -> Seq<int>
    decreases n,
{
    if n <= 0 {
        seq![]
    } else if chosen(n - 1) {
        positions(n - 1, chosen).push(n - 1)
    } else {
        positions(n - 1, chosen)
    }
}

/// Listed are the positions below `n` that `chosen` holds of, all of them and no others.
pub proof fn law_positions(n: int, chosen: spec_fn(int) -> bool)
    ensures
        forall|k: int|
            0 <= k < positions(n, chosen).len() ==> 0 <= #[trigger] positions(n, chosen)[k] < n
                && chosen(positions(n, chosen)[k]),
        forall|i: int|
            0 <= i < n && #[trigger] chosen(i) ==> positions(n, chosen).contains(i),
    decreases n,
{
    if n > 0 {
        law_positions(n - 1, chosen);
        let before = positions(n - 1, chosen);
        let all = positions(n, chosen);
        assert forall|i: int| 0 <= i < n && #[trigger] chosen(i) implies all.contains(i) by {
            if i == n - 1 {
                assert(all[all.len() - 1] == i);
            } else {
                let k = choose|k: int| 0 <= k < before.len() && before[k] == i;
                assert(all[k] == i);
            }
        }
    }
}

/// A list of positions.
pub open spec fn as_ints(list: Seq<usize>) -> Seq<int> {
    Seq::new(list.len(), |k: int| list[k] as int)
}

/// Whether the entry called `name` is an earlier recording than the one at `keep`.
pub open spec fn superseded(platform: Platform, keep: Seq<char>, name: Seq<char>) -> bool {
    match file_name_on(keep, platform) {
        Some(kept) => name != kept && recording_name(name),
        None => false,
    }
}

/// Chooses which entries of the output directory a new recording at `keep` replaces: the
/// `discord-*.mkv` recordings but the new one. Exports, clips and foreign files stay.
pub fn prune_old_recordings(platform: Platform, keep: &str, names: &[String]) -> (r: Vec<usize>)
    ensures
        as_ints(r@) == positions(
            names@.len() as int,
            |i: int| superseded(platform, keep@, names@[i]@),
        ),
{
    let mut r: Vec<usize> = Vec::new();
    let ghost chosen = |i: int| superseded(platform, keep@, names@[i]@);
    let chars = chars_of(keep);
    let kept = match find_file_name_on(chars.as_slice(), platform) {
        Some((from, to)) => Some(vstd::slice::slice_subrange(chars.as_slice(), from, to)),
        None => None,
    };
    let mut i: usize = 0;
    assert(as_ints(r@) =~= positions(0, chosen));
    while i < names.len()
        invariant
            i <= names@.len(),
            chosen == (|k: int| superseded(platform, keep@, names@[k]@)),
            match kept {
                Some(k) => file_name_on(keep@, platform) == Some(k@),
                None => file_name_on(keep@, platform) is None,
            },
            as_ints(r@) == positions(i as int, chosen),
        decreases names@.len() - i,
    {
        let name = &names[i];
        let replaced = match kept {
            Some(k) => !same_text(chars_of(name.as_str()).as_slice(), k) && is_recording_name(
                name.as_str(),
            ),
            None => false,
        };
        let ghost before = r@;
        assert(replaced == chosen(i as int));
        if replaced {
            r.push(i);
            assert(as_ints(r@) =~= as_ints(before).push(i as int));
        }
        i += 1;
    }
    r
}

/// A new recording replaces neither itself nor anything but earlier recordings.
pub proof fn law_prune_spares(platform: Platform, keep: Seq<char>, name: Seq<char>)
    ensures
        file_name_on(keep, platform) == Some(name) ==> !superseded(
            platform,
            keep,
            name,
        ),
        !recording_name(name) ==> !superseded(platform, keep, name),
{
}

/// An entry of the output directory.
pub struct Entry {
    pub name: String,
    /// Its size and time, where they could be read.
    pub meta: Option<Meta>,
}

/// The size and time of a file.
#[derive(Debug, Clone, Copy, PartialEq, Eq)]
pub struct Meta {
    /// When it was last written, in nanoseconds since the epoch, where that is known.
    pub modified: Option<i128>,
    pub size: u64,
}

/// What recordings are held to.
#[derive(Debug, Clone, Copy, PartialEq, Eq)]
pub struct Limits {
    /// The greatest age, in seconds.
    pub max_age_s: Option<u64>,
    /// The greatest number of bytes in all.
    pub max_total_bytes: Option<u64>,
}

impl Limits {
    /// The limits in the settings, where 0 sets none.
    pub open spec fn from_settings(cfg: Config) -> Limits {
        Limits {
            max_age_s: if cfg.retention_days > 0 {
                Some((cfg.retention_days as nat * 86_400) as u64)
            } else {
                None
            },
            max_total_bytes: if cfg.retention_max_gb > 0 {
                Some((cfg.retention_max_gb as nat * 1_000_000_000) as u64)
            } else {
                None
            },
        }
    }

    /// Reads the limits in the settings; 0 sets none.
    pub fn of(cfg: &Config) -> (r: Limits)
        ensures
            r == Limits::from_settings(*cfg),
    {
        Limits {
            max_age_s: if cfg.retention_days > 0 {
                Some((cfg.retention_days as u64) * 86_400)
            } else {
                None
            },
            max_total_bytes: if cfg.retention_max_gb > 0 {
                Some((cfg.retention_max_gb as u64) * 1_000_000_000)
            } else {
                None
            },
        }
    }
}

/// A directory to be purged: its entries, the name that must stay, and the time.
pub struct Purge {
    pub entries: Seq<Entry>,
    pub keep: Option<Seq<char>>,
    pub limits: Limits,
    pub now: int,
}

impl Purge {
    /// Whether the entry is a recording that may be removed.
    pub open spec fn candidate(self, i: int) -> bool {
        &&& 0 <= i < self.entries.len()
        &&& self.keep != Some(self.entries[i].name@)
        &&& recording_name(self.entries[i].name@)
        &&& self.entries[i].meta is Some
    }

    /// When the entry was last written; now, where that is not known.
    pub open spec fn written(self, i: int) -> int {
        match (self.entries[i].meta->0).modified {
            Some(t) => t as int,
            None => self.now,
        }
    }

    /// The size of the entry in bytes.
    pub open spec fn size(self, i: int) -> nat {
        (self.entries[i].meta->0).size as nat
    }

    /// Whether the entry is older than allowed.
    pub open spec fn too_old(self, i: int) -> bool {
        match self.limits.max_age_s {
            Some(s) => self.now - self.written(i) > s * 1_000_000_000,
            None => false,
        }
    }

    /// Whether the entry is a recording that is not too old.
    pub open spec fn young(self, i: int) -> bool {
        self.candidate(i) && !self.too_old(i)
    }

    /// Whether `j` is served before `i`, or is `i`: the newer first, and of two of the same time
    /// the one listed first.
    pub open spec fn ahead(self, j: int, i: int) -> bool {
        self.written(j) > self.written(i) || (self.written(j) == self.written(i) && j <= i)
    }

    /// The bytes of the first `n` entries that `counted` holds of.
    pub open spec fn total(self, counted: spec_fn(int) -> bool, n: int) -> nat
        decreases n,
    {
        if n <= 0 {
            0
        } else {
            self.total(counted, n - 1) + if counted(n - 1) {
                self.size(n - 1)
            } else {
                0
            }
        }
    }

    /// The bytes of the young recordings up to and with `i`, the newer first.
    pub open spec fn used_through(self, i: int) -> nat {
        self.total(|j: int| self.young(j) && self.ahead(j, i), self.entries.len() as int)
    }

    /// Whether the young recording no longer fits. The sum is kept in 64 bits and stays at their
    /// maximum, so that the greatest limit of all is never passed.
    pub open spec fn over_budget(self, i: int) -> bool {
        match self.limits.max_total_bytes {
            Some(budget) => budget < u64::MAX && self.used_through(i) > budget,
            None => false,
        }
    }

    /// Whether the entry is removed.
    pub open spec fn removed(self, i: int) -> bool {
        self.candidate(i) && (self.too_old(i) || self.over_budget(i))
    }
}

fn is_candidate(entry: &Entry, keep: Option<&str>) -> (r: Option<Meta>)
    ensures
        match r {
            Some(m) => entry.meta == Some(m) && recording_name(entry.name@) && (
            keep matches Some(k) ==> k@ != entry.name@),
            None => entry.meta is None || !recording_name(entry.name@) || (keep matches Some(k)
                && k@ == entry.name@),
        },
{
    let kept = match keep {
        Some(k) => same_str(k, entry.name.as_str()),
        None => false,
    };
    if kept || !is_recording_name(entry.name.as_str()) {
        None
    } else {
        entry.meta
    }
}

fn is_too_old(written: i128, now: i128, max_age_s: Option<u64>) -> (r: bool)
    ensures
        r == match max_age_s {
            Some(s) => now - written > s * 1_000_000_000,
            None => false,
        },
{
    match max_age_s {
        Some(s) => {
            let max: i128 = (s as i128) * 1_000_000_000;
            match now.checked_sub(written) {
                Some(age) => age > max,
                None => now > written,
            }
        },
        None => false,
    }
}

/// The state of the purge that the arguments describe.
pub open spec fn purge_of(
    entries: Seq<Entry>,
    keep: Option<&str>,
    limits: Limits,
    now: i128,
) -> Purge {
    Purge {
        entries,
        keep: match keep {
            Some(k) => Some(k@),
            None => None,
        },
        limits,
        now: now as int,
    }
}

/// Whether a table holds the time and size of every candidate, and nothing of the others.
spec fn tabulated(p: Purge, table: Seq<Option<(i128, u64)>>) -> bool {
    forall|j: int|
        0 <= j < table.len() ==> match #[trigger] table[j] {
            Some((written, size)) => p.candidate(j) && written == p.written(j) && size == p.size(j),
            None => !p.candidate(j),
        }
}

fn tabulate(entries: &[Entry], keep: Option<&str>, limits: Limits, now: i128) -> (table: Vec<
    Option<(i128, u64)>,
>)
    ensures
        table@.len() == entries@.len(),
        tabulated(purge_of(entries@, keep, limits, now), table@),
{
    let mut table: Vec<Option<(i128, u64)>> = Vec::new();
    let mut i: usize = 0;
    while i < entries.len()
        invariant
            i <= entries@.len(),
            table@.len() == i,
            tabulated(purge_of(entries@, keep, limits, now), table@),
        decreases entries@.len() - i,
    {
        match is_candidate(&entries[i], keep) {
            Some(meta) => {
                let written: i128 = match meta.modified {
                    Some(t) => t,
                    None => now,
                };
                table.push(Some((written, meta.size)));
            },
            None => {
                table.push(None);
            },
        }
        i += 1;
    }
    table
}

/// Adds up the young recordings up to and with `i`, the newer first, in 64 bits at most.
fn use_through(
    table: &[Option<(i128, u64)>],
    Ghost(p): Ghost<Purge>,
    now: i128,
    max_age_s: Option<u64>,
    i: usize,
    written: i128,
) -> (used: u64)
    requires
        tabulated(p, table@),
        table@.len() == p.entries.len(),
        i < table@.len(),
        now == p.now,
        max_age_s == p.limits.max_age_s,
        written == p.written(i as int),
    ensures
        used == if p.used_through(i as int) < u64::MAX {
            p.used_through(i as int) as u64
        } else {
            u64::MAX
        },
{
    let ghost counted = |j: int| p.young(j) && p.ahead(j, i as int);
    let mut used: u64 = 0;
    let mut j: usize = 0;
    while j < table.len()
        invariant
            tabulated(p, table@),
            j <= table@.len(),
            now == p.now,
            max_age_s == p.limits.max_age_s,
            counted == (|k: int| p.young(k) && p.ahead(k, i as int)),
            written == p.written(i as int),
            used == if p.total(counted, j as int) < u64::MAX {
                p.total(counted, j as int) as u64
            } else {
                u64::MAX
            },
        decreases table@.len() - j,
    {
        let counts = match table[j] {
            Some((other, _)) => !is_too_old(other, now, max_age_s) && (other > written || (other
                == written && j <= i)),
            None => false,
        };
        assert(counts == counted(j as int));
        if counts {
            if let Some((_, size)) = table[j] {
                used = used.saturating_add(size);
            }
        }
        j += 1;
    }
    used
}

/// Chooses which entries of the output directory to remove. First go the recordings that are
/// too old; then, of the others, the oldest until the rest fits. Only `discord-*.mkv` recordings
/// are ever removed, and never the one called `keep`.
pub fn prune_by_retention(
    entries: &[Entry],
    keep: Option<&str>,
    limits: Limits,
    now: i128,
) -> (r: Vec<usize>)
    ensures
        as_ints(r@) == positions(
            entries@.len() as int,
            |i: int| purge_of(entries@, keep, limits, now).removed(i),
        ),
{
    let ghost p = purge_of(entries@, keep, limits, now);
    let ghost chosen = |i: int| purge_of(entries@, keep, limits, now).removed(i);
    let table = tabulate(entries, keep, limits, now);
    let mut r: Vec<usize> = Vec::new();
    let mut i: usize = 0;
    assert(as_ints(r@) =~= positions(0, chosen));
    while i < entries.len()
        invariant
            i <= entries@.len(),
            table@.len() == entries@.len(),
            tabulated(p, table@),
            p == purge_of(entries@, keep, limits, now),
            chosen == (|k: int| purge_of(entries@, keep, limits, now).removed(k)),
            as_ints(r@) == positions(i as int, chosen),
        decreases entries@.len() - i,
    {
        let gone = match (table[i], limits.max_total_bytes) {
            (Some((written, _)), Some(budget)) => is_too_old(written, now, limits.max_age_s)
                || use_through(table.as_slice(), Ghost(p), now, limits.max_age_s, i, written)
                > budget,
            (Some((written, _)), None) => is_too_old(written, now, limits.max_age_s),
            (None, _) => false,
        };
        assert(gone == chosen(i as int));
        let ghost before = r@;
        if gone {
            r.push(i);
            assert(as_ints(r@) =~= as_ints(before).push(i as int));
        }
        i += 1;
    }
    r
}

/// Nothing but recordings is removed, and never the one to be kept.
pub proof fn law_purge_spares(p: Purge, i: int)
    requires
        p.removed(i),
    ensures
        recording_name(p.entries[i].name@),
        p.keep != Some(p.entries[i].name@),
{
}

/// Without limits nothing is removed.
pub proof fn law_no_limit_removes_nothing(p: Purge, i: int)
    requires
        p.limits.max_age_s is None,
        p.limits.max_total_bytes is None,
    ensures
        !p.removed(i),
{
}

/// No recording that is left is too old.
pub proof fn law_nothing_old_is_left(p: Purge, i: int, s: u64)
    requires
        p.candidate(i),
        !p.removed(i),
        p.limits.max_age_s == Some(s),
    ensures
        p.now - p.written(i) <= s * 1_000_000_000,
{
}

proof fn lemma_total_grows(
    p: Purge,
    few: spec_fn(int) -> bool,
    many: spec_fn(int) -> bool,
    n: int,
)
    requires
        forall|i: int| 0 <= i < n && #[trigger] few(i) ==> many(i),
    ensures
        p.total(few, n) <= p.total(many, n),
    decreases n,
{
    if n > 0 {
        lemma_total_grows(p, few, many, n - 1);
        assert(few(n - 1) ==> many(n - 1));
    }
}

/// For want of room the oldest go first: what is left is newer than what is removed.
pub proof fn law_oldest_go_first(p: Purge, newer: int, older: int)
    requires
        p.young(newer),
        p.young(older),
        p.ahead(newer, older),
        p.removed(newer),
    ensures
        p.removed(older),
{
    let n = p.entries.len() as int;
    let few = |j: int| p.young(j) && p.ahead(j, newer);
    let many = |j: int| p.young(j) && p.ahead(j, older);
    lemma_total_grows(p, few, many, n);
}

/// Whether the recording is left.
pub open spec fn left(p: Purge, i: int) -> bool {
    p.candidate(i) && !p.removed(i)
}

proof fn lemma_last_left(p: Purge, n: int) -> (last: int)
    requires
        0 <= n <= p.entries.len(),
    ensures
        if exists|i: int| 0 <= i < n && left(p, i) {
            &&& 0 <= last < n
            &&& left(p, last)
            &&& forall|i: int| 0 <= i < n && #[trigger] left(p, i) ==> p.ahead(i, last)
        } else {
            last == -1
        },
    decreases n,
{
    if n == 0 {
        -1
    } else {
        let before = lemma_last_left(p, n - 1);
        if !left(p, n - 1) {
            assert forall|i: int| 0 <= i < n && left(p, i) implies i < n - 1 by {}
            if exists|i: int| 0 <= i < n && left(p, i) {
                let i = choose|i: int| 0 <= i < n && left(p, i);
                assert(0 <= i < n - 1 && left(p, i));
            }
            before
        } else if before == -1 || p.ahead(before, n - 1) {
            assert forall|i: int| 0 <= i < n && #[trigger] left(p, i) implies p.ahead(
                i,
                n - 1,
            ) by {
                if i < n - 1 {
                    assert(p.ahead(i, before));
                }
            }
            n - 1
        } else {
            before
        }
    }
}

proof fn lemma_nothing_counts(p: Purge, counted: spec_fn(int) -> bool, n: int)
    requires
        forall|i: int| 0 <= i < n ==> !#[trigger] counted(i),
    ensures
        p.total(counted, n) == 0,
    decreases n,
{
    if n > 0 {
        lemma_nothing_counts(p, counted, n - 1);
    }
}

/// What is left fits: its bytes are within the limit.
pub proof fn law_what_is_left_fits(p: Purge, budget: u64)
    requires
        p.limits.max_total_bytes == Some(budget),
        budget < u64::MAX,
    ensures
        p.total(|i: int| left(p, i), p.entries.len() as int) <= budget,
{
    let n = p.entries.len() as int;
    let last = lemma_last_left(p, n);
    let kept = |i: int| left(p, i);
    if exists|i: int| 0 <= i < n && left(p, i) {
        let through = |j: int| p.young(j) && p.ahead(j, last);
        assert forall|i: int| 0 <= i < n && #[trigger] kept(i) implies through(i) by {
            assert(left(p, i));
        }
        lemma_total_grows(p, kept, through, n);
    } else {
        lemma_nothing_counts(p, kept, n);
    }
}

/// No more is removed than has to be: a recording that is not too old stays wherever all the
/// young recordings up to it, the newer first, fit.
pub proof fn law_no_more_than_needed(p: Purge, i: int, budget: u64)
    requires
        p.young(i),
        p.limits.max_total_bytes == Some(budget),
        p.used_through(i) <= budget,
    ensures
        !p.removed(i),
{
}

/// The bytes of those of the first `n` entries that `counted` holds of; an entry whose size is
/// not known has none.
pub open spec fn bytes_of(entries: Seq<Entry>, counted: spec_fn(int) -> bool, n: int) -> nat
    decreases n,
{
    if n <= 0 {
        0
    } else {
        bytes_of(entries, counted, n - 1) + match entries[n - 1].meta {
            Some(meta) => if counted(n - 1) {
                meta.size as nat
            } else {
                0
            },
            None => 0,
        }
    }
}

/// How long before `now` an entry was last written, in nanoseconds; an entry whose time is not
/// known was written now.
pub open spec fn age_of(entry: Entry, now: int) -> int {
    match entry.meta {
        Some(meta) => match meta.modified {
            Some(t) => now - t,
            None => 0,
        },
        None => 0,
    }
}

/// The bytes of the recordings that are at least as new as the one at `i`, none of them older than
/// `max_age_s` seconds. Of two that are as old, the one listed first is the newer.
pub open spec fn newer_bytes(p: Purge, i: int, max_age_s: Option<u64>) -> nat {
    bytes_of(
        p.entries,
        |j: int|
            {
                &&& recording_name(p.entries[j].name@)
                &&& p.keep != Some(p.entries[j].name@)
                &&& max_age_s matches Some(s) ==> age_of(p.entries[j], p.now) <= s * 1_000_000_000
                &&& age_of(p.entries[j], p.now) < age_of(p.entries[i], p.now) || (age_of(
                    p.entries[j],
                    p.now,
                ) == age_of(p.entries[i], p.now) && j <= i)
            },
        p.entries.len() as int,
    )
}

proof fn lemma_same_bytes(p: Purge, a: spec_fn(int) -> bool, b: spec_fn(int) -> bool, n: int)
    requires
        0 <= n <= p.entries.len(),
        forall|j: int| 0 <= j < n ==> (#[trigger] a(j) <==> b(j) && p.entries[j].meta is Some),
    ensures
        p.total(a, n) == bytes_of(p.entries, b, n),
    decreases n,
{
    if n > 0 {
        lemma_same_bytes(p, a, b, n - 1);
        assert(a(n - 1) <==> b(n - 1) && p.entries[n - 1].meta is Some);
    }
}

/// What is removed and what is not: a recording goes exactly where it was written longer ago than
/// the limit allows, or where those at least as new that are not too old, it among them, take up
/// more than the limit allows. The one to be kept, foreign files, and entries that cannot be
/// looked at are never touched.
pub proof fn law_removed_for_a_reason(p: Purge, i: int)
    requires
        0 <= i < p.entries.len(),
    ensures
        p.removed(i) <==> {
            &&& recording_name(p.entries[i].name@)
            &&& p.keep != Some(p.entries[i].name@)
            &&& p.entries[i].meta is Some
            &&& {
                ||| p.limits.max_age_s matches Some(s) && age_of(p.entries[i], p.now) > s
                    * 1_000_000_000
                ||| p.limits.max_total_bytes matches Some(budget) && budget < u64::MAX
                    && newer_bytes(p, i, p.limits.max_age_s) > budget
            }
        },
{
    let max_age_s = p.limits.max_age_s;
    let a = |j: int| p.young(j) && p.ahead(j, i);
    let b = |j: int|
        {
            &&& recording_name(p.entries[j].name@)
            &&& p.keep != Some(p.entries[j].name@)
            &&& max_age_s matches Some(s) ==> age_of(p.entries[j], p.now) <= s * 1_000_000_000
            &&& age_of(p.entries[j], p.now) < age_of(p.entries[i], p.now) || (age_of(
                p.entries[j],
                p.now,
            ) == age_of(p.entries[i], p.now) && j <= i)
        };
    if p.candidate(i) {
        assert forall|j: int| 0 <= j < p.entries.len() implies (#[trigger] a(j) <==> b(j)
            && p.entries[j].meta is Some) by {}
        lemma_same_bytes(p, a, b, p.entries.len() as int);
    }
}

/// With a limit on age alone, a recording goes exactly where it is older than that.
pub proof fn law_age_alone(p: Purge, i: int, s: u64)
    requires
        p.limits.max_age_s == Some(s),
        p.limits.max_total_bytes is None,
        0 <= i < p.entries.len(),
        recording_name(p.entries[i].name@),
        p.keep != Some(p.entries[i].name@),
        p.entries[i].meta matches Some(meta) && meta.modified is Some,
    ensures
        p.removed(i) <==> p.now - ((p.entries[i].meta->0).modified->0) > s * 1_000_000_000,
{
}

/// A limit that is wider, or none, removes nothing that a narrower one leaves, where nothing is
/// limited but age.
pub proof fn law_wider_limit_spares(a: Purge, b: Purge, i: int)
    requires
        a.entries == b.entries,
        a.keep == b.keep,
        a.now == b.now,
        a.limits.max_total_bytes is None,
        b.limits.max_total_bytes is None,
        b.limits.max_age_s matches Some(wide) ==> a.limits.max_age_s matches Some(narrow) && narrow
            <= wide,
    ensures
        b.removed(i) ==> a.removed(i),
{
}

/// The limits of the settings are whole days and whole gigabytes, and 0 sets none.
pub proof fn law_limits_of_the_settings(cfg: Config)
    ensures
        cfg.retention_days == 0 <==> Limits::from_settings(cfg).max_age_s is None,
        cfg.retention_max_gb == 0 <==> Limits::from_settings(cfg).max_total_bytes is None,
        Limits::from_settings(cfg).max_age_s matches Some(s) ==> s == cfg.retention_days * 86_400,
        Limits::from_settings(cfg).max_total_bytes matches Some(b) ==> b == cfg.retention_max_gb
            * 1_000_000_000,
{
}

/// A new recording replaces every other recording, and nothing else; one without a name replaces
/// none.
pub proof fn law_new_recording_replaces_the_others(
    platform: Platform,
    keep: Seq<char>,
    kept: Seq<char>,
    name: Seq<char>,
)
    ensures
        file_name_on(keep, platform) == Some(kept) ==> (superseded(platform, keep, name) <==> name
            != kept && recording_name(name)),
        file_name_on(keep, platform) is None ==> !superseded(platform, keep, name),
{
}

/// The positions are listed from the first to the last, none twice.
pub proof fn law_positions_ascend(n: int, chosen: spec_fn(int) -> bool)
    ensures
        forall|k: int, l: int|
            0 <= k < l < positions(n, chosen).len() ==> #[trigger] positions(n, chosen)[k]
                < #[trigger] positions(n, chosen)[l],
    decreases n,
{
    if n > 0 {
        law_positions_ascend(n - 1, chosen);
        law_positions(n - 1, chosen);
        let before = positions(n - 1, chosen);
        let all = positions(n, chosen);
        assert forall|k: int, l: int| 0 <= k < l < all.len() implies #[trigger] all[k]
            < #[trigger] all[l] by {
            assert(all[k] == before[k]);
            if l < before.len() {
                assert(all[l] == before[l]);
            }
        }
    }
}

/// A purge looks at the entries, the name to be kept, the limits and the time that it is given.
pub proof fn law_purge_is_of_its_arguments(
    entries: Seq<Entry>,
    keep: &str,
    limits: Limits,
    now: i128,
    list: Seq<usize>,
    i: int,
)
    requires
        0 <= i < list.len(),
    ensures
        purge_of(entries, Some(keep), limits, now).entries == entries,
        purge_of(entries, Some(keep), limits, now).keep == Some(keep@),
        purge_of(entries, None, limits, now).keep is None,
        purge_of(entries, Some(keep), limits, now).limits == limits,
        purge_of(entries, Some(keep), limits, now).now == now,
        as_ints(list).len() == list.len(),
        as_ints(list)[i] == list[i],
{
}

} // verus!
