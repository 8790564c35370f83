//! Disk capacity: the file systems the machine reports and its ZFS pools.
use vstd::prelude::*;
use crate::text::{
    decimal, is_digit, law_parse_decimal, lemma_decimal_digits, lemma_split_on_join, lemma_split_on_without_sep,
    parse_u64_chars, parsed_u64, split_chars, split_on, to_chars, views,
};

verus! {

/// Capacity and use of the machine's storage, in bytes.
pub struct DiskInfo {
    pub total: u64,
    pub used: u64,
}

/// One mounted file system as the operating system lists it.
pub struct DiskEntry {
    /// Name of the file system type, such as `ext4` or `zfs`.
    pub file_system: String,
    pub total_space: u64,
    pub available_space: u64,
}

/// ASCII lower-casing of one character.
pub open spec fn ascii_lower(c: char) -> char {
    if 'A' <= c <= 'Z' {
        ((c as u32) + 32) as char
    } else {
        c
    }
}

/// A ZFS data set: its type name is `zfs` in any ASCII letter case.
pub open spec fn is_zfs_name(s: Seq<char>) -> bool {
    s.map_values(|c: char| ascii_lower(c)) == seq!['z', 'f', 's']
}

/// A file system type counts as ZFS exactly when it is the three letters
/// `z`, `f`, `s`, each in either case; every other name (`btrfs`, `ext4`,
/// `zfs ` with a space, ...) is an ordinary disk.
pub proof fn law_zfs_names(s: Seq<char>)
    ensures
        is_zfs_name(s) <==> (s.len() == 3 && (s[0] == 'z' || s[0] == 'Z') && (s[1] == 'f' || s[1]
            == 'F') && (s[2] == 's' || s[2] == 'S')),
{
    let l = s.map_values(|c: char| ascii_lower(c));
    if s.len() == 3 && (s[0] == 'z' || s[0] == 'Z') && (s[1] == 'f' || s[1] == 'F') && (s[2]
        == 's' || s[2] == 'S') {
        assert(l =~= seq!['z', 'f', 's']);
    }
    if is_zfs_name(s) {
        assert(l.len() == 3);
        assert(l[0] == 'z' && l[1] == 'f' && l[2] == 's');
    }
}

/// A single disk that is not ZFS is counted in full: its capacity and the
/// space it uses (capacity less free space) are added to the pools'.
pub proof fn law_single_disk_counts(d: DiskEntry, pool_total: u64, pool_used: u64)
    requires
        !(d.file_system@.len() == 3 && (d.file_system@[0] == 'z' || d.file_system@[0] == 'Z') && (
        d.file_system@[1] == 'f' || d.file_system@[1] == 'F') && (d.file_system@[2] == 's'
            || d.file_system@[2] == 'S')),
        d.available_space <= d.total_space,
    ensures
        counted_total_from(seq![d], 0) + pool_total == d.total_space + pool_total,
        counted_used_from(seq![d], 0) + pool_used == d.total_space - d.available_space
            + pool_used,
        storage_totals_defined(seq![d], pool_total, pool_used) <==> (d.total_space + pool_total
            <= u64::MAX && d.total_space - d.available_space + pool_used <= u64::MAX),
{
    law_zfs_names(d.file_system@);
    let l = seq![d];
    assert(!shadowed(l, 0));
    assert(counted(l, 0));
    assert(counted_total_from(l, 1) == 0);
    assert(counted_used_from(l, 1) == 0);
}

/// Whether the character is the given lower-case letter in either case.
fn letter_matches(c: char, lower: char, upper: char) -> (r: bool)
    requires
        'a' <= lower <= 'z',
        upper as u32 == lower as u32 - 32,
    ensures
        r == (ascii_lower(c) == lower),
{
    c == lower || c == upper
}

/// Whether a file system type names ZFS, ignoring ASCII letter case.
pub fn is_zfs(file_system: &str) -> (r: bool)
    ensures
        r == is_zfs_name(file_system@),
{
    let lowered = Ghost(file_system@.map_values(|c: char| ascii_lower(c)));
    if file_system.unicode_len() != 3 {
        assert(lowered@.len() != 3);
        return false;
    }
    let a = letter_matches(file_system.get_char(0), 'z', 'Z');
    let b = letter_matches(file_system.get_char(1), 'f', 'F');
    let c = letter_matches(file_system.get_char(2), 's', 'S');
    if a && b && c {
        assert(lowered@ =~= seq!['z', 'f', 's']);
        true
    } else {
        assert(lowered@[0] != 'z' || lowered@[1] != 'f' || lowered@[2] != 's');
        false
    }
}

/// A later file system that is not ZFS has the same capacity as disk `i`;
/// disks are told apart by their capacity, and the last one listed stands
/// for all that share it.
pub open spec fn shadowed(d: Seq<DiskEntry>, i: int) -> bool {
    exists|j: int|
        #![trigger d[j]]
        i < j < d.len() && !is_zfs_name(d[j].file_system@) && d[j].total_space
            == d[i].total_space
}

/// Disk `i` is counted: it is not ZFS and no later disk stands for it.
pub open spec fn counted(d: Seq<DiskEntry>, i: int) -> bool {
    !is_zfs_name(d[i].file_system@) && !shadowed(d, i)
}

/// The capacity of the counted disks from index `i` on.
pub open spec fn counted_total_from(d: Seq<DiskEntry>, i: int) -> int
    decreases d.len() - i,
{
    if i < 0 || i >= d.len() {
        0
    } else {
        (if counted(d, i) {
            d[i].total_space as int
        } else {
            0
        }) + counted_total_from(d, i + 1)
    }
}

/// The space in use on the counted disks from index `i` on.
pub open spec fn counted_used_from(d: Seq<DiskEntry>, i: int) -> int
    decreases d.len() - i,
{
    if i < 0 || i >= d.len() {
        0
    } else {
        (if counted(d, i) {
            d[i].total_space - d[i].available_space
        } else {
            0
        }) + counted_used_from(d, i + 1)
    }
}

/// No counted disk reports more free space than capacity.
pub open spec fn free_within_capacity(d: Seq<DiskEntry>) -> bool {
    forall|i: int| 0 <= i < d.len() && #[trigger] counted(d, i) ==> d[i].available_space <= d[i].total_space
}

proof fn lemma_counted_from_bounds(d: Seq<DiskEntry>, i: int)
    requires
        0 <= i <= d.len(),
        free_within_capacity(d),
    ensures
        0 <= counted_used_from(d, i) <= counted_total_from(d, i),
        counted_total_from(d, i) <= counted_total_from(d, 0),
        counted_used_from(d, i) <= counted_used_from(d, 0),
    decreases i,
{
    lemma_counted_used_le_total(d, i);
    if i > 0 {
        lemma_counted_from_bounds(d, i - 1);
        if counted(d, i - 1) {
            assert(d[i - 1].available_space <= d[i - 1].total_space);
        }
    }
}

proof fn lemma_counted_used_le_total(d: Seq<DiskEntry>, i: int)
    requires
        0 <= i <= d.len(),
        free_within_capacity(d),
    ensures
        0 <= counted_used_from(d, i) <= counted_total_from(d, i),
    decreases d.len() - i,
{
    if i < d.len() {
        lemma_counted_used_le_total(d, i + 1);
        if counted(d, i) {
            assert(d[i].available_space <= d[i].total_space);
        }
    }
}

/// Whether `x` is one of the values of `v`.
fn contains_u64(v: &Vec<u64>, x: u64) -> (r: bool)
    ensures
        r == v@.contains(x),
{
    let mut i: usize = 0;
    while i < v.len()
        invariant
            i <= v@.len(),
            forall|k: int| 0 <= k < i ==> v@[k] != x,
        decreases v@.len() - i,
    {
        if v[i] == x {
            return true;
        }
        i = i + 1;
    }
    false
}

/// The inputs for which the totals can be formed: no counted disk has more
/// free space than capacity and both sums fit in 64 bits.
pub open spec fn storage_totals_defined(d: Seq<DiskEntry>, pool_total: u64, pool_used: u64) -> bool {
    &&& free_within_capacity(d)
    &&& counted_total_from(d, 0) + pool_total <= u64::MAX
    &&& counted_used_from(d, 0) + pool_used <= u64::MAX
}

/// Capacity and use over all disks: ZFS data sets are left out (their
/// figures describe the pool, not the data set), disks that share a
/// capacity count once, and the ZFS pools' `pool_total` and `pool_used` are
/// added. `None` when a counted disk reports more free space than capacity
/// or a sum does not fit in 64 bits.
pub fn storage_totals(disks: &Vec<DiskEntry>, pool_total: u64, pool_used: u64) -> (r: Option<
    DiskInfo,
>)
    ensures
        r is None <==> !storage_totals_defined(disks@, pool_total, pool_used),
        r matches Some(info) ==> info.total == counted_total_from(disks@, 0) + pool_total
            && info.used == counted_used_from(disks@, 0) + pool_used,
{
    let n = disks.len();
    let mut seen: Vec<u64> = Vec::new();
    let mut total: u64 = 0;
    let mut used: u64 = 0;
    let mut i: usize = n;
    while i > 0
        invariant
            n == disks@.len(),
            i <= n,
            forall|j: int| i <= j < n && #[trigger] counted(disks@, j) ==> disks@[j].available_space
                <= disks@[j].total_space,
            forall|t: u64|
                seen@.contains(t) <==> exists|j: int|
                    #![trigger disks@[j]]
                    i <= j < n && !is_zfs_name(disks@[j].file_system@) && disks@[j].total_space
                        == t,
            total == counted_total_from(disks@, i as int),
            used == counted_used_from(disks@, i as int),
        decreases i,
    {
        let k = i - 1;
        let disk = &disks[k];
        let zfs = is_zfs(disk.file_system.as_str());
        let repeat = contains_u64(&seen, disk.total_space);
        proof {
            if repeat {
                let j = choose|j: int|
                    #![trigger disks@[j]]
                    i <= j < n && !is_zfs_name(disks@[j].file_system@) && disks@[j].total_space
                        == disk.total_space;
                assert(shadowed(disks@, k as int));
            } else {
                assert forall|j: int|
                    #![trigger disks@[j]]
                    k < j < n && !is_zfs_name(
                        disks@[j].file_system@,
                    ) implies disks@[j].total_space != disks@[k as int].total_space by {
                    if disks@[j].total_space == disks@[k as int].total_space {
                        assert(seen@.contains(disks@[j].total_space));
                    }
                }
            }
        }
        let ghost old_seen = seen@;
        if !zfs && !repeat {
            assert(counted(disks@, k as int));
            if disk.available_space > disk.total_space {
                assert(!free_within_capacity(disks@));
                return None;
            }
            let (t, u) = match (
                total.checked_add(disk.total_space),
                used.checked_add(disk.total_space - disk.available_space),
            ) {
                (Some(t), Some(u)) => (t, u),
                _ => {
                    proof {
                        if free_within_capacity(disks@) {
                            lemma_counted_from_bounds(disks@, k as int);
                        }
                    }
                    return None;
                },
            };
            total = t;
            used = u;
            seen.push(disk.total_space);
        } else {
            assert(!counted(disks@, k as int));
        }
        proof {
            assert forall|t: u64|
                seen@.contains(t) <==> exists|j: int|
                    #![trigger disks@[j]]
                    k <= j < n && !is_zfs_name(disks@[j].file_system@) && disks@[j].total_space
                        == t by {
                if seen@.contains(t) {
                    if old_seen.contains(t) {
                        let j = choose|j: int|
                            #![trigger disks@[j]]
                            i <= j < n && !is_zfs_name(disks@[j].file_system@)
                                && disks@[j].total_space == t;
                        assert(k <= j < n);
                    } else {
                        let idx = choose|idx: int| 0 <= idx < seen@.len() && seen@[idx] == t;
                        assert(idx == old_seen.len());
                        assert(disks@[k as int].total_space == t);
                    }
                }
                if exists|j: int|
                    #![trigger disks@[j]]
                    k <= j < n && !is_zfs_name(disks@[j].file_system@) && disks@[j].total_space
                        == t {
                    let j = choose|j: int|
                        #![trigger disks@[j]]
                        k <= j < n && !is_zfs_name(disks@[j].file_system@)
                            && disks@[j].total_space == t;
                    if j == k {
                        if repeat {
                            assert(old_seen.contains(t));
                        } else {
                            assert(seen@[seen@.len() - 1] == t);
                        }
                    } else {
                        assert(old_seen.contains(t));
                    }
                    if old_seen.contains(t) {
                        let idx = choose|idx: int| 0 <= idx < old_seen.len() && old_seen[idx] == t;
                        assert(seen@[idx] == t);
                    }
                }
            }
        }
        i = k;
    }
    assert(free_within_capacity(disks@));
    match (total.checked_add(pool_total), used.checked_add(pool_used)) {
        (Some(t), Some(u)) => Some(DiskInfo { total: t, used: u }),
        _ => None,
    }
}

/// The space in use never exceeds the capacity: each counted disk uses at
/// most its capacity, and so do the pools.
pub proof fn law_used_within_total(disks: Seq<DiskEntry>, pool_total: u64, pool_used: u64)
    requires
        free_within_capacity(disks),
        pool_used <= pool_total,
    ensures
        counted_used_from(disks, 0) + pool_used <= counted_total_from(disks, 0) + pool_total,
{
    lemma_counted_used_le_total(disks, 0);
}

/// No capacity is counted twice: two different counted disks never share it.
pub proof fn law_capacity_counted_once(disks: Seq<DiskEntry>, i: int, j: int)
    requires
        0 <= i < j < disks.len(),
        counted(disks, i),
        counted(disks, j),
    ensures
        disks[i].total_space != disks[j].total_space,
{
    if disks[i].total_space == disks[j].total_space {
        assert(shadowed(disks, i));
    }
}

/// The disks that are not ZFS data sets, in their order.
pub open spec fn without_zfs(d: Seq<DiskEntry>) -> Seq<DiskEntry>
    decreases d.len(),
{
    if d.len() == 0 {
        d
    } else {
        let rest = without_zfs(d.drop_first());
        if is_zfs_name(d[0].file_system@) {
            rest
        } else {
            seq![d[0]] + rest
        }
    }
}

/// Some disk of `d` that is not ZFS has capacity `t`.
pub open spec fn has_live_capacity(d: Seq<DiskEntry>, t: u64) -> bool {
    exists|j: int| #![trigger d[j]] 0 <= j < d.len() && !is_zfs_name(d[j].file_system@) && d[j].total_space == t
}

proof fn lemma_live_capacity_first(d: Seq<DiskEntry>, t: u64)
    requires
        d.len() > 0,
    ensures
        has_live_capacity(d, t) == ((!is_zfs_name(d[0].file_system@) && d[0].total_space == t)
            || has_live_capacity(d.drop_first(), t)),
{
    let rest = d.drop_first();
    if has_live_capacity(d, t) {
        let j = choose|j: int| #![trigger d[j]] 0 <= j < d.len() && !is_zfs_name(d[j].file_system@) && d[j].total_space == t;
        if j > 0 {
            assert(rest[j - 1] == d[j]);
        }
    }
    if has_live_capacity(rest, t) {
        let j = choose|j: int| #![trigger rest[j]] 0 <= j < rest.len() && !is_zfs_name(rest[j].file_system@) && rest[j].total_space == t;
        assert(d[j + 1] == rest[j]);
    }
}

proof fn lemma_live_capacity_without_zfs(d: Seq<DiskEntry>, t: u64)
    ensures
        has_live_capacity(without_zfs(d), t) == has_live_capacity(d, t),
    decreases d.len(),
{
    if d.len() > 0 {
        let rest = d.drop_first();
        lemma_live_capacity_without_zfs(rest, t);
        lemma_live_capacity_first(d, t);
        if !is_zfs_name(d[0].file_system@) {
            let w = without_zfs(d);
            assert(w.drop_first() =~= without_zfs(rest));
            lemma_live_capacity_first(w, t);
        }
    }
}

/// Disk `i + 1` of `d` is counted exactly when disk `i` of the list without
/// the first disk is: counting only looks at later disks.
proof fn lemma_counted_shift(d: Seq<DiskEntry>, i: int)
    requires
        0 <= i,
        i + 1 < d.len(),
    ensures
        counted(d, i + 1) == counted(d.drop_first(), i),
{
    let rest = d.drop_first();
    assert(rest[i] == d[i + 1]);
    if shadowed(d, i + 1) {
        let j = choose|j: int| #![trigger d[j]] i + 1 < j < d.len() && !is_zfs_name(d[j].file_system@) && d[j].total_space == d[i + 1].total_space;
        assert(rest[j - 1] == d[j]);
    }
    if shadowed(rest, i) {
        let j = choose|j: int| #![trigger rest[j]] i < j < rest.len() && !is_zfs_name(rest[j].file_system@) && rest[j].total_space == rest[i].total_space;
        assert(d[j + 1] == rest[j]);
    }
}

proof fn lemma_counted_from_shift(d: Seq<DiskEntry>, i: int)
    requires
        0 <= i,
        d.len() > 0,
    ensures
        counted_total_from(d, i + 1) == counted_total_from(d.drop_first(), i),
        counted_used_from(d, i + 1) == counted_used_from(d.drop_first(), i),
    decreases d.len() - i,
{
    if i + 1 < d.len() {
        lemma_counted_shift(d, i);
        lemma_counted_from_shift(d, i + 1);
        assert(d.drop_first()[i] == d[i + 1]);
    }
}

proof fn lemma_free_first(d: Seq<DiskEntry>)
    requires
        d.len() > 0,
    ensures
        free_within_capacity(d) == ((counted(d, 0) ==> d[0].available_space <= d[0].total_space)
            && free_within_capacity(d.drop_first())),
{
    let rest = d.drop_first();
    if free_within_capacity(d) {
        assert forall|i: int| 0 <= i < rest.len() && #[trigger] counted(rest, i) implies rest[i].available_space <= rest[i].total_space by {
            lemma_counted_shift(d, i);
            assert(rest[i] == d[i + 1]);
            assert(counted(d, i + 1));
        }
    }
    if (counted(d, 0) ==> d[0].available_space <= d[0].total_space) && free_within_capacity(rest) {
        assert forall|i: int| 0 <= i < d.len() && #[trigger] counted(d, i) implies d[i].available_space <= d[i].total_space by {
            if i > 0 {
                lemma_counted_shift(d, i - 1);
                assert(rest[i - 1] == d[i]);
                assert(counted(rest, i - 1));
            }
        }
    }
}

/// Dropping the ZFS data sets from the list changes neither which disks are
/// counted nor what they add up to.
proof fn lemma_without_zfs_same_totals(d: Seq<DiskEntry>)
    ensures
        counted_total_from(without_zfs(d), 0) == counted_total_from(d, 0),
        counted_used_from(without_zfs(d), 0) == counted_used_from(d, 0),
        free_within_capacity(without_zfs(d)) == free_within_capacity(d),
    decreases d.len(),
{
    if d.len() > 0 {
        let rest = d.drop_first();
        let wr = without_zfs(rest);
        lemma_without_zfs_same_totals(rest);
        lemma_counted_from_shift(d, 0);
        lemma_free_first(d);
        if is_zfs_name(d[0].file_system@) {
            assert(!counted(d, 0));
        } else {
            let w = without_zfs(d);
            assert(w.drop_first() =~= wr);
            assert(w[0] == d[0]);
            lemma_counted_from_shift(w, 0);
            lemma_free_first(w);
            lemma_live_capacity_first(d, d[0].total_space);
            lemma_live_capacity_first(w, d[0].total_space);
            lemma_live_capacity_without_zfs(rest, d[0].total_space);
            assert(shadowed(d, 0) == has_live_capacity(rest, d[0].total_space)) by {
                if shadowed(d, 0) {
                    let j = choose|j: int| #![trigger d[j]] 0 < j < d.len() && !is_zfs_name(d[j].file_system@) && d[j].total_space == d[0].total_space;
                    assert(rest[j - 1] == d[j]);
                }
                if has_live_capacity(rest, d[0].total_space) {
                    let j = choose|j: int| #![trigger rest[j]] 0 <= j < rest.len() && !is_zfs_name(rest[j].file_system@) && rest[j].total_space == d[0].total_space;
                    assert(d[j + 1] == rest[j]);
                }
            }
            assert(shadowed(w, 0) == has_live_capacity(wr, d[0].total_space)) by {
                if shadowed(w, 0) {
                    let j = choose|j: int| #![trigger w[j]] 0 < j < w.len() && !is_zfs_name(w[j].file_system@) && w[j].total_space == w[0].total_space;
                    assert(wr[j - 1] == w[j]);
                }
                if has_live_capacity(wr, d[0].total_space) {
                    let j = choose|j: int| #![trigger wr[j]] 0 <= j < wr.len() && !is_zfs_name(wr[j].file_system@) && wr[j].total_space == d[0].total_space;
                    assert(w[j + 1] == wr[j]);
                }
            }
            assert(counted(w, 0) == counted(d, 0));
        }
    }
}

/// ZFS data sets never change the storage figures: two disk lists that hold
/// the same disks apart from ZFS data sets (named `zfs` in any letter case)
/// give the same totals, or are refused alike, for the same pools.
pub proof fn law_zfs_data_sets_do_not_count(
    d1: Seq<DiskEntry>,
    d2: Seq<DiskEntry>,
    pool_total: u64,
    pool_used: u64,
)
    requires
        without_zfs(d1) == without_zfs(d2),
    ensures
        counted_total_from(d1, 0) == counted_total_from(d2, 0),
        counted_used_from(d1, 0) == counted_used_from(d2, 0),
        storage_totals_defined(d1, pool_total, pool_used) == storage_totals_defined(
            d2,
            pool_total,
            pool_used,
        ),
{
    lemma_without_zfs_same_totals(d1);
    lemma_without_zfs_same_totals(d2);
}

/// `line` without one trailing carriage return.
pub open spec fn strip_cr(line: Seq<char>) -> Seq<char> {
    if line.len() > 0 && line.last() == '\r' {
        line.drop_last()
    } else {
        line
    }
}

/// The lines of a text, as `str::lines` yields them: split at `\n`, a
/// `\r` before the `\n` removed, and no empty line after a final `\n`.
pub open spec fn text_lines(s: Seq<char>) -> Seq<Seq<char>> {
    let pieces = split_on(s, '\n');
    let ended = pieces.drop_last().map_values(|l: Seq<char>| strip_cr(l));
    if pieces.last().len() == 0 {
        ended
    } else {
        ended.push(pieces.last())
    }
}

/// The size and allocation that a line of `zpool list -Hp` gives: the
/// second and third tab-separated fields, when both are numbers.
pub open spec fn pool_line_sizes(line: Seq<char>) -> Option<(u64, u64)> {
    let fields = split_on(line, '\t');
    if fields.len() >= 3 {
        match (parsed_u64(fields[1]), parsed_u64(fields[2])) {
            (Some(size), Some(alloc)) => Some((size, alloc)),
            _ => None,
        }
    } else {
        None
    }
}

/// The summed size and allocation of the pools that the lines describe;
/// lines without two numbers there are skipped.
pub open spec fn pool_totals(lines: Seq<Seq<char>>) -> (int, int)
    decreases lines.len(),
{
    if lines.len() == 0 {
        (0, 0)
    } else {
        let (t, u) = pool_totals(lines.drop_last());
        match pool_line_sizes(lines.last()) {
            Some((size, alloc)) => (t + size, u + alloc),
            None => (t, u),
        }
    }
}

/// What a listing of `zpool list -Hp` adds up to.
pub open spec fn zpool_usage_of(listing: Seq<char>) -> (int, int) {
    pool_totals(text_lines(listing))
}

/// A pool line as `zpool list -Hp` writes it: the name, a tab, the size in
/// decimal, a tab, the allocation in decimal, then either nothing or more
/// tab-separated columns.
pub open spec fn pool_line(name: Seq<char>, size: u64, alloc: u64, more: Seq<char>) -> Seq<char> {
    name + seq!['\t'] + decimal(size as nat) + seq!['\t'] + decimal(alloc as nat) + more
}

proof fn lemma_decimal_has_no(n: nat, c: char)
    requires
        !is_digit(c),
    ensures
        !decimal(n).contains(c),
{
    lemma_decimal_digits(n);
}

/// Each pool line adds exactly its size and its allocation, for every pair
/// of 64-bit numbers, whatever columns follow.
pub proof fn law_pool_line_gives_its_numbers(name: Seq<char>, size: u64, alloc: u64, more: Seq<char>)
    requires
        !name.contains('\t'),
        more.len() == 0 || more[0] == '\t',
    ensures
        pool_line_sizes(pool_line(name, size, alloc, more)) == Some((size, alloc)),
{
    let t = '\t';
    let ds = decimal(size as nat);
    let da = decimal(alloc as nat);
    lemma_decimal_has_no(size as nat, t);
    lemma_decimal_has_no(alloc as nat, t);
    lemma_split_on_without_sep(name, t);
    lemma_split_on_without_sep(ds, t);
    law_parse_decimal(size);
    law_parse_decimal(alloc);
    let line = pool_line(name, size, alloc, more);
    if more.len() == 0 {
        lemma_split_on_without_sep(da, t);
        assert(line =~= name + seq![t] + (ds + seq![t] + da));
        lemma_split_on_join(name, ds + seq![t] + da, t);
        lemma_split_on_join(ds, da, t);
        assert(split_on(line, t) =~= seq![name, ds, da]);
    } else {
        let m = more.drop_first();
        assert(more =~= seq![t] + m);
        lemma_split_on_without_sep(da, t);
        assert(line =~= name + seq![t] + (ds + seq![t] + (da + seq![t] + m)));
        lemma_split_on_join(name, ds + seq![t] + (da + seq![t] + m), t);
        lemma_split_on_join(ds, da + seq![t] + m, t);
        lemma_split_on_join(da, m, t);
        assert(split_on(line, t) =~= seq![name, ds, da] + split_on(m, t));
    }
}

/// A listing of one pool line ended by a newline sums to that pool's size
/// and allocation, for every pair of 64-bit numbers.
pub proof fn law_one_pool_listing(name: Seq<char>, size: u64, alloc: u64, more: Seq<char>)
    requires
        !name.contains('\t'),
        !name.contains('\n'),
        !more.contains('\n'),
        more.len() == 0 || more[0] == '\t',
        more.len() == 0 || more.last() != '\r',
    ensures
        zpool_usage_of(pool_line(name, size, alloc, more) + seq!['\n']) == (size as int, alloc as int),
{
    let line = pool_line(name, size, alloc, more);
    law_pool_line_gives_its_numbers(name, size, alloc, more);
    lemma_decimal_has_no(size as nat, '\n');
    lemma_decimal_has_no(alloc as nat, '\n');
    assert(!line.contains('\n')) by {
        if line.contains('\n') {
            let i = choose|i: int| 0 <= i < line.len() && line[i] == '\n';
            let ds = decimal(size as nat);
            let da = decimal(alloc as nat);
            if i < name.len() {
                assert(name[i] == '\n');
            } else if i == name.len() {
            } else if i < name.len() + 1 + ds.len() {
                assert(ds[i - name.len() - 1] == '\n');
            } else if i == name.len() + 1 + ds.len() {
            } else if i < name.len() + 2 + ds.len() + da.len() {
                assert(da[i - name.len() - 2 - ds.len()] == '\n');
            } else {
                assert(more[i - name.len() - 2 - ds.len() - da.len()] == '\n');
            }
        }
    }
    lemma_split_on_without_sep(line, '\n');
    let listing = line + seq!['\n'];
    assert(listing =~= line + seq!['\n'] + Seq::<char>::empty());
    lemma_split_on_join(line, Seq::<char>::empty(), '\n');
    lemma_split_on_without_sep(Seq::<char>::empty(), '\n');
    let pieces = split_on(listing, '\n');
    assert(pieces =~= seq![line, Seq::<char>::empty()]);
    assert(line.len() > 0 && line.last() != '\r') by {
        if more.len() == 0 {
            let da = decimal(alloc as nat);
            lemma_decimal_digits(alloc as nat);
            assert(line.last() == da.last());
            assert(is_digit(da[da.len() - 1]));
        } else {
            assert(line.last() == more.last());
        }
    }
    assert(text_lines(listing) =~= seq![line]);
    let ls = seq![line];
    assert(ls.drop_last() =~= Seq::<Seq<char>>::empty());
    assert(ls.last() == line);
    assert(pool_totals(ls.drop_last()) == (0int, 0int));
    assert(pool_totals(ls) == (size as int, alloc as int));
}

proof fn lemma_pool_totals_prefix(lines: Seq<Seq<char>>, k: int)
    requires
        0 <= k <= lines.len(),
    ensures
        0 <= pool_totals(lines.take(k)).0 <= pool_totals(lines).0,
        0 <= pool_totals(lines.take(k)).1 <= pool_totals(lines).1,
    decreases lines.len(),
{
    if k < lines.len() {
        let p = lines.drop_last();
        assert(p.take(k) =~= lines.take(k));
        lemma_pool_totals_prefix(p, k);
    } else {
        assert(lines.take(k) =~= lines);
        if lines.len() > 0 {
            lemma_pool_totals_prefix(lines.drop_last(), lines.len() - 1);
            assert(lines.drop_last().take(lines.len() - 1) =~= lines.drop_last());
        }
    }
}

/// A copy of `v` without a trailing carriage return.
fn without_trailing_cr(v: &Vec<char>) -> (r: Vec<char>)
    ensures
        r@ == strip_cr(v@),
{
    let n = v.len();
    let keep = if n > 0 && v[n - 1] == '\r' {
        n - 1
    } else {
        n
    };
    let mut out: Vec<char> = Vec::new();
    let mut i: usize = 0;
    while i < keep
        invariant
            keep <= n == v@.len(),
            i <= keep,
            out@ == v@.take(i as int),
        decreases keep - i,
    {
        out.push(v[i]);
        assert(v@.take(i + 1) =~= v@.take(i as int).push(v@[i as int]));
        i = i + 1;
    }
    assert(out@ =~= strip_cr(v@));
    out
}

/// The size and allocation that one listing line gives.
fn line_sizes(line: &Vec<char>) -> (r: Option<(u64, u64)>)
    ensures
        r == pool_line_sizes(line@),
{
    let fields = split_chars(line, '\t');
    if fields.len() < 3 {
        return None;
    }
    assert(views(fields@)[1] == fields@[1]@);
    assert(views(fields@)[2] == fields@[2]@);
    let size = parse_u64_chars(&fields[1]);
    let alloc = parse_u64_chars(&fields[2]);
    match (size, alloc) {
        (Some(s), Some(a)) => Some((s, a)),
        _ => None,
    }
}

/// Sums the size and allocation columns of `zpool list -Hp` output
/// (tab-separated, raw bytes, no header): the pools' total and used bytes.
/// `None` when a sum does not fit in 64 bits.
pub fn zpool_usage(listing: &str) -> (r: Option<(u64, u64)>)
    ensures
        r is None <==> (zpool_usage_of(listing@).0 > u64::MAX || zpool_usage_of(listing@).1
            > u64::MAX),
        r matches Some((total, used)) ==> total == zpool_usage_of(listing@).0 && used
            == zpool_usage_of(listing@).1,
{
    let chars = to_chars(listing);
    let pieces = split_chars(&chars, '\n');
    let ghost lines = text_lines(listing@);
    let ghost pv = views(pieces@);
    let ghost ended = pv.drop_last().map_values(|l: Seq<char>| strip_cr(l));
    let count = pieces.len() - 1;
    assert(forall|k: int| 0 <= k < ended.len() ==> lines[k] == ended[k]);
    let mut total: u64 = 0;
    let mut used: u64 = 0;
    let mut k: usize = 0;
    while k < count
        invariant
            count + 1 == pieces@.len(),
            pv == views(pieces@),
            pv == split_on(chars@, '\n'),
            chars@ == listing@,
            lines == text_lines(listing@),
            ended == pv.drop_last().map_values(|l: Seq<char>| strip_cr(l)),
            ended.len() == count,
            ended.len() <= lines.len(),
            forall|j: int| 0 <= j < ended.len() ==> lines[j] == ended[j],
            k <= count,
            total == pool_totals(lines.take(k as int)).0,
            used == pool_totals(lines.take(k as int)).1,
        decreases count - k,
    {
        let line = without_trailing_cr(&pieces[k]);
        assert(line@ == lines[k as int]);
        let sizes = line_sizes(&line);
        assert(lines.take(k + 1).drop_last() =~= lines.take(k as int));
        assert(lines.take(k + 1).last() == lines[k as int]);
        proof {
            lemma_pool_totals_prefix(lines, k + 1);
        }
        if let Some((size, alloc)) = sizes {
            match (total.checked_add(size), used.checked_add(alloc)) {
                (Some(t), Some(u)) => {
                    total = t;
                    used = u;
                },
                _ => {
                    return None;
                },
            }
        }
        k = k + 1;
    }
    let last = &pieces[count];
    assert(last@ == pv.last());
    if last.len() > 0 {
        assert(lines =~= ended.push(pv.last()));
        let sizes = line_sizes(last);
        assert(lines.take(count + 1) =~= lines);
        assert(lines.drop_last() =~= lines.take(count as int));
        if let Some((size, alloc)) = sizes {
            match (total.checked_add(size), used.checked_add(alloc)) {
                (Some(t), Some(u)) => {
                    total = t;
                    used = u;
                },
                _ => {
                    return None;
                },
            }
        }
    } else {
        assert(lines =~= ended);
        assert(lines.take(count as int) =~= lines);
    }
    Some((total, used))
}

} // verus!
