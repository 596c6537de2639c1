//! Disk sampler: parses the kernel's per-device I/O statistics, keys them by
//! stable mount-point labels through the mount resolver, and turns the
//! cumulative sector counters into read/write byte rates.

use vstd::prelude::*;
use crate::kvmap::KvMap;
use crate::mount::{mount_map_spec, parse_device_mount_mapping};
use crate::rate::{disk_rate, disk_rate_spec};
use crate::textparse::{tokens, ws_class, nl_class, split_fields, split_lines, views_of, parsed_u64};

verus! {

/// Disk hardware kinds; only rotational and solid-state disks are sampled.
#[derive(Debug, Clone, Copy, PartialEq, Eq, Structural)]
pub enum DiskKind {
    Hdd,
    Ssd,
    Other,
}

/// Whether a disk of this kind appears in the sampled list.
pub open spec fn is_physical_kind(k: DiskKind) -> bool {
    k == DiskKind::Hdd || k == DiskKind::Ssd
}

/// A point-in-time description of one filesystem, as the host-introspection
/// collaborator reports it.
pub struct DiskInfo {
    pub name: String,
    pub mount_point: String,
    pub total_space: u64,
    pub available_space: u64,
    pub kind: DiskKind,
}

/// The counters one I/O-statistics line contributes: device name, cumulative
/// read sectors, cumulative written sectors.  A line with fewer than
/// fourteen fields contributes nothing.
pub open spec fn stats_line_spec(line: Seq<char>) -> Option<(Seq<char>, u64, u64)> {
    let ts = tokens(line, ws_class());
    if ts.len() >= 14 {
        Some((ts[2], parsed_u64(ts[5]), parsed_u64(ts[9])))
    } else {
        None
    }
}

/// Device → cumulative read sectors denoted by the statistics text.
pub open spec fn stats_reads_spec(lines: Seq<Seq<char>>) -> Map<Seq<char>, u64>
    decreases lines.len(),
{
    if lines.len() == 0 {
        Map::empty()
    } else {
        let m = stats_reads_spec(lines.drop_last());
        match stats_line_spec(lines.last()) {
            Some(t) => m.insert(t.0, t.1),
            None => m,
        }
    }
}

/// Device → cumulative written sectors denoted by the statistics text.
pub open spec fn stats_writes_spec(lines: Seq<Seq<char>>) -> Map<Seq<char>, u64>
    decreases lines.len(),
{
    if lines.len() == 0 {
        Map::empty()
    } else {
        let m = stats_writes_spec(lines.drop_last());
        match stats_line_spec(lines.last()) {
            Some(t) => m.insert(t.0, t.2),
            None => m,
        }
    }
}

/// Per-device cumulative sector counters read from the kernel's statistics.
pub struct DiskIoStats {
    pub reads: KvMap<u64>,
    pub writes: KvMap<u64>,
}

/// Parses one I/O-statistics line.
pub fn parse_stats_line(line: &str) -> (r: Option<(String, u64, u64)>)
    ensures
        match r {
            Some(t) => stats_line_spec(line@) == Some((t.0@, t.1, t.2)),
            None => stats_line_spec(line@) is None,
        },
{
    let fields = split_fields(line);
    if fields.len() < 14 {
        return None;
    }
    proof {
        assert(views_of(fields@)[2] == fields@[2]@);
        assert(views_of(fields@)[5] == fields@[5]@);
        assert(views_of(fields@)[9] == fields@[9]@);
    }
    let device = fields[2].clone();
    let read_sectors = crate::textparse::parse_u64_or_zero(fields[5].as_str());
    let write_sectors = crate::textparse::parse_u64_or_zero(fields[9].as_str());
    Some((device, read_sectors, write_sectors))
}

/// Parses the kernel's per-device I/O statistics text; a malformed line is
/// skipped and parsing continues.
pub fn parse_disk_stats(text: &str) -> (r: DiskIoStats)
    ensures
        r.reads.wf(),
        r.writes.wf(),
        r.reads@ == stats_reads_spec(tokens(text@, nl_class())),
        r.writes@ == stats_writes_spec(tokens(text@, nl_class())),
{
    let lines = split_lines(text);
    let ghost lviews = tokens(text@, nl_class());
    let n = lines.len();
    let mut reads = KvMap::<u64>::new();
    let mut writes = KvMap::<u64>::new();
    let mut i: usize = 0;
    proof {
        assert(lviews.take(0) =~= Seq::<Seq<char>>::empty());
        assert(reads@ =~= stats_reads_spec(lviews.take(0)));
        assert(writes@ =~= stats_writes_spec(lviews.take(0)));
    }
    while i < n
        invariant
            n == lines@.len(),
            i <= n,
            views_of(lines@) == lviews,
            reads.wf(),
            writes.wf(),
            reads@ == stats_reads_spec(lviews.take(i as int)),
            writes@ == stats_writes_spec(lviews.take(i as int)),
        decreases n - i,
    {
        proof {
            assert(views_of(lines@)[i as int] == lines@[i as int]@);
        }
        match parse_stats_line(lines[i].as_str()) {
            Some(t) => {
                reads.insert(t.0.clone(), t.1);
                writes.insert(t.0, t.2);
            },
            None => {},
        }
        proof {
            let t1 = lviews.take(i + 1);
            assert(t1.drop_last() =~= lviews.take(i as int));
            assert(t1.last() == lviews[i as int]);
        }
        i += 1;
    }
    proof {
        assert(lviews.take(n as int) =~= lviews);
    }
    DiskIoStats { reads, writes }
}

/// The effect one snapshot entry has on the device → mount-point table:
/// a physical disk's pairing is learned only if the device is still unknown.
pub open spec fn mount_learn_step(m: Map<Seq<char>, Seq<char>>, d: DiskInfo) -> Map<Seq<char>, Seq<char>> {
    if is_physical_kind(d.kind) && !m.contains_key(d.name@) {
        m.insert(d.name@, d.mount_point@)
    } else {
        m
    }
}

/// The device → mount-point table after learning every snapshot entry, in
/// order; an entry already known is never overwritten.
pub open spec fn mounts_after_learning(m: Map<Seq<char>, Seq<char>>, disks: Seq<DiskInfo>) -> Map<Seq<char>, Seq<char>>
    decreases disks.len(),
{
    if disks.len() == 0 {
        m
    } else {
        mount_learn_step(mounts_after_learning(m, disks.drop_last()), disks.last())
    }
}

/// Learning never changes or drops an existing binding.
pub proof fn lemma_learning_preserves(m: Map<Seq<char>, Seq<char>>, disks: Seq<DiskInfo>, k: Seq<char>)
    requires
        m.contains_key(k),
    ensures
        mounts_after_learning(m, disks).contains_key(k),
        mounts_after_learning(m, disks)[k] == m[k],
    decreases disks.len(),
{
    if disks.len() > 0 {
        lemma_learning_preserves(m, disks.drop_last(), k);
    }
}

/// The sampled tuple for one physical disk: its stable mount-point label,
/// used and total space, and read/write byte rates derived from the sector
/// counters against the previous cycle's baselines.  A device with no
/// counters or no baseline this cycle reports zero rates.
pub open spec fn disk_entry_spec(
    d: DiskInfo,
    mounts: Map<Seq<char>, Seq<char>>,
    reads: Map<Seq<char>, u64>,
    writes: Map<Seq<char>, u64>,
    base_reads: Map<Seq<char>, u64>,
    base_writes: Map<Seq<char>, u64>,
    elapsed_ms: u64,
) -> (Seq<char>, u64, u64, u64, u64) {
    let label = if mounts.contains_key(d.name@) { mounts[d.name@] } else { d.mount_point@ };
    let used = if d.total_space >= d.available_space {
        (d.total_space - d.available_space) as u64
    } else {
        0u64
    };
    let read_rate = if reads.contains_key(d.name@) && base_reads.contains_key(d.name@) {
        disk_rate_spec(reads[d.name@], base_reads[d.name@], elapsed_ms)
    } else {
        0u64
    };
    let write_rate = if writes.contains_key(d.name@) && base_writes.contains_key(d.name@) {
        disk_rate_spec(writes[d.name@], base_writes[d.name@], elapsed_ms)
    } else {
        0u64
    };
    (label, used, d.total_space, read_rate, write_rate)
}

/// The physical-disk filter as a function value.
pub open spec fn physical_pred() -> spec_fn(DiskInfo) -> bool {
    |d: DiskInfo| is_physical_kind(d.kind)
}

/// The per-disk sampling function as a function value.
pub open spec fn entry_fn(
    mounts: Map<Seq<char>, Seq<char>>,
    reads: Map<Seq<char>, u64>,
    writes: Map<Seq<char>, u64>,
    base_reads: Map<Seq<char>, u64>,
    base_writes: Map<Seq<char>, u64>,
    elapsed_ms: u64,
) -> spec_fn(DiskInfo) -> (Seq<char>, u64, u64, u64, u64) {
    |d: DiskInfo| disk_entry_spec(d, mounts, reads, writes, base_reads, base_writes, elapsed_ms)
}

/// The view of one sampled tuple.
pub open spec fn entry_view(e: (String, u64, u64, u64, u64)) -> (Seq<char>, u64, u64, u64, u64) {
    (e.0@, e.1, e.2, e.3, e.4)
}

/// Views of a sequence of sampled tuples.
pub open spec fn entry_views(es: Seq<(String, u64, u64, u64, u64)>) -> Seq<(Seq<char>, u64, u64, u64, u64)> {
    es.map_values(|e: (String, u64, u64, u64, u64)| entry_view(e))
}

/// Disk sampler state: the published per-mount-point tuples, the sector
/// baselines keyed by device name, and the long-lived device → mount-point
/// table.
pub struct DiskData {
    disks: Vec<(String, u64, u64, u64, u64)>,
    last_read_sectors: KvMap<u64>,
    last_write_sectors: KvMap<u64>,
    device_to_mount: KvMap<String>,
}

impl DiskData {
    /// The internal maps keep their well-formedness.
    pub closed spec fn wf(&self) -> bool {
        self.last_read_sectors.wf() && self.last_write_sectors.wf() && self.device_to_mount.wf()
    }

    /// Cumulative read-sector baselines, keyed by device name.
    pub closed spec fn read_baselines(&self) -> Map<Seq<char>, u64> {
        self.last_read_sectors@
    }

    /// Cumulative written-sector baselines, keyed by device name.
    pub closed spec fn write_baselines(&self) -> Map<Seq<char>, u64> {
        self.last_write_sectors@
    }

    /// The learned device-name → mount-point table.
    pub closed spec fn device_mounts(&self) -> Map<Seq<char>, Seq<char>> {
        self.device_to_mount@
    }

    /// Views of the published per-disk tuples.
    pub closed spec fn disks_view(&self) -> Seq<(Seq<char>, u64, u64, u64, u64)> {
        entry_views(self.disks@)
    }

    /// The published `(mount_point, used, total, read_rate, write_rate)`
    /// tuples, fully replaced each cycle.
    pub fn disks(&self) -> (r: &Vec<(String, u64, u64, u64, u64)>)
        ensures
            entry_views(r@) == self.disks_view(),
    {
        &self.disks
    }

    /// A fresh sampler: no baselines, no learned mount points, nothing
    /// published yet.
    pub fn new() -> (r: Self)
        ensures
            r.wf(),
            r.disks_view().len() == 0,
            r.read_baselines() == Map::<Seq<char>, u64>::empty(),
            r.write_baselines() == Map::<Seq<char>, u64>::empty(),
            r.device_mounts() == Map::<Seq<char>, Seq<char>>::empty(),
    {
        DiskData {
            disks: Vec::new(),
            last_read_sectors: KvMap::new(),
            last_write_sectors: KvMap::new(),
            device_to_mount: KvMap::new(),
        }
    }

    /// One sampling cycle: merges the freshly parsed mount table into the
    /// long-lived device table (existing bindings win), learns pairings from
    /// the snapshot the same way, publishes one tuple per physical disk, and
    /// stores the parsed counters as the next cycle's baselines.
    pub fn update(&mut self, snapshot: &Vec<DiskInfo>, mount_text: &str, stats_text: &str, elapsed_ms: u64)
        requires
            old(self).wf(),
        ensures
            final(self).wf(),
            final(self).device_mounts() == mounts_after_learning(
                mount_map_spec(tokens(mount_text@, nl_class()))
                    .union_prefer_right(old(self).device_mounts()),
                snapshot@,
            ),
            // a binding learned in an earlier cycle is never lost or changed
            forall|k: Seq<char>| #[trigger] old(self).device_mounts().contains_key(k)
                ==> final(self).device_mounts().contains_key(k)
                    && final(self).device_mounts()[k] == old(self).device_mounts()[k],
            final(self).read_baselines() == old(self).read_baselines()
                .union_prefer_right(stats_reads_spec(tokens(stats_text@, nl_class()))),
            final(self).write_baselines() == old(self).write_baselines()
                .union_prefer_right(stats_writes_spec(tokens(stats_text@, nl_class()))),
            final(self).disks_view() == snapshot@
                .filter(physical_pred())
                .map_values(entry_fn(
                    final(self).device_mounts(),
                    stats_reads_spec(tokens(stats_text@, nl_class())),
                    stats_writes_spec(tokens(stats_text@, nl_class())),
                    old(self).read_baselines(),
                    old(self).write_baselines(),
                    elapsed_ms,
                )),
    {
        let fresh = parse_device_mount_mapping(mount_text);
        self.device_to_mount.merge_if_absent(&fresh);
        let ghost merged0 = self.device_to_mount@;

        // Learn pairings observed in the snapshot, never overwriting.
        let n = snapshot.len();
        let mut i: usize = 0;
        proof {
            assert(snapshot@.take(0) =~= Seq::<DiskInfo>::empty());
        }
        while i < n
            invariant
                n == snapshot@.len(),
                i <= n,
                self.last_read_sectors == old(self).last_read_sectors,
                self.last_write_sectors == old(self).last_write_sectors,
                self.disks == old(self).disks,
                self.device_to_mount.wf(),
                old(self).wf(),
                self.device_to_mount@ == mounts_after_learning(merged0, snapshot@.take(i as int)),
            decreases n - i,
        {
            let d = &snapshot[i];
            let physical = match d.kind {
                DiskKind::Hdd => true,
                DiskKind::Ssd => true,
                DiskKind::Other => false,
            };
            if physical {
                self.device_to_mount.insert_if_absent(d.name.clone(), d.mount_point.clone());
            }
            proof {
                let t1 = snapshot@.take(i + 1);
                assert(t1.drop_last() =~= snapshot@.take(i as int));
                assert(t1.last() == snapshot@[i as int]);
            }
            i += 1;
        }
        proof {
            assert(snapshot@.take(n as int) =~= snapshot@);
        }
        let ghost mounts = self.device_to_mount@;

        let stats = parse_disk_stats(stats_text);
        let ghost reads = stats.reads@;
        let ghost writes = stats.writes@;
        let ghost base_reads = self.last_read_sectors@;
        let ghost base_writes = self.last_write_sectors@;

        // Publish one tuple per physical disk.
        let ghost pred = physical_pred();
        let ghost f = entry_fn(mounts, reads, writes, base_reads, base_writes, elapsed_ms);
        let mut entries: Vec<(String, u64, u64, u64, u64)> = Vec::new();
        let mut j: usize = 0;
        proof {
            assert(snapshot@.take(0) =~= Seq::<DiskInfo>::empty());
            reveal(Seq::filter);
            assert(entry_views(entries@) =~= snapshot@.take(0).filter(pred).map_values(f));
        }
        while j < n
            invariant
                n == snapshot@.len(),
                j <= n,
                self.wf(),
                self.device_to_mount@ == mounts,
                self.last_read_sectors@ == base_reads,
                self.last_write_sectors@ == base_writes,
                self.last_read_sectors == old(self).last_read_sectors,
                self.last_write_sectors == old(self).last_write_sectors,
                stats.reads.wf(),
                stats.writes.wf(),
                stats.reads@ == reads,
                stats.writes@ == writes,
                pred == physical_pred(),
                f == entry_fn(mounts, reads, writes, base_reads, base_writes, elapsed_ms),
                entry_views(entries@) == snapshot@.take(j as int).filter(pred).map_values(f),
            decreases n - j,
        {
            let d = &snapshot[j];
            let physical = match d.kind {
                DiskKind::Hdd => true,
                DiskKind::Ssd => true,
                DiskKind::Other => false,
            };
            if physical {
                let label: String = match self.device_to_mount.get(d.name.as_str()) {
                    Some(mp) => mp.clone(),
                    None => d.mount_point.clone(),
                };
                let used: u64 = if d.total_space >= d.available_space {
                    d.total_space - d.available_space
                } else {
                    0
                };
                let read_rate: u64 = {
                    let c = stats.reads.get(d.name.as_str());
                    let p = self.last_read_sectors.get(d.name.as_str());
                    match (c, p) {
                        (Some(cv), Some(pv)) => disk_rate(*cv, *pv, elapsed_ms),
                        _ => 0,
                    }
                };
                let write_rate: u64 = {
                    let c = stats.writes.get(d.name.as_str());
                    let p = self.last_write_sectors.get(d.name.as_str());
                    match (c, p) {
                        (Some(cv), Some(pv)) => disk_rate(*cv, *pv, elapsed_ms),
                        _ => 0,
                    }
                };
                let tuple = (label, used, d.total_space, read_rate, write_rate);
                let ghost tv = entry_view(tuple);
                let ghost prev = entries@;
                proof {
                    assert(f(snapshot@[j as int]) == disk_entry_spec(snapshot@[j as int], mounts, reads, writes, base_reads, base_writes, elapsed_ms));
                    assert(tv == f(snapshot@[j as int]));
                }
                entries.push(tuple);
                proof {
                    assert(entry_views(entries@) =~= entry_views(prev).push(tv));
                }
            }
            proof {
                let t1 = snapshot@.take(j + 1);
                assert(t1.drop_last() =~= snapshot@.take(j as int));
                assert(t1.last() == snapshot@[j as int]);
                reveal(Seq::filter);
                if pred(snapshot@[j as int]) {
                    assert(t1.filter(pred) == snapshot@.take(j as int).filter(pred).push(snapshot@[j as int]));
                    assert(t1.filter(pred).map_values(f)
                        =~= snapshot@.take(j as int).filter(pred).map_values(f).push(f(snapshot@[j as int])));
                    assert(entry_views(entries@) =~= t1.filter(pred).map_values(f));
                } else {
                    assert(t1.filter(pred) == snapshot@.take(j as int).filter(pred));
                }
            }
            j += 1;
        }
        proof {
            assert(snapshot@.take(n as int) =~= snapshot@);
        }
        self.disks = entries;

        // Store this cycle's counters as the next cycle's baselines.
        self.last_read_sectors.insert_all(&stats.reads);
        self.last_write_sectors.insert_all(&stats.writes);

        proof {
            lemma_learning_preserves_all(merged0, snapshot@, old(self).device_to_mount@);
        }
    }
}

/// Mount-map stickiness across a cycle: a device whose mount point was
/// learned in an earlier cycle keeps that mount point through a full rebuild
/// — merging a fresh mount table (which may no longer list the device) and
/// learning from a snapshot — and a physical disk for a known device is
/// published under exactly that label.
pub proof fn lemma_sticky_mount_label(
    learned: Map<Seq<char>, Seq<char>>,
    fresh: Map<Seq<char>, Seq<char>>,
    snapshot: Seq<DiskInfo>,
    d: DiskInfo,
    reads: Map<Seq<char>, u64>,
    writes: Map<Seq<char>, u64>,
    base_reads: Map<Seq<char>, u64>,
    base_writes: Map<Seq<char>, u64>,
    elapsed_ms: u64,
)
    requires
        learned.contains_key(d.name@),
    ensures
        ({
            let merged = mounts_after_learning(fresh.union_prefer_right(learned), snapshot);
            &&& merged.contains_key(d.name@)
            &&& merged[d.name@] == learned[d.name@]
            &&& disk_entry_spec(d, merged, reads, writes, base_reads, base_writes, elapsed_ms).0
                == learned[d.name@]
        }),
{
    lemma_learning_preserves(fresh.union_prefer_right(learned), snapshot, d.name@);
}

/// Every binding of a submap of the starting table survives learning,
/// unchanged.
proof fn lemma_learning_preserves_all(
    m: Map<Seq<char>, Seq<char>>,
    disks: Seq<DiskInfo>,
    sub: Map<Seq<char>, Seq<char>>,
)
    requires
        forall|k: Seq<char>| #[trigger] sub.contains_key(k) ==> m.contains_key(k) && m[k] == sub[k],
    ensures
        forall|k: Seq<char>| #[trigger] sub.contains_key(k)
            ==> mounts_after_learning(m, disks).contains_key(k)
                && mounts_after_learning(m, disks)[k] == sub[k],
{
    assert forall|k: Seq<char>| #[trigger] sub.contains_key(k)
        implies mounts_after_learning(m, disks).contains_key(k)
            && mounts_after_learning(m, disks)[k] == sub[k] by {
        assert(m.contains_key(k) && m[k] == sub[k]);
        lemma_learning_preserves(m, disks, k);
    }
}

} // verus!
