//! The decisions of benchmark discovery: which walked directory entries
//! become benchmarks. The walk itself, path canonicalization and the checks
//! on the file system happen outside the library and arrive here as plain
//! values.

use vstd::prelude::*;

use crate::benchmark::Benchmark;

verus! {

/// One candidate found by walking the benchmark tree at depth two: its
/// terminal directory name, its canonical path, and what the file system
/// said about it.
#[derive(Debug, Clone)]
pub struct DiscoveredEntry {
    /// The terminal name of the candidate directory.
    pub name: String,
    /// The candidate's canonical path.
    pub path: String,
    /// The entry is a directory.
    pub is_dir: bool,
    /// The directory holds the toolchain's project-manifest file at its root.
    pub has_manifest: bool,
}

/// A candidate qualifies when it is a directory holding the project
/// manifest; anything else is passed over.
pub open spec fn qualifies(e: DiscoveredEntry) -> bool {
    e.is_dir && e.has_manifest
}

/// `b` is the fresh record discovery makes for entry `e`: names carried
/// over, nothing run yet.
pub open spec fn fresh_from(b: Benchmark, e: DiscoveredEntry) -> bool {
    &&& b.name == e.name
    &&& b.path == e.path
    &&& b.start_time is None
    &&& b.end_time is None
    &&& b.bytecode_size is None
    &&& b.phases@.len() == 0
    &&& b.frames@.len() == 0
}

/// Turns the walked candidates into fresh benchmark records, in walk order:
/// exactly the qualifying entries, each a fresh record, and none when no
/// candidate qualifies. An entry without the manifest yields no record here;
/// the run itself treats a missing manifest as fatal before spawning.
pub fn select_benchmarks(entries: &Vec<DiscoveredEntry>) -> (r: Vec<Benchmark>)
    ensures
        r@.len() == entries@.filter(|e: DiscoveredEntry| qualifies(e)).len(),
        forall|i: int|
            0 <= i < r@.len() ==> fresh_from(
                #[trigger] r@[i],
                entries@.filter(|e: DiscoveredEntry| qualifies(e))[i],
            ),
{
    let ghost pred = |e: DiscoveredEntry| qualifies(e);
    let mut r: Vec<Benchmark> = Vec::new();
    let mut i: usize = 0;
    while i < entries.len()
        invariant
            0 <= i <= entries@.len(),
            pred == (|e: DiscoveredEntry| qualifies(e)),
            r@.len() == entries@.take(i as int).filter(pred).len(),
            forall|k: int|
                0 <= k < r@.len() ==> fresh_from(
                    #[trigger] r@[k],
                    entries@.take(i as int).filter(pred)[k],
                ),
        decreases entries@.len() - i,
    {
        let e = &entries[i];
        proof {
            reveal_with_fuel(Seq::<DiscoveredEntry>::filter, 2);
            assert(entries@.take(i + 1).len() == i + 1);
            assert(entries@.take(i + 1).drop_last() =~= entries@.take(i as int));
            assert(entries@.take(i + 1).last() == entries@[i as int]);
            assert(entries@.take(i + 1).filter(pred) == if pred(entries@[i as int]) {
                entries@.take(i as int).filter(pred).push(entries@[i as int])
            } else {
                entries@.take(i as int).filter(pred)
            });
        }
        if e.is_dir && e.has_manifest {
            proof {
                assert(pred(entries@[i as int]));
            }
            r.push(Benchmark::new(e.name.clone(), e.path.clone()));
        } else {
            proof {
                assert(!pred(entries@[i as int]));
            }
        }
        i = i + 1;
    }
    proof {
        assert(entries@.take(entries@.len() as int) =~= entries@);
    }
    r
}

} // verus!
