//! Population-count ("Hanoi") snapshot retention: always keep the newest
//! `keep` matching snapshots; among the older ones, scanned newest to
//! oldest, keep only the first snapshot seen for each population count of
//! its numeric index.

use vstd::prelude::*;

use crate::errors::Error;
use crate::text::eq_str;
use crate::zfs::{snap_index, snap_matches, snap_number, Zfs};

verus! {

/// How many of the newest matching snapshots a pruning run always keeps.
pub const PRUNE_KEEP: usize = 10;

/// The number of set bits in `n`.
pub open spec fn popcount(n: nat) -> nat
    decreases n,
{
    if n == 0 {
        0
    } else {
        n % 2 + popcount(n / 2)
    }
}

proof fn lemma_popcount_le(n: nat)
    ensures
        popcount(n) <= n,
    decreases n,
{
    if n > 0 {
        lemma_popcount_le(n / 2);
    }
}

/// Count the set bits of `n`.
pub fn popcount_u64(n: u64) -> (r: u64)
    ensures
        r == popcount(n as nat),
{
    proof {
        lemma_popcount_le(n as nat);
    }
    let mut k = n;
    let mut c: u64 = 0;
    while k > 0
        invariant
            c + popcount(k as nat) == popcount(n as nat),
            c <= popcount(n as nat),
            popcount(n as nat) <= n,
        decreases k,
    {
        proof {
            lemma_popcount_le(k as nat);
        }
        c = c + k % 2;
        k = k / 2;
    }
    c
}

/// In a newest-first list of snapshot indices, entry `i` is prunable when
/// it lies beyond the retention window and a strictly newer out-of-window
/// entry has the same population count.
pub open spec fn prunable_at(nums: Seq<nat>, keep: int, i: int) -> bool {
    i >= keep && exists|j: int| keep <= j < i && popcount(nums[j]) == popcount(nums[i])
}

/// Mark each entry of a newest-first list of snapshot indices as prunable
/// or retained under retention window `keep`.
pub fn hanoi_prunable(nums: &Vec<u64>, keep: usize) -> (r: Vec<bool>)
    ensures
        r@.len() == nums@.len(),
        forall|i: int| 0 <= i < nums@.len() ==> r@[i] == prunable_at(
            nums@.map_values(|v: u64| v as nat),
            keep as int,
            i,
        ),
{
    let ghost gnums = nums@.map_values(|v: u64| v as nat);
    let n = nums.len();
    let mut r: Vec<bool> = Vec::new();
    let mut seen: Vec<u64> = Vec::new();
    let mut i: usize = 0;
    while i < n
        invariant
            n == nums@.len(),
            gnums == nums@.map_values(|v: u64| v as nat),
            gnums.len() == n,
            i <= n,
            r@.len() == i,
            forall|k: int| 0 <= k < i ==> r@[k] == prunable_at(gnums, keep as int, k),
            forall|v: u64| seen@.contains(v) <==> exists|j: int|
                keep <= j < i && popcount(gnums[j]) == v,
        decreases n - i,
    {
        let ghost seen0 = seen@;
        if i < keep {
            r.push(false);
        } else {
            let p = popcount_u64(nums[i]);
            let mut found = false;
            let mut s: usize = 0;
            let m = seen.len();
            while s < m
                invariant
                    m == seen@.len(),
                    s <= m,
                    found <==> exists|t: int| 0 <= t < s && seen@[t] == p,
                decreases m - s,
            {
                if seen[s] == p {
                    found = true;
                }
                s = s + 1;
            }
            proof {
                if found {
                    let t = choose|t: int| 0 <= t < seen@.len() && seen@[t] == p;
                    assert(seen@.contains(p));
                } else {
                    if seen@.contains(p) {
                        let t = choose|t: int| 0 <= t < seen@.len() && seen@[t] == p;
                    }
                }
                assert(found <==> seen@.contains(p));
                assert(popcount(gnums[i as int]) == p);
            }
            r.push(found);
            if !found {
                seen.push(p);
            }
            proof {
                assert forall|v: u64|
                    seen@.contains(v) <==> exists|j: int|
                        keep <= j < i + 1 && popcount(gnums[j]) == v by {
                    if seen@.contains(v) {
                        let t = choose|t: int| 0 <= t < seen@.len() && seen@[t] == v;
                        if t < seen0.len() {
                            assert(seen0[t] == v);
                            assert(seen0.contains(v));
                            let j = choose|j: int|
                                keep <= j < i && popcount(gnums[j]) == v;
                            assert(keep <= j < i + 1 && popcount(gnums[j]) == v);
                        } else {
                            assert(v == p);
                            assert(popcount(gnums[i as int]) == v);
                        }
                    }
                    if exists|j: int| keep <= j < i + 1 && popcount(gnums[j]) == v {
                        let j = choose|j: int| keep <= j < i + 1 && popcount(gnums[j]) == v;
                        if j < i {
                            assert(seen0.contains(v));
                            let t = choose|t: int| 0 <= t < seen0.len() && seen0[t] == v;
                            assert(seen@[t] == v);
                            assert(seen@.contains(v));
                        } else {
                            assert(v == p);
                            if found {
                                assert(seen0.contains(v));
                                let t = choose|t: int| 0 <= t < seen0.len() && seen0[t] == v;
                                assert(seen@[t] == v);
                                assert(seen@.contains(v));
                            } else {
                                assert(seen@[seen@.len() - 1] == v);
                                assert(seen@.contains(v));
                            }
                        }
                    }
                }
            }
        }
        proof {
            if i < keep {
                assert(!prunable_at(gnums, keep as int, i as int));
                assert(forall|v: u64| seen@.contains(v) <==> exists|j: int|
                    keep <= j < i + 1 && popcount(gnums[j]) == v);
            }
        }
        i = i + 1;
    }
    r
}

/// The snapshot names of `snaps` that match the grammar under `prefix`,
/// in their original (oldest-first) order.
pub open spec fn matching(prefix: Seq<char>, snaps: Seq<Seq<char>>) -> Seq<Seq<char>>
    decreases snaps.len(),
{
    if snaps.len() == 0 {
        Seq::empty()
    } else {
        matching(prefix, snaps.drop_last()) + (if snap_matches(prefix, snaps.last()) {
            seq![snaps.last()]
        } else {
            Seq::empty()
        })
    }
}

/// The numeric indices of a list of matching snapshot names.
pub open spec fn indices_of(prefix: Seq<char>, names: Seq<Seq<char>>) -> Seq<nat> {
    names.map_values(|s: Seq<char>| snap_index(prefix, s))
}

/// The full `volume@snapshot` name handed to the deletion tool.
pub open spec fn deletion_name(fsname: Seq<char>, snap: Seq<char>) -> Seq<char> {
    fsname + seq!['@'] + snap
}

/// The deletion names picked while scanning the newest-first matching list
/// from its newest end, in scan order (newest first).
pub open spec fn picked(
    fsname: Seq<char>,
    prefix: Seq<char>,
    names_nf: Seq<Seq<char>>,
    keep: int,
    upto: int,
) -> Seq<Seq<char>>
    decreases upto,
{
    if upto <= 0 {
        Seq::empty()
    } else {
        picked(fsname, prefix, names_nf, keep, upto - 1) + (if prunable_at(
            indices_of(prefix, names_nf),
            keep,
            upto - 1,
        ) {
            seq![deletion_name(fsname, names_nf[upto - 1])]
        } else {
            Seq::empty()
        })
    }
}

/// Everything the retention policy wants deleted from a snapshot list,
/// oldest first: prunability is judged on the newest-first matching list,
/// deletion proceeds from the oldest end.
pub open spec fn prune_plan(
    fsname: Seq<char>,
    prefix: Seq<char>,
    snaps: Seq<Seq<char>>,
    keep: int,
) -> Seq<Seq<char>> {
    let nf = matching(prefix, snaps).reverse();
    picked(fsname, prefix, nf, keep, nf.len() as int).reverse()
}

/// A copy of `v` in reverse order.
fn reversed_strings(v: &Vec<String>) -> (r: Vec<String>)
    ensures
        r.deep_view() =~= v.deep_view().reverse(),
{
    let n = v.len();
    let mut r: Vec<String> = Vec::new();
    let mut i: usize = 0;
    while i < n
        invariant
            n == v@.len(),
            i <= n,
            r@.len() == i,
            forall|j: int| 0 <= j < i ==> r@[j] == v@[n - 1 - j],
        decreases n - i,
    {
        r.push(v[n - 1 - i].clone());
        i = i + 1;
    }
    proof {
        assert forall|j: int| 0 <= j < n implies r.deep_view()[j] == v.deep_view().reverse()[j] by {
            assert(r.deep_view()[j] == r@[j]@);
            assert(v.deep_view().reverse()[j] == v.deep_view()[n - 1 - j]);
            assert(v.deep_view()[n - 1 - j] == v@[n - 1 - j]@);
        }
        assert(r.deep_view() =~= v.deep_view().reverse());
    }
    r
}

/// A copy of `v` in reverse order.
fn reversed_u64(v: &Vec<u64>) -> (r: Vec<u64>)
    ensures
        r@ =~= v@.reverse(),
{
    let n = v.len();
    let mut r: Vec<u64> = Vec::new();
    let mut i: usize = 0;
    while i < n
        invariant
            n == v@.len(),
            i <= n,
            r@.len() == i,
            forall|j: int| 0 <= j < i ==> r@[j] == v@[n - 1 - j],
        decreases n - i,
    {
        r.push(v[n - 1 - i]);
        i = i + 1;
    }
    r
}

impl Zfs {
    /// Compute the Hanoi-retention deletions for the named filesystem:
    /// every `volume@snapshot` to destroy, oldest first.  Snapshots that do
    /// not match the name grammar are ignored; the `keep` newest matching
    /// ones are always retained; among the rest, scanned newest to oldest,
    /// the first snapshot of each population count survives.  Fails with
    /// `ConfigurationError` when no filesystem has the given name.
    pub fn prune_hanoi_plan(&self, fs_name: &str, keep: usize) -> (r: Result<Vec<String>, Error>)
        ensures
            match r {
                Ok(v) => exists|k: int|
                    0 <= k < self.filesystems@.len() && (#[trigger] self.filesystems.deep_view()[k]).name
                        == fs_name@ && (forall|j: int|
                        0 <= j < k ==> self.filesystems.deep_view()[j].name != fs_name@)
                        && v.deep_view() == prune_plan(
                        fs_name@,
                        self.prefix@,
                        self.filesystems.deep_view()[k].snaps,
                        keep as int,
                    ),
                Err(e) => e == Error::ConfigurationError && forall|j: int|
                    0 <= j < self.filesystems@.len()
                        ==> (#[trigger] self.filesystems.deep_view()[j]).name != fs_name@,
            },
    {
        let n = self.filesystems.len();
        let mut fi: usize = 0;
        while fi < n
            invariant
                n == self.filesystems@.len(),
                fi <= n,
                forall|j: int| 0 <= j < fi ==> (#[trigger] self.filesystems.deep_view()[j]).name
                    != fs_name@,
            decreases n - fi,
        {
            if eq_str(self.filesystems[fi].name.as_str(), fs_name) {
                let v = self.prune_plan_for(fi, fs_name, keep);
                return Ok(v);
            }
            fi = fi + 1;
        }
        Err(Error::ConfigurationError)
    }

    /// The deletion list of `prune_hanoi_plan` for the filesystem at a
    /// known index.
    fn prune_plan_for(&self, fi: usize, fs_name: &str, keep: usize) -> (v: Vec<String>)
        requires
            fi < self.filesystems@.len(),
        ensures
            v.deep_view() == prune_plan(
                fs_name@,
                self.prefix@,
                self.filesystems.deep_view()[fi as int].snaps,
                keep as int,
            ),
    {
        let fs = &self.filesystems[fi];
        let ghost snaps = fs.snaps.deep_view();
        let m = fs.snaps.len();

        // Matching snapshot names, oldest first, with their indices.
        let mut names: Vec<String> = Vec::new();
        let mut nums: Vec<u64> = Vec::new();
        let mut k: usize = 0;
        proof {
            assert(matching(self.prefix@, snaps.subrange(0, 0)) =~= Seq::<Seq<char>>::empty());
            assert(snaps.subrange(0, 0) =~= Seq::<Seq<char>>::empty());
        }
        while k < m
            invariant
                m == fs.snaps@.len(),
                snaps == fs.snaps.deep_view(),
                snaps.len() == m,
                k <= m,
                names.deep_view() =~= matching(self.prefix@, snaps.subrange(0, k as int)),
                nums@.len() == names@.len(),
                forall|t: int| 0 <= t < nums@.len() ==> nums@[t] as nat == snap_index(
                    self.prefix@,
                    names.deep_view()[t],
                ),
            decreases m - k,
        {
            let ghost pre = snaps.subrange(0, k as int);
            let ghost pre2 = snaps.subrange(0, k + 1);
            proof {
                assert(pre2.drop_last() =~= pre);
                assert(pre2.last() == snaps[k as int]);
            }
            match snap_number(self.prefix.as_str(), fs.snaps[k].as_str()) {
                Some(num) => {
                    names.push(fs.snaps[k].clone());
                    nums.push(num as u64);
                },
                None => {},
            }
            proof {
                assert(names.deep_view() =~= matching(self.prefix@, pre2));
            }
            k = k + 1;
        }
        proof {
            assert(snaps.subrange(0, m as int) =~= snaps);
        }

        // Newest first.
        let rnames = reversed_strings(&names);
        let rnums = reversed_u64(&nums);
        let ghost nf = matching(self.prefix@, snaps).reverse();
        proof {
            assert(rnames.deep_view() == nf);
            assert(rnums@.map_values(|v: u64| v as nat) =~= indices_of(self.prefix@, nf));
        }

        // Prunability flags over the newest-first list.
        let flags = hanoi_prunable(&rnums, keep);

        // Collect deletions in scan order, then deliver them oldest first.
        let cnt = rnames.len();
        let mut pr: Vec<String> = Vec::new();
        let mut i: usize = 0;
        proof {
            assert(picked(fs_name@, self.prefix@, nf, keep as int, 0) =~= Seq::<Seq<char>>::empty());
        }
        while i < cnt
            invariant
                cnt == rnames@.len(),
                rnames.deep_view() == nf,
                nf.len() == cnt,
                flags@.len() == cnt,
                forall|t: int| 0 <= t < cnt ==> flags@[t] == prunable_at(
                    indices_of(self.prefix@, nf),
                    keep as int,
                    t,
                ),
                i <= cnt,
                pr.deep_view() =~= picked(fs_name@, self.prefix@, nf, keep as int, i as int),
            decreases cnt - i,
        {
            if flags[i] {
                let mut nm = fs_name.to_owned();
                nm.append("@");
                nm.append(rnames[i].as_str());
                proof {
                    reveal_strlit("@");
                    assert("@"@ =~= seq!['@']);
                    assert(nm@ =~= deletion_name(fs_name@, nf[i as int]));
                }
                pr.push(nm);
            }
            proof {
                assert(pr.deep_view() =~= picked(
                    fs_name@,
                    self.prefix@,
                    nf,
                    keep as int,
                    i + 1,
                ));
            }
            i = i + 1;
        }
        let v = reversed_strings(&pr);
        proof {
            assert(v.deep_view() =~= prune_plan(fs_name@, self.prefix@, snaps, keep as int));
        }
        v
    }
}

} // verus!
