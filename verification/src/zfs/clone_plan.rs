//! Incremental clone planning between a source and a destination volume
//! tree.  For each source filesystem under the source subtree, the plan
//! records whether the destination volume must be created and which
//! transfers (full or incremental) bring it up to date.  The first
//! filesystem pair that cannot be planned aborts the whole operation.

use vstd::prelude::*;

use crate::errors::Error;
use crate::text::{contains_char, eq_str};
use crate::zfs::exclude::{excluded_by, Exclusions};
use crate::zfs::{is_under, under_tree, Filesystem, FsView, Zfs};

verus! {

/// One planned transfer: everything between a base snapshot (`None` for a
/// full send) and a target snapshot.
#[derive(Debug, PartialEq, Eq)]
pub struct TransferPlan {
    pub from_snap: Option<String>,
    pub to_snap: String,
}

/// The mathematical image of a `TransferPlan`.
#[verifier::ext_equal]
pub struct TransferView {
    pub from_snap: Option<Seq<char>>,
    pub to_snap: Seq<char>,
}

impl View for TransferPlan {
    type V = TransferView;

    open spec fn view(&self) -> TransferView {
        TransferView {
            from_snap: match self.from_snap {
                Some(s) => Some(s@),
                None => None,
            },
            to_snap: self.to_snap@,
        }
    }
}

impl DeepView for TransferPlan {
    type V = TransferView;

    open spec fn deep_view(&self) -> TransferView {
        self.view()
    }
}

/// The plan for one source filesystem: its destination counterpart,
/// whether that volume must first be created, and the transfers to run in
/// order.  No transfers means the pair is already up to date.
#[derive(Debug, PartialEq, Eq)]
pub struct FsClonePlan {
    pub source_name: String,
    pub dest_name: String,
    pub needs_create: bool,
    pub transfers: Vec<TransferPlan>,
}

/// The mathematical image of an `FsClonePlan`.
#[verifier::ext_equal]
pub struct FsPlanView {
    pub source_name: Seq<char>,
    pub dest_name: Seq<char>,
    pub needs_create: bool,
    pub transfers: Seq<TransferView>,
}

impl View for FsClonePlan {
    type V = FsPlanView;

    open spec fn view(&self) -> FsPlanView {
        FsPlanView {
            source_name: self.source_name@,
            dest_name: self.dest_name@,
            needs_create: self.needs_create,
            transfers: self.transfers.deep_view(),
        }
    }
}

impl DeepView for FsClonePlan {
    type V = FsPlanView;

    open spec fn deep_view(&self) -> FsPlanView {
        self.view()
    }
}

/// The plan for one source filesystem and its destination counterpart.
///
/// - Destination present with snapshots: its newest snapshot must be known
///   to the source (`DivergedHistory` otherwise); if it equals the
///   source's newest, nothing to do; otherwise one incremental transfer.
/// - Destination present without snapshots: `EmptyDestination`.
/// - Destination absent: create it, seed it with a full transfer of the
///   source's oldest snapshot, and follow with one incremental transfer to
///   the newest when the source has two or more snapshots.  A source
///   without snapshots cannot seed anything (`ConfigurationError`).
pub open spec fn pair_plan(src: FsView, dest_name: Seq<char>, found: Option<FsView>) -> Result<
    FsPlanView,
    Error,
> {
    match found {
        Some(d) => {
            if d.snaps.len() == 0 {
                Err(Error::EmptyDestination)
            } else if !src.snaps.contains(d.snaps.last()) {
                Err(Error::DivergedHistory)
            } else if d.snaps.last() == src.snaps.last() {
                Ok(FsPlanView {
                    source_name: src.name,
                    dest_name: dest_name,
                    needs_create: false,
                    transfers: Seq::empty(),
                })
            } else {
                Ok(FsPlanView {
                    source_name: src.name,
                    dest_name: dest_name,
                    needs_create: false,
                    transfers: seq![
                        TransferView {
                            from_snap: Some(d.snaps.last()),
                            to_snap: src.snaps.last(),
                        },
                    ],
                })
            }
        },
        None => {
            if src.snaps.len() == 0 {
                Err(Error::ConfigurationError)
            } else if src.snaps.len() >= 2 {
                Ok(FsPlanView {
                    source_name: src.name,
                    dest_name: dest_name,
                    needs_create: true,
                    transfers: seq![
                        TransferView { from_snap: None, to_snap: src.snaps.first() },
                        TransferView {
                            from_snap: Some(src.snaps.first()),
                            to_snap: src.snaps.last(),
                        },
                    ],
                })
            } else {
                Ok(FsPlanView {
                    source_name: src.name,
                    dest_name: dest_name,
                    needs_create: true,
                    transfers: seq![TransferView { from_snap: None, to_snap: src.snaps.first() }],
                })
            }
        },
    }
}

/// The first index of `fss` whose filesystem is named `name`; `fss.len()`
/// when there is none.
pub open spec fn find_name(fss: Seq<FsView>, name: Seq<char>) -> int
    decreases fss.len(),
{
    if fss.len() == 0 {
        0
    } else if fss[0].name == name {
        0
    } else {
        1 + find_name(fss.subrange(1, fss.len() as int), name)
    }
}

proof fn lemma_find_name_props(fss: Seq<FsView>, name: Seq<char>)
    ensures
        0 <= find_name(fss, name) <= fss.len(),
        find_name(fss, name) < fss.len() ==> fss[find_name(fss, name)].name == name,
        forall|j: int| 0 <= j < find_name(fss, name) ==> fss[j].name != name,
    decreases fss.len(),
{
    if fss.len() == 0 {
    } else if fss[0].name == name {
    } else {
        let t = fss.subrange(1, fss.len() as int);
        lemma_find_name_props(t, name);
        assert forall|j: int| 0 <= j < find_name(fss, name) implies fss[j].name != name by {
            if j > 0 {
                assert(t[j - 1].name != name);
                assert(fss[j] == t[j - 1]);
            }
        }
    }
}

/// Find the first filesystem of `fss` named `name`.
fn find_fs(fss: &Vec<Filesystem>, name: &str) -> (r: Option<usize>)
    ensures
        match r {
            Some(k) => k < fss@.len() && find_name(fss.deep_view(), name@) == k,
            None => find_name(fss.deep_view(), name@) == fss@.len(),
        },
{
    let n = fss.len();
    let mut i: usize = 0;
    while i < n
        invariant
            n == fss@.len(),
            i <= n,
            forall|j: int| 0 <= j < i ==> (#[trigger] fss.deep_view()[j]).name != name@,
        decreases n - i,
    {
        if eq_str(fss[i].name.as_str(), name) {
            proof {
                lemma_find_name_props(fss.deep_view(), name@);
                assert(fss.deep_view()[i as int].name == name@);
                let w = find_name(fss.deep_view(), name@);
                if w < i {
                    assert(fss.deep_view()[w].name != name@);
                }
                if w > i {
                    assert(fss.deep_view()[i as int].name != name@);
                }
            }
            return Some(i);
        }
        i = i + 1;
    }
    proof {
        lemma_find_name_props(fss.deep_view(), name@);
        let w = find_name(fss.deep_view(), name@);
        if w < n {
            assert(fss.deep_view()[w].name != name@);
        }
    }
    None
}

/// Does the list hold a string equal to `s`?
fn contains_string(v: &Vec<String>, s: &str) -> (r: bool)
    ensures
        r == v.deep_view().contains(s@),
{
    let n = v.len();
    let mut i: usize = 0;
    while i < n
        invariant
            n == v@.len(),
            i <= n,
            forall|j: int| 0 <= j < i ==> #[trigger] v.deep_view()[j] != s@,
        decreases n - i,
    {
        if eq_str(v[i].as_str(), s) {
            proof {
                assert(v.deep_view()[i as int] == s@);
            }
            return true;
        }
        i = i + 1;
    }
    proof {
        if v.deep_view().contains(s@) {
            let j = choose|j: int| 0 <= j < v.deep_view().len() && v.deep_view()[j] == s@;
        }
    }
    false
}

/// A source filesystem takes part in the clone pass when it lies under the
/// source subtree, no exclusion pattern matches it, and it is not a
/// bookmark.
pub open spec fn eligible(fs: FsView, source: Seq<char>, excl: Seq<Seq<char>>) -> bool {
    under_tree(source, fs.name) && !excluded_by(excl, fs.name) && !fs.name.contains('#')
}

/// The destination volume paired with a source volume: the destination
/// subtree plus the source name with the source subtree stripped.
pub open spec fn counterpart_name(src_name: Seq<char>, source: Seq<char>, dest: Seq<char>)
    -> Seq<char> {
    dest + src_name.skip(source.len() as int)
}

/// The whole multi-filesystem plan, in inventory order; the first source
/// filesystem whose pair cannot be planned aborts the operation.
pub open spec fn plan_all(
    srcs: Seq<FsView>,
    source: Seq<char>,
    dest: Seq<char>,
    dests: Seq<FsView>,
    excl: Seq<Seq<char>>,
) -> Result<Seq<FsPlanView>, Error>
    decreases srcs.len(),
{
    if srcs.len() == 0 {
        Ok(Seq::empty())
    } else {
        match plan_all(srcs.drop_last(), source, dest, dests, excl) {
            Err(e) => Err(e),
            Ok(ps) => {
                let fs = srcs.last();
                if !eligible(fs, source, excl) {
                    Ok(ps)
                } else {
                    let full = counterpart_name(fs.name, source, dest);
                    let k = find_name(dests, full);
                    let found = if k < dests.len() {
                        Some(dests[k])
                    } else {
                        None
                    };
                    match pair_plan(fs, full, found) {
                        Err(e) => Err(e),
                        Ok(p) => Ok(ps.push(p)),
                    }
                }
            },
        }
    }
}

/// A failing prefix decides the whole plan.
proof fn lemma_plan_error_extends(
    srcs: Seq<FsView>,
    source: Seq<char>,
    dest: Seq<char>,
    dests: Seq<FsView>,
    excl: Seq<Seq<char>>,
    i: int,
)
    requires
        0 <= i <= srcs.len(),
        plan_all(srcs.subrange(0, i), source, dest, dests, excl) is Err,
    ensures
        plan_all(srcs, source, dest, dests, excl) == plan_all(
            srcs.subrange(0, i),
            source,
            dest,
            dests,
            excl,
        ),
    decreases srcs.len() - i,
{
    if i == srcs.len() {
        assert(srcs.subrange(0, i) =~= srcs);
    } else {
        let pre2 = srcs.subrange(0, i + 1);
        assert(pre2.drop_last() =~= srcs.subrange(0, i));
        lemma_plan_error_extends(srcs, source, dest, dests, excl, i + 1);
    }
}

impl Zfs {
    /// Plan the clone of every eligible filesystem under `source` onto the
    /// matching volumes under `dest` of `dest_zfs`.  The result lists, in
    /// inventory order, what each pair needs; the first pair that cannot
    /// be planned fails the whole operation with that pair's error.
    pub fn plan_clone(&self, source: &str, dest: &str, dest_zfs: &Zfs, excludes: &Exclusions)
        -> (r: Result<Vec<FsClonePlan>, Error>)
        ensures
            match r {
                Ok(v) => plan_all(
                    self.filesystems.deep_view(),
                    source@,
                    dest@,
                    dest_zfs.filesystems.deep_view(),
                    excludes@,
                ) == Ok::<Seq<FsPlanView>, Error>(v.deep_view()),
                Err(e) => plan_all(
                    self.filesystems.deep_view(),
                    source@,
                    dest@,
                    dest_zfs.filesystems.deep_view(),
                    excludes@,
                ) == Err::<Seq<FsPlanView>, Error>(e),
            },
    {
        let ghost srcs = self.filesystems.deep_view();
        let ghost dests = dest_zfs.filesystems.deep_view();
        let n = self.filesystems.len();
        let mut acc: Vec<FsClonePlan> = Vec::new();
        let mut i: usize = 0;
        proof {
            assert(srcs.subrange(0, 0) =~= Seq::<FsView>::empty());
            assert(acc.deep_view() =~= Seq::<FsPlanView>::empty());
        }
        while i < n
            invariant
                n == self.filesystems@.len(),
                srcs == self.filesystems.deep_view(),
                dests == dest_zfs.filesystems.deep_view(),
                srcs.len() == n,
                i <= n,
                plan_all(srcs.subrange(0, i as int), source@, dest@, dests, excludes@)
                    == Ok::<Seq<FsPlanView>, Error>(acc.deep_view()),
            decreases n - i,
        {
            let ghost pre = srcs.subrange(0, i as int);
            let ghost pre2 = srcs.subrange(0, i + 1);
            proof {
                assert(pre2.drop_last() =~= pre);
                assert(pre2.last() == srcs[i as int]);
            }
            let fs = &self.filesystems[i];
            let name = fs.name.as_str();
            let skip_it = !is_under(name, source) || excludes.is_excluded(name) || contains_char(
                name,
                '#',
            );
            if skip_it {
                proof {
                    assert(!eligible(srcs[i as int], source@, excludes@));
                    assert(plan_all(pre2, source@, dest@, dests, excludes@)
                        == Ok::<Seq<FsPlanView>, Error>(acc.deep_view()));
                }
                i = i + 1;
                continue;
            }
            proof {
                assert(eligible(srcs[i as int], source@, excludes@));
            }
            // The destination counterpart's full name.
            let slen = source.unicode_len();
            let nlen = name.unicode_len();
            let suffix = name.substring_char(slen, nlen);
            let mut full = dest.to_owned();
            full.append(suffix);
            proof {
                assert(name@.subrange(slen as int, nlen as int) =~= name@.skip(slen as int));
                assert(full@ == counterpart_name(srcs[i as int].name, source@, dest@));
            }
            let ghost gfull = full@;
            let outcome: Result<FsClonePlan, Error> = match find_fs(
                &dest_zfs.filesystems,
                full.as_str(),
            ) {
                Some(k) => {
                    let d = &dest_zfs.filesystems[k];
                    proof {
                        assert(dests[k as int] == d@);
                    }
                    let dlen = d.snaps.len();
                    if dlen == 0 {
                        Err(Error::EmptyDestination)
                    } else {
                        let last_d = &d.snaps[dlen - 1];
                        proof {
                            assert(last_d@ == d@.snaps.last());
                        }
                        if !contains_string(&fs.snaps, last_d.as_str()) {
                            Err(Error::DivergedHistory)
                        } else {
                            proof {
                                assert(fs@.snaps.contains(d@.snaps.last()));
                                assert(fs@.snaps.len() > 0);
                            }
                            let src_last = &fs.snaps[fs.snaps.len() - 1];
                            proof {
                                assert(src_last@ == fs@.snaps.last());
                            }
                            if eq_str(last_d.as_str(), src_last.as_str()) {
                                Ok(FsClonePlan {
                                    source_name: fs.name.clone(),
                                    dest_name: full,
                                    needs_create: false,
                                    transfers: Vec::new(),
                                })
                            } else {
                                let mut transfers: Vec<TransferPlan> = Vec::new();
                                transfers.push(TransferPlan {
                                    from_snap: Some(last_d.clone()),
                                    to_snap: src_last.clone(),
                                });
                                Ok(FsClonePlan {
                                    source_name: fs.name.clone(),
                                    dest_name: full,
                                    needs_create: false,
                                    transfers,
                                })
                            }
                        }
                    }
                },
                None => {
                    if fs.snaps.len() == 0 {
                        Err(Error::ConfigurationError)
                    } else {
                        let first = &fs.snaps[0];
                        proof {
                            assert(first@ == fs@.snaps.first());
                        }
                        let mut transfers: Vec<TransferPlan> = Vec::new();
                        transfers.push(TransferPlan {
                            from_snap: None,
                            to_snap: first.clone(),
                        });
                        if fs.snaps.len() >= 2 {
                            let src_last = &fs.snaps[fs.snaps.len() - 1];
                            proof {
                                assert(src_last@ == fs@.snaps.last());
                            }
                            transfers.push(TransferPlan {
                                from_snap: Some(first.clone()),
                                to_snap: src_last.clone(),
                            });
                        }
                        Ok(FsClonePlan {
                            source_name: fs.name.clone(),
                            dest_name: full,
                            needs_create: true,
                            transfers,
                        })
                    }
                },
            };
            let ghost k = find_name(dests, gfull);
            let ghost found: Option<FsView> = if k < dests.len() {
                Some(dests[k])
            } else {
                None
            };
            match outcome {
                Ok(p) => {
                    proof {
                        assert(p.deep_view() =~~= pair_plan(
                            srcs[i as int],
                            gfull,
                            found,
                        )->Ok_0);
                        assert(acc.deep_view().push(p.deep_view()) =~~= plan_all(
                            pre2,
                            source@,
                            dest@,
                            dests,
                            excludes@,
                        )->Ok_0);
                    }
                    acc.push(p);
                    proof {
                        assert(acc.deep_view() =~~= plan_all(
                            pre2,
                            source@,
                            dest@,
                            dests,
                            excludes@,
                        )->Ok_0);
                    }
                },
                Err(e) => {
                    proof {
                        assert(pair_plan(srcs[i as int], gfull, found) == Err::<
                            FsPlanView,
                            Error,
                        >(e));
                        assert(plan_all(pre2, source@, dest@, dests, excludes@) == Err::<
                            Seq<FsPlanView>,
                            Error,
                        >(e));
                        lemma_plan_error_extends(srcs, source@, dest@, dests, excludes@, i + 1);
                    }
                    return Err(e);
                },
            }
            i = i + 1;
        }
        proof {
            assert(srcs.subrange(0, n as int) =~= srcs);
        }
        Ok(acc)
    }
}

} // verus!
