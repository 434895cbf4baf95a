//! The configuration model and the assembly of one backup run: the
//! declared targets become phase-grouped actions — timestamps, snapshots,
//! mounts, integrity scans, archival — concatenated into a single runner
//! in fixed phase order.  Loading the configuration file is the
//! surrounding program's job; it hands the plain values in.

use vstd::prelude::*;

use crate::actions::borg::BorgBackup;
use crate::actions::runner::Runner;
use crate::actions::snaps::{LvmRsure, LvmSnapshot, MountSnap, SimpleRsure, Stamp};
use crate::actions::{Action, Message};
use crate::errors::Error;
use crate::text::{eq_str, slash_join};

verus! {

/// The whole configuration: global settings and the two kinds of backup
/// targets.
pub struct ConfigFile {
    pub config: Config,
    pub simple: Vec<Simple>,
    pub lvm: Vec<Lvm>,
}

/// Global settings: the path of the archival wrapper script.
pub struct Config {
    pub borg: String,
}

/// A backup target that is scanned and archived in place.
pub struct Simple {
    pub name: String,
    pub mount: String,
    pub actions: Vec<String>,
}

/// A backup target that is first snapshotted through LVM and mounted.
pub struct Lvm {
    pub name: String,
    pub mount: String,
    pub snap: String,
    pub vg: String,
    pub lv: String,
    pub lv_snap: String,
    pub fs: String,
    pub actions: Vec<String>,
}

/// The mathematical image of a `Simple` target.
#[verifier::ext_equal]
pub struct SimpleView {
    pub name: Seq<char>,
    pub mount: Seq<char>,
    pub actions: Seq<Seq<char>>,
}

impl View for Simple {
    type V = SimpleView;

    open spec fn view(&self) -> SimpleView {
        SimpleView { name: self.name@, mount: self.mount@, actions: self.actions.deep_view() }
    }
}

impl DeepView for Simple {
    type V = SimpleView;

    open spec fn deep_view(&self) -> SimpleView {
        self.view()
    }
}

/// The mathematical image of an `Lvm` target.
#[verifier::ext_equal]
pub struct LvmView {
    pub name: Seq<char>,
    pub mount: Seq<char>,
    pub snap: Seq<char>,
    pub vg: Seq<char>,
    pub lv: Seq<char>,
    pub lv_snap: Seq<char>,
    pub fs: Seq<char>,
    pub actions: Seq<Seq<char>>,
}

impl View for Lvm {
    type V = LvmView;

    open spec fn view(&self) -> LvmView {
        LvmView {
            name: self.name@,
            mount: self.mount@,
            snap: self.snap@,
            vg: self.vg@,
            lv: self.lv@,
            lv_snap: self.lv_snap@,
            fs: self.fs@,
            actions: self.actions.deep_view(),
        }
    }
}

impl DeepView for Lvm {
    type V = LvmView;

    open spec fn deep_view(&self) -> LvmView {
        self.view()
    }
}

/// One planned backup step, as data: the driver that owns the run turns
/// each into the real effect (a file write, a process, a scan).
pub enum PlannedAction {
    Message(Message),
    Stamp(Stamp),
    LvmSnapshot(LvmSnapshot),
    MountSnap(MountSnap),
    LvmRsure(LvmRsure),
    SimpleRsure(SimpleRsure),
    BorgBackup(BorgBackup),
}

/// The mathematical image of a planned step.
#[verifier::ext_equal]
pub enum PlannedView {
    Message { text: Seq<char> },
    Stamp { path: Seq<char> },
    LvmSnapshot { pv: Seq<char>, base: Seq<char>, snap: Seq<char> },
    MountSnap { device: Seq<char>, mount: Seq<char>, is_xfs: bool },
    LvmRsure { base_mount: Seq<char>, mount: Seq<char>, name: Seq<char> },
    SimpleRsure { mount: Seq<char>, name: Seq<char> },
    BorgBackup { snap: Seq<char>, script: Seq<char>, name: Seq<char> },
}

impl View for PlannedAction {
    type V = PlannedView;

    open spec fn view(&self) -> PlannedView {
        match self {
            PlannedAction::Message(m) => PlannedView::Message { text: m.text_view() },
            PlannedAction::Stamp(a) => PlannedView::Stamp { path: a.path@ },
            PlannedAction::LvmSnapshot(a) => PlannedView::LvmSnapshot {
                pv: a.pv@,
                base: a.base@,
                snap: a.snap@,
            },
            PlannedAction::MountSnap(a) => PlannedView::MountSnap {
                device: a.device@,
                mount: a.mount@,
                is_xfs: a.is_xfs,
            },
            PlannedAction::LvmRsure(a) => PlannedView::LvmRsure {
                base_mount: a.base_mount@,
                mount: a.mount@,
                name: a.name@,
            },
            PlannedAction::SimpleRsure(a) => PlannedView::SimpleRsure {
                mount: a.mount@,
                name: a.name@,
            },
            PlannedAction::BorgBackup(a) => PlannedView::BorgBackup {
                snap: a.snap@,
                script: a.script@,
                name: a.name@,
            },
        }
    }
}

impl PlannedAction {
    /// One line saying what this step does.
    pub fn describe(&self) -> (r: String)
        ensures
            r@ == planned_description(self@),
    {
        match self {
            PlannedAction::Message(m) => {
                proof {
                    use_type_invariant(m);
                    m.message_description();
                }
                m.describe()
            },
            PlannedAction::Stamp(a) => a.describe(),
            PlannedAction::LvmSnapshot(a) => a.describe(),
            PlannedAction::MountSnap(a) => a.describe(),
            PlannedAction::LvmRsure(a) => a.describe(),
            PlannedAction::SimpleRsure(a) => a.describe(),
            PlannedAction::BorgBackup(a) => a.describe(),
        }
    }
}

/// The description line of a planned step.
pub open spec fn planned_description(v: PlannedView) -> Seq<char> {
    match v {
        PlannedView::Message { text } => "    running: "@ + text,
        PlannedView::Stamp { path } => "Backup stamp file: "@ + path,
        PlannedView::LvmSnapshot { pv, base, snap } => "LVM2 snapshot of "@ + pv + "/"@ + base
            + " to "@ + snap,
        PlannedView::MountSnap { device, mount, .. } => "Mount LVM2 snapshot "@ + device + " to "@
            + mount,
        PlannedView::LvmRsure { mount, .. } => "LVM2-based Rsure scan of "@ + mount,
        PlannedView::SimpleRsure { mount, .. } => "Simple Rsure scan of "@ + mount,
        PlannedView::BorgBackup { snap, name, .. } => "Borg backup of "@ + snap + " to "@ + name,
    }
}

/// The images of a sequence of planned steps.
pub open spec fn views_of(s: Seq<PlannedAction>) -> Seq<PlannedView> {
    s.map_values(|a: PlannedAction| a@)
}

/// Does the name filter admit `name`?  An empty filter admits everything.
pub open spec fn passes(names: Seq<Seq<char>>, name: Seq<char>) -> bool {
    names.len() == 0 || names.contains(name)
}

/// A filter over target names: empty means every target.
pub struct NameFilter {
    names: Vec<String>,
}

impl View for NameFilter {
    type V = Seq<Seq<char>>;

    closed spec fn view(&self) -> Seq<Seq<char>> {
        self.names.deep_view()
    }
}

impl NameFilter {
    /// A filter admitting exactly the given names, or everything when the
    /// list is empty.
    pub fn new(names: &Vec<String>) -> (r: NameFilter)
        ensures
            r@ == names.deep_view(),
    {
        let mut held: Vec<String> = Vec::new();
        let n = names.len();
        let mut i: usize = 0;
        while i < n
            invariant
                n == names@.len(),
                i <= n,
                held@.len() == i,
                forall|j: int| 0 <= j < i ==> held@[j] == names@[j],
            decreases n - i,
        {
            held.push(names[i].clone());
            i = i + 1;
        }
        let r = NameFilter { names: held };
        proof {
            assert(r@ =~~= names.deep_view());
        }
        r
    }

    /// Does the filter admit `name`?
    pub fn contains(&self, name: &str) -> (r: bool)
        ensures
            r == passes(self@, name@),
    {
        let n = self.names.len();
        if n == 0 {
            return true;
        }
        let mut i: usize = 0;
        while i < n
            invariant
                n == self.names@.len(),
                i <= n,
                forall|j: int| 0 <= j < i ==> #[trigger] self.names.deep_view()[j] != name@,
            decreases n - i,
        {
            if eq_str(self.names[i].as_str(), name) {
                proof {
                    assert(self.names.deep_view()[i as int] == name@);
                }
                return true;
            }
            i = i + 1;
        }
        proof {
            if self@.contains(name@) {
                let j = choose|j: int| 0 <= j < self@.len() && self@[j] == name@;
            }
        }
        false
    }
}

/// The fixed execution phases of one backup run, each a runner of its
/// own; they are concatenated in this order.
pub enum Phase {
    Timestamp,
    Snapshot,
    Mount,
    Rsure,
    Borg,
}

/// One runner per phase while a run is being assembled.
pub struct Phases {
    pub timestamp: Runner<PlannedAction>,
    pub snapshot: Runner<PlannedAction>,
    pub mount: Runner<PlannedAction>,
    pub rsure: Runner<PlannedAction>,
    pub borg: Runner<PlannedAction>,
}

/// A banner step announcing a phase.
pub open spec fn banner(text: Seq<char>) -> PlannedView {
    PlannedView::Message { text }
}

/// The timestamp steps the selected simple targets contribute, in order.
pub open spec fn stamps_of_simple(list: Seq<SimpleView>, names: Seq<Seq<char>>) -> Seq<
    PlannedView,
>
    decreases list.len(),
{
    if list.len() == 0 {
        Seq::empty()
    } else {
        stamps_of_simple(list.drop_last(), names) + (if passes(names, list.last().name) {
            seq![PlannedView::Stamp { path: list.last().mount + "/snapstamp"@ }]
        } else {
            Seq::empty()
        })
    }
}

/// The scan steps the selected simple targets contribute, in order.
pub open spec fn rsures_of_simple(
    list: Seq<SimpleView>,
    names: Seq<Seq<char>>,
    stamp: Seq<char>,
) -> Seq<PlannedView>
    decreases list.len(),
{
    if list.len() == 0 {
        Seq::empty()
    } else {
        rsures_of_simple(list.drop_last(), names, stamp) + (if passes(names, list.last().name) {
            seq![PlannedView::SimpleRsure { mount: list.last().mount, name: stamp }]
        } else {
            Seq::empty()
        })
    }
}

/// The archival steps the selected simple targets contribute, in order.
pub open spec fn borgs_of_simple(
    list: Seq<SimpleView>,
    names: Seq<Seq<char>>,
    script: Seq<char>,
    stamp: Seq<char>,
) -> Seq<PlannedView>
    decreases list.len(),
{
    if list.len() == 0 {
        Seq::empty()
    } else {
        borgs_of_simple(list.drop_last(), names, script, stamp) + (if passes(
            names,
            list.last().name,
        ) {
            seq![
                PlannedView::BorgBackup {
                    snap: list.last().mount,
                    script,
                    name: list.last().name + "-"@ + stamp,
                },
            ]
        } else {
            Seq::empty()
        })
    }
}

/// The timestamp steps the selected LVM targets contribute, in order.
pub open spec fn stamps_of_lvm(list: Seq<LvmView>, names: Seq<Seq<char>>) -> Seq<PlannedView>
    decreases list.len(),
{
    if list.len() == 0 {
        Seq::empty()
    } else {
        stamps_of_lvm(list.drop_last(), names) + (if passes(names, list.last().name) {
            seq![PlannedView::Stamp { path: list.last().mount + "/snapstamp"@ }]
        } else {
            Seq::empty()
        })
    }
}

/// The snapshot steps the selected LVM targets contribute, in order.
pub open spec fn snaps_of_lvm(list: Seq<LvmView>, names: Seq<Seq<char>>) -> Seq<PlannedView>
    decreases list.len(),
{
    if list.len() == 0 {
        Seq::empty()
    } else {
        snaps_of_lvm(list.drop_last(), names) + (if passes(names, list.last().name) {
            seq![
                PlannedView::LvmSnapshot {
                    pv: list.last().vg,
                    base: list.last().lv,
                    snap: list.last().lv_snap,
                },
            ]
        } else {
            Seq::empty()
        })
    }
}

/// The mount steps the selected LVM targets contribute, in order.
pub open spec fn mounts_of_lvm(list: Seq<LvmView>, names: Seq<Seq<char>>) -> Seq<PlannedView>
    decreases list.len(),
{
    if list.len() == 0 {
        Seq::empty()
    } else {
        mounts_of_lvm(list.drop_last(), names) + (if passes(names, list.last().name) {
            seq![
                PlannedView::MountSnap {
                    device: "/dev/"@ + list.last().vg + "/"@ + list.last().lv_snap,
                    mount: list.last().snap,
                    is_xfs: list.last().fs == "xfs"@,
                },
            ]
        } else {
            Seq::empty()
        })
    }
}

/// The scan steps the selected LVM targets contribute, in order.
pub open spec fn rsures_of_lvm(list: Seq<LvmView>, names: Seq<Seq<char>>, stamp: Seq<char>) -> Seq<
    PlannedView,
>
    decreases list.len(),
{
    if list.len() == 0 {
        Seq::empty()
    } else {
        rsures_of_lvm(list.drop_last(), names, stamp) + (if passes(names, list.last().name) {
            seq![
                PlannedView::LvmRsure {
                    base_mount: list.last().mount,
                    mount: list.last().snap,
                    name: stamp,
                },
            ]
        } else {
            Seq::empty()
        })
    }
}

/// The archival steps the selected LVM targets contribute, in order.
pub open spec fn borgs_of_lvm(
    list: Seq<LvmView>,
    names: Seq<Seq<char>>,
    script: Seq<char>,
    stamp: Seq<char>,
) -> Seq<PlannedView>
    decreases list.len(),
{
    if list.len() == 0 {
        Seq::empty()
    } else {
        borgs_of_lvm(list.drop_last(), names, script, stamp) + (if passes(
            names,
            list.last().name,
        ) {
            seq![
                PlannedView::BorgBackup {
                    snap: list.last().snap,
                    script,
                    name: list.last().name + "-"@ + stamp,
                },
            ]
        } else {
            Seq::empty()
        })
    }
}

/// Everything one backup run executes, in order: each phase opens with
/// its banner and holds the selected simple targets' steps before the
/// selected LVM targets' steps, and a closing banner ends the run.
pub open spec fn expected_run(
    simple: Seq<SimpleView>,
    lvm: Seq<LvmView>,
    script: Seq<char>,
    names: Seq<Seq<char>>,
    stamp: Seq<char>,
) -> Seq<PlannedView> {
    seq![banner("Timestamps"@)] + stamps_of_simple(simple, names) + stamps_of_lvm(lvm, names)
        + seq![banner("Snapshots"@)] + snaps_of_lvm(lvm, names) + seq![banner("Mount"@)]
        + mounts_of_lvm(lvm, names) + seq![banner("Rsure"@)] + rsures_of_simple(
        simple,
        names,
        stamp,
    ) + rsures_of_lvm(lvm, names, stamp) + seq![banner("Borg"@)] + borgs_of_simple(
        simple,
        names,
        script,
        stamp,
    ) + borgs_of_lvm(lvm, names, script, stamp) + seq![banner("Finished, cleaning up"@)]
}

impl ConfigFile {
    /// Seed the given phase with a fresh runner holding its banner.
    pub fn add_runner(runners: &mut Phases, phase: Phase, message: &str) -> (r: Result<(), Error>)
        ensures
            r is Ok,
            views_of(final(runners).timestamp@) == (match phase {
                Phase::Timestamp => seq![banner(message@)],
                _ => views_of(old(runners).timestamp@),
            }),
            views_of(final(runners).snapshot@) == (match phase {
                Phase::Snapshot => seq![banner(message@)],
                _ => views_of(old(runners).snapshot@),
            }),
            views_of(final(runners).mount@) == (match phase {
                Phase::Mount => seq![banner(message@)],
                _ => views_of(old(runners).mount@),
            }),
            views_of(final(runners).rsure@) == (match phase {
                Phase::Rsure => seq![banner(message@)],
                _ => views_of(old(runners).rsure@),
            }),
            views_of(final(runners).borg@) == (match phase {
                Phase::Borg => seq![banner(message@)],
                _ => views_of(old(runners).borg@),
            }),
    {
        let mut run: Runner<PlannedAction> = Runner::new()?;
        run.push(PlannedAction::Message(Message::new(message)?));
        proof {
            assert(views_of(run@) =~~= seq![banner(message@)]);
        }
        match phase {
            Phase::Timestamp => {
                runners.timestamp = run;
            },
            Phase::Snapshot => {
                runners.snapshot = run;
            },
            Phase::Mount => {
                runners.mount = run;
            },
            Phase::Rsure => {
                runners.rsure = run;
            },
            Phase::Borg => {
                runners.borg = run;
            },
        }
        Ok(())
    }

    /// Assemble one backup run: for every target the name filter admits,
    /// its steps in their phases, the phases concatenated in fixed order,
    /// a closing banner at the end.  `stamp` is the run's wall-clock tag,
    /// as the driver formatted it.
    #[verifier::rlimit(60)]
    pub fn build_runner(&self, names: &Vec<String>, stamp: &str) -> (r: Result<
        Runner<PlannedAction>,
        Error,
    >)
        ensures
            r matches Ok(run) && views_of(run@) == expected_run(
                self.simple.deep_view(),
                self.lvm.deep_view(),
                self.config.borg@,
                names.deep_view(),
                stamp@,
            ),
    {
        let filter = NameFilter::new(names);
        let empty1: Runner<PlannedAction> = Runner::new()?;
        let empty2: Runner<PlannedAction> = Runner::new()?;
        let empty3: Runner<PlannedAction> = Runner::new()?;
        let empty4: Runner<PlannedAction> = Runner::new()?;
        let empty5: Runner<PlannedAction> = Runner::new()?;
        let mut runners = Phases {
            timestamp: empty1,
            snapshot: empty2,
            mount: empty3,
            rsure: empty4,
            borg: empty5,
        };
        Self::add_runner(&mut runners, Phase::Timestamp, "Timestamps")?;
        Self::add_runner(&mut runners, Phase::Snapshot, "Snapshots")?;
        Self::add_runner(&mut runners, Phase::Mount, "Mount")?;
        Self::add_runner(&mut runners, Phase::Rsure, "Rsure")?;
        Self::add_runner(&mut runners, Phase::Borg, "Borg")?;

        let ghost gnames = names.deep_view();
        let ghost gsimple = self.simple.deep_view();
        let ghost glvm = self.lvm.deep_view();

        let ns = self.simple.len();
        let mut i: usize = 0;
        proof {
            assert(gsimple.subrange(0, 0) =~= Seq::<SimpleView>::empty());
        }
        while i < ns
            invariant
                ns == self.simple@.len(),
                gsimple == self.simple.deep_view(),
                gsimple.len() == ns,
                gnames == names.deep_view(),
                filter@ == gnames,
                i <= ns,
                views_of(runners.timestamp@) =~~= seq![banner("Timestamps"@)] + stamps_of_simple(
                    gsimple.subrange(0, i as int),
                    gnames,
                ),
                views_of(runners.snapshot@) =~~= seq![banner("Snapshots"@)],
                views_of(runners.mount@) =~~= seq![banner("Mount"@)],
                views_of(runners.rsure@) =~~= seq![banner("Rsure"@)] + rsures_of_simple(
                    gsimple.subrange(0, i as int),
                    gnames,
                    stamp@,
                ),
                views_of(runners.borg@) =~~= seq![banner("Borg"@)] + borgs_of_simple(
                    gsimple.subrange(0, i as int),
                    gnames,
                    self.config.borg@,
                    stamp@,
                ),
            decreases ns - i,
        {
            let ghost pre = gsimple.subrange(0, i as int);
            let ghost pre2 = gsimple.subrange(0, i + 1);
            proof {
                assert(pre2.drop_last() =~= pre);
                assert(pre2.last() == gsimple[i as int]);
            }
            let simp = &self.simple[i];
            if filter.contains(simp.name.as_str()) {
                simp.add_actions(&mut runners, self, stamp)?;
            }
            i = i + 1;
        }
        proof {
            assert(gsimple.subrange(0, ns as int) =~= gsimple);
        }

        let nl = self.lvm.len();
        let mut k: usize = 0;
        proof {
            assert(glvm.subrange(0, 0) =~= Seq::<LvmView>::empty());
        }
        while k < nl
            invariant
                nl == self.lvm@.len(),
                glvm == self.lvm.deep_view(),
                glvm.len() == nl,
                gnames == names.deep_view(),
                filter@ == gnames,
                gsimple == self.simple.deep_view(),
                k <= nl,
                views_of(runners.timestamp@) =~~= seq![banner("Timestamps"@)] + stamps_of_simple(
                    gsimple,
                    gnames,
                ) + stamps_of_lvm(glvm.subrange(0, k as int), gnames),
                views_of(runners.snapshot@) =~~= seq![banner("Snapshots"@)] + snaps_of_lvm(
                    glvm.subrange(0, k as int),
                    gnames,
                ),
                views_of(runners.mount@) =~~= seq![banner("Mount"@)] + mounts_of_lvm(
                    glvm.subrange(0, k as int),
                    gnames,
                ),
                views_of(runners.rsure@) =~~= seq![banner("Rsure"@)] + rsures_of_simple(
                    gsimple,
                    gnames,
                    stamp@,
                ) + rsures_of_lvm(glvm.subrange(0, k as int), gnames, stamp@),
                views_of(runners.borg@) =~~= seq![banner("Borg"@)] + borgs_of_simple(
                    gsimple,
                    gnames,
                    self.config.borg@,
                    stamp@,
                ) + borgs_of_lvm(glvm.subrange(0, k as int), gnames, self.config.borg@, stamp@),
            decreases nl - k,
        {
            let ghost pre = glvm.subrange(0, k as int);
            let ghost pre2 = glvm.subrange(0, k + 1);
            proof {
                assert(pre2.drop_last() =~= pre);
                assert(pre2.last() == glvm[k as int]);
            }
            let lv = &self.lvm[k];
            if filter.contains(lv.name.as_str()) {
                lv.add_actions(&mut runners, self, stamp)?;
            }
            k = k + 1;
        }
        proof {
            assert(glvm.subrange(0, nl as int) =~= glvm);
        }

        let ghost vt = views_of(runners.timestamp@);
        let ghost vs = views_of(runners.snapshot@);
        let ghost vm = views_of(runners.mount@);
        let ghost vr = views_of(runners.rsure@);
        let ghost vb = views_of(runners.borg@);
        let mut runner: Runner<PlannedAction> = Runner::new()?;
        let Phases { timestamp, snapshot, mount, rsure, borg } = runners;
        runner.append(timestamp);
        proof {
            assert(views_of(runner@) =~~= vt);
        }
        runner.append(snapshot);
        proof {
            assert(views_of(runner@) =~~= vt + vs);
        }
        runner.append(mount);
        proof {
            assert(views_of(runner@) =~~= vt + vs + vm);
        }
        runner.append(rsure);
        proof {
            assert(views_of(runner@) =~~= vt + vs + vm + vr);
        }
        runner.append(borg);
        proof {
            assert(views_of(runner@) =~~= vt + vs + vm + vr + vb);
        }
        runner.push(PlannedAction::Message(Message::new("Finished, cleaning up")?));
        proof {
            assert(views_of(runner@) =~~= vt + vs + vm + vr + vb + seq![
                banner("Finished, cleaning up"@),
            ]);
            assert(views_of(runner@) =~~= expected_run(
                gsimple,
                glvm,
                self.config.borg@,
                gnames,
                stamp@,
            ));
        }
        Ok(runner)
    }
}

impl Simple {
    /// Push this target's steps into their phases: its stamp, its scan,
    /// and its archival run.
    pub fn add_actions(&self, runners: &mut Phases, config: &ConfigFile, stamp: &str) -> (r:
        Result<(), Error>)
        ensures
            r is Ok,
            views_of(final(runners).timestamp@) =~~= views_of(old(runners).timestamp@).push(
                PlannedView::Stamp { path: self.mount@ + "/snapstamp"@ },
            ),
            views_of(final(runners).snapshot@) == views_of(old(runners).snapshot@),
            views_of(final(runners).mount@) == views_of(old(runners).mount@),
            views_of(final(runners).rsure@) =~~= views_of(old(runners).rsure@).push(
                PlannedView::SimpleRsure { mount: self.mount@, name: stamp@ },
            ),
            views_of(final(runners).borg@) =~~= views_of(old(runners).borg@).push(
                (PlannedView::BorgBackup {
                    snap: self.mount@,
                    script: config.config.borg@,
                    name: self.name@ + "-"@ + stamp@,
                }),
            ),
    {
        let mut stamp_path = self.mount.clone();
        stamp_path.append("/snapstamp");
        let a1 = Stamp::new(stamp_path.as_str())?;
        runners.timestamp.push(PlannedAction::Stamp(a1));

        let a4 = SimpleRsure::new(self.mount.as_str(), stamp)?;
        runners.rsure.push(PlannedAction::SimpleRsure(a4));

        let mut backup_name = self.name.clone();
        backup_name.append("-");
        backup_name.append(stamp);
        let a5 = BorgBackup::new(self.mount.as_str(), config.config.borg.as_str(),
            backup_name.as_str())?;
        runners.borg.push(PlannedAction::BorgBackup(a5));

        proof {
            assert(views_of(runners.timestamp@) =~~= views_of(old(runners).timestamp@).push(
                PlannedView::Stamp { path: self.mount@ + "/snapstamp"@ },
            ));
            assert(views_of(runners.rsure@) =~~= views_of(old(runners).rsure@).push(
                PlannedView::SimpleRsure { mount: self.mount@, name: stamp@ },
            ));
            assert(views_of(runners.borg@) =~~= views_of(old(runners).borg@).push(
                (PlannedView::BorgBackup {
                    snap: self.mount@,
                    script: config.config.borg@,
                    name: self.name@ + "-"@ + stamp@,
                }),
            ));
        }
        Ok(())
    }
}

impl Lvm {
    /// Push this target's steps into their phases: its stamp, its LVM
    /// snapshot, the snapshot's mount, its scan, and its archival run.
    pub fn add_actions(&self, runners: &mut Phases, config: &ConfigFile, stamp: &str) -> (r:
        Result<(), Error>)
        ensures
            r is Ok,
            views_of(final(runners).timestamp@) =~~= views_of(old(runners).timestamp@).push(
                PlannedView::Stamp { path: self.mount@ + "/snapstamp"@ },
            ),
            views_of(final(runners).snapshot@) =~~= views_of(old(runners).snapshot@).push(
                (PlannedView::LvmSnapshot { pv: self.vg@, base: self.lv@, snap: self.lv_snap@ }),
            ),
            views_of(final(runners).mount@) =~~= views_of(old(runners).mount@).push(
                (PlannedView::MountSnap {
                    device: "/dev/"@ + self.vg@ + "/"@ + self.lv_snap@,
                    mount: self.snap@,
                    is_xfs: self.fs@ == "xfs"@,
                }),
            ),
            views_of(final(runners).rsure@) =~~= views_of(old(runners).rsure@).push(
                (PlannedView::LvmRsure {
                    base_mount: self.mount@,
                    mount: self.snap@,
                    name: stamp@,
                }),
            ),
            views_of(final(runners).borg@) =~~= views_of(old(runners).borg@).push(
                (PlannedView::BorgBackup {
                    snap: self.snap@,
                    script: config.config.borg@,
                    name: self.name@ + "-"@ + stamp@,
                }),
            ),
    {
        let mut stamp_path = self.mount.clone();
        stamp_path.append("/snapstamp");
        let a1 = Stamp::new(stamp_path.as_str())?;
        runners.timestamp.push(PlannedAction::Stamp(a1));

        let a2 = LvmSnapshot::new(self.vg.as_str(), self.lv.as_str(), self.lv_snap.as_str())?;
        runners.snapshot.push(PlannedAction::LvmSnapshot(a2));

        let mut snap_device = "/dev/".to_owned();
        snap_device.append(slash_join(self.vg.as_str(), self.lv_snap.as_str()).as_str());
        let a3 = MountSnap::new(
            snap_device.as_str(),
            self.snap.as_str(),
            eq_str(self.fs.as_str(), "xfs"),
        )?;
        runners.mount.push(PlannedAction::MountSnap(a3));

        let a4 = LvmRsure::new(self.mount.as_str(), self.snap.as_str(), stamp)?;
        runners.rsure.push(PlannedAction::LvmRsure(a4));

        let mut backup_name = self.name.clone();
        backup_name.append("-");
        backup_name.append(stamp);
        let a5 = BorgBackup::new(self.snap.as_str(), config.config.borg.as_str(),
            backup_name.as_str())?;
        runners.borg.push(PlannedAction::BorgBackup(a5));

        proof {
            assert(views_of(runners.timestamp@) =~~= views_of(old(runners).timestamp@).push(
                PlannedView::Stamp { path: self.mount@ + "/snapstamp"@ },
            ));
            assert(views_of(runners.snapshot@) =~~= views_of(old(runners).snapshot@).push(
                (PlannedView::LvmSnapshot { pv: self.vg@, base: self.lv@, snap: self.lv_snap@ }),
            ));
            assert(views_of(runners.mount@) =~~= views_of(old(runners).mount@).push(
                (PlannedView::MountSnap {
                    device: "/dev/"@ + self.vg@ + "/"@ + self.lv_snap@,
                    mount: self.snap@,
                    is_xfs: self.fs@ == "xfs"@,
                }),
            ));
            assert(views_of(runners.rsure@) =~~= views_of(old(runners).rsure@).push(
                (PlannedView::LvmRsure {
                    base_mount: self.mount@,
                    mount: self.snap@,
                    name: stamp@,
                }),
            ));
            assert(views_of(runners.borg@) =~~= views_of(old(runners).borg@).push(
                (PlannedView::BorgBackup {
                    snap: self.snap@,
                    script: config.config.borg@,
                    name: self.name@ + "-"@ + stamp@,
                }),
            ));
        }
        Ok(())
    }
}

} // verus!
