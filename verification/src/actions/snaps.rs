//! The snapshot-centred backup steps: stamp files, LVM snapshots, mounts,
//! and integrity scans.  Each type owns its parameters, states exactly
//! which command lines its work and cleanup run, and describes itself;
//! the surrounding program spawns the processes.

use vstd::prelude::*;

use crate::errors::Error;
use crate::text::slash_join;
use crate::zfs::cmds::CmdLine;

verus! {

/// Writes a timestamp marker into the filesystem being backed up, so
/// incremental tools see a fresh modification time each run.
pub struct Stamp {
    pub path: String,
}

impl Stamp {
    /// A stamp action for the marker file at `path`.
    pub fn new(path: &str) -> (r: Result<Stamp, Error>)
        ensures
            r matches Ok(s) && s.path@ == path@,
    {
        Ok(Stamp { path: path.to_owned() })
    }

    /// One line saying what this action does.
    pub fn describe(&self) -> (r: String)
        ensures
            r@ == "Backup stamp file: "@ + self.path@,
    {
        let mut r = "Backup stamp file: ".to_owned();
        r.append(self.path.as_str());
        r
    }
}

/// Creates an LVM snapshot volume of `pv/base` named `snap`.
pub struct LvmSnapshot {
    pub pv: String,
    pub base: String,
    pub snap: String,
}

impl LvmSnapshot {
    /// A snapshot action for `pv/base`, snapshotting to `snap`.
    pub fn new(pv: &str, base: &str, snap: &str) -> (r: Result<LvmSnapshot, Error>)
        ensures
            r matches Ok(a) && a.pv@ == pv@ && a.base@ == base@ && a.snap@ == snap@,
    {
        Ok(LvmSnapshot { pv: pv.to_owned(), base: base.to_owned(), snap: snap.to_owned() })
    }

    /// The command that creates the snapshot volume.
    pub fn create_command(&self) -> (r: CmdLine)
        ensures
            r@.program == "lvcreate"@,
            r@.args =~~= seq![
                "-L"@,
                "5g"@,
                "-s"@,
                "-n"@,
                self.snap@,
                self.pv@ + "/"@ + self.base@,
            ],
    {
        let mut args: Vec<String> = Vec::new();
        args.push("-L".to_owned());
        args.push("5g".to_owned());
        args.push("-s".to_owned());
        args.push("-n".to_owned());
        args.push(self.snap.clone());
        args.push(slash_join(self.pv.as_str(), self.base.as_str()));
        CmdLine { program: "lvcreate".to_owned(), args }
    }

    /// The command that removes the snapshot volume again.
    pub fn remove_command(&self) -> (r: CmdLine)
        ensures
            r@.program == "lvremove"@,
            r@.args =~~= seq!["-f"@, self.pv@ + "/"@ + self.snap@],
    {
        let mut args: Vec<String> = Vec::new();
        args.push("-f".to_owned());
        args.push(slash_join(self.pv.as_str(), self.snap.as_str()));
        CmdLine { program: "lvremove".to_owned(), args }
    }

    /// One line saying what this action does.
    pub fn describe(&self) -> (r: String)
        ensures
            r@ == "LVM2 snapshot of "@ + self.pv@ + "/"@ + self.base@ + " to "@ + self.snap@,
    {
        let mut r = "LVM2 snapshot of ".to_owned();
        r.append(self.pv.as_str());
        r.append("/");
        r.append(self.base.as_str());
        r.append(" to ");
        r.append(self.snap.as_str());
        r
    }
}

/// Mounts a snapshot device, with the option set an XFS snapshot needs.
pub struct MountSnap {
    pub device: String,
    pub mount: String,
    pub is_xfs: bool,
}

impl MountSnap {
    /// A mount action for `device` at `mount`.
    pub fn new(device: &str, mount: &str, is_xfs: bool) -> (r: Result<MountSnap, Error>)
        ensures
            r matches Ok(a) && a.device@ == device@ && a.mount@ == mount@ && a.is_xfs == is_xfs,
    {
        Ok(MountSnap { device: device.to_owned(), mount: mount.to_owned(), is_xfs })
    }

    /// The command that makes sure the mountpoint directory exists.
    pub fn mkdir_command(&self) -> (r: CmdLine)
        ensures
            r@.program == "mkdir"@,
            r@.args =~~= seq!["-p"@, self.mount@],
    {
        let mut args: Vec<String> = Vec::new();
        args.push("-p".to_owned());
        args.push(self.mount.clone());
        CmdLine { program: "mkdir".to_owned(), args }
    }

    /// The mount command: an XFS snapshot keeps its UUID, so it must be
    /// mounted with `nouuid`; access times stay off either way.
    pub fn mount_command(&self) -> (r: CmdLine)
        ensures
            r@.program == "mount"@,
            r@.args =~~= seq![
                self.device@,
                "-o"@,
                if self.is_xfs {
                    "nouuid,noatime"@
                } else {
                    "noatime"@
                },
                self.mount@,
            ],
    {
        let opt = if self.is_xfs {
            "nouuid,noatime"
        } else {
            "noatime"
        };
        let mut args: Vec<String> = Vec::new();
        args.push(self.device.clone());
        args.push("-o".to_owned());
        args.push(opt.to_owned());
        args.push(self.mount.clone());
        CmdLine { program: "mount".to_owned(), args }
    }

    /// The command that unmounts the snapshot again.
    pub fn umount_command(&self) -> (r: CmdLine)
        ensures
            r@.program == "umount"@,
            r@.args =~~= seq![self.mount@],
    {
        let mut args: Vec<String> = Vec::new();
        args.push(self.mount.clone());
        CmdLine { program: "umount".to_owned(), args }
    }

    /// One line saying what this action does.
    pub fn describe(&self) -> (r: String)
        ensures
            r@ == "Mount LVM2 snapshot "@ + self.device@ + " to "@ + self.mount@,
    {
        let mut r = "Mount LVM2 snapshot ".to_owned();
        r.append(self.device.as_str());
        r.append(" to ");
        r.append(self.mount.as_str());
        r
    }
}

/// The file the integrity scanner keeps per mount.
pub fn surefile_of(mount: &str) -> (r: String)
    ensures
        r@ == mount@ + "/2sure.dat.gz"@,
{
    let mut r = mount.to_owned();
    r.append("/2sure.dat.gz");
    r
}

/// Runs the integrity scan over a mounted LVM snapshot and copies the
/// resulting store file back to the live filesystem.
pub struct LvmRsure {
    pub base_mount: String,
    pub mount: String,
    pub name: String,
}

impl LvmRsure {
    /// A scan action over the snapshot at `mount`, copying the store back
    /// to `base_mount`, tagged `name`.
    pub fn new(base_mount: &str, mount: &str, name: &str) -> (r: Result<LvmRsure, Error>)
        ensures
            r matches Ok(a) && a.base_mount@ == base_mount@ && a.mount@ == mount@ && a.name@
                == name@,
    {
        Ok(LvmRsure {
            base_mount: base_mount.to_owned(),
            mount: mount.to_owned(),
            name: name.to_owned(),
        })
    }

    /// The store file the scan reads and writes.
    pub fn surefile(&self) -> (r: String)
        ensures
            r@ == self.mount@ + "/2sure.dat.gz"@,
    {
        surefile_of(self.mount.as_str())
    }

    /// The command that copies the store file back to the live mount,
    /// preserving its attributes.
    pub fn copy_command(&self) -> (r: CmdLine)
        ensures
            r@.program == "cp"@,
            r@.args =~~= seq!["-p"@, self.mount@ + "/2sure.dat.gz"@, self.base_mount@],
    {
        let mut args: Vec<String> = Vec::new();
        args.push("-p".to_owned());
        args.push(self.surefile());
        args.push(self.base_mount.clone());
        CmdLine { program: "cp".to_owned(), args }
    }

    /// One line saying what this action does.
    pub fn describe(&self) -> (r: String)
        ensures
            r@ == "LVM2-based Rsure scan of "@ + self.mount@,
    {
        let mut r = "LVM2-based Rsure scan of ".to_owned();
        r.append(self.mount.as_str());
        r
    }
}

/// Runs the integrity scan directly over a live mount.
pub struct SimpleRsure {
    pub mount: String,
    pub name: String,
}

impl SimpleRsure {
    /// A scan action over `mount`, tagged `name`.
    pub fn new(mount: &str, name: &str) -> (r: Result<SimpleRsure, Error>)
        ensures
            r matches Ok(a) && a.mount@ == mount@ && a.name@ == name@,
    {
        Ok(SimpleRsure { mount: mount.to_owned(), name: name.to_owned() })
    }

    /// The store file the scan reads and writes.
    pub fn surefile(&self) -> (r: String)
        ensures
            r@ == self.mount@ + "/2sure.dat.gz"@,
    {
        surefile_of(self.mount.as_str())
    }

    /// One line saying what this action does.
    pub fn describe(&self) -> (r: String)
        ensures
            r@ == "Simple Rsure scan of "@ + self.mount@,
    {
        let mut r = "Simple Rsure scan of ".to_owned();
        r.append(self.mount.as_str());
        r
    }
}

} // verus!
