//! The filesystem exercise rig: a scratch LVM volume with a real
//! filesystem on it, and a scratch ZFS volume to mirror into.  The rig's
//! names, paths and command lines are computed and specified here; the
//! surrounding program runs the processes and tracks what it created.

use vstd::prelude::*;

use crate::zfs::cmds::CmdLine;

verus! {

/// Where the rig mounts its scratch filesystems.
pub const MOUNT_BASE: &'static str = "/mnt/test";

/// The storage tool driving the scratch ZFS volume.
pub const ZFS_RIG_PROGRAM: &'static str = "/usr/sbin/zfs";

/// The filesystems the rig can put on its scratch volume.
#[derive(Copy, Clone, Debug, PartialEq, Eq, Structural)]
pub enum FileSystem {
    Ext4,
    Xfs,
}

/// A scratch LVM volume under test: its physical volume, the logical
/// volume's name prefix, the filesystem on it, and what has been created
/// or mounted so far.
pub struct LvmTest {
    pub pv: String,
    pub prefix: String,
    pub fs: FileSystem,
    pub volume_created: bool,
    pub mount: Option<String>,
}

impl LvmTest {
    /// The device path of this volume, with `extra` appended to its name.
    pub fn device_name(&self, extra: &str) -> (r: String)
        ensures
            r@ == "/dev/"@ + self.pv@ + "/"@ + self.prefix@ + extra@,
    {
        let mut r = "/dev/".to_owned();
        r.append(self.pv.as_str());
        r.append("/");
        r.append(self.prefix.as_str());
        r.append(extra);
        r
    }

    /// The mountpoint of this volume, with `extra` appended to its name.
    pub fn mountpoint(&self, extra: &str) -> (r: String)
        ensures
            r@ == MOUNT_BASE@ + "/"@ + self.prefix@ + extra@,
    {
        let mut r = MOUNT_BASE.to_owned();
        r.append("/");
        r.append(self.prefix.as_str());
        r.append(extra);
        r
    }

    /// The command that creates the scratch volume.
    pub fn create_volume_command(&self) -> (r: CmdLine)
        ensures
            r@.program == "lvcreate"@,
            r@.args =~~= seq!["-L"@, "5G"@, "--yes"@, "-n"@, self.prefix@, self.pv@],
    {
        let mut args: Vec<String> = Vec::new();
        args.push("-L".to_owned());
        args.push("5G".to_owned());
        args.push("--yes".to_owned());
        args.push("-n".to_owned());
        args.push(self.prefix.clone());
        args.push(self.pv.clone());
        CmdLine { program: "lvcreate".to_owned(), args }
    }

    /// The command that puts the chosen filesystem on the volume.
    pub fn mkfs_command(&self) -> (r: CmdLine)
        ensures
            r@.program == (match self.fs {
                FileSystem::Ext4 => "mkfs.ext4"@,
                FileSystem::Xfs => "mkfs.xfs"@,
            }),
            r@.args =~~= seq!["/dev/"@ + self.pv@ + "/"@ + self.prefix@],
    {
        let program = match self.fs {
            FileSystem::Ext4 => "mkfs.ext4",
            FileSystem::Xfs => "mkfs.xfs",
        };
        let mut args: Vec<String> = Vec::new();
        args.push(self.device_name(""));
        proof {
            reveal_strlit("");
            assert(""@ =~= Seq::<char>::empty());
        }
        CmdLine { program: program.to_owned(), args }
    }

    /// The command that makes sure the mountpoint exists.
    pub fn mkdir_command(&self, extra: &str) -> (r: CmdLine)
        ensures
            r@.program == "mkdir"@,
            r@.args =~~= seq!["-p"@, MOUNT_BASE@ + "/"@ + self.prefix@ + extra@],
    {
        let mut args: Vec<String> = Vec::new();
        args.push("-p".to_owned());
        args.push(self.mountpoint(extra));
        CmdLine { program: "mkdir".to_owned(), args }
    }

    /// The command that mounts the volume (with `extra`) at its
    /// mountpoint.
    pub fn mount_command(&self, extra: &str) -> (r: CmdLine)
        ensures
            r@.program == "mount"@,
            r@.args =~~= seq![
                "/dev/"@ + self.pv@ + "/"@ + self.prefix@ + extra@,
                MOUNT_BASE@ + "/"@ + self.prefix@ + extra@,
            ],
    {
        let mut args: Vec<String> = Vec::new();
        args.push(self.device_name(extra));
        args.push(self.mountpoint(extra));
        CmdLine { program: "mount".to_owned(), args }
    }

    /// The command that unmounts the given mountpoint.
    pub fn umount_command(&self, mount: &str) -> (r: CmdLine)
        ensures
            r@.program == "umount"@,
            r@.args =~~= seq![mount@],
    {
        let mut args: Vec<String> = Vec::new();
        args.push(mount.to_owned());
        CmdLine { program: "umount".to_owned(), args }
    }

    /// The command that removes the scratch volume again.
    pub fn remove_volume_command(&self) -> (r: CmdLine)
        ensures
            r@.program == "lvremove"@,
            r@.args =~~= seq!["-f"@, self.pv@ + "/"@ + self.prefix@],
    {
        let mut args: Vec<String> = Vec::new();
        args.push("-f".to_owned());
        args.push(crate::text::slash_join(self.pv.as_str(), self.prefix.as_str()));
        CmdLine { program: "lvremove".to_owned(), args }
    }
}

/// A scratch ZFS volume the rig mirrors into.
pub struct ZfsTest {
    pub base: String,
}

impl ZfsTest {
    /// Where the scratch volume is mounted.
    pub fn get_mount(&self) -> (r: String)
        ensures
            r@ == "/"@ + self.base@,
    {
        let mut r = "/".to_owned();
        r.append(self.base.as_str());
        r
    }

    /// The scratch volume's name.
    pub fn get_volume(&self) -> (r: String)
        ensures
            r@ == self.base@,
    {
        self.base.clone()
    }

    /// The command that creates the scratch volume.
    pub fn create_command(&self) -> (r: CmdLine)
        ensures
            r@.program == ZFS_RIG_PROGRAM@,
            r@.args =~~= seq!["create"@, self.base@],
    {
        let mut args: Vec<String> = Vec::new();
        args.push("create".to_owned());
        args.push(self.base.clone());
        CmdLine { program: ZFS_RIG_PROGRAM.to_owned(), args }
    }

    /// The command that destroys the scratch volume and everything under
    /// it.
    pub fn destroy_command(&self) -> (r: CmdLine)
        ensures
            r@.program == ZFS_RIG_PROGRAM@,
            r@.args =~~= seq!["destroy"@, "-r"@, self.base@],
    {
        let mut args: Vec<String> = Vec::new();
        args.push("destroy".to_owned());
        args.push("-r".to_owned());
        args.push(self.base.clone());
        CmdLine { program: ZFS_RIG_PROGRAM.to_owned(), args }
    }
}

} // verus!
