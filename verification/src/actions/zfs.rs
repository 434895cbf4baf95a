//! Backup steps that mirror a mounted snapshot onto a ZFS target and
//! snapshot it there.

use vstd::prelude::*;

use crate::errors::Error;
use crate::zfs::cmds::{at_name, CmdLine};

verus! {

/// The mirroring tool on the systems these steps drive.
pub const RSYNC_PROGRAM: &'static str = "/usr/bin/rsync";

/// The storage tool on the systems these steps drive.
pub const ZFS_TARGET_PROGRAM: &'static str = "/usr/sbin/zfs";

/// Mirrors a mounted snapshot into a ZFS-backed directory.  The mirror
/// tool's failures are tolerated: the step reports them but the backup
/// run continues.
pub struct Rsync {
    pub src: String,
    pub dest: String,
    pub acls: bool,
    pub verbose: bool,
}

impl Rsync {
    /// A mirror action from `src` to `dest`.
    pub fn new(src: &str, dest: &str, acls: bool, verbose: bool) -> (r: Result<Rsync, Error>)
        ensures
            r matches Ok(a) && a.src@ == src@ && a.dest@ == dest@ && a.acls == acls && a.verbose
                == verbose,
    {
        Ok(Rsync { src: src.to_owned(), dest: dest.to_owned(), acls, verbose })
    }

    /// The mirror invocation: archive mode within one filesystem,
    /// deleting what vanished, itemizing when verbose, carrying ACLs and
    /// extended attributes when asked, over `src/.` to `dest/.`.
    pub fn rsync_command(&self) -> (r: CmdLine)
        ensures
            r@.program == RSYNC_PROGRAM@,
            r@.args =~~= seq!["-aHx"@, "--delete"@] + (if self.verbose {
                seq!["-i"@]
            } else {
                Seq::<Seq<char>>::empty()
            }) + (if self.acls {
                seq!["-AX"@]
            } else {
                Seq::<Seq<char>>::empty()
            }) + seq![self.src@ + "/."@, self.dest@ + "/."@],
    {
        let mut args: Vec<String> = Vec::new();
        args.push("-aHx".to_owned());
        args.push("--delete".to_owned());
        if self.verbose {
            args.push("-i".to_owned());
        }
        if self.acls {
            args.push("-AX".to_owned());
        }
        let mut from = self.src.clone();
        from.append("/.");
        args.push(from);
        let mut to = self.dest.clone();
        to.append("/.");
        args.push(to);
        CmdLine { program: RSYNC_PROGRAM.to_owned(), args }
    }

    /// One line saying what this action does.
    pub fn describe(&self) -> (r: String)
        ensures
            r@ == "Rsync from "@ + self.src@ + " to "@ + self.dest@,
    {
        let mut r = "Rsync from ".to_owned();
        r.append(self.src.as_str());
        r.append(" to ");
        r.append(self.dest.as_str());
        r
    }
}

/// Takes a snapshot of the mirror target after a successful mirror pass.
pub struct ZfsSnapshot {
    pub volume: String,
    pub snap: String,
}

impl ZfsSnapshot {
    /// A snapshot action for `volume@snap`.
    pub fn new(volume: &str, snap: &str) -> (r: Result<ZfsSnapshot, Error>)
        ensures
            r matches Ok(a) && a.volume@ == volume@ && a.snap@ == snap@,
    {
        Ok(ZfsSnapshot { volume: volume.to_owned(), snap: snap.to_owned() })
    }

    /// The snapshot invocation for the mirror target.
    pub fn snapshot_command(&self) -> (r: CmdLine)
        ensures
            r@.program == ZFS_TARGET_PROGRAM@,
            r@.args =~~= seq!["snapshot"@, at_name(self.volume@, self.snap@)],
    {
        let mut args: Vec<String> = Vec::new();
        args.push("snapshot".to_owned());
        args.push(crate::zfs::cmds::join_at(self.volume.as_str(), self.snap.as_str()));
        CmdLine { program: ZFS_TARGET_PROGRAM.to_owned(), args }
    }

    /// One line saying what this action does.
    pub fn describe(&self) -> (r: String)
        ensures
            r@ == "Zfs snapshot "@ + self.volume@ + "@"@ + self.snap@,
    {
        let mut r = "Zfs snapshot ".to_owned();
        r.append(self.volume.as_str());
        r.append("@");
        r.append(self.snap.as_str());
        r
    }
}

} // verus!
