//! The archival backup step: one run of the borg wrapper script over a
//! snapshot directory.

use vstd::prelude::*;

use crate::errors::Error;
use crate::zfs::cmds::CmdLine;

verus! {

/// Archives a snapshot directory through a borg wrapper script, under a
/// per-run archive name.
pub struct BorgBackup {
    pub snap: String,
    pub script: String,
    pub name: String,
}

impl BorgBackup {
    /// A backup action archiving `snap` via `script` as archive `name`.
    pub fn new(snap: &str, script: &str, name: &str) -> (r: Result<BorgBackup, Error>)
        ensures
            r matches Ok(a) && a.snap@ == snap@ && a.script@ == script@ && a.name@ == name@,
    {
        Ok(BorgBackup {
            snap: snap.to_owned(),
            script: script.to_owned(),
            name: name.to_owned(),
        })
    }

    /// The archival invocation: the wrapper script creating archive
    /// `::<name>` from the snapshot directory.
    pub fn backup_command(&self) -> (r: CmdLine)
        ensures
            r@.program == self.script@,
            r@.args =~~= seq![
                "create"@,
                "--exclude-caches"@,
                "-x"@,
                "--stat"@,
                "--progress"@,
                "::"@ + self.name@,
                self.snap@,
            ],
    {
        let mut args: Vec<String> = Vec::new();
        args.push("create".to_owned());
        args.push("--exclude-caches".to_owned());
        args.push("-x".to_owned());
        args.push("--stat".to_owned());
        args.push("--progress".to_owned());
        let mut archive = "::".to_owned();
        archive.append(self.name.as_str());
        args.push(archive);
        args.push(self.snap.clone());
        CmdLine { program: self.script.clone(), args }
    }

    /// One line saying what this action does.
    pub fn describe(&self) -> (r: String)
        ensures
            r@ == "Borg backup of "@ + self.snap@ + " to "@ + self.name@,
    {
        let mut r = "Borg backup of ".to_owned();
        r.append(self.snap.as_str());
        r.append(" to ");
        r.append(self.name.as_str());
        r
    }
}

} // verus!
