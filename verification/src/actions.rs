//! The unit of work the runner sequences: something that can be performed
//! once, cleaned up once, and described.  Concrete backup steps live with
//! the surrounding program; the engine depends only on this capability
//! set, which tracks each action's lifecycle in its specification state.

use vstd::prelude::*;

use crate::errors::Error;

pub mod borg;
pub mod runner;
pub mod snaps;
pub mod zfs;

verus! {

/// One reversible unit of work.
///
/// Lifecycle: constructed fully initialized, neither performed nor
/// cleaned; performed at most once; cleaned up at most once, and only
/// after a successful perform; then discarded.
pub trait Action {
    /// Has this action's work been done?
    spec fn performed(&self) -> bool;

    /// Has this action's cleanup run?
    spec fn cleaned(&self) -> bool;

    /// The text `describe` returns.
    spec fn description(&self) -> String;

    /// The error a failed perform returned, once one has failed.
    spec fn last_failure(&self) -> Option<Error>;

    /// Whether this action's cleanup succeeded, once it has run.
    spec fn cleanup_ok(&self) -> bool;

    /// Do the action's work.  A failure leaves the action unperformed
    /// and remembered as its last failure; either way its description is
    /// unchanged and no cleanup has run.
    fn perform(&mut self) -> (r: Result<(), Error>)
        requires
            !old(self).performed(),
            !old(self).cleaned(),
        ensures
            final(self).performed() == (r is Ok),
            !final(self).cleaned(),
            r matches Err(e) ==> final(self).last_failure() == Some(e),
            final(self).description()@ == old(self).description()@,
    ;

    /// Undo whatever the action set up.  Runs only after a successful
    /// perform; afterwards the action counts as cleaned whatever the
    /// result, remembers whether the cleanup succeeded, and its
    /// description is unchanged.
    fn cleanup(&mut self) -> (r: Result<(), Error>)
        requires
            old(self).performed(),
            !old(self).cleaned(),
        ensures
            final(self).performed(),
            final(self).cleaned(),
            final(self).cleanup_ok() == (r is Ok),
            final(self).description()@ == old(self).description()@,
    ;

    /// One line saying what this action does.
    fn describe(&self) -> (r: String)
        ensures
            r@ == self.description()@,
    ;
}

/// A trivial action that only marks a block of actions with a banner
/// line; performing it has no effect beyond the report.
pub struct Message {
    text: String,
    desc: String,
    performed: bool,
    cleaned: bool,
}

impl Message {
    /// A banner's stored description always matches its text.
    #[verifier::type_invariant]
    pub closed spec fn wf(&self) -> bool {
        self.desc@ == "    running: "@ + self.text@
    }

    /// The banner's text.
    pub closed spec fn text_view(&self) -> Seq<char> {
        self.text@
    }

    /// The description every banner action carries for its text.
    pub proof fn message_description(&self)
        requires
            self.wf(),
        ensures
            self.description()@ == "    running: "@ + self.text_view(),
    {
    }

    /// A fresh banner action for the given text.
    pub fn new(text: &str) -> (r: Result<Message, Error>)
        ensures
            r matches Ok(m) && !m.performed() && !m.cleaned() && m.text_view() == text@
                && m.description()@ == "    running: "@ + text@,
    {
        let mut desc = "    running: ".to_owned();
        desc.append(text);
        Ok(Message { text: text.to_owned(), desc, performed: false, cleaned: false })
    }
}

impl Action for Message {
    closed spec fn performed(&self) -> bool {
        self.performed
    }

    closed spec fn cleaned(&self) -> bool {
        self.cleaned
    }

    closed spec fn description(&self) -> String {
        self.desc
    }

    closed spec fn last_failure(&self) -> Option<Error> {
        None
    }

    closed spec fn cleanup_ok(&self) -> bool {
        true
    }

    fn perform(&mut self) -> (r: Result<(), Error>) {
        proof {
            use_type_invariant(&*self);
        }
        self.performed = true;
        Ok(())
    }

    fn cleanup(&mut self) -> (r: Result<(), Error>) {
        proof {
            use_type_invariant(&*self);
        }
        self.cleaned = true;
        Ok(())
    }

    fn describe(&self) -> (r: String) {
        self.desc.clone()
    }
}

} // verus!
