//! The action runner: performance order, reverse-order cleanup, pretend
//! mode, and the empty run.

use std::sync::{Arc, Mutex};

use rdump::actions::runner::Runner;
use rdump::actions::{Action, Message};
use rdump::Error;

/// A scripted action that records every call it receives in a shared log.
struct Probe {
    id: usize,
    fail_perform: bool,
    fail_cleanup: bool,
    log: Arc<Mutex<Vec<String>>>,
}

impl Probe {
    fn new(id: usize, log: &Arc<Mutex<Vec<String>>>) -> Probe {
        Probe { id, fail_perform: false, fail_cleanup: false, log: Arc::clone(log) }
    }

    fn failing(id: usize, log: &Arc<Mutex<Vec<String>>>) -> Probe {
        Probe { fail_perform: true, ..Probe::new(id, log) }
    }

    fn bad_cleanup(id: usize, log: &Arc<Mutex<Vec<String>>>) -> Probe {
        Probe { fail_cleanup: true, ..Probe::new(id, log) }
    }
}

impl Action for Probe {
    // The specification members of the trait are erased at compile
    // time and never invoked; these stubs only satisfy the compiler.
    fn performed(&self) -> bool {
        false
    }

    fn cleaned(&self) -> bool {
        false
    }

    fn description(&self) -> String {
        String::new()
    }

    fn last_failure(&self) -> Option<Error> {
        None
    }

    fn cleanup_ok(&self) -> bool {
        false
    }

    fn perform(&mut self) -> Result<(), Error> {
        self.log.lock().unwrap().push(format!("perform {}", self.id));
        if self.fail_perform {
            // A distinctive error, so tests can see that the runner hands
            // back exactly the failed perform's error.
            Err(Error::ExternalToolFailure { command: format!("probe {}", self.id), status: 1 })
        } else {
            Ok(())
        }
    }

    fn cleanup(&mut self) -> Result<(), Error> {
        self.log.lock().unwrap().push(format!("cleanup {}", self.id));
        if self.fail_cleanup {
            Err(Error::ConfigurationError)
        } else {
            Ok(())
        }
    }

    fn describe(&self) -> String {
        format!("probe {}", self.id)
    }
}

fn new_log() -> Arc<Mutex<Vec<String>>> {
    Arc::new(Mutex::new(Vec::new()))
}

#[test]
fn empty_runner_succeeds() {
    let runner: Runner<Probe> = Runner::new().unwrap();
    let report = runner.run(false);
    assert_eq!(report.result, Ok(()));
    assert!(report.described.is_empty());
    assert!(report.cleanup_log.is_empty());
}

#[test]
fn pretend_performs_nothing_and_describes_in_order() {
    let log = new_log();
    let mut runner = Runner::new().unwrap();
    for id in 0..4 {
        runner.push(Probe::new(id, &log));
    }
    let report = runner.run(true);
    assert_eq!(report.result, Ok(()));
    assert_eq!(
        report.described,
        vec!["probe 0", "probe 1", "probe 2", "probe 3"]
    );
    assert!(report.cleanup_log.is_empty());
    assert!(log.lock().unwrap().is_empty());
}

#[test]
fn failure_cleans_performed_actions_in_reverse_order() {
    let log = new_log();
    let mut runner = Runner::new().unwrap();
    runner.push(Probe::new(0, &log));
    runner.push(Probe::new(1, &log));
    runner.push(Probe::failing(2, &log));
    runner.push(Probe::new(3, &log));
    runner.push(Probe::new(4, &log));
    let report = runner.run(false);
    assert_eq!(
        report.result,
        Err(Error::ExternalToolFailure { command: "probe 2".to_string(), status: 1 })
    );
    assert_eq!(
        *log.lock().unwrap(),
        vec![
            "perform 0",
            "perform 1",
            "perform 2",
            "cleanup 1",
            "cleanup 0",
        ]
    );
    assert_eq!(report.cleanup_log.len(), 2);
    assert_eq!(report.cleanup_log[0], ("probe 1".to_string(), true));
    assert_eq!(report.cleanup_log[1], ("probe 0".to_string(), true));
}

#[test]
fn success_cleans_everything_in_reverse_order() {
    let log = new_log();
    let mut runner = Runner::new().unwrap();
    for id in 0..3 {
        runner.push(Probe::new(id, &log));
    }
    let report = runner.run(false);
    assert_eq!(report.result, Ok(()));
    assert_eq!(
        *log.lock().unwrap(),
        vec![
            "perform 0",
            "perform 1",
            "perform 2",
            "cleanup 2",
            "cleanup 1",
            "cleanup 0",
        ]
    );
}

#[test]
fn cleanup_failure_does_not_stop_the_pass() {
    let log = new_log();
    let mut runner = Runner::new().unwrap();
    runner.push(Probe::new(0, &log));
    runner.push(Probe::bad_cleanup(1, &log));
    runner.push(Probe::failing(2, &log));
    let report = runner.run(false);
    assert_eq!(
        report.result,
        Err(Error::ExternalToolFailure { command: "probe 2".to_string(), status: 1 })
    );
    assert_eq!(
        *log.lock().unwrap(),
        vec![
            "perform 0",
            "perform 1",
            "perform 2",
            "cleanup 1",
            "cleanup 0",
        ]
    );
    assert_eq!(report.cleanup_log[0], ("probe 1".to_string(), false));
    assert_eq!(report.cleanup_log[1], ("probe 0".to_string(), true));
}

#[test]
fn append_concatenates_in_order() {
    let log = new_log();
    let mut first = Runner::new().unwrap();
    first.push(Probe::new(0, &log));
    let mut second = Runner::new().unwrap();
    second.push(Probe::new(1, &log));
    second.push(Probe::new(2, &log));
    first.append(second);
    let report = first.run(true);
    assert_eq!(report.described, vec!["probe 0", "probe 1", "probe 2"]);
}

#[test]
fn message_describes_itself() {
    let m = Message::new("Snapshots").unwrap();
    assert_eq!(m.describe(), "    running: Snapshots");
}
