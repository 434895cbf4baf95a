//! Assembling one backup run from a configuration: phase grouping, name
//! filtering, and the order of the planned steps.

use rdump::config::{Config, ConfigFile, Lvm, NameFilter, PlannedAction, Simple};

fn strings(items: &[&str]) -> Vec<String> {
    items.iter().map(|s| s.to_string()).collect()
}

fn sample_config() -> ConfigFile {
    ConfigFile {
        config: Config { borg: "/usr/local/bin/borg-wrap".to_string() },
        simple: vec![Simple {
            name: "home".to_string(),
            mount: "/home".to_string(),
            actions: strings(&["rsure", "borg"]),
        }],
        lvm: vec![Lvm {
            name: "root".to_string(),
            mount: "/".to_string(),
            snap: "/mnt/snap/root".to_string(),
            vg: "vg0".to_string(),
            lv: "root".to_string(),
            lv_snap: "root_snap".to_string(),
            fs: "xfs".to_string(),
            actions: strings(&["rsure", "borg"]),
        }],
    }
}

fn descriptions(actions: &[PlannedAction]) -> Vec<String> {
    actions.iter().map(|a| a.describe()).collect()
}

#[test]
fn build_runner_groups_phases_in_order() {
    let cfg = sample_config();
    let runner = cfg.build_runner(&Vec::new(), "20240131T090500").unwrap();
    let steps = runner.into_actions();
    assert_eq!(
        descriptions(&steps),
        vec![
            "    running: Timestamps",
            "Backup stamp file: /home/snapstamp",
            "Backup stamp file: //snapstamp",
            "    running: Snapshots",
            "LVM2 snapshot of vg0/root to root_snap",
            "    running: Mount",
            "Mount LVM2 snapshot /dev/vg0/root_snap to /mnt/snap/root",
            "    running: Rsure",
            "Simple Rsure scan of /home",
            "LVM2-based Rsure scan of /mnt/snap/root",
            "    running: Borg",
            "Borg backup of /home to home-20240131T090500",
            "Borg backup of /mnt/snap/root to root-20240131T090500",
            "    running: Finished, cleaning up",
        ]
    );
}

#[test]
fn build_runner_honours_the_name_filter() {
    let cfg = sample_config();
    let runner = cfg.build_runner(&strings(&["home"]), "20240131T090500").unwrap();
    let steps = runner.into_actions();
    let lines = descriptions(&steps);
    assert!(lines.contains(&"Simple Rsure scan of /home".to_string()));
    assert!(!lines.iter().any(|l| l.contains("/mnt/snap/root")));
}

#[test]
fn name_filter_empty_admits_everything() {
    let all = NameFilter::new(&Vec::new());
    assert!(all.contains("anything"));
    let some = NameFilter::new(&strings(&["home", "root"]));
    assert!(some.contains("home"));
    assert!(!some.contains("var"));
}
