//! The replication engine: listing parsing, the snapshot-name grammar,
//! subtree filtering, clone planning, retention pruning, and the parsers
//! and command builders around the storage tool.

use rdump::zfs::clone_plan::FsClonePlan;
use rdump::zfs::cmds;
use rdump::zfs::exclude::Exclusions;
use rdump::zfs::prune::{hanoi_prunable, popcount_u64};
use rdump::zfs::{
    find_mount_in, is_under, parse_listing, snap_number, Filesystem, SnapBuilder, Zfs,
};
use rdump::Error;

fn strings(items: &[&str]) -> Vec<String> {
    items.iter().map(|s| s.to_string()).collect()
}

fn fs(name: &str, snaps: &[&str], mount: &str) -> Filesystem {
    Filesystem { name: name.to_string(), snaps: strings(snaps), mount: mount.to_string() }
}

fn zfs(prefix: &str, filesystems: Vec<Filesystem>) -> Zfs {
    Zfs { prefix: prefix.to_string(), filesystems, host: None }
}

#[test]
fn parse_listing_groups_snapshots_under_their_volume() {
    let lines = strings(&["pool/a\t/mnt/a", "pool/a@s1\t-", "pool/a@s2\t-"]);
    let fss = parse_listing(&lines).unwrap();
    assert_eq!(fss.len(), 1);
    assert_eq!(fss[0].name, "pool/a");
    assert_eq!(fss[0].mount, "/mnt/a");
    assert_eq!(fss[0].snaps, vec!["s1", "s2"]);
}

#[test]
fn parse_listing_rejects_leading_snapshot_line() {
    let lines = strings(&["pool/a@s1\t-", "pool/a\t/mnt/a"]);
    match parse_listing(&lines) {
        Err(Error::ParseFailure { line }) => assert_eq!(line, "pool/a@s1\t-"),
        other => panic!("expected a parse failure, got {:?}", other),
    }
}

#[test]
fn parse_listing_rejects_line_without_tab() {
    let lines = strings(&["pool/a /mnt/a"]);
    match parse_listing(&lines) {
        Err(Error::ParseFailure { line }) => assert_eq!(line, "pool/a /mnt/a"),
        other => panic!("expected a parse failure, got {:?}", other),
    }
}

#[test]
fn parse_listing_rejects_snapshot_of_other_volume() {
    let lines = strings(&["pool/a\t/mnt/a", "pool/b@s1\t-"]);
    assert!(matches!(parse_listing(&lines), Err(Error::ParseFailure { .. })));
}

#[test]
fn snap_builder_tracks_the_last_volume() {
    let mut b = SnapBuilder::new();
    b.push_volume("pool/a", "/mnt/a");
    assert!(b.push_snap("pool/a", "s1").is_ok());
    assert!(b.push_snap("pool/b", "s2").is_err());
    let sets = b.into_sets();
    assert_eq!(sets.len(), 1);
    assert_eq!(sets[0].snaps, vec!["s1"]);
}

#[test]
fn snap_number_follows_the_grammar() {
    assert_eq!(snap_number("da", "da0012-20240131"), Some(12));
    assert_eq!(snap_number("da", "da9999-1-2-3"), Some(9999));
    assert_eq!(snap_number("da", "da0012-"), None);
    assert_eq!(snap_number("da", "da001-20240131"), None);
    assert_eq!(snap_number("da", "da00a2-20240131"), None);
    assert_eq!(snap_number("da", "da0012x20240131"), None);
    assert_eq!(snap_number("da", "da0012-2024x131"), None);
    assert_eq!(snap_number("other", "da0012-20240131"), None);
}

#[test]
fn next_under_is_one_past_the_highest_matching_index() {
    let z = zfs(
        "da",
        vec![
            fs("pool", &["da0003-1"], "/pool"),
            fs("pool/a", &["da0007-1", "ignored", "da0002-1"], "/mnt/a"),
            fs("poolish", &["da9000-1"], "/mnt/p"),
            fs("other", &["da9999-1"], "/mnt/o"),
        ],
    );
    assert_eq!(z.next_under("pool"), Ok(8));
    assert_eq!(z.next_under("nowhere"), Ok(0));
}

#[test]
fn snap_name_formats_index_and_time() {
    let z = zfs("da", vec![]);
    assert_eq!(z.snap_name(12, 2024, 1, 31, 9, 5), "da0012-202401310905");
    assert_eq!(z.snap_name(0, 999, 12, 3, 23, 59), "da0000-099912032359");
    assert_eq!(z.snap_name(12345, 2024, 1, 1, 0, 0), "da12345-202401010000");
}

#[test]
fn is_under_matches_the_subtree_only() {
    assert!(is_under("pool", "pool"));
    assert!(is_under("pool/a", "pool"));
    assert!(is_under("pool/a/b", "pool"));
    assert!(!is_under("poolish", "pool"));
    assert!(!is_under("other", "pool"));
}

#[test]
fn filtered_returns_subtree_indices_in_order() {
    let z = zfs(
        "da",
        vec![
            fs("pool", &[], "/pool"),
            fs("poolish", &[], "/p"),
            fs("pool/a", &[], "/a"),
            fs("other", &[], "/o"),
            fs("pool/a/b", &[], "/b"),
        ],
    );
    assert_eq!(z.filtered("pool"), vec![0, 2, 4]);
}

#[test]
fn find_mount_in_reads_the_mount_table() {
    let lines = strings(&[
        "proc /proc proc rw 0 0",
        "pool/a /somewhere ext4 rw 0 0",
        "pool/a /mnt/a zfs rw 0 0",
        "pool/a /mnt/b zfs rw 0 0",
    ]);
    assert_eq!(find_mount_in(&lines, "pool/a"), Ok("/mnt/a".to_string()));
    assert_eq!(find_mount_in(&lines, "pool/b"), Err(Error::NotMounted));
}

#[test]
fn popcount_counts_set_bits() {
    assert_eq!(popcount_u64(0), 0);
    assert_eq!(popcount_u64(5), 2);
    assert_eq!(popcount_u64(7), 3);
    assert_eq!(popcount_u64(u64::MAX), 64);
}

#[test]
fn hanoi_keeps_one_survivor_per_population_count() {
    // Newest first: indices 7 down to 0; the window keeps 7 and 6.
    let nums: Vec<u64> = vec![7, 6, 5, 4, 3, 2, 1, 0];
    let flags = hanoi_prunable(&nums, 2);
    assert_eq!(
        flags,
        vec![false, false, false, false, true, true, true, false]
    );
}

#[test]
fn prune_plan_deletes_oldest_first() {
    let z = zfs(
        "h",
        vec![fs(
            "pool/a",
            &[
                "h0000-1", "h0001-1", "h0002-1", "h0003-1", "unrelated", "h0004-1", "h0005-1",
                "h0006-1", "h0007-1",
            ],
            "/mnt/a",
        )],
    );
    let plan = z.prune_hanoi_plan("pool/a", 2).unwrap();
    assert_eq!(
        plan,
        vec!["pool/a@h0001-1", "pool/a@h0002-1", "pool/a@h0003-1"]
    );
    assert_eq!(
        z.prune_hanoi_plan("pool/b", 2),
        Err(Error::ConfigurationError)
    );
}

#[test]
fn prune_plan_keeps_everything_inside_the_window() {
    let z = zfs(
        "h",
        vec![fs("pool/a", &["h0000-1", "h0001-1", "h0002-1"], "/mnt/a")],
    );
    let plan = z.prune_hanoi_plan("pool/a", 10).unwrap();
    assert!(plan.is_empty());
}

fn no_excludes() -> Exclusions {
    Exclusions::new(&Vec::new()).unwrap()
}

fn transfer(p: &FsClonePlan, i: usize) -> (Option<String>, String) {
    (p.transfers[i].from_snap.clone(), p.transfers[i].to_snap.clone())
}

#[test]
fn plan_fresh_destination_seeds_then_extends() {
    let src = zfs("da", vec![fs("tank/data", &["s1", "s2", "s3"], "/d")]);
    let dst = zfs("da", vec![]);
    let plan = src.plan_clone("tank/data", "back/data", &dst, &no_excludes()).unwrap();
    assert_eq!(plan.len(), 1);
    let p = &plan[0];
    assert_eq!(p.source_name, "tank/data");
    assert_eq!(p.dest_name, "back/data");
    assert!(p.needs_create);
    assert_eq!(p.transfers.len(), 2);
    assert_eq!(transfer(p, 0), (None, "s1".to_string()));
    assert_eq!(transfer(p, 1), (Some("s1".to_string()), "s3".to_string()));
}

#[test]
fn plan_fresh_destination_single_snapshot_needs_one_transfer() {
    let src = zfs("da", vec![fs("tank/data", &["only"], "/d")]);
    let dst = zfs("da", vec![]);
    let plan = src.plan_clone("tank/data", "back/data", &dst, &no_excludes()).unwrap();
    assert_eq!(plan[0].transfers.len(), 1);
    assert_eq!(transfer(&plan[0], 0), (None, "only".to_string()));
}

#[test]
fn plan_extends_existing_destination_incrementally() {
    let src = zfs("da", vec![fs("tank/data", &["s1", "s2", "s3"], "/d")]);
    let dst = zfs("da", vec![fs("back/data", &["s1", "s2"], "-")]);
    let plan = src.plan_clone("tank/data", "back/data", &dst, &no_excludes()).unwrap();
    let p = &plan[0];
    assert!(!p.needs_create);
    assert_eq!(p.transfers.len(), 1);
    assert_eq!(transfer(p, 0), (Some("s2".to_string()), "s3".to_string()));
}

#[test]
fn plan_up_to_date_destination_needs_nothing() {
    let src = zfs("da", vec![fs("tank/data", &["s1", "s2"], "/d")]);
    let dst = zfs("da", vec![fs("back/data", &["s1", "s2"], "-")]);
    let plan = src.plan_clone("tank/data", "back/data", &dst, &no_excludes()).unwrap();
    assert!(plan[0].transfers.is_empty());
    assert!(!plan[0].needs_create);
}

#[test]
fn plan_diverged_destination_fails() {
    let src = zfs("da", vec![fs("tank/data", &["s1", "s2"], "/d")]);
    let dst = zfs("da", vec![fs("back/data", &["elsewhere"], "-")]);
    assert_eq!(
        src.plan_clone("tank/data", "back/data", &dst, &no_excludes()),
        Err(Error::DivergedHistory)
    );
}

#[test]
fn plan_empty_destination_fails() {
    let src = zfs("da", vec![fs("tank/data", &["s1"], "/d")]);
    let dst = zfs("da", vec![fs("back/data", &[], "-")]);
    assert_eq!(
        src.plan_clone("tank/data", "back/data", &dst, &no_excludes()),
        Err(Error::EmptyDestination)
    );
}

#[test]
fn plan_source_without_snapshots_fails() {
    let src = zfs("da", vec![fs("tank/data", &[], "/d")]);
    let dst = zfs("da", vec![]);
    assert_eq!(
        src.plan_clone("tank/data", "back/data", &dst, &no_excludes()),
        Err(Error::ConfigurationError)
    );
}

#[test]
fn plan_skips_excluded_names_and_bookmarks() {
    let src = zfs(
        "da",
        vec![
            fs("tank/tmp", &["s1"], "/t"),
            fs("tank/x#mark", &["s1"], "-"),
            fs("tank/keep", &["s1"], "/k"),
        ],
    );
    let dst = zfs("da", vec![]);
    let excludes = Exclusions::new(&strings(&["tmp$"])).unwrap();
    let plan = src.plan_clone("tank", "back", &dst, &excludes).unwrap();
    assert_eq!(plan.len(), 1);
    assert_eq!(plan[0].source_name, "tank/keep");
    assert_eq!(plan[0].dest_name, "back/keep");
}

#[test]
fn plan_maps_suffixes_onto_the_destination_tree() {
    let src = zfs(
        "da",
        vec![fs("tank", &["s1"], "/t"), fs("tank/a", &["s1", "s2"], "/a")],
    );
    let dst = zfs("da", vec![fs("back", &["s1"], "-"), fs("back/a", &["s1"], "-")]);
    let plan = src.plan_clone("tank", "back", &dst, &no_excludes()).unwrap();
    assert_eq!(plan.len(), 2);
    assert_eq!(plan[0].source_name, "tank");
    assert_eq!(plan[0].dest_name, "back");
    assert!(plan[0].transfers.is_empty());
    assert_eq!(plan[1].source_name, "tank/a");
    assert_eq!(plan[1].dest_name, "back/a");
    assert_eq!(transfer(&plan[1], 0), (Some("s1".to_string()), "s2".to_string()));
}

#[test]
fn excludes_reject_bad_patterns_and_match_good_ones() {
    assert_eq!(
        Exclusions::new(&strings(&["("])).err(),
        Some(Error::ConfigurationError)
    );
    let e = Exclusions::new(&strings(&["^pool/tmp", "scratch$"])).unwrap();
    assert!(e.is_excluded("pool/tmp/a"));
    assert!(e.is_excluded("pool/scratch"));
    assert!(!e.is_excluded("pool/data"));
}

#[test]
fn size_estimate_reads_the_size_line() {
    let lines = strings(&[
        "incremental\t@s1\ttank/data@s2\t12345",
        "size\t67890",
        "size\t11111",
    ]);
    assert_eq!(cmds::parse_size_estimate(&lines), 67890);
    assert_eq!(cmds::parse_size_estimate(&strings(&["nothing here"])), 0);
    assert_eq!(cmds::parse_size_estimate(&strings(&["size\tnotanumber"])), 0);
    assert_eq!(cmds::parse_size_estimate(&Vec::new()), 0);
}

#[test]
fn create_props_keeps_only_explicit_settings() {
    let lines = strings(&[
        "tank/data\tcompression\ton\tlocal",
        "tank/data\tmountpoint\t/mnt/d\tlocal",
        "tank/data\tatime\toff\treceived",
        "tank/data\trecordsize\t128K\tdefault",
        "tank/data\txattr\tsa\tinherited from tank",
    ]);
    let props = cmds::create_props(&lines).unwrap();
    assert_eq!(props, vec!["-o", "compression=on", "-o", "atime=off"]);
}

#[test]
fn create_props_rejects_malformed_lines() {
    let lines = strings(&["tank/data\tcompression\ton"]);
    assert!(matches!(
        cmds::create_props(&lines),
        Err(Error::ParseFailure { .. })
    ));
}

#[test]
fn list_command_wraps_remote_hosts_in_ssh() {
    let local = cmds::list_command(&None);
    assert_eq!(local.program, "/sbin/zfs");
    assert_eq!(
        local.args,
        vec!["list", "-H", "-t", "all", "-o", "name,mountpoint"]
    );
    let remote = cmds::list_command(&Some("backhost".to_string()));
    assert_eq!(remote.program, "ssh");
    assert_eq!(
        remote.args,
        vec!["backhost", "sudo", "/sbin/zfs", "list", "-H", "-t", "all", "-o", "name,mountpoint"]
    );
}

#[test]
fn send_commands_cover_full_and_incremental_forms() {
    let dry = cmds::send_command("tank/data", None, "s1", true);
    assert_eq!(dry.program, "/sbin/zfs");
    assert_eq!(dry.args, vec!["send", "-nP", "tank/data@s1"]);
    let base = "s1".to_string();
    let real = cmds::send_command("tank/data", Some(&base), "s3", false);
    assert_eq!(real.args, vec!["send", "-I", "@s1", "tank/data@s3"]);
}

#[test]
fn pipeline_commands_monitor_and_receive() {
    let pv = cmds::progress_command(67890);
    assert_eq!(pv.program, "pv");
    assert_eq!(pv.args, vec!["-s", "67890"]);
    let local = zfs("da", vec![]);
    let recv = cmds::receive_command(&local, "back/data");
    assert_eq!(recv.program, "/sbin/zfs");
    assert_eq!(
        recv.args,
        vec!["receive", "-vF", "-x", "mountpoint", "back/data"]
    );
    let remote = Zfs {
        prefix: "da".to_string(),
        filesystems: Vec::new(),
        host: Some("backhost".to_string()),
    };
    let recv2 = cmds::receive_command(&remote, "back/data");
    assert_eq!(recv2.program, "ssh");
    assert_eq!(
        recv2.args,
        vec!["backhost", "sudo", "/sbin/zfs", "receive", "-vF", "-x", "mountpoint", "back/data"]
    );
}

#[test]
fn maintenance_commands_are_exact() {
    let get = cmds::get_props_command("tank/data");
    assert_eq!(get.program, "/sbin/zfs");
    assert_eq!(get.args, vec!["get", "-Hp", "all", "tank/data"]);

    let create = cmds::create_command("back/data", &strings(&["-o", "atime=off"]));
    assert_eq!(create.args, vec!["create", "-o", "atime=off", "back/data"]);

    let bm = cmds::bookmark_command("pool/a", "h0001-1");
    assert_eq!(bm.args, vec!["bookmark", "pool/a@h0001-1", "pool/a#h0001-1"]);

    let destroy = cmds::destroy_command("pool/a@h0001-1");
    assert_eq!(destroy.args, vec!["destroy", "pool/a@h0001-1"]);
}

#[test]
fn pipeline_result_surfaces_the_first_failing_stage() {
    assert_eq!(cmds::pipeline_result(true, 0, true, 0, true, 0), Ok(()));
    assert_eq!(
        cmds::pipeline_result(false, 2, true, 0, true, 0),
        Err(Error::ExternalToolFailure { command: "zfs send".to_string(), status: 2 })
    );
    assert_eq!(
        cmds::pipeline_result(true, 0, false, 3, false, 4),
        Err(Error::ExternalToolFailure { command: "pv".to_string(), status: 3 })
    );
    assert_eq!(
        cmds::pipeline_result(true, 0, true, 0, false, 4),
        Err(Error::ExternalToolFailure { command: "zfs receive".to_string(), status: 4 })
    );
}

#[test]
fn prune_step_commands_split_the_deletion_name() {
    let (bookmark, destroy) = cmds::prune_step_commands("pool/a@h0001-1").unwrap();
    assert_eq!(bookmark.args, vec!["bookmark", "pool/a@h0001-1", "pool/a#h0001-1"]);
    assert_eq!(destroy.args, vec!["destroy", "pool/a@h0001-1"]);
    assert!(cmds::prune_step_commands("pool/a").is_none());
}

#[test]
fn snapshot_commands_respect_the_local_only_rule() {
    let local = zfs("da", vec![]);
    let c = local.take_snapshot_command("pool/a", 12, 2024, 1, 31, 9, 5).unwrap();
    assert_eq!(c.program, "/sbin/zfs");
    assert_eq!(c.args, vec!["snapshot", "-r", "pool/a@da0012-202401310905"]);
    let named = local.take_named_snapshot_command("pool/a", "manual").unwrap();
    assert_eq!(named.args, vec!["snapshot", "pool/a@manual"]);

    let remote = Zfs {
        prefix: "da".to_string(),
        filesystems: Vec::new(),
        host: Some("backhost".to_string()),
    };
    assert_eq!(
        remote.take_snapshot_command("pool/a", 1, 2024, 1, 1, 0, 0),
        Err(Error::ConfigurationError)
    );
    assert_eq!(
        remote.take_named_snapshot_command("pool/a", "manual"),
        Err(Error::ConfigurationError)
    );
}

#[test]
fn from_listing_builds_the_inventory() {
    let lines = strings(&["pool\t/pool", "pool@s1\t-", "pool/a\t/mnt/a"]);
    let z = Zfs::from_listing(None, "da", &lines).unwrap();
    assert_eq!(z.prefix, "da");
    assert_eq!(z.filesystems.len(), 2);
    assert_eq!(z.filesystems[0].snaps, vec!["s1"]);
}

#[test]
fn check_exit_maps_failures_to_tool_errors() {
    assert_eq!(rdump::errors::check_exit("zfs list", true, 0), Ok(()));
    assert_eq!(
        rdump::errors::check_exit("zfs list", false, 2),
        Err(Error::ExternalToolFailure { command: "zfs list".to_string(), status: 2 })
    );
}
