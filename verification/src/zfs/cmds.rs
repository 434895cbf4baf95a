//! The exact command lines the replication engine hands to the outside
//! tools, and the parsers for what those tools print.  The surrounding
//! program spawns the processes; everything it runs is computed and
//! specified here.

use vstd::prelude::*;

use crate::errors::Error;
use crate::text::{all_digits, dec_value, eq_str, parse_u64, spec_dec, spec_split, split_char, u64_to_dec};
use crate::zfs::Zfs;

verus! {

/// The path of the storage tool on the systems this engine drives.
pub const ZFS_PROGRAM: &'static str = "/sbin/zfs";

/// One external invocation: the program and its arguments.
#[derive(Debug, PartialEq, Eq)]
pub struct CmdLine {
    pub program: String,
    pub args: Vec<String>,
}

/// The mathematical image of a `CmdLine`.
#[verifier::ext_equal]
pub struct CmdView {
    pub program: Seq<char>,
    pub args: Seq<Seq<char>>,
}

impl View for CmdLine {
    type V = CmdView;

    open spec fn view(&self) -> CmdView {
        CmdView { program: self.program@, args: self.args.deep_view() }
    }
}

/// A storage-tool invocation, run locally when `host` is `None` and over
/// `ssh <host> sudo` otherwise: the tail arguments follow the tool.
pub open spec fn zfs_cmd(host: Option<Seq<char>>, tail: Seq<Seq<char>>) -> CmdView {
    match host {
        None => CmdView { program: ZFS_PROGRAM@, args: tail },
        Some(h) => CmdView {
            program: "ssh"@,
            args: seq![h, "sudo"@, ZFS_PROGRAM@] + tail,
        },
    }
}

/// Start a storage-tool command line for `host`, with the given tail
/// arguments to follow.
fn build_zfs_cmd(host: &Option<String>, tail: Vec<String>) -> (r: CmdLine)
    ensures
        r@ =~~= zfs_cmd(crate::zfs::opt_view(*host), tail.deep_view()),
{
    match host {
        None => CmdLine { program: ZFS_PROGRAM.to_owned(), args: tail },
        Some(h) => {
            let mut args: Vec<String> = Vec::new();
            args.push(h.clone());
            args.push("sudo".to_owned());
            args.push(ZFS_PROGRAM.to_owned());
            let ghost gtail = tail.deep_view();
            let n = tail.len();
            let mut k: usize = 0;
            while k < n
                invariant
                    n == tail@.len(),
                    gtail == tail.deep_view(),
                    k <= n,
                    args@.len() == 3 + k,
                    args@[0]@ == h@,
                    args@[1]@ == "sudo"@,
                    args@[2]@ == ZFS_PROGRAM@,
                    forall|j: int| 3 <= j < args@.len() ==> args@[j]@ == gtail[j - 3],
                decreases n - k,
            {
                args.push(tail[k].clone());
                k = k + 1;
            }
            proof {
                assert forall|j: int| 0 <= j < args@.len() implies args.deep_view()[j] == (seq![
                    h@,
                    "sudo"@,
                    ZFS_PROGRAM@,
                ] + gtail)[j] by {
                    assert(args.deep_view()[j] == args@[j]@);
                }
                assert(args.deep_view() =~~= seq![h@, "sudo"@, ZFS_PROGRAM@] + gtail);
            }
            CmdLine { program: "ssh".to_owned(), args }
        },
    }
}

/// The listing query: every volume and snapshot with its mountpoint, in
/// hierarchy-then-creation order.
pub open spec fn list_cmd(host: Option<Seq<char>>) -> CmdView {
    zfs_cmd(host, seq!["list"@, "-H"@, "-t"@, "all"@, "-o"@, "name,mountpoint"@])
}

/// Build the listing query for `host`.
pub fn list_command(host: &Option<String>) -> (r: CmdLine)
    ensures
        r@ =~~= list_cmd(crate::zfs::opt_view(*host)),
{
    let mut tail: Vec<String> = Vec::new();
    tail.push("list".to_owned());
    tail.push("-H".to_owned());
    tail.push("-t".to_owned());
    tail.push("all".to_owned());
    tail.push("-o".to_owned());
    tail.push("name,mountpoint".to_owned());
    proof {
        assert(tail.deep_view() =~~= seq![
            "list"@,
            "-H"@,
            "-t"@,
            "all"@,
            "-o"@,
            "name,mountpoint"@,
        ]);
    }
    build_zfs_cmd(host, tail)
}

/// `volume@snapshot`.
pub open spec fn at_name(vol: Seq<char>, snap: Seq<char>) -> Seq<char> {
    vol + seq!['@'] + snap
}

/// Join a volume and a snapshot name with `@`.
pub fn join_at(vol: &str, snap: &str) -> (r: String)
    ensures
        r@ == at_name(vol@, snap@),
{
    let mut r = vol.to_owned();
    r.append("@");
    r.append(snap);
    proof {
        reveal_strlit("@");
        assert("@"@ =~= seq!['@']);
    }
    r
}

/// The send invocation estimating or producing the stream from the base
/// snapshot (`None` for a full stream) up to `upto` on `source`: with
/// `dry`, only the size estimate is printed.
pub open spec fn send_cmd(
    source: Seq<char>,
    base: Option<Seq<char>>,
    upto: Seq<char>,
    dry: bool,
) -> CmdView {
    let head: Seq<Seq<char>> = if dry {
        seq!["send"@, "-nP"@]
    } else {
        seq!["send"@]
    };
    let mid: Seq<Seq<char>> = match base {
        Some(b) => seq!["-I"@, seq!['@'] + b],
        None => Seq::empty(),
    };
    CmdView { program: ZFS_PROGRAM@, args: head + mid + seq![at_name(source, upto)] }
}

/// Build the send invocation.
pub fn send_command(source: &str, base: Option<&String>, upto: &str, dry: bool) -> (r: CmdLine)
    ensures
        r@ =~~= send_cmd(
            source@,
            match base {
                Some(b) => Some(b@),
                None => None,
            },
            upto@,
            dry,
        ),
{
    let mut args: Vec<String> = Vec::new();
    args.push("send".to_owned());
    if dry {
        args.push("-nP".to_owned());
    }
    match base {
        Some(b) => {
            args.push("-I".to_owned());
            let mut at = "@".to_owned();
            at.append(b.as_str());
            proof {
                reveal_strlit("@");
                assert("@"@ =~= seq!['@']);
            }
            args.push(at);
        },
        None => {},
    }
    args.push(join_at(source, upto));
    let r = CmdLine { program: ZFS_PROGRAM.to_owned(), args };
    proof {
        assert(r@ =~~= send_cmd(
            source@,
            match base {
                Some(b) => Some(b@),
                None => None,
            },
            upto@,
            dry,
        ));
    }
    r
}

/// The progress monitor sitting between send and receive, told the
/// estimated stream size.
pub open spec fn progress_cmd(size: nat) -> CmdView {
    CmdView { program: "pv"@, args: seq!["-s"@, spec_dec(size)] }
}

/// Build the progress-monitor invocation.
pub fn progress_command(size: u64) -> (r: CmdLine)
    ensures
        r@ =~~= progress_cmd(size as nat),
{
    let mut args: Vec<String> = Vec::new();
    args.push("-s".to_owned());
    args.push(u64_to_dec(size));
    let r = CmdLine { program: "pv".to_owned(), args };
    proof {
        assert(r@ =~~= progress_cmd(size as nat));
    }
    r
}

/// The receive invocation applying the stream to `dest` on the
/// destination system, never re-applying the mountpoint property.
pub open spec fn receive_cmd(host: Option<Seq<char>>, dest: Seq<char>) -> CmdView {
    zfs_cmd(host, seq!["receive"@, "-vF"@, "-x"@, "mountpoint"@, dest])
}

/// Build the receive invocation for the destination inventory's host.
pub fn receive_command(dest_zfs: &Zfs, dest: &str) -> (r: CmdLine)
    ensures
        r@ =~~= receive_cmd(dest_zfs.host_view(), dest@),
{
    let mut tail: Vec<String> = Vec::new();
    tail.push("receive".to_owned());
    tail.push("-vF".to_owned());
    tail.push("-x".to_owned());
    tail.push("mountpoint".to_owned());
    tail.push(dest.to_owned());
    proof {
        assert(tail.deep_view() =~~= seq!["receive"@, "-vF"@, "-x"@, "mountpoint"@, dest@]);
    }
    build_zfs_cmd(&dest_zfs.host, tail)
}

/// The property query for a volume: all properties, scripted and parsable.
pub open spec fn get_props_cmd(name: Seq<char>) -> CmdView {
    CmdView { program: ZFS_PROGRAM@, args: seq!["get"@, "-Hp"@, "all"@, name] }
}

/// Build the property query.
pub fn get_props_command(name: &str) -> (r: CmdLine)
    ensures
        r@ =~~= get_props_cmd(name@),
{
    let mut args: Vec<String> = Vec::new();
    args.push("get".to_owned());
    args.push("-Hp".to_owned());
    args.push("all".to_owned());
    args.push(name.to_owned());
    let r = CmdLine { program: ZFS_PROGRAM.to_owned(), args };
    proof {
        assert(r@ =~~= get_props_cmd(name@));
    }
    r
}

/// The volume creation invocation with its property overrides.
pub open spec fn create_cmd(dest: Seq<char>, props: Seq<Seq<char>>) -> CmdView {
    CmdView { program: ZFS_PROGRAM@, args: seq!["create"@] + props + seq![dest] }
}

/// Build the volume creation invocation from the filtered overrides.
pub fn create_command(dest: &str, props: &Vec<String>) -> (r: CmdLine)
    ensures
        r@ =~~= create_cmd(dest@, props.deep_view()),
{
    let mut args: Vec<String> = Vec::new();
    args.push("create".to_owned());
    let n = props.len();
    let mut i: usize = 0;
    while i < n
        invariant
            n == props@.len(),
            i <= n,
            args@.len() == 1 + i,
            args.deep_view()[0] == "create"@,
            forall|j: int| 0 <= j < i ==> args.deep_view()[j + 1] == props.deep_view()[j],
        decreases n - i,
    {
        args.push(props[i].clone());
        i = i + 1;
    }
    args.push(dest.to_owned());
    let r = CmdLine { program: ZFS_PROGRAM.to_owned(), args };
    proof {
        assert(r@.args =~= seq!["create"@] + props.deep_view() + seq![dest@]);
        assert(r@ =~~= create_cmd(dest@, props.deep_view()));
    }
    r
}

/// The bookmark invocation preserving a snapshot's lineage before it is
/// destroyed: `volume@snapshot` becomes bookmark `volume#snapshot`.
pub open spec fn bookmark_cmd(vol: Seq<char>, snap: Seq<char>) -> CmdView {
    CmdView {
        program: ZFS_PROGRAM@,
        args: seq!["bookmark"@, at_name(vol, snap), vol + seq!['#'] + snap],
    }
}

/// Build the bookmark invocation.
pub fn bookmark_command(vol: &str, snap: &str) -> (r: CmdLine)
    ensures
        r@ =~~= bookmark_cmd(vol@, snap@),
{
    let mut args: Vec<String> = Vec::new();
    args.push("bookmark".to_owned());
    args.push(join_at(vol, snap));
    let mut hashed = vol.to_owned();
    hashed.append("#");
    hashed.append(snap);
    proof {
        reveal_strlit("#");
        assert("#"@ =~= seq!['#']);
    }
    args.push(hashed);
    let r = CmdLine { program: ZFS_PROGRAM.to_owned(), args };
    proof {
        assert(r@ =~~= bookmark_cmd(vol@, snap@));
    }
    r
}

/// The destruction invocation for a full `volume@snapshot` name.
pub open spec fn destroy_cmd(target: Seq<char>) -> CmdView {
    CmdView { program: ZFS_PROGRAM@, args: seq!["destroy"@, target] }
}

/// Build the destruction invocation.
pub fn destroy_command(target: &str) -> (r: CmdLine)
    ensures
        r@ =~~= destroy_cmd(target@),
{
    let mut args: Vec<String> = Vec::new();
    args.push("destroy".to_owned());
    args.push(target.to_owned());
    let r = CmdLine { program: ZFS_PROGRAM.to_owned(), args };
    proof {
        assert(r@ =~~= destroy_cmd(target@));
    }
    r
}

/// The recursive snapshot invocation.
pub open spec fn snapshot_cmd(target: Seq<char>, recursive: bool) -> CmdView {
    if recursive {
        CmdView { program: ZFS_PROGRAM@, args: seq!["snapshot"@, "-r"@, target] }
    } else {
        CmdView { program: ZFS_PROGRAM@, args: seq!["snapshot"@, target] }
    }
}

/// Build the snapshot invocation for a full `volume@snapshot` name.
pub fn snapshot_command(target: &str, recursive: bool) -> (r: CmdLine)
    ensures
        r@ =~~= snapshot_cmd(target@, recursive),
{
    let mut args: Vec<String> = Vec::new();
    args.push("snapshot".to_owned());
    if recursive {
        args.push("-r".to_owned());
    }
    args.push(target.to_owned());
    let r = CmdLine { program: ZFS_PROGRAM.to_owned(), args };
    proof {
        assert(r@ =~~= snapshot_cmd(target@, recursive));
    }
    r
}

/// Fold the three pipeline stages' exits into the transfer's result: the
/// stages are awaited in pipeline order, and the first failing one
/// decides, named with its status.
pub fn pipeline_result(
    send_success: bool,
    send_status: i32,
    monitor_success: bool,
    monitor_status: i32,
    receive_success: bool,
    receive_status: i32,
) -> (r: Result<(), Error>)
    ensures
        r is Ok <==> (send_success && monitor_success && receive_success),
        !send_success ==> (r matches Err(e) && e.is_tool_failure_of("zfs send"@, send_status)),
        (send_success && !monitor_success) ==> (r matches Err(e) && e.is_tool_failure_of(
            "pv"@,
            monitor_status,
        )),
        (send_success && monitor_success && !receive_success) ==> (r matches Err(e)
            && e.is_tool_failure_of("zfs receive"@, receive_status)),
{
    crate::errors::check_exit("zfs send", send_success, send_status)?;
    crate::errors::check_exit("pv", monitor_success, monitor_status)?;
    crate::errors::check_exit("zfs receive", receive_success, receive_status)
}

/// The two commands one retention deletion runs, split out of its full
/// `volume@snapshot` name: a bookmark preserving the snapshot's lineage,
/// then the destruction itself.  `None` when the name holds no `@`.
pub fn prune_step_commands(target: &str) -> (r: Option<(CmdLine, CmdLine)>)
    ensures
        r is Some <==> target@.contains('@'),
        r matches Some(cs) ==> {
            let i = crate::text::first_occurrence(target@, '@');
            &&& cs.0@ =~~= bookmark_cmd(
                target@.subrange(0, i),
                target@.subrange(i + 1, target@.len() as int),
            )
            &&& cs.1@ =~~= destroy_cmd(target@)
        },
{
    match crate::text::find_char(target, '@') {
        None => {
            proof {
                if target@.contains('@') {
                    let j = choose|j: int| 0 <= j < target@.len() && target@[j] == '@';
                }
            }
            None
        },
        Some(i) => {
            proof {
                crate::text::lemma_first_occurrence_is(target@, '@', i as int);
                assert(target@[i as int] == '@');
            }
            let len = target.unicode_len();
            let vol = target.substring_char(0, i);
            let snap = target.substring_char(i + 1, len);
            Some((bookmark_command(vol, snap), destroy_command(target)))
        },
    }
}

/// A line of send-estimate output that carries the byte estimate: its
/// first tab-separated field is `size` and a second field is present.
pub open spec fn is_size_line(line: Seq<char>) -> bool {
    let f = spec_split(line, '\t');
    f.len() >= 2 && f[0] == "size"@
}

/// The estimate a size line carries; an unparsable number counts as 0.
pub open spec fn size_line_value(line: Seq<char>) -> nat {
    let f = spec_split(line, '\t');
    if f[1].len() > 0 && all_digits(f[1]) && dec_value(f[1]) <= u64::MAX {
        dec_value(f[1])
    } else {
        0
    }
}

/// The byte estimate of a whole send-estimate output: the first size line
/// decides; without one the estimate is 0.
pub open spec fn estimate_of(lines: Seq<Seq<char>>) -> nat
    decreases lines.len(),
{
    if lines.len() == 0 {
        0
    } else if is_size_line(lines[0]) {
        size_line_value(lines[0])
    } else {
        estimate_of(lines.subrange(1, lines.len() as int))
    }
}

proof fn lemma_estimate_skip(lines: Seq<Seq<char>>, i: int)
    requires
        0 <= i <= lines.len(),
        forall|j: int| 0 <= j < i ==> !is_size_line(lines[j]),
    ensures
        estimate_of(lines) == estimate_of(lines.subrange(i, lines.len() as int)),
    decreases i,
{
    if i == 0 {
        assert(lines.subrange(0, lines.len() as int) =~= lines);
    } else {
        let t = lines.subrange(1, lines.len() as int);
        assert(!is_size_line(lines[0]));
        assert forall|j: int| 0 <= j < i - 1 implies !is_size_line(t[j]) by {
            assert(t[j] == lines[j + 1]);
        }
        lemma_estimate_skip(t, i - 1);
        assert(t.subrange(i - 1, t.len() as int) =~= lines.subrange(i, lines.len() as int));
    }
}

/// Read the byte estimate out of the lines a dry-run send printed.  The
/// estimate is advisory: a missing or malformed size line yields 0.
pub fn parse_size_estimate(lines: &Vec<String>) -> (r: u64)
    ensures
        r == estimate_of(lines.deep_view()),
{
    let n = lines.len();
    let mut i: usize = 0;
    while i < n
        invariant
            n == lines@.len(),
            i <= n,
            forall|j: int| 0 <= j < i ==> !is_size_line(#[trigger] lines.deep_view()[j]),
        decreases n - i,
    {
        let fields = split_char(lines[i].as_str(), '\t');
        proof {
            reveal_strlit("size");
            assert(fields.deep_view() == spec_split(lines.deep_view()[i as int], '\t'));
            if fields@.len() >= 2 {
                assert(fields.deep_view()[0] == fields@[0]@);
                assert(fields.deep_view()[1] == fields@[1]@);
            }
        }
        if fields.len() >= 2 && eq_str(fields[0].as_str(), "size") {
            let ghost gl = lines.deep_view()[i as int];
            proof {
                assert(is_size_line(gl));
                lemma_estimate_skip(lines.deep_view(), i as int);
                assert(lines.deep_view().subrange(i as int, n as int)[0] == gl);
                assert(estimate_of(lines.deep_view()) == size_line_value(gl));
            }
            let v = match parse_u64(fields[1].as_str()) {
                Some(v) => v,
                None => 0,
            };
            return v;
        }
        proof {
            assert(!is_size_line(lines.deep_view()[i as int]));
        }
        i = i + 1;
    }
    proof {
        lemma_estimate_skip(lines.deep_view(), n as int);
        assert(lines.deep_view().subrange(n as int, n as int) =~= Seq::<Seq<char>>::empty());
    }
    0
}

/// The property-copy rule for volume creation, over the lines of a
/// property query (four tab-separated fields: name, property, value,
/// origin).  A line with any other shape fails; the `mountpoint` property
/// is never copied; only properties whose origin is `local` or `received`
/// (explicitly set, not inherited or default) become `-o property=value`
/// overrides, in line order.  `Err` carries the index of the bad line.
pub open spec fn create_props_spec(lines: Seq<Seq<char>>) -> Result<Seq<Seq<char>>, int>
    decreases lines.len(),
{
    if lines.len() == 0 {
        Ok(Seq::empty())
    } else {
        match create_props_spec(lines.drop_last()) {
            Err(k) => Err(k),
            Ok(ps) => {
                let f = spec_split(lines.last(), '\t');
                if f.len() != 4 {
                    Err(lines.len() - 1)
                } else if f[1] == "mountpoint"@ {
                    Ok(ps)
                } else if f[3] == "local"@ || f[3] == "received"@ {
                    Ok(ps + seq!["-o"@, f[1] + seq!['='] + f[2]])
                } else {
                    Ok(ps)
                }
            },
        }
    }
}

proof fn lemma_props_error_extends(lines: Seq<Seq<char>>, i: int)
    requires
        0 <= i <= lines.len(),
        create_props_spec(lines.subrange(0, i)) is Err,
    ensures
        create_props_spec(lines) == create_props_spec(lines.subrange(0, i)),
    decreases lines.len() - i,
{
    if i == lines.len() {
        assert(lines.subrange(0, i) =~= lines);
    } else {
        let pre2 = lines.subrange(0, i + 1);
        assert(pre2.drop_last() =~= lines.subrange(0, i));
        lemma_props_error_extends(lines, i + 1);
    }
}

/// Compute the `-o property=value` overrides for creating a destination
/// volume from the lines of the source's property query.
pub fn create_props(lines: &Vec<String>) -> (r: Result<Vec<String>, Error>)
    ensures
        match r {
            Ok(ps) => create_props_spec(lines.deep_view()) == Ok::<Seq<Seq<char>>, int>(
                ps.deep_view(),
            ),
            Err(e) => {
                &&& create_props_spec(lines.deep_view()) is Err
                &&& e.is_parse_failure_of(
                    lines.deep_view()[create_props_spec(lines.deep_view())->Err_0],
                )
            },
        },
{
    let n = lines.len();
    let mut ps: Vec<String> = Vec::new();
    let mut i: usize = 0;
    proof {
        assert(lines.deep_view().subrange(0, 0) =~= Seq::<Seq<char>>::empty());
        assert(ps.deep_view() =~= Seq::<Seq<char>>::empty());
    }
    while i < n
        invariant
            n == lines@.len(),
            i <= n,
            lines.deep_view().len() == n,
            forall|j: int| 0 <= j < n ==> lines.deep_view()[j] == lines@[j]@,
            create_props_spec(lines.deep_view().subrange(0, i as int)) == Ok::<
                Seq<Seq<char>>,
                int,
            >(ps.deep_view()),
        decreases n - i,
    {
        let ghost prefix2 = lines.deep_view().subrange(0, i + 1);
        proof {
            assert(prefix2.drop_last() =~= lines.deep_view().subrange(0, i as int));
            assert(prefix2.last() == lines.deep_view()[i as int]);
        }
        let fields = split_char(lines[i].as_str(), '\t');
        proof {
            assert(fields.deep_view() == spec_split(lines.deep_view()[i as int], '\t'));
        }
        if fields.len() != 4 {
            proof {
                assert(create_props_spec(prefix2) == Err::<Seq<Seq<char>>, int>(i as int));
                lemma_props_error_extends(lines.deep_view(), i + 1);
            }
            return Err(Error::parse_failure(lines[i].as_str()));
        }
        proof {
            assert(fields.deep_view()[1] == fields@[1]@);
            assert(fields.deep_view()[2] == fields@[2]@);
            assert(fields.deep_view()[3] == fields@[3]@);
        }
        if eq_str(fields[1].as_str(), "mountpoint") {
            // Never copy the mountpoint, so the copy is not mounted over
            // the live tree.
        } else if eq_str(fields[3].as_str(), "local") || eq_str(fields[3].as_str(), "received") {
            let ghost p0 = ps.deep_view();
            ps.push("-o".to_owned());
            let mut pv = fields[1].clone();
            pv.append("=");
            pv.append(fields[2].as_str());
            proof {
                reveal_strlit("=");
                assert("="@ =~= seq!['=']);
            }
            ps.push(pv);
            proof {
                assert(ps.deep_view() =~= p0 + seq![
                    "-o"@,
                    fields.deep_view()[1] + seq!['='] + fields.deep_view()[2],
                ]);
            }
        }
        proof {
            assert(create_props_spec(prefix2) == Ok::<Seq<Seq<char>>, int>(ps.deep_view()));
        }
        i = i + 1;
    }
    proof {
        assert(lines.deep_view().subrange(0, n as int) =~= lines.deep_view());
    }
    Ok(ps)
}

/// One property-query line yields this override argument: the line has the
/// four fields, its property is not `mountpoint`, its origin is `local` or
/// `received`, and the argument is its `property=value`.
pub open spec fn prop_line_gives(line: Seq<char>, arg: Seq<char>) -> bool {
    let f = spec_split(line, '\t');
    &&& f.len() == 4
    &&& f[1] != "mountpoint"@
    &&& (f[3] == "local"@ || f[3] == "received"@)
    &&& arg == f[1] + seq!['='] + f[2]
}

/// The property-copy law: the computed overrides alternate `-o` flags with
/// `property=value` settings, and every setting comes from a query line
/// whose origin was `local` or `received` and whose property was not
/// `mountpoint` — never from an inherited or default origin, and never the
/// mountpoint.
pub proof fn lemma_create_props_explicit_only(lines: Seq<Seq<char>>)
    ensures
        create_props_spec(lines) matches Ok(ps) ==> {
            &&& ps.len() % 2 == 0
            &&& (forall|u: int| 0 <= u < ps.len() && u % 2 == 0 ==> #[trigger] ps[u] == "-o"@)
            &&& (forall|u: int|
                0 <= u < ps.len() && u % 2 == 1 ==> exists|k: int|
                    0 <= k < lines.len() && prop_line_gives(lines[k], #[trigger] ps[u]))
        },
    decreases lines.len(),
{
    if lines.len() == 0 {
    } else {
        lemma_create_props_explicit_only(lines.drop_last());
        if create_props_spec(lines) is Ok {
            let ps = create_props_spec(lines)->Ok_0;
            let prev = create_props_spec(lines.drop_last())->Ok_0;
            let f = spec_split(lines.last(), '\t');
            assert forall|u: int|
                0 <= u < ps.len() && u % 2 == 1 implies exists|k: int|
                    0 <= k < lines.len() && prop_line_gives(lines[k], #[trigger] ps[u]) by {
                if u < prev.len() {
                    let k = choose|k: int|
                        0 <= k < lines.drop_last().len() && prop_line_gives(
                            #[trigger] lines.drop_last()[k],
                            prev[u],
                        );
                    assert(lines[k] == lines.drop_last()[k]);
                    assert(prop_line_gives(lines[k], ps[u]));
                } else {
                    assert(prop_line_gives(lines[lines.len() - 1], ps[u]));
                }
            }
        }
    }
}

impl Zfs {
    /// The command that snapshots `fs` recursively under number `index` at
    /// the given wall-clock time.  Snapshots can only be taken on the
    /// local system: with a remote host this fails with
    /// `ConfigurationError`.
    pub fn take_snapshot_command(
        &self,
        fs: &str,
        index: usize,
        year: u64,
        month: u64,
        day: u64,
        hour: u64,
        minute: u64,
    ) -> (r: Result<CmdLine, Error>)
        ensures
            r is Ok <==> self.host_view() is None,
            r matches Ok(c) ==> c@ =~~= snapshot_cmd(
                at_name(
                    fs@,
                    self.prefix@ + crate::text::spec_padded_dec(index as nat, 4) + seq!['-']
                        + crate::text::spec_padded_dec(year as nat, 4)
                        + crate::text::spec_padded_dec(month as nat, 2)
                        + crate::text::spec_padded_dec(day as nat, 2)
                        + crate::text::spec_padded_dec(hour as nat, 2)
                        + crate::text::spec_padded_dec(minute as nat, 2),
                ),
                true,
            ),
            r matches Err(e) ==> e == Error::ConfigurationError,
    {
        if self.host.is_some() {
            return Err(Error::ConfigurationError);
        }
        let snap = self.snap_name(index, year, month, day, hour, minute);
        let full = join_at(fs, snap.as_str());
        Ok(snapshot_command(full.as_str(), true))
    }

    /// The command that takes one non-recursive snapshot of `fs` under the
    /// given name; local systems only, as for `take_snapshot_command`.
    pub fn take_named_snapshot_command(&self, fs: &str, name: &str) -> (r: Result<CmdLine, Error>)
        ensures
            r is Ok <==> self.host_view() is None,
            r matches Ok(c) ==> c@ =~~= snapshot_cmd(at_name(fs@, name@), false),
            r matches Err(e) ==> e == Error::ConfigurationError,
    {
        if self.host.is_some() {
            return Err(Error::ConfigurationError);
        }
        let full = join_at(fs, name);
        Ok(snapshot_command(full.as_str(), false))
    }
}

} // verus!
