//! The volume/snapshot inventory model: parsing a listing into filesystems,
//! subtree filtering, the snapshot-name grammar, and snapshot numbering.

use vstd::prelude::*;

use crate::errors::Error;
use crate::text::{
    all_digits, dec_value, eq_str, find_char, first_occurrence, has_prefix, is_digit_char,
    is_prefix, lemma_all_digits_concat, lemma_first_occurrence_absent, lemma_first_occurrence_is,
    lemma_padded_props, padded_dec, pow10, spec_padded_dec, spec_split, split_char,
};

pub mod clone_plan;
pub mod cmds;
pub mod exclude;
pub mod prune;

verus! {

/// One volume of the inventory: its name, its snapshot names in creation
/// order (oldest first), and its mountpoint.
#[derive(Debug, PartialEq, Eq)]
pub struct Filesystem {
    pub name: String,
    pub snaps: Vec<String>,
    pub mount: String,
}

/// The mathematical image of a `Filesystem`.
#[verifier::ext_equal]
pub struct FsView {
    pub name: Seq<char>,
    pub snaps: Seq<Seq<char>>,
    pub mount: Seq<char>,
}

impl View for Filesystem {
    type V = FsView;

    open spec fn view(&self) -> FsView {
        FsView { name: self.name@, snaps: self.snaps.deep_view(), mount: self.mount@ }
    }
}

impl DeepView for Filesystem {
    type V = FsView;

    open spec fn deep_view(&self) -> FsView {
        self.view()
    }
}

/// Accumulates filesystems while walking a listing: a snapshot line must
/// belong to the most recently started volume.
pub struct SnapBuilder {
    work: Vec<Filesystem>,
}

impl View for SnapBuilder {
    type V = Seq<FsView>;

    closed spec fn view(&self) -> Seq<FsView> {
        self.work.deep_view()
    }
}

impl SnapBuilder {
    /// A builder with no volumes yet.
    pub fn new() -> (r: SnapBuilder)
        ensures
            r@ =~~= Seq::<FsView>::empty(),
    {
        SnapBuilder { work: Vec::new() }
    }

    /// Hand the accumulated filesystems over.
    pub fn into_sets(self) -> (r: Vec<Filesystem>)
        ensures
            r.deep_view() == self@,
    {
        self.work
    }

    /// Start a new volume with no snapshots.
    pub fn push_volume(&mut self, name: &str, mount: &str)
        ensures
            final(self)@ =~~= old(self)@.push(
                FsView { name: name@, snaps: Seq::empty(), mount: mount@ },
            ),
    {
        self.work.push(
            Filesystem { name: name.to_owned(), snaps: Vec::new(), mount: mount.to_owned() },
        );
        proof {
            assert(self@ =~~= old(self)@.push(
                FsView { name: name@, snaps: Seq::empty(), mount: mount@ },
            ));
        }
    }

    /// Attach a snapshot to the most recently started volume.  The listing
    /// guarantees that a snapshot line names exactly that volume; any other
    /// shape is a fatal parse failure.
    pub fn push_snap(&mut self, name: &str, snap: &str) -> (r: Result<(), Error>)
        ensures
            r is Ok <==> (old(self)@.len() > 0 && old(self)@.last().name == name@),
            r is Ok ==> final(self)@ =~~= old(self)@.drop_last().push(
                FsView {
                    name: old(self)@.last().name,
                    snaps: old(self)@.last().snaps.push(snap@),
                    mount: old(self)@.last().mount,
                },
            ),
            r matches Err(e) ==> e.is_parse_failure_of(name@) && final(self)@ == old(self)@,
    {
        let pos = self.work.len();
        if pos == 0 {
            return Err(Error::parse_failure(name));
        }
        if !eq_str(name, self.work[pos - 1].name.as_str()) {
            return Err(Error::parse_failure(name));
        }
        let mut fs = match self.work.pop() {
            Some(fs) => fs,
            None => {
                return Err(Error::parse_failure(name));
            },
        };
        fs.snaps.push(snap.to_owned());
        self.work.push(fs);
        proof {
            assert(self@ =~~= old(self)@.drop_last().push(
                FsView {
                    name: old(self)@.last().name,
                    snaps: old(self)@.last().snaps.push(snap@),
                    mount: old(self)@.last().mount,
                },
            ));
        }
        Ok(())
    }
}

/// What one listing line does to the filesystems accumulated so far:
/// either it extends them, or the line is rejected.
pub open spec fn listing_step(fss: Seq<FsView>, line: Seq<char>) -> Option<Seq<FsView>> {
    let t = first_occurrence(line, '\t');
    if t == line.len() {
        None
    } else {
        let name_part = line.subrange(0, t);
        let mount = line.subrange(t + 1, line.len() as int);
        let a = first_occurrence(name_part, '@');
        if a == name_part.len() {
            Some(fss.push(FsView { name: name_part, snaps: Seq::empty(), mount }))
        } else {
            let vol = name_part.subrange(0, a);
            let snap = name_part.subrange(a + 1, name_part.len() as int);
            if fss.len() > 0 && fss.last().name == vol {
                Some(fss.drop_last().push(
                    FsView {
                        name: fss.last().name,
                        snaps: fss.last().snaps.push(snap),
                        mount: fss.last().mount,
                    },
                ))
            } else {
                None
            }
        }
    }
}

/// The meaning of a whole listing: the filesystems it describes, or the
/// index of the first line that does not parse.
pub open spec fn parse_lines(lines: Seq<Seq<char>>) -> Result<Seq<FsView>, int>
    decreases lines.len(),
{
    if lines.len() == 0 {
        Ok(Seq::empty())
    } else {
        match parse_lines(lines.drop_last()) {
            Err(k) => Err(k),
            Ok(fss) => match listing_step(fss, lines.last()) {
                Some(f2) => Ok(f2),
                None => Err(lines.len() - 1),
            },
        }
    }
}

/// Parse the lines of a `name<TAB>mountpoint` listing into filesystems.
/// A line without a tab, or a snapshot line that does not immediately
/// follow its own volume, fails with `ParseFailure` carrying that line.
pub fn parse_listing(lines: &Vec<String>) -> (r: Result<Vec<Filesystem>, Error>)
    ensures
        match r {
            Ok(fs) => parse_lines(lines.deep_view()) == Ok::<Seq<FsView>, int>(fs.deep_view()),
            Err(e) => {
                &&& parse_lines(lines.deep_view()) is Err
                &&& e.is_parse_failure_of(lines.deep_view()[parse_lines(lines.deep_view())->Err_0])
            },
        },
{
    let mut builder = SnapBuilder::new();
    let n = lines.len();
    let mut i: usize = 0;
    proof {
        assert(lines.deep_view().subrange(0, 0) =~= Seq::<Seq<char>>::empty());
    }
    while i < n
        invariant
            n == lines@.len(),
            i <= n,
            lines.deep_view().len() == n,
            forall|j: int| 0 <= j < n ==> lines.deep_view()[j] == lines@[j]@,
            parse_lines(lines.deep_view().subrange(0, i as int)) == Ok::<Seq<FsView>, int>(
                builder@,
            ),
        decreases n - i,
    {
        let line = lines[i].as_str();
        let ghost before = builder@;
        let ghost prefix = lines.deep_view().subrange(0, i as int);
        let ghost prefix2 = lines.deep_view().subrange(0, i + 1);
        proof {
            assert(prefix2.drop_last() =~= prefix);
            assert(prefix2.last() == line@);
        }
        let outcome: Result<(), Error> = match find_char(line, '\t') {
            None => {
                proof {
                    lemma_first_occurrence_absent(line@, '\t');
                    assert(listing_step(before, line@) is None);
                }
                Err(Error::parse_failure(line))
            },
            Some(t) => {
                proof {
                    lemma_first_occurrence_is(line@, '\t', t as int);
                }
                let len = line.unicode_len();
                let name_part = line.substring_char(0, t);
                let mount = line.substring_char(t + 1, len);
                match find_char(name_part, '@') {
                    None => {
                        proof {
                            lemma_first_occurrence_absent(name_part@, '@');
                        }
                        builder.push_volume(name_part, mount);
                        proof {
                            assert(listing_step(before, line@) == Some(builder@));
                        }
                        Ok(())
                    },
                    Some(a) => {
                        proof {
                            lemma_first_occurrence_is(name_part@, '@', a as int);
                        }
                        let nlen = name_part.unicode_len();
                        let vol = name_part.substring_char(0, a);
                        let snap = name_part.substring_char(a + 1, nlen);
                        match builder.push_snap(vol, snap) {
                            Ok(()) => {
                                proof {
                                    assert(listing_step(before, line@) == Some(builder@));
                                }
                                Ok(())
                            },
                            Err(_) => {
                                proof {
                                    assert(listing_step(before, line@) is None);
                                }
                                Err(Error::parse_failure(line))
                            },
                        }
                    },
                }
            },
        };
        match outcome {
            Ok(()) => {
                proof {
                    assert(parse_lines(prefix2) == Ok::<Seq<FsView>, int>(builder@));
                }
            },
            Err(e) => {
                proof {
                    assert(parse_lines(prefix2) == Err::<Seq<FsView>, int>(i as int));
                    lemma_parse_error_extends(lines.deep_view(), i + 1);
                }
                return Err(e);
            },
        }
        i = i + 1;
    }
    proof {
        assert(lines.deep_view().subrange(0, n as int) =~= lines.deep_view());
    }
    Ok(builder.into_sets())
}

/// Once a prefix of the listing fails to parse, the whole listing fails at
/// the same line.
proof fn lemma_parse_error_extends(lines: Seq<Seq<char>>, i: int)
    requires
        0 <= i <= lines.len(),
        parse_lines(lines.subrange(0, i)) is Err,
    ensures
        parse_lines(lines) == parse_lines(lines.subrange(0, i)),
    decreases lines.len() - i,
{
    if i == lines.len() {
        assert(lines.subrange(0, i) =~= lines);
    } else {
        let pre2 = lines.subrange(0, i + 1);
        assert(pre2.drop_last() =~= lines.subrange(0, i));
        lemma_parse_error_extends(lines, i + 1);
    }
}

/// The snapshot-name grammar: `<prefix><4 digits>-<timestamp>`, where the
/// timestamp is one or more digits or dashes.
pub open spec fn snap_matches(prefix: Seq<char>, s: Seq<char>) -> bool {
    &&& s.len() >= prefix.len() + 6
    &&& is_prefix(prefix, s)
    &&& all_digits(s.subrange(prefix.len() as int, prefix.len() as int + 4))
    &&& s[prefix.len() as int + 4] == '-'
    &&& forall|i: int| prefix.len() as int + 5 <= i < s.len() ==> (is_digit_char(s[i]) || s[i] == '-')
}

/// The numeric index encoded in a matching snapshot name.
pub open spec fn snap_index(prefix: Seq<char>, s: Seq<char>) -> nat {
    dec_value(s.subrange(prefix.len() as int, prefix.len() as int + 4))
}

/// Decode the snapshot number of `text` under `prefix`, or `None` when the
/// name does not match the grammar.
pub fn snap_number(prefix: &str, text: &str) -> (r: Option<usize>)
    ensures
        r is Some <==> snap_matches(prefix@, text@),
        r matches Some(v) ==> v == snap_index(prefix@, text@) && v <= 9999,
{
    let plen = prefix.unicode_len();
    let tlen = text.unicode_len();
    if tlen < plen || tlen - plen < 6 {
        return None;
    }
    if !has_prefix(text, prefix) {
        return None;
    }
    let ghost digits = text@.subrange(plen as int, plen + 4);
    let mut val: usize = 0;
    let mut k: usize = 0;
    while k < 4
        invariant
            plen == prefix@.len(),
            tlen == text@.len(),
            tlen >= plen + 6,
            k <= 4,
            digits == text@.subrange(plen as int, plen + 4),
            val == dec_value(digits.subrange(0, k as int)),
            val < 10000,
            forall|m: int| 0 <= m < k ==> is_digit_char(digits[m]),
            k < 4 ==> val < 1000,
            k < 3 ==> val < 100,
            k < 2 ==> val < 10,
            k < 1 ==> val == 0,
        decreases 4 - k,
    {
        let c = text.get_char(plen + k);
        let cu = c as u32;
        proof {
            assert(digits[k as int] == text@[plen + k]);
        }
        if cu < 48 || cu > 57 {
            proof {
                assert(!is_digit_char(digits[k as int]));
                assert(!all_digits(digits));
            }
            return None;
        }
        let d = (cu - 48) as usize;
        proof {
            assert(digits.subrange(0, k + 1).drop_last() =~= digits.subrange(0, k as int));
            assert(digits.subrange(0, k + 1).last() == digits[k as int]);
        }
        val = val * 10 + d;
        k = k + 1;
    }
    proof {
        assert(digits.subrange(0, 4) =~= digits);
    }
    if text.get_char(plen + 4) != '-' {
        return None;
    }
    let mut j: usize = plen + 5;
    while j < tlen
        invariant
            plen == prefix@.len(),
            tlen == text@.len(),
            plen + 5 <= j <= tlen,
            forall|m: int| plen + 5 <= m < j ==> (is_digit_char(text@[m]) || text@[m] == '-'),
        decreases tlen - j,
    {
        let c = text.get_char(j);
        let cu = c as u32;
        if (cu < 48 || cu > 57) && c != '-' {
            proof {
                assert(!(is_digit_char(text@[j as int]) || text@[j as int] == '-'));
            }
            return None;
        }
        j = j + 1;
    }
    Some(val)
}

/// `name` lies at or below `under` in the volume tree.
pub open spec fn under_tree(under: Seq<char>, name: Seq<char>) -> bool {
    name == under || (name.len() > under.len() && is_prefix(under, name) && name[under.len() as int]
        == '/')
}

/// Decide `under_tree` for real strings.
pub fn is_under(name: &str, under: &str) -> (b: bool)
    ensures
        b == under_tree(under@, name@),
{
    if eq_str(name, under) {
        return true;
    }
    if !has_prefix(name, under) {
        return false;
    }
    let ul = under.unicode_len();
    let nl = name.unicode_len();
    nl > ul && name.get_char(ul) == '/'
}

/// A point-in-time inventory of a volume tree: the snapshot-name prefix in
/// force, every filesystem found, and the remote host the listing came
/// from, if any.
pub struct Zfs {
    /// The snapshot prefix; distinct prefixes give independent snapshot
    /// families.
    pub prefix: String,
    /// The filesystems of the system, in listing order.
    pub filesystems: Vec<Filesystem>,
    /// The remote host this inventory describes, if not the local system.
    pub host: Option<String>,
}

/// The view of an optional string.
pub open spec fn opt_view(h: Option<String>) -> Option<Seq<char>> {
    match h {
        Some(s) => Some(s@),
        None => None,
    }
}

impl Zfs {
    /// The host the inventory belongs to.
    pub open spec fn host_view(&self) -> Option<Seq<char>> {
        opt_view(self.host)
    }

    /// Build an inventory from the lines of a listing, as `parse_listing`
    /// reads them.
    pub fn from_listing(host: Option<String>, prefix: &str, lines: &Vec<String>) -> (r: Result<
        Zfs,
        Error,
    >)
        ensures
            match r {
                Ok(z) => {
                    &&& parse_lines(lines.deep_view()) == Ok::<Seq<FsView>, int>(
                        z.filesystems.deep_view(),
                    )
                    &&& z.prefix@ == prefix@
                    &&& z.host_view() == opt_view(host)
                },
                Err(e) => {
                    &&& parse_lines(lines.deep_view()) is Err
                    &&& e.is_parse_failure_of(
                        lines.deep_view()[parse_lines(lines.deep_view())->Err_0],
                    )
                },
            },
    {
        let filesystems = parse_listing(lines)?;
        Ok(Zfs { prefix: prefix.to_owned(), filesystems, host })
    }

    /// Decode the snapshot number of `text` under this inventory's prefix.
    pub fn snap_number(&self, text: &str) -> (r: Option<usize>)
        ensures
            r is Some <==> snap_matches(self.prefix@, text@),
            r matches Some(v) ==> v == snap_index(self.prefix@, text@) && v <= 9999,
    {
        snap_number(self.prefix.as_str(), text)
    }

    /// The indices of the filesystems at or below `under`, in inventory
    /// order: every listed index lies under the subtree, they are strictly
    /// increasing, and no filesystem under the subtree is missed.
    pub fn filtered(&self, under: &str) -> (r: Vec<usize>)
        ensures
            forall|j: int| 0 <= j < r@.len() ==> r@[j] < self.filesystems@.len() && under_tree(
                under@,
                self.filesystems.deep_view()[r@[j] as int].name,
            ),
            forall|j1: int, j2: int| 0 <= j1 < j2 < r@.len() ==> r@[j1] < r@[j2],
            forall|i: int| 0 <= i < self.filesystems@.len() && under_tree(
                under@,
                self.filesystems.deep_view()[i].name,
            ) ==> exists|j: int| 0 <= j < r@.len() && r@[j] == i,
    {
        let n = self.filesystems.len();
        let mut r: Vec<usize> = Vec::new();
        let mut i: usize = 0;
        while i < n
            invariant
                n == self.filesystems@.len(),
                i <= n,
                forall|j: int| 0 <= j < r@.len() ==> r@[j] < i && under_tree(
                    under@,
                    self.filesystems.deep_view()[r@[j] as int].name,
                ),
                forall|j1: int, j2: int| 0 <= j1 < j2 < r@.len() ==> r@[j1] < r@[j2],
                forall|k: int| 0 <= k < i && under_tree(
                    under@,
                    self.filesystems.deep_view()[k].name,
                ) ==> exists|j: int| 0 <= j < r@.len() && r@[j] == k,
            decreases n - i,
        {
            let ghost r0 = r@;
            if is_under(self.filesystems[i].name.as_str(), under) {
                r.push(i);
                proof {
                    assert(r@ == r0.push(i));
                    assert(r@[r@.len() - 1] == i);
                }
            }
            proof {
                assert forall|k: int|
                    0 <= k < i + 1 && under_tree(
                        under@,
                        self.filesystems.deep_view()[k].name,
                    ) implies exists|j: int| 0 <= j < r@.len() && r@[j] == k by {
                    if k < i {
                        let j0 = choose|j0: int| 0 <= j0 < r0.len() && r0[j0] == k;
                        assert(r@[j0] == k);
                    } else {
                        assert(r@[r@.len() - 1] == k);
                    }
                }
            }
            i = i + 1;
        }
        r
    }

    /// The next snapshot number to use for the subtree at `under`: one more
    /// than the highest matching snapshot index found there, or 0 when none
    /// matches.
    pub fn next_under(&self, under: &str) -> (r: Result<usize, Error>)
        ensures
            r matches Ok(v) && v == next_in_tree(
                self.prefix@,
                self.filesystems.deep_view(),
                under@,
            ),
    {
        let n = self.filesystems.len();
        let mut next: usize = 0;
        let mut i: usize = 0;
        let ghost fss = self.filesystems.deep_view();
        proof {
            assert(fss.subrange(0, 0) =~= Seq::<FsView>::empty());
        }
        while i < n
            invariant
                n == self.filesystems@.len(),
                fss == self.filesystems.deep_view(),
                fss.len() == n,
                i <= n,
                next <= 10000,
                next == next_in_tree(self.prefix@, fss.subrange(0, i as int), under@),
            decreases n - i,
        {
            let ghost pre = fss.subrange(0, i as int);
            let ghost pre2 = fss.subrange(0, i + 1);
            proof {
                assert(pre2.drop_last() =~= pre);
                assert(pre2.last() == fss[i as int]);
            }
            if is_under(self.filesystems[i].name.as_str(), under) {
                let fs = &self.filesystems[i];
                let m = fs.snaps.len();
                let mut j: usize = 0;
                let ghost snaps = fs.snaps.deep_view();
                let mut local: usize = 0;
                proof {
                    assert(snaps.subrange(0, 0) =~= Seq::<Seq<char>>::empty());
                }
                while j < m
                    invariant
                        m == fs.snaps@.len(),
                        snaps == fs.snaps.deep_view(),
                        snaps.len() == m,
                        j <= m,
                        local <= 10000,
                        local == next_in_snaps(self.prefix@, snaps.subrange(0, j as int)),
                    decreases m - j,
                {
                    let ghost spre = snaps.subrange(0, j as int);
                    let ghost spre2 = snaps.subrange(0, j + 1);
                    proof {
                        assert(spre2.drop_last() =~= spre);
                        assert(spre2.last() == snaps[j as int]);
                    }
                    match snap_number(self.prefix.as_str(), fs.snaps[j].as_str()) {
                        Some(num) => {
                            if num + 1 > local {
                                local = num + 1;
                            }
                        },
                        None => {},
                    }
                    j = j + 1;
                }
                proof {
                    assert(snaps.subrange(0, m as int) =~= snaps);
                }
                if local > next {
                    next = local;
                }
            }
            i = i + 1;
        }
        proof {
            assert(fss.subrange(0, n as int) =~= fss);
        }
        Ok(next)
    }

    /// Format the name of snapshot `index` taken at the given wall-clock
    /// time: the prefix, the zero-padded index, a dash, and the packed
    /// timestamp.
    pub fn snap_name(&self, index: usize, year: u64, month: u64, day: u64, hour: u64, minute: u64)
        -> (r: String)
        ensures
            r@ == self.prefix@ + spec_padded_dec(index as nat, 4) + seq!['-'] + spec_padded_dec(
                year as nat,
                4,
            ) + spec_padded_dec(month as nat, 2) + spec_padded_dec(day as nat, 2) + spec_padded_dec(
                hour as nat,
                2,
            ) + spec_padded_dec(minute as nat, 2),
            (index <= 9999 && year <= 9999 && month <= 99 && day <= 99 && hour <= 99 && minute
                <= 99) ==> (snap_matches(self.prefix@, r@) && snap_index(self.prefix@, r@)
                == index),
    {
        let mut r = self.prefix.clone();
        r.append(padded_dec(index as u64, 4).as_str());
        r.append("-");
        r.append(padded_dec(year, 4).as_str());
        r.append(padded_dec(month, 2).as_str());
        r.append(padded_dec(day, 2).as_str());
        r.append(padded_dec(hour, 2).as_str());
        r.append(padded_dec(minute, 2).as_str());
        proof {
            reveal_strlit("-");
            assert("-"@ =~= seq!['-']);
            if index <= 9999 && year <= 9999 && month <= 99 && day <= 99 && hour <= 99 && minute
                <= 99 {
                lemma_snap_name_matches(
                    self.prefix@,
                    r@,
                    index as nat,
                    year as nat,
                    month as nat,
                    day as nat,
                    hour as nat,
                    minute as nat,
                );
            }
        }
        r
    }
}

/// A name formatted from an in-range index and timestamp is recognized by
/// the snapshot-name grammar and reads back as the same index.
proof fn lemma_snap_name_matches(
    prefix: Seq<char>,
    r: Seq<char>,
    index: nat,
    year: nat,
    month: nat,
    day: nat,
    hour: nat,
    minute: nat,
)
    requires
        index <= 9999,
        year <= 9999,
        month <= 99,
        day <= 99,
        hour <= 99,
        minute <= 99,
        r == prefix + spec_padded_dec(index, 4) + seq!['-'] + spec_padded_dec(year, 4)
            + spec_padded_dec(month, 2) + spec_padded_dec(day, 2) + spec_padded_dec(hour, 2)
            + spec_padded_dec(minute, 2),
    ensures
        snap_matches(prefix, r),
        snap_index(prefix, r) == index,
{
    assert(pow10(0) == 1);
    assert(pow10(1) == 10);
    assert(pow10(2) == 100);
    assert(pow10(3) == 1000);
    assert(pow10(4) == 10000);
    lemma_padded_props(index, 4);
    lemma_padded_props(year, 4);
    lemma_padded_props(month, 2);
    lemma_padded_props(day, 2);
    lemma_padded_props(hour, 2);
    lemma_padded_props(minute, 2);
    let p = prefix.len() as int;
    let body = spec_padded_dec(index, 4);
    let t1 = spec_padded_dec(year, 4) + spec_padded_dec(month, 2);
    let t2 = t1 + spec_padded_dec(day, 2);
    let t3 = t2 + spec_padded_dec(hour, 2);
    let ts = t3 + spec_padded_dec(minute, 2);
    lemma_all_digits_concat(spec_padded_dec(year, 4), spec_padded_dec(month, 2));
    lemma_all_digits_concat(t1, spec_padded_dec(day, 2));
    lemma_all_digits_concat(t2, spec_padded_dec(hour, 2));
    lemma_all_digits_concat(t3, spec_padded_dec(minute, 2));
    assert(r =~= prefix + body + seq!['-'] + ts);
    assert(r.len() == p + 17);
    assert(r.subrange(0, p) =~= prefix);
    assert(r.subrange(p, p + 4) =~= body);
    assert(r[p + 4] == '-');
    assert(r.subrange(p + 5, r.len() as int) =~= ts);
    assert forall|i: int| p + 5 <= i < r.len() implies is_digit_char(r[i]) || r[i] == '-' by {
        assert(r[i] == ts[i - (p + 5)]);
        assert(is_digit_char(ts[i - (p + 5)]));
    }
    assert(snap_matches(prefix, r));
    assert(snap_index(prefix, r) == dec_value(body));
}

/// The largest matching snapshot index plus one, over a snapshot list;
/// 0 when nothing matches.
pub open spec fn next_in_snaps(prefix: Seq<char>, snaps: Seq<Seq<char>>) -> nat
    decreases snaps.len(),
{
    if snaps.len() == 0 {
        0
    } else {
        let rest = next_in_snaps(prefix, snaps.drop_last());
        let cur: nat = if snap_matches(prefix, snaps.last()) {
            snap_index(prefix, snaps.last()) + 1
        } else {
            0
        };
        if cur > rest {
            cur
        } else {
            rest
        }
    }
}

/// The largest matching snapshot index plus one over every filesystem of
/// the subtree at `under`; 0 when nothing matches.
pub open spec fn next_in_tree(prefix: Seq<char>, fss: Seq<FsView>, under: Seq<char>) -> nat
    decreases fss.len(),
{
    if fss.len() == 0 {
        0
    } else {
        let rest = next_in_tree(prefix, fss.drop_last(), under);
        let cur: nat = if under_tree(under, fss.last().name) {
            next_in_snaps(prefix, fss.last().snaps)
        } else {
            0
        };
        if cur > rest {
            cur
        } else {
            rest
        }
    }
}

/// A line of the system mount table that mounts the volume `name` with
/// filesystem type `zfs`: space-separated fields, the device first, the
/// mountpoint second, the type third.
pub open spec fn mounts_volume(line: Seq<char>, name: Seq<char>) -> bool {
    let f = spec_split(line, ' ');
    f.len() >= 3 && f[2] == seq!['z', 'f', 's'] && f[0] == name
}

/// The mountpoint named by a mount-table line.
pub open spec fn mount_of(line: Seq<char>) -> Seq<char> {
    spec_split(line, ' ')[1]
}

/// Find where the volume `name` is mounted, given the lines of the system
/// mount table.  Returns the mountpoint of the first `zfs` entry for the
/// volume, or `NotMounted` when there is none.
pub fn find_mount_in(lines: &Vec<String>, name: &str) -> (r: Result<String, Error>)
    ensures
        match r {
            Ok(m) => exists|k: int|
                0 <= k < lines@.len() && mounts_volume(#[trigger] lines.deep_view()[k], name@)
                    && m@ == mount_of(lines.deep_view()[k]) && forall|j: int|
                    0 <= j < k ==> !mounts_volume(lines.deep_view()[j], name@),
            Err(e) => e == Error::NotMounted && forall|j: int|
                0 <= j < lines@.len() ==> !mounts_volume(#[trigger] lines.deep_view()[j], name@),
        },
{
    let n = lines.len();
    let mut i: usize = 0;
    while i < n
        invariant
            n == lines@.len(),
            i <= n,
            forall|j: int| 0 <= j < n ==> lines.deep_view()[j] == lines@[j]@,
            forall|j: int| 0 <= j < i ==> !mounts_volume(#[trigger] lines.deep_view()[j], name@),
        decreases n - i,
    {
        let fields = split_char(lines[i].as_str(), ' ');
        proof {
            reveal_strlit("zfs");
            assert("zfs"@ =~= seq!['z', 'f', 's']);
        }
        if fields.len() >= 3 && eq_str(fields[2].as_str(), "zfs") && eq_str(
            fields[0].as_str(),
            name,
        ) {
            proof {
                assert(fields.deep_view() == spec_split(lines.deep_view()[i as int], ' '));
                assert(fields.deep_view()[2] == fields@[2]@);
                assert(fields.deep_view()[0] == fields@[0]@);
                assert(fields.deep_view()[1] == fields@[1]@);
                assert(mounts_volume(lines.deep_view()[i as int], name@));
            }
            return Ok(fields[1].clone());
        }
        proof {
            assert(fields.deep_view() == spec_split(lines.deep_view()[i as int], ' '));
            assert(fields.deep_view().len() == fields@.len());
            if fields@.len() >= 3 {
                assert(fields.deep_view()[2] == fields@[2]@);
                assert(fields.deep_view()[0] == fields@[0]@);
            }
            assert(!mounts_volume(lines.deep_view()[i as int], name@));
        }
        i = i + 1;
    }
    Err(Error::NotMounted)
}

} // verus!
