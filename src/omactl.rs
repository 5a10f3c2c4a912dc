//! The privileged control program: building its command lines, reading the
//! unit name out of its output, and the busy state that keeps its runs from
//! overlapping.

use crate::text::{chars_of, opt_view, texts, trim, trim_bounds};
use vstd::prelude::*;

verus! {

/// The marker that introduces the unit name in the output of `run`.
pub open spec fn unit_marker() -> Seq<char> {
    seq!['u', 'n', 'i', 't', '=']
}

/// Position `i` of `s` begins a line that starts with the unit marker.
pub open spec fn marker_line_at(s: Seq<char>, i: int) -> bool {
    &&& 0 <= i
    &&& i + 5 <= s.len()
    &&& (i == 0 || s[i - 1] == '\n')
    &&& s.subrange(i, i + 5) == unit_marker()
}

/// `i` is the first line of `s` that starts with the unit marker.
pub open spec fn first_marker_line(s: Seq<char>, i: int) -> bool {
    &&& marker_line_at(s, i)
    &&& forall|k: int| 0 <= k < i ==> !#[trigger] marker_line_at(s, k)
}

/// The end of the line that holds position `p`: the next newline at or after
/// `p`, or the end of `s`.
pub open spec fn line_end(s: Seq<char>, p: int) -> int
    decreases s.len() - p,
{
    if p < 0 || p >= s.len() {
        s.len() as int
    } else if s[p] == '\n' {
        p
    } else {
        line_end(s, p + 1)
    }
}

/// The unit name that the output `s` of a successful `run` gives: the trimmed
/// rest of the first line that starts with `unit=`, unless that is empty;
/// otherwise the whole output, trimmed.
pub open spec fn unit_identifier(s: Seq<char>) -> Seq<char> {
    if exists|i: int| first_marker_line(s, i) {
        let i = choose|i: int| first_marker_line(s, i);
        let v = trim(s.subrange(i + 5, line_end(s, i + 5)));
        if v.len() > 0 {
            v
        } else {
            trim(s)
        }
    } else {
        trim(s)
    }
}

fn find_marker_line(cs: &Vec<char>) -> (r: Option<usize>)
    ensures
        match r {
            Some(i) => first_marker_line(cs@, i as int),
            None => forall|k: int| !#[trigger] marker_line_at(cs@, k),
        },
{
    let n = cs.len();
    let mut p: usize = 0;
    while p < n
        invariant
            n == cs@.len(),
            p <= n,
            forall|k: int| 0 <= k < p ==> !#[trigger] marker_line_at(cs@, k),
        decreases n - p,
    {
        if (p == 0 || cs[p - 1] == '\n') && n - p >= 5 && cs[p] == 'u' && cs[p + 1] == 'n' && cs[p
            + 2] == 'i' && cs[p + 3] == 't' && cs[p + 4] == '=' {
            assert(cs@.subrange(p as int, p + 5) =~= unit_marker());
            return Some(p);
        }
        assert(!marker_line_at(cs@, p as int)) by {
            if marker_line_at(cs@, p as int) {
                assert(cs@.subrange(p as int, p + 5)[0] == 'u');
                assert(cs@.subrange(p as int, p + 5)[1] == 'n');
                assert(cs@.subrange(p as int, p + 5)[2] == 'i');
                assert(cs@.subrange(p as int, p + 5)[3] == 't');
                assert(cs@.subrange(p as int, p + 5)[4] == '=');
            }
        }
        p = p + 1;
    }
    None
}

fn find_line_end(cs: &Vec<char>, p: usize) -> (e: usize)
    requires
        p <= cs@.len(),
    ensures
        p <= e <= cs@.len(),
        e == line_end(cs@, p as int),
{
    let n = cs.len();
    let mut q = p;
    while q < n
        invariant
            n == cs@.len(),
            p <= q <= n,
            line_end(cs@, p as int) == line_end(cs@, q as int),
        decreases n - q,
    {
        if cs[q] == '\n' {
            return q;
        }
        q = q + 1;
    }
    q
}

/// Reads the unit name out of the standard output of a successful `run`:
/// the value of the first `unit=` line, trimmed, or else the whole output,
/// trimmed.
pub fn extract_unit(stdout: &str) -> (r: String)
    ensures
        r@ == unit_identifier(stdout@),
{
    let cs = chars_of(stdout);
    let n = cs.len();
    assert(cs@.subrange(0, n as int) =~= cs@);
    if let Some(i) = find_marker_line(&cs) {
        let e = find_line_end(&cs, i + 5);
        let (a, b) = trim_bounds(&cs, i + 5, e);
        if a < b {
            assert(forall|j: int| first_marker_line(cs@, j) ==> j == i as int) by {
                assert forall|j: int| first_marker_line(cs@, j) implies j == i as int by {
                    if j < i {
                        assert(!marker_line_at(cs@, j));
                    } else if j > i {
                        assert(!marker_line_at(cs@, i as int));
                    }
                }
            }
            return String::from_str(stdout.substring_char(a, b));
        }
    }
    let (a, b) = trim_bounds(&cs, 0, n);
    String::from_str(stdout.substring_char(a, b))
}

/// `item` when `cond` holds, nothing otherwise.
pub open spec fn when(cond: bool, item: Seq<char>) -> Seq<Seq<char>> {
    if cond {
        seq![item]
    } else {
        Seq::empty()
    }
}

/// The command line of `run`: the switches that are asked for, the unit name
/// if one is given, a separator, then the package manager's arguments.
pub open spec fn run_command_line(
    args: Seq<Seq<char>>,
    wait: bool,
    follow: bool,
    unit: Option<Seq<char>>,
) -> Seq<Seq<char>> {
    seq!["run"@] + when(wait, "--wait"@) + when(follow, "--follow"@) + match unit {
        Some(u) => seq!["--unit="@ + u],
        None => Seq::empty(),
    } + seq!["--"@] + args
}

/// Appends copies of `items` to `out`.
fn push_all(out: &mut Vec<String>, items: &Vec<String>)
    ensures
        texts(final(out)@) == texts(old(out)@) + texts(items@),
{
    let ghost start = texts(out@);
    let mut i: usize = 0;
    while i < items.len()
        invariant
            i <= items@.len(),
            texts(out@) == start + texts(items@.subrange(0, i as int)),
        decreases items@.len() - i,
    {
        let ghost before = out@;
        let c = items[i].clone();
        out.push(c);
        assert(texts(out@) =~= texts(before).push(c@));
        assert(texts(items@.subrange(0, i + 1)) =~= texts(items@.subrange(0, i as int)).push(
            items@[i as int]@,
        ));
        assert(texts(out@) =~= start + texts(items@.subrange(0, i + 1)));
        i = i + 1;
    }
    assert(items@.subrange(0, i as int) =~= items@);
}

/// Builds the argument list of `run` for the control program.
pub fn run_args(args: &Vec<String>, wait: bool, follow: bool, unit: Option<&str>) -> (r: Vec<
    String,
>)
    ensures
        texts(r@) == run_command_line(texts(args@), wait, follow, opt_view(unit)),
{
    let mut r: Vec<String> = Vec::new();
    r.push(String::from_str("run"));
    if wait {
        r.push(String::from_str("--wait"));
    }
    if follow {
        r.push(String::from_str("--follow"));
    }
    if let Some(u) = unit {
        let mut flag = String::from_str("--unit=");
        flag.append(u);
        r.push(flag);
    }
    r.push(String::from_str("--"));
    let ghost head = texts(r@);
    push_all(&mut r, args);
    assert(head =~= seq!["run"@] + when(wait, "--wait"@) + when(follow, "--follow"@) + match opt_view(
        unit,
    ) {
        Some(u) => seq!["--unit="@ + u],
        None => Seq::empty(),
    } + seq!["--"@]);
    r
}

/// The `--yes` switch is passed unless the caller turns it off.
pub open spec fn spec_assume_yes(assume_yes: Option<bool>) -> bool {
    match assume_yes {
        Some(b) => b,
        None => true,
    }
}

/// The package manager's arguments for a full system upgrade.
pub open spec fn upgrade_command(assume_yes: Option<bool>) -> Seq<Seq<char>> {
    seq!["upgrade"@] + when(spec_assume_yes(assume_yes), "--yes"@) + seq!["--no-progress"@]
}

/// The package manager's arguments for installing `packages`.
pub open spec fn install_command(packages: Seq<Seq<char>>, assume_yes: Option<bool>) -> Seq<
    Seq<char>,
> {
    seq!["install"@] + when(spec_assume_yes(assume_yes), "--yes"@) + seq!["--no-progress"@]
        + packages
}

/// The package manager's arguments for removing `packages`; their
/// configuration goes too unless the caller keeps it.
pub open spec fn remove_command(
    packages: Seq<Seq<char>>,
    remove_config: Option<bool>,
    assume_yes: Option<bool>,
) -> Seq<Seq<char>> {
    seq!["remove"@] + when(spec_assume_yes(assume_yes), "--yes"@) + when(
        spec_assume_yes(remove_config),
        "--remove_config"@,
    ) + seq!["--no-progress"@] + packages
}

/// The message given when a package list that must not be empty is.
pub open spec fn empty_packages_message() -> Seq<char> {
    "packages is empty"@
}

fn assume_yes_flag(assume_yes: Option<bool>) -> (r: bool)
    ensures
        r == spec_assume_yes(assume_yes),
{
    match assume_yes {
        Some(b) => b,
        None => true,
    }
}

/// Arguments of the package manager for a full system upgrade.
pub fn upgrade_args(assume_yes: Option<bool>) -> (r: Vec<String>)
    ensures
        texts(r@) == upgrade_command(assume_yes),
{
    let mut r: Vec<String> = Vec::new();
    r.push(String::from_str("upgrade"));
    if assume_yes_flag(assume_yes) {
        r.push(String::from_str("--yes"));
    }
    r.push(String::from_str("--no-progress"));
    assert(texts(r@) =~= upgrade_command(assume_yes));
    r
}

/// Arguments of the package manager for installing `packages`, which must
/// name at least one package.
pub fn install_args(packages: &Vec<String>, assume_yes: Option<bool>) -> (r: Result<
    Vec<String>,
    String,
>)
    ensures
        match r {
            Ok(v) => packages@.len() > 0 && texts(v@) == install_command(
                texts(packages@),
                assume_yes,
            ),
            Err(e) => packages@.len() == 0 && e@ == empty_packages_message(),
        },
{
    if packages.len() == 0 {
        return Err(String::from_str("packages is empty"));
    }
    let mut r: Vec<String> = Vec::new();
    r.push(String::from_str("install"));
    if assume_yes_flag(assume_yes) {
        r.push(String::from_str("--yes"));
    }
    r.push(String::from_str("--no-progress"));
    let ghost head = texts(r@);
    push_all(&mut r, packages);
    assert(head =~= seq!["install"@] + when(spec_assume_yes(assume_yes), "--yes"@) + seq![
        "--no-progress"@,
    ]);
    Ok(r)
}

/// Arguments of the package manager for removing `packages`, which must name
/// at least one package.
pub fn remove_args(
    packages: &Vec<String>,
    remove_config: Option<bool>,
    assume_yes: Option<bool>,
) -> (r: Result<Vec<String>, String>)
    ensures
        match r {
            Ok(v) => packages@.len() > 0 && texts(v@) == remove_command(
                texts(packages@),
                remove_config,
                assume_yes,
            ),
            Err(e) => packages@.len() == 0 && e@ == empty_packages_message(),
        },
{
    if packages.len() == 0 {
        return Err(String::from_str("packages is empty"));
    }
    let mut r: Vec<String> = Vec::new();
    r.push(String::from_str("remove"));
    if assume_yes_flag(assume_yes) {
        r.push(String::from_str("--yes"));
    }
    if assume_yes_flag(remove_config) {
        r.push(String::from_str("--remove_config"));
    }
    r.push(String::from_str("--no-progress"));
    let ghost head = texts(r@);
    push_all(&mut r, packages);
    assert(head =~= seq!["remove"@] + when(spec_assume_yes(assume_yes), "--yes"@) + when(
        spec_assume_yes(remove_config),
        "--remove_config"@,
    ) + seq!["--no-progress"@]);
    Ok(r)
}

/// The out-of-band requests that the control program answers about a unit.
#[derive(Clone, Copy, Debug, PartialEq, Eq, Structural)]
pub enum UnitQuery {
    Status,
    Logs,
    Result,
    Cancel,
}

/// The subcommand of each request.
pub open spec fn query_verb(q: UnitQuery) -> Seq<char> {
    match q {
        UnitQuery::Status => "status"@,
        UnitQuery::Logs => "logs"@,
        UnitQuery::Result => "result"@,
        UnitQuery::Cancel => "cancel"@,
    }
}

/// Arguments of the control program for request `q` about `unit`.
pub fn query_args(q: UnitQuery, unit: &str) -> (r: Vec<String>)
    ensures
        texts(r@) == seq![query_verb(q), unit@],
{
    let verb = match q {
        UnitQuery::Status => String::from_str("status"),
        UnitQuery::Logs => String::from_str("logs"),
        UnitQuery::Result => String::from_str("result"),
        UnitQuery::Cancel => String::from_str("cancel"),
    };
    let mut r: Vec<String> = Vec::new();
    r.push(verb);
    r.push(String::from_str(unit));
    assert(texts(r@) =~= seq![query_verb(q), unit@]);
    r
}

/// Arguments of the control program for listing its units.
pub fn list_units_args() -> (r: Vec<String>)
    ensures
        texts(r@) == seq!["list"@],
{
    let mut r: Vec<String> = Vec::new();
    r.push(String::from_str("list"));
    assert(texts(r@) =~= seq!["list"@]);
    r
}

/// The text that `String::from_utf8_lossy` makes of some bytes: each
/// invalid sequence becomes U+FFFD.
pub uninterp spec fn lossy_text(b: Seq<u8>) -> Seq<char>;

/// Relies on `String::from_utf8_lossy`: the text depends on the bytes alone,
/// and no bytes give an empty text.
#[verifier::external_body]
fn decode_lossy(b: &[u8]) -> (r: String)
    ensures
        r@ == lossy_text(b@),
        b@.len() == 0 ==> r@.len() == 0,
{
    String::from_utf8_lossy(b).into_owned()
}

/// A run of the control program that exited unsuccessfully, with what it
/// printed, for diagnostics.
#[derive(Debug)]
pub struct CommandFailure {
    pub code: Option<i32>,
    pub stdout: String,
    pub stderr: String,
}

/// The result of a finished command: its standard output when it exited
/// successfully, else a failure that carries its exit code and both outputs.
pub fn command_outcome(success: bool, code: Option<i32>, stdout: &[u8], stderr: &[u8]) -> (r:
    Result<String, CommandFailure>)
    ensures
        match r {
            Ok(out) => success && out@ == lossy_text(stdout@),
            Err(f) => !success && f.code == code && f.stdout@ == lossy_text(stdout@) && f.stderr@
                == lossy_text(stderr@),
        },
{
    if success {
        Ok(decode_lossy(stdout))
    } else {
        Err(CommandFailure { code, stdout: decode_lossy(stdout), stderr: decode_lossy(stderr) })
    }
}

/// The error of a privileged run refused because another one holds the
/// control program.
#[derive(Debug)]
pub struct OmaBusyError(String);

/// The part of the busy message that names the unit, if one was asked for.
pub open spec fn busy_detail(unit: Option<Seq<char>>) -> Seq<char> {
    match unit {
        Some(u) => " (unit="@ + u + ")"@,
        None => Seq::empty(),
    }
}

impl OmaBusyError {
    /// What the error says after its fixed words.
    pub closed spec fn detail(&self) -> Seq<char> {
        self.0@
    }

    /// The error for a run that asked for `unit`.
    pub fn new(unit: Option<&str>) -> (r: Self)
        ensures
            r.detail() == busy_detail(opt_view(unit)),
    {
        match unit {
            Some(u) => {
                let mut s = String::from_str(" (unit=");
                s.append(u);
                s.append(")");
                OmaBusyError(s)
            },
            None => OmaBusyError(String::new()),
        }
    }

    /// The error's message.
    pub fn message(&self) -> (r: String)
        ensures
            r@ == "oma is busy "@ + self.detail(),
    {
        let mut s = String::from_str("oma is busy ");
        s.append(self.0.as_str());
        s
    }
}

/// Whether a privileged run is in flight. One value of it serves the whole
/// process, under a lock of its holder.
#[derive(Debug)]
pub struct BusyState {
    busy: bool,
}

impl View for BusyState {
    type V = bool;

    closed spec fn view(&self) -> bool {
        self.busy
    }
}

impl BusyState {
    /// The state with no run in flight.
    pub fn new() -> (r: Self)
        ensures
            !r@,
    {
        BusyState { busy: false }
    }

    /// Marks a run of `unit` as in flight, unless one already is: then the
    /// state stays as it was and the busy error comes back.
    pub fn try_acquire(&mut self, unit: Option<&str>) -> (r: Result<(), OmaBusyError>)
        ensures
            final(self)@ == gate_step(old(self)@, GateOp::Acquire),
            r is Ok <==> !old(self)@,
            match r {
                Ok(_) => true,
                Err(e) => e.detail() == busy_detail(opt_view(unit)),
            },
    {
        if self.busy {
            Err(OmaBusyError::new(unit))
        } else {
            self.busy = true;
            Ok(())
        }
    }

    /// Marks the run in flight as done.
    pub fn release(&mut self)
        ensures
            final(self)@ == gate_step(old(self)@, GateOp::Release),
    {
        self.busy = false;
    }
}

/// Reads the busy state, without waiting for anything.
pub fn is_busy(state: &BusyState) -> (r: bool)
    ensures
        r == state@,
{
    state.busy
}

/// The two operations on the busy state.
#[derive(Clone, Copy, Debug, PartialEq, Eq, Structural)]
pub enum GateOp {
    Acquire,
    Release,
}

/// The busy state after one operation: an acquisition leaves it busy,
/// whether or not it was granted, and a release leaves it idle.
pub open spec fn gate_step(busy: bool, op: GateOp) -> bool {
    match op {
        GateOp::Acquire => true,
        GateOp::Release => false,
    }
}

/// The busy state after `ops`, starting from `start`.
pub open spec fn busy_after(start: bool, ops: Seq<GateOp>) -> bool
    decreases ops.len(),
{
    if ops.len() == 0 {
        start
    } else {
        gate_step(busy_after(start, ops.drop_last()), ops.last())
    }
}

/// The `k`-th operation of `ops` is an acquisition that was granted.
pub open spec fn granted(start: bool, ops: Seq<GateOp>, k: int) -> bool {
    &&& 0 <= k < ops.len()
    &&& ops[k] == GateOp::Acquire
    &&& !busy_after(start, ops.subrange(0, k))
}

proof fn lemma_busy_after_last(start: bool, ops: Seq<GateOp>, k: int)
    requires
        0 < k <= ops.len(),
    ensures
        busy_after(start, ops.subrange(0, k)) == (ops[k - 1] == GateOp::Acquire),
{
    assert(ops.subrange(0, k).drop_last() =~= ops.subrange(0, k - 1));
}

/// Two granted runs never overlap: between any two granted acquisitions
/// there is a release.
pub proof fn lemma_runs_never_overlap(start: bool, ops: Seq<GateOp>, i: int, j: int)
    requires
        i < j,
        granted(start, ops, i),
        granted(start, ops, j),
    ensures
        exists|k: int| i < k < j && ops[k] == GateOp::Release,
{
    lemma_busy_after_last(start, ops, j);
    assert(ops[j - 1] == GateOp::Release);
}

/// From a granted acquisition until the next release, the state reads busy.
pub proof fn lemma_busy_while_running(start: bool, ops: Seq<GateOp>, i: int, k: int)
    requires
        granted(start, ops, i),
        i <= k < ops.len(),
        forall|m: int| i < m <= k ==> ops[m] != GateOp::Release,
    ensures
        busy_after(start, ops.subrange(0, k + 1)),
{
    lemma_busy_after_last(start, ops, k + 1);
    if k > i {
        assert(ops[k] != GateOp::Release);
    }
}

} // verus!
