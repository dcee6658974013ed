//! Daemon records: how they are found in a process snapshot, where their
//! sockets live, how they are listed, and how kill requests end.
use vstd::prelude::*;
use vstd::string::*;
use crate::text::{
    contains_seq, starts_with_seq, decimal, pad_left, pad_right, contains_str, starts_with_str,
    to_decimal, padded_left, padded_right, is_digit, lemma_decimal_digits, lemma_pad_left_shape,
    lemma_pad_right_shape,
};
use crate::path::{join_path, join};
use crate::extract::{
    socket_name_of, extract_socket_name, lemma_socket_name_is_plain, daemon_option, is_plain_name,
    lemma_extract_direct,
};

verus! {

/// Where sockets live and which socket name is used when none is given.
pub struct Config {
    pub tmp_dir: String,
    pub default_socket: String,
}

pub struct ConfigView {
    pub tmp_dir: Seq<char>,
    pub default_socket: Seq<char>,
}

impl View for Config {
    type V = ConfigView;

    open spec fn view(&self) -> ConfigView {
        ConfigView { tmp_dir: self.tmp_dir@, default_socket: self.default_socket@ }
    }
}

impl ConfigView {
    /// The default socket name is not empty.
    pub open spec fn wf(self) -> bool {
        self.default_socket.len() > 0
    }
}

/// One entry of a process snapshot: pid, executable name, argument vector
/// (program first) and owning user, where the system disclosed it.
pub struct ProcessInfo {
    pub pid: u32,
    pub name: String,
    pub cmd: Vec<String>,
    pub user_id: Option<u32>,
}

pub struct ProcessView {
    pub pid: u32,
    pub name: Seq<char>,
    pub cmd: Seq<Seq<char>>,
    pub user_id: Option<u32>,
}

impl View for ProcessInfo {
    type V = ProcessView;

    open spec fn view(&self) -> ProcessView {
        ProcessView {
            pid: self.pid,
            name: self.name@,
            cmd: self.cmd@.map_values(|a: String| a@),
            user_id: self.user_id,
        }
    }
}

/// The views of a snapshot's entries, in order.
pub open spec fn snapshot_view(ps: Seq<ProcessInfo>) -> Seq<ProcessView> {
    ps.map_values(|p: ProcessInfo| p@)
}

/// A running editor daemon: its pid, its owner where known, and the name of
/// the socket it listens on.
#[derive(Clone, Debug, PartialEq, Eq)]
pub struct DaemonProcess {
    pub pid: u32,
    pub user_id: Option<u32>,
    pub socket_name: String,
}

pub struct DaemonView {
    pub pid: u32,
    pub user_id: Option<u32>,
    pub socket_name: Seq<char>,
}

impl View for DaemonProcess {
    type V = DaemonView;

    open spec fn view(&self) -> DaemonView {
        DaemonView { pid: self.pid, user_id: self.user_id, socket_name: self.socket_name@ }
    }
}

impl DaemonView {
    /// The socket name is a single non-empty path component.
    pub open spec fn well_formed(self) -> bool {
        self.socket_name.len() > 0 && !self.socket_name.contains('/')
    }
}

/// The views of a list of records, in order.
pub open spec fn daemons_view(ds: Seq<DaemonProcess>) -> Seq<DaemonView> {
    ds.map_values(|d: DaemonProcess| d@)
}

pub open spec fn option_view(r: Option<DaemonProcess>) -> Option<DaemonView> {
    match r {
        Some(d) => Some(d@),
        None => None,
    }
}

/// What the system's lowercase mapping makes of a name.
pub uninterp spec fn lower_of(s: Seq<char>) -> Seq<char>;

/// Relies on `str::to_lowercase`: its result depends on the characters alone.
#[verifier::external_body]
fn lowercase(s: &str) -> (r: String)
    ensures
        r@ == lower_of(s@),
{
    s.to_lowercase()
}

/// A process may be a daemon: its lowercased name begins with `emacs` and
/// its second argument holds `daemon`.
pub open spec fn is_candidate(lowered_name: Seq<char>, cmd: Seq<Seq<char>>) -> bool {
    &&& starts_with_seq(lowered_name, "emacs"@)
    &&& cmd.len() >= 2
    &&& contains_seq(cmd[1], "daemon"@)
}

/// The record for a process, read from its second argument alone.
pub open spec fn record_from(p: ProcessView) -> Option<DaemonView> {
    if p.cmd.len() >= 2 {
        match socket_name_of(p.cmd[1]) {
            Some(n) => Some(DaemonView { pid: p.pid, user_id: p.user_id, socket_name: n }),
            None => None,
        }
    } else {
        None
    }
}

/// The record for a process whose name lowercases to `lowered_name`.
pub open spec fn record_of(p: ProcessView, lowered_name: Seq<char>) -> Option<DaemonView> {
    if is_candidate(lowered_name, p.cmd) {
        record_from(p)
    } else {
        None
    }
}

/// The records that discovery yields for a snapshot, in snapshot order.
pub open spec fn discovered(ps: Seq<ProcessView>) -> Seq<DaemonView>
    decreases ps.len(),
{
    if ps.len() == 0 {
        Seq::empty()
    } else {
        let rest = discovered(ps.drop_last());
        match record_of(ps.last(), lower_of(ps.last().name)) {
            Some(d) => rest.push(d),
            None => rest,
        }
    }
}

/// Whether a process with lowercased name `lowered_name` and arguments
/// `cmd` may be a daemon.
pub fn is_daemon_candidate(lowered_name: &str, cmd: &Vec<String>) -> (r: bool)
    ensures
        r == is_candidate(lowered_name@, cmd@.map_values(|a: String| a@)),
{
    if !starts_with_str(lowered_name, "emacs") {
        return false;
    }
    if cmd.len() < 2 {
        return false;
    }
    contains_str(cmd[1].as_str(), "daemon")
}

impl DaemonProcess {
    /// The record for a process, with the socket name taken from its second
    /// argument; `None` where that argument is missing or names no socket.
    pub fn from_sys_process(p: &ProcessInfo) -> (r: Option<DaemonProcess>)
        ensures
            option_view(r) == record_from(p@),
    {
        if p.cmd.len() < 2 {
            return None;
        }
        match extract_socket_name(p.cmd[1].as_str()) {
            Some(n) => Some(DaemonProcess { pid: p.pid, user_id: p.user_id, socket_name: n }),
            None => None,
        }
    }
}

/// The daemons of a snapshot, in snapshot order.
pub fn discover(procs: &Vec<ProcessInfo>) -> (r: Vec<DaemonProcess>)
    ensures
        daemons_view(r@) == discovered(snapshot_view(procs@)),
        forall|k: int| 0 <= k < r@.len() ==> (#[trigger] r@[k])@.well_formed(),
{
    let ghost ps = snapshot_view(procs@);
    let mut r: Vec<DaemonProcess> = Vec::new();
    let mut i: usize = 0;
    assert(daemons_view(r@) =~= discovered(ps.subrange(0, 0)));
    while i < procs.len()
        invariant
            i <= procs.len(),
            ps == snapshot_view(procs@),
            daemons_view(r@) == discovered(ps.subrange(0, i as int)),
        decreases procs.len() - i,
    {
        let p = &procs[i];
        let ghost q = ps.subrange(0, i + 1);
        assert(q.drop_last() =~= ps.subrange(0, i as int));
        assert(q.last() == p@);
        let lowered = lowercase(p.name.as_str());
        if is_daemon_candidate(lowered.as_str(), &p.cmd) {
            match DaemonProcess::from_sys_process(p) {
                Some(d) => {
                    let ghost before = r@;
                    r.push(d);
                    assert(daemons_view(r@) =~= daemons_view(before).push(d@));
                },
                None => {},
            }
        }
        i += 1;
    }
    assert(ps.subrange(0, procs.len() as int) =~= ps);
    proof {
        lemma_discovered_well_formed(ps);
        assert forall|k: int| 0 <= k < r@.len() implies (#[trigger] r@[k])@.well_formed() by {
            assert(daemons_view(r@)[k] == r@[k]@);
        }
    }
    r
}

/// Every record that discovery yields has a non-empty socket name that
/// holds no `/`.
pub proof fn lemma_discovered_well_formed(ps: Seq<ProcessView>)
    ensures
        forall|k: int| 0 <= k < discovered(ps).len() ==> (#[trigger] discovered(ps)[k]).well_formed(),
    decreases ps.len(),
{
    if ps.len() > 0 {
        let rest = discovered(ps.drop_last());
        lemma_discovered_well_formed(ps.drop_last());
        let p = ps.last();
        if p.cmd.len() >= 2 {
            lemma_socket_name_is_plain(p.cmd[1]);
        }
        assert forall|k: int| 0 <= k < discovered(ps).len() implies (#[trigger] discovered(
            ps,
        )[k]).well_formed() by {
            if k < rest.len() {
                assert(discovered(ps)[k] == rest[k]);
            }
        }
    }
}

/// Discovery yields nothing for a process whose lowercased name does not
/// begin with `emacs`, or whose second argument is missing or lacks
/// `daemon`: taking it out of the snapshot leaves the records unchanged.
pub proof fn lemma_non_candidate_yields_nothing(ps: Seq<ProcessView>, i: int)
    requires
        0 <= i < ps.len(),
        !is_candidate(lower_of(ps[i].name), ps[i].cmd),
    ensures
        discovered(ps) == discovered(ps.remove(i)),
    decreases ps.len(),
{
    if i == ps.len() - 1 {
        assert(ps.remove(i) =~= ps.drop_last());
    } else {
        let t = ps.remove(i);
        assert(t.drop_last() =~= ps.drop_last().remove(i));
        assert(t.last() == ps.last());
        lemma_non_candidate_yields_nothing(ps.drop_last(), i);
    }
}

/// Why an operation on a daemon failed.
#[derive(Clone, Debug, PartialEq, Eq)]
pub enum DaemonError {
    /// No daemon listens on a socket of this name.
    NoMatch(String),
    /// The termination signal is not defined on this system, so it could
    /// not be sent to this daemon and pid.
    SignalUnsupported(String, u32),
    /// The system refused to deliver the signal to this daemon and pid.
    SignalRefused(String, u32),
    /// The daemon's process was gone when the signal was to be sent.
    PidGone(String, u32),
    /// The system did not disclose the owner of this daemon.
    NoUserId(String),
    /// No socket file exists at this path.
    SocketMissing(String),
}

pub enum ErrorView {
    NoMatch(Seq<char>),
    SignalUnsupported(Seq<char>, u32),
    SignalRefused(Seq<char>, u32),
    PidGone(Seq<char>, u32),
    NoUserId(Seq<char>),
    SocketMissing(Seq<char>),
}

impl View for DaemonError {
    type V = ErrorView;

    open spec fn view(&self) -> ErrorView {
        match self {
            DaemonError::NoMatch(n) => ErrorView::NoMatch(n@),
            DaemonError::SignalUnsupported(n, p) => ErrorView::SignalUnsupported(n@, *p),
            DaemonError::SignalRefused(n, p) => ErrorView::SignalRefused(n@, *p),
            DaemonError::PidGone(n, p) => ErrorView::PidGone(n@, *p),
            DaemonError::NoUserId(n) => ErrorView::NoUserId(n@),
            DaemonError::SocketMissing(p) => ErrorView::SocketMissing(p@),
        }
    }
}

pub open spec fn path_result_view(r: Result<String, DaemonError>) -> Result<Seq<char>, ErrorView> {
    match r {
        Ok(p) => Ok(p@),
        Err(e) => Err(e@),
    }
}

pub open spec fn pid_result_view(r: Result<u32, DaemonError>) -> Result<u32, ErrorView> {
    match r {
        Ok(p) => Ok(p),
        Err(e) => Err(e@),
    }
}

/// `tmp_dir / ("emacs" + decimal(uid)) / name`.
pub open spec fn socket_path_of(tmp_dir: Seq<char>, uid: u32, name: Seq<char>) -> Seq<char> {
    join_path(join_path(tmp_dir, "emacs"@ + decimal(uid as nat)), name)
}

/// The socket file of a daemon with owner `user_id` and socket `name`,
/// where `exists` tells whether a file stands at its path.
pub open spec fn socket_file_of(
    tmp_dir: Seq<char>,
    user_id: Option<u32>,
    name: Seq<char>,
    exists: bool,
) -> Result<Seq<char>, ErrorView> {
    match user_id {
        None => Err(ErrorView::NoUserId(name)),
        Some(uid) => {
            let path = socket_path_of(tmp_dir, uid, name);
            if exists {
                Ok(path)
            } else {
                Err(ErrorView::SocketMissing(path))
            }
        },
    }
}

/// What the socket column of a listing line shows.
pub open spec fn socket_column(
    tmp_dir: Seq<char>,
    user_id: Option<u32>,
    name: Seq<char>,
    exists: bool,
) -> Seq<char> {
    match socket_file_of(tmp_dir, user_id, name, exists) {
        Ok(path) => path,
        Err(ErrorView::SocketMissing(path)) => path + " (missing)"@,
        Err(_) => "unknown"@,
    }
}

/// The listing line of a daemon.
pub open spec fn listing_line(d: DaemonView, tmp_dir: Seq<char>, exists: bool) -> Seq<char> {
    pad_right(d.socket_name, 14) + " [Pid: "@ + pad_left(decimal(d.pid as nat), 8) + ", Socket: "@
        + pad_right(socket_column(tmp_dir, d.user_id, d.socket_name, exists), 30) + " ]"@
}

/// What a signal sent to a daemon's pid came to.
#[derive(Clone, Copy, Debug, PartialEq, Eq, Structural)]
pub enum SignalOutcome {
    Delivered,
    Refused,
    Unsupported,
    NoSuchProcess,
}

/// The result of a kill request once the signal's outcome is known.
pub open spec fn kill_result_of(d: DaemonView, outcome: SignalOutcome) -> Result<u32, ErrorView> {
    match outcome {
        SignalOutcome::Delivered => Ok(d.pid),
        SignalOutcome::Refused => Err(ErrorView::SignalRefused(d.socket_name, d.pid)),
        SignalOutcome::Unsupported => Err(ErrorView::SignalUnsupported(d.socket_name, d.pid)),
        SignalOutcome::NoSuchProcess => Err(ErrorView::PidGone(d.socket_name, d.pid)),
    }
}

impl DaemonProcess {
    /// The path of the daemon's socket file; `None` where its owner is
    /// unknown.
    pub fn socket_path(&self, config: &Config) -> (r: Option<String>)
        ensures
            match self.user_id {
                Some(uid) => r matches Some(p) && p@ == socket_path_of(
                    config.tmp_dir@,
                    uid,
                    self.socket_name@,
                ),
                None => r is None,
            },
    {
        match self.user_id {
            None => None,
            Some(uid) => {
                let mut dir = "emacs".to_owned();
                let digits = to_decimal(uid);
                dir.append(digits.as_str());
                let base = join(config.tmp_dir.as_str(), dir.as_str());
                Some(join(base.as_str(), self.socket_name.as_str()))
            },
        }
    }

    /// The daemon's socket file, given whether a file stands at its path.
    pub fn socket_file(&self, config: &Config, exists: bool) -> (r: Result<String, DaemonError>)
        ensures
            path_result_view(r) == socket_file_of(
                config.tmp_dir@,
                self.user_id,
                self.socket_name@,
                exists,
            ),
    {
        match self.socket_path(config) {
            None => Err(DaemonError::NoUserId(self.socket_name.clone())),
            Some(path) => {
                if exists {
                    Ok(path)
                } else {
                    Err(DaemonError::SocketMissing(path))
                }
            },
        }
    }

    /// The daemon's listing line: socket name, pid and socket file, given
    /// whether a file stands at the socket's path.
    pub fn show(&self, config: &Config, exists: bool) -> (r: String)
        ensures
            r@ == listing_line(self@, config.tmp_dir@, exists),
    {
        let mut r = padded_right(self.socket_name.as_str(), 14);
        r.append(" [Pid: ");
        let pid = to_decimal(self.pid);
        let pid_column = padded_left(pid.as_str(), 8);
        r.append(pid_column.as_str());
        r.append(", Socket: ");
        let column = match self.socket_file(config, exists) {
            Ok(path) => path,
            Err(DaemonError::SocketMissing(path)) => {
                let mut text = path;
                text.append(" (missing)");
                text
            },
            Err(_) => "unknown".to_owned(),
        };
        let socket_column = padded_right(column.as_str(), 30);
        r.append(socket_column.as_str());
        r.append(" ]");
        r
    }

    /// The result of a kill request on this daemon, given what the signal
    /// came to.
    pub fn kill_outcome(&self, outcome: SignalOutcome) -> (r: Result<u32, DaemonError>)
        ensures
            pid_result_view(r) == kill_result_of(self@, outcome),
    {
        match outcome {
            SignalOutcome::Delivered => Ok(self.pid),
            SignalOutcome::Refused => Err(DaemonError::SignalRefused(self.socket_name.clone(), self.pid)),
            SignalOutcome::Unsupported => Err(
                DaemonError::SignalUnsupported(self.socket_name.clone(), self.pid),
            ),
            SignalOutcome::NoSuchProcess => Err(DaemonError::PidGone(self.socket_name.clone(), self.pid)),
        }
    }
}

/// The position of the first record whose socket name is `name`.
pub fn select_daemon(daemons: &Vec<DaemonProcess>, name: &str) -> (r: Option<usize>)
    ensures
        match r {
            Some(i) => {
                &&& i < daemons@.len()
                &&& daemons@[i as int].socket_name@ == name@
                &&& forall|j: int| 0 <= j < i ==> daemons@[j].socket_name@ != name@
            },
            None => forall|j: int| 0 <= j < daemons@.len() ==> daemons@[j].socket_name@ != name@,
        },
{
    let wanted = name.to_owned();
    let mut i: usize = 0;
    while i < daemons.len()
        invariant
            i <= daemons@.len(),
            wanted@ == name@,
            forall|j: int| 0 <= j < i ==> daemons@[j].socket_name@ != name@,
        decreases daemons.len() - i,
    {
        if daemons[i].socket_name == wanted {
            return Some(i);
        }
        i += 1;
    }
    None
}

/// The socket names of the records, in order.
pub fn daemon_names(daemons: &Vec<DaemonProcess>) -> (r: Vec<String>)
    ensures
        r@.len() == daemons@.len(),
        forall|k: int| 0 <= k < r@.len() ==> (#[trigger] r@[k])@ == daemons@[k].socket_name@,
{
    let mut r: Vec<String> = Vec::new();
    let mut i: usize = 0;
    while i < daemons.len()
        invariant
            i <= daemons@.len(),
            r@.len() == i,
            forall|k: int| 0 <= k < i ==> (#[trigger] r@[k])@ == daemons@[k].socket_name@,
        decreases daemons.len() - i,
    {
        r.push(daemons[i].socket_name.clone());
        i += 1;
    }
    r
}

/// The argument that starts a daemon on socket `name`, or on the default
/// socket when no name is given.
pub fn daemon_argument(name: Option<&str>, config: &Config) -> (r: String)
    requires
        name is None ==> config@.wf(),
    ensures
        r@ == "--daemon="@ + match name {
            Some(n) => n@,
            None => config.default_socket@,
        },
{
    let mut r = "--daemon=".to_owned();
    match name {
        Some(n) => r.append(n),
        None => r.append(config.default_socket.as_str()),
    }
    r
}

/// Socket-file resolution reads the temporary directory, the owner, the
/// socket name and whether the file exists, and nothing else: records and
/// configurations that agree on these resolve alike.
pub proof fn lemma_socket_file_reads_only_its_parts(
    d1: DaemonView,
    c1: ConfigView,
    d2: DaemonView,
    c2: ConfigView,
    exists: bool,
)
    requires
        c1.tmp_dir == c2.tmp_dir,
        d1.user_id == d2.user_id,
        d1.socket_name == d2.socket_name,
    ensures
        socket_file_of(c1.tmp_dir, d1.user_id, d1.socket_name, exists) == socket_file_of(
            c2.tmp_dir,
            d2.user_id,
            d2.socket_name,
            exists,
        ),
        socket_column(c1.tmp_dir, d1.user_id, d1.socket_name, exists) == socket_column(
            c2.tmp_dir,
            d2.user_id,
            d2.socket_name,
            exists,
        ),
{
}

/// A listing line is the socket name padded with spaces to at least 14
/// characters, ` [Pid: `, the pid in decimal digits right-aligned in at
/// least 8 characters, `, Socket: `, the socket column padded to at least
/// 30 characters, and ` ]`.
pub proof fn lemma_listing_line_shape(d: DaemonView, tmp_dir: Seq<char>, exists: bool)
    ensures
        ({
            let name_column = pad_right(d.socket_name, 14);
            let digits = decimal(d.pid as nat);
            let pid_column = pad_left(digits, 8);
            let column = socket_column(tmp_dir, d.user_id, d.socket_name, exists);
            let socket_column = pad_right(column, 30);
            &&& listing_line(d, tmp_dir, exists) == name_column + " [Pid: "@ + pid_column
                + ", Socket: "@ + socket_column + " ]"@
            &&& name_column.len() >= 14
            &&& name_column.subrange(0, d.socket_name.len() as int) == d.socket_name
            &&& forall|j: int| d.socket_name.len() <= j < name_column.len() ==> #[trigger] name_column[j] == ' '
            &&& pid_column.len() >= 8
            &&& digits.len() > 0
            &&& forall|j: int| 0 <= j < digits.len() ==> is_digit(#[trigger] digits[j])
            &&& pid_column.subrange(pid_column.len() - digits.len(), pid_column.len() as int) == digits
            &&& forall|j: int| 0 <= j < pid_column.len() - digits.len() ==> #[trigger] pid_column[j] == ' '
            &&& socket_column.len() >= 30
            &&& socket_column.subrange(0, column.len() as int) == column
        }),
{
    let column = socket_column(tmp_dir, d.user_id, d.socket_name, exists);
    lemma_pad_right_shape(d.socket_name, 14);
    lemma_pad_left_shape(decimal(d.pid as nat), 8);
    lemma_pad_right_shape(column, 30);
    lemma_decimal_digits(d.pid as nat);
}

/// The argument that starts a daemon on a plain socket name is read back
/// as that name by discovery.
pub proof fn lemma_launch_argument_read_back(name: Seq<char>)
    requires
        is_plain_name(name),
    ensures
        socket_name_of("--daemon="@ + name) == Some(name),
{
    reveal_strlit("--daemon=");
    assert("--daemon="@ =~= daemon_option());
    lemma_extract_direct(name);
}

} // verus!
