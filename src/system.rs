//! The live process table and signal delivery, and the operations that
//! take a fresh snapshot of it.
use vstd::prelude::*;
use sysinfo::{PidExt, ProcessExt, SystemExt};
use crate::daemon::{
    discover, discovered, daemon_names, daemons_view, kill_result_of, pid_result_view,
    select_daemon, snapshot_view, DaemonError, DaemonProcess, DaemonView, ErrorView, ProcessInfo,
    ProcessView, SignalOutcome,
};

verus! {

#[verifier::external_type_specification]
#[verifier::external_body]
pub struct ExSystem(sysinfo::System);

/// Relies on `sysinfo::System::new_all`: a snapshot of the process table.
#[verifier::external_body]
fn new_system() -> (r: sysinfo::System) {
    sysinfo::System::new_all()
}

/// Relies on `SystemExt::processes`, a map keyed by pid, and on
/// `PidExt::as_u32`, `ProcessExt::name`, `ProcessExt::cmd` and
/// `ProcessExt::user_id` to read each entry; distinct keys give distinct
/// pids.
#[verifier::external_body]
fn process_table(system: &sysinfo::System) -> (r: Vec<ProcessInfo>)
    ensures
        forall|i: int, j: int| 0 <= i < j < r@.len() ==> r@[i].pid != r@[j].pid,
{
    system.processes().iter().map(|(pid, p)| ProcessInfo {
        pid: pid.as_u32(),
        name: p.name().to_owned(),
        cmd: p.cmd().to_vec(),
        user_id: p.user_id().map(|uid| **uid),
    }).collect()
}

/// Relies on `SystemExt::process` to find the pid and on
/// `ProcessExt::kill_with(Signal::Term)`, which answers `None` where the
/// signal is not defined and otherwise whether it was delivered.
#[verifier::external_body]
fn send_term(system: &sysinfo::System, pid: u32) -> (r: SignalOutcome) {
    match system.process(sysinfo::Pid::from_u32(pid)) {
        None => SignalOutcome::NoSuchProcess,
        Some(p) => match p.kill_with(sysinfo::Signal::Term) {
            Some(true) => SignalOutcome::Delivered,
            Some(false) => SignalOutcome::Refused,
            None => SignalOutcome::Unsupported,
        },
    }
}

impl DaemonProcess {
    /// Sends the termination signal to this daemon's pid, looked up in a
    /// fresh snapshot, and returns the pid once the signal was delivered.
    pub fn kill(&self) -> (r: Result<u32, DaemonError>)
        ensures
            exists|o: SignalOutcome| pid_result_view(r) == #[trigger] kill_result_of(self@, o),
    {
        let system = new_system();
        let outcome = send_term(&system, self.pid);
        let r = self.kill_outcome(outcome);
        assert(pid_result_view(r) == kill_result_of(self@, outcome));
        r
    }
}

/// The pids of a snapshot are distinct.
pub open spec fn pids_distinct(ps: Seq<ProcessView>) -> bool {
    forall|i: int, j: int| 0 <= i < j < ps.len() ==> ps[i].pid != ps[j].pid
}

/// The daemons running now: discovery over a fresh snapshot.
pub fn get_daemons() -> (r: Vec<DaemonProcess>)
    ensures
        exists|ps: Seq<ProcessView>|
            pids_distinct(ps) && #[trigger] discovered(ps) == daemons_view(r@),
        forall|k: int| 0 <= k < r@.len() ==> (#[trigger] r@[k])@.well_formed(),
{
    let system = new_system();
    let procs = process_table(&system);
    let r = discover(&procs);
    let ghost ps = snapshot_view(procs@);
    assert(pids_distinct(ps));
    assert(discovered(ps) == daemons_view(r@));
    r
}

/// The socket names of the records, in order.
pub open spec fn socket_names(ds: Seq<DaemonView>) -> Seq<Seq<char>> {
    ds.map_values(|d: DaemonView| d.socket_name)
}

/// The socket names of the daemons running now.
pub fn active_daemons_names() -> (r: Vec<String>)
    ensures
        exists|ps: Seq<ProcessView>|
            pids_distinct(ps) && #[trigger] socket_names(discovered(ps)) == r@.map_values(
                |s: String| s@,
            ),
        forall|k: int| 0 <= k < r@.len() ==> (#[trigger] r@[k])@.len() > 0 && !r@[k]@.contains('/'),
{
    let daemons = get_daemons();
    let r = daemon_names(&daemons);
    let ghost ps = choose|ps: Seq<ProcessView>|
        pids_distinct(ps) && #[trigger] discovered(ps) == daemons_view(daemons@);
    assert(socket_names(discovered(ps)) =~= r@.map_values(
        |s: String| s@,
    ));
    assert forall|k: int| 0 <= k < r@.len() implies (#[trigger] r@[k])@.len() > 0
        && !r@[k]@.contains('/') by {
        assert(daemons@[k]@.well_formed());
    }
    r
}

/// `i` is the first position in `ds` whose socket name is `name`.
pub open spec fn is_first_named(ds: Seq<DaemonView>, name: Seq<char>, i: int) -> bool {
    &&& 0 <= i < ds.len()
    &&& ds[i].socket_name == name
    &&& forall|j: int| 0 <= j < i ==> ds[j].socket_name != name
}

/// How a kill request for `name` may end over the records `ds`: with no
/// such name, a no-match error naming it; else the outcome of a signal sent
/// to the first record of that name.
pub open spec fn kill_ends_as(ds: Seq<DaemonView>, name: Seq<char>, r: Result<u32, ErrorView>) -> bool {
    if forall|j: int| 0 <= j < ds.len() ==> ds[j].socket_name != name {
        r == Err::<u32, ErrorView>(ErrorView::NoMatch(name))
    } else {
        exists|i: int, o: SignalOutcome|
            is_first_named(ds, name, i) && r == #[trigger] kill_result_of(ds[i], o)
    }
}

/// Sends the termination signal to the first of `daemons` whose socket is
/// `name`, and returns its pid once the signal was delivered; with no such
/// record, a no-match error that names `name`.
pub fn kill_named(daemons: &Vec<DaemonProcess>, name: &str) -> (r: Result<u32, DaemonError>)
    ensures
        kill_ends_as(daemons_view(daemons@), name@, pid_result_view(r)),
{
    let ghost ds = daemons_view(daemons@);
    assert forall|j: int| 0 <= j < ds.len() implies ds[j] == (#[trigger] daemons@[j])@ by {}
    match select_daemon(daemons, name) {
        None => {
            let r = Err(DaemonError::NoMatch(name.to_owned()));
            assert(kill_ends_as(ds, name@, pid_result_view(r)));
            r
        },
        Some(i) => {
            let r = daemons[i].kill();
            let ghost o = choose|o: SignalOutcome| pid_result_view(r) == #[trigger] kill_result_of(
                daemons@[i as int]@,
                o,
            );
            assert(daemons@[i as int]@ == ds[i as int]);
            assert(pid_result_view(r) == kill_result_of(ds[i as int], o));
            assert(is_first_named(ds, name@, i as int));
            assert(kill_ends_as(ds, name@, pid_result_view(r)));
            r
        },
    }
}

/// A kill request for a name that no record holds ends in a no-match error
/// that carries the name.
pub proof fn lemma_kill_without_match(ds: Seq<DaemonView>, name: Seq<char>, r: Result<u32, ErrorView>)
    requires
        forall|j: int| 0 <= j < ds.len() ==> ds[j].socket_name != name,
        kill_ends_as(ds, name, r),
    ensures
        r == Err::<u32, ErrorView>(ErrorView::NoMatch(name)),
{
}

/// A kill request for a name that a record holds ends as the signal sent to
/// the first such record came to; when it succeeds, it yields that
/// record's pid.
pub proof fn lemma_kill_with_match(
    ds: Seq<DaemonView>,
    name: Seq<char>,
    i: int,
    r: Result<u32, ErrorView>,
)
    requires
        is_first_named(ds, name, i),
        kill_ends_as(ds, name, r),
    ensures
        exists|o: SignalOutcome| r == #[trigger] kill_result_of(ds[i], o),
        r is Ok ==> r == Ok::<u32, ErrorView>(ds[i].pid),
        r == kill_result_of(ds[i], SignalOutcome::Delivered) <==> r is Ok,
{
    assert(!(forall|j: int| 0 <= j < ds.len() ==> ds[j].socket_name != name)) by {
        assert(ds[i].socket_name == name);
    }
    let (k, o) = choose|k: int, o: SignalOutcome|
        is_first_named(ds, name, k) && r == #[trigger] kill_result_of(ds[k], o);
    if k < i {
        assert(ds[k].socket_name != name);
    } else if k > i {
        assert(ds[i].socket_name != name);
    }
    assert(r == kill_result_of(ds[i], o));
}

/// Sends the termination signal to the first running daemon whose socket
/// is `name`, and returns its pid once the signal was delivered.
pub fn kill_daemon(name: &str) -> (r: Result<u32, DaemonError>)
    ensures
        exists|ps: Seq<ProcessView>|
            pids_distinct(ps) && #[trigger] kill_ends_as(discovered(ps), name@, pid_result_view(r)),
{
    let daemons = get_daemons();
    let ghost ps = choose|ps: Seq<ProcessView>|
        pids_distinct(ps) && #[trigger] discovered(ps) == daemons_view(daemons@);
    let r = kill_named(&daemons, name);
    assert(kill_ends_as(discovered(ps), name@, pid_result_view(r)));
    r
}

} // verus!
