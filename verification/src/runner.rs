//! The script-execution ledger: every run the service ever started, each
//! under its own token, with status transitions, filtered listings, and
//! age-based cleanup. Actually running a script is outside work; this module
//! owns only the bookkeeping.

use vstd::prelude::*;

use vstd::multiset::Multiset;

use crate::bridge::fresh_token;
use crate::json::str_eq;
use crate::protocol::connection_id_text;

verus! {

/// Where one script run stands.
#[derive(Clone, Copy, Debug, PartialEq, Eq, Structural)]
pub enum ExecutionStatus {
    Pending,
    Running,
    Completed,
    Failed,
    Cancelled,
    TimedOut,
}

/// One script run, start to finish.
pub struct Execution {
    pub id: String,
    pub script_path: String,
    pub status: ExecutionStatus,
    pub output: Option<String>,
    pub error: Option<String>,
    pub exit_code: Option<i32>,
    pub start_time: Option<u64>,
    pub end_time: Option<u64>,
}

/// The model of an [`Execution`].
pub struct ExecutionModel {
    pub id: Seq<char>,
    pub script_path: Seq<char>,
    pub status: ExecutionStatus,
    pub output: Option<Seq<char>>,
    pub error: Option<Seq<char>>,
    pub exit_code: Option<i32>,
    pub start_time: Option<u64>,
    pub end_time: Option<u64>,
}

impl View for Execution {
    type V = ExecutionModel;

    open spec fn view(&self) -> ExecutionModel {
        ExecutionModel {
            id: self.id@,
            script_path: self.script_path@,
            status: self.status,
            output: self.output.deep_view(),
            error: self.error.deep_view(),
            exit_code: self.exit_code,
            start_time: self.start_time,
            end_time: self.end_time,
        }
    }
}

impl Execution {
    /// A copy with the same model.
    pub fn clone_record(&self) -> (r: Execution)
        ensures
            r@ == self@,
    {
        Execution {
            id: self.id.clone(),
            script_path: self.script_path.clone(),
            status: self.status,
            output: match &self.output {
                Some(s) => Some(s.clone()),
                None => None,
            },
            error: match &self.error {
                Some(s) => Some(s.clone()),
                None => None,
            },
            exit_code: self.exit_code,
            start_time: self.start_time,
            end_time: self.end_time,
        }
    }
}

/// How the runner is configured.
pub struct PythonRunnerConfig {
    pub docker_socket_path: String,
    pub python_pipeline_path: String,
    pub cleanup_interval_hours: u32,
}

impl Default for PythonRunnerConfig {
    /// The stock paths, and a daily cleanup.
    fn default() -> (r: Self)
        ensures
            r.cleanup_interval_hours == 24,
    {
        PythonRunnerConfig {
            docker_socket_path: String::from_str("/var/run/docker.sock"),
            python_pipeline_path: String::from_str("python_pipeline"),
            cleanup_interval_hours: 24,
        }
    }
}

/// Why a ledger operation was refused.
#[derive(Clone, Copy, Debug, PartialEq, Eq, Structural)]
pub enum RunnerError {
    /// No execution carries that id.
    NotFound,
    /// The execution is not running, so it cannot be cancelled.
    NotRunning,
}

/// The canned output prefix of a simulated run.
pub open spec fn simulated_prefix() -> Seq<char> {
    seq![
        'S',
        'i',
        'm',
        'u',
        'l',
        'a',
        't',
        'e',
        'd',
        ' ',
        'o',
        'u',
        't',
        'p',
        'u',
        't',
        ' ',
        'f',
        'o',
        'r',
        ' ',
    ]
}

/// The reason recorded on a cancelled run.
pub open spec fn cancelled_reason() -> Seq<char> {
    seq![
        'E',
        'x',
        'e',
        'c',
        'u',
        't',
        'i',
        'o',
        'n',
        ' ',
        'c',
        'a',
        'n',
        'c',
        'e',
        'l',
        'l',
        'e',
        'd',
        ' ',
        'b',
        'y',
        ' ',
        'u',
        's',
        'e',
        'r',
    ]
}

/// The key listings are ordered by: when the run started, or zero where that
/// was never recorded.
pub open spec fn start_key(e: ExecutionModel) -> u64 {
    match e.start_time {
        Some(t) => t,
        None => 0,
    }
}

/// Whether a record passes the optional status filter.
pub open spec fn passes_filter(e: ExecutionModel, f: Option<ExecutionStatus>) -> bool {
    match f {
        Some(st) => e.status == st,
        None => true,
    }
}

/// Whether `e` is a faithful copy of some ledger record that passes the
/// filter.
pub open spec fn from_ledger(
    ledger: Seq<Execution>,
    e: Execution,
    f: Option<ExecutionStatus>,
) -> bool {
    exists|j: int|
        0 <= j < ledger.len() && e@ == (#[trigger] ledger[j])@ && passes_filter(ledger[j]@, f)
}

/// The execution ledger.
pub struct PythonRunnerService {
    pub executions: Vec<Execution>,
}

impl PythonRunnerService {
    /// The ids on file, in arrival order.
    pub open spec fn exec_ids(&self) -> Seq<Seq<char>> {
        Seq::new(self.executions@.len(), |i: int| self.executions@[i].id@)
    }

    /// Whether a record with this id is on file.
    pub open spec fn has_exec(&self, id: Seq<char>) -> bool {
        exists|i: int| 0 <= i < self.executions@.len() && self.exec_ids()[i] == id
    }

    /// The ledger's invariant: no id is on file twice.
    pub open spec fn wf(&self) -> bool {
        forall|i: int, j: int|
            0 <= i < j < self.executions@.len() ==> self.exec_ids()[i] != self.exec_ids()[j]
    }

    /// An empty ledger.
    pub fn new() -> (r: Self)
        ensures
            r.wf(),
            r.executions@.len() == 0,
    {
        PythonRunnerService { executions: Vec::new() }
    }

    /// Where the id sits in the ledger, if anywhere.
    fn find_exec(&self, id: &str) -> (r: Option<usize>)
        ensures
            match r {
                Some(i) => i < self.executions@.len() && self.executions@[i as int].id@ == id@,
                None => !self.has_exec(id@),
            },
    {
        let len = self.executions.len();
        let mut i: usize = 0;
        while i < len
            invariant
                i <= len,
                len == self.executions@.len(),
                forall|j: int| 0 <= j < i ==> self.exec_ids()[j] != id@,
            decreases len - i,
        {
            if str_eq(self.executions[i].id.as_str(), id) {
                return Some(i);
            }
            proof {
                assert(self.exec_ids()[i as int] == self.executions@[i as int].id@);
            }
            i = i + 1;
        }
        None
    }

    /// Opens a pending record under the given fresh id.
    pub fn start_execution(&mut self, id: String, script_path: &str, now: u64)
        requires
            old(self).wf(),
            !old(self).has_exec(id@),
        ensures
            final(self).wf(),
            final(self).executions@.len() == old(self).executions@.len() + 1,
            forall|j: int|
                0 <= j < old(self).executions@.len() ==> final(self).executions@[j] == old(
                    self,
                ).executions@[j],
            final(self).executions@.last()@ == (ExecutionModel {
                id: id@,
                script_path: script_path@,
                status: ExecutionStatus::Pending,
                output: None,
                error: None,
                exit_code: None,
                start_time: Some(now),
                end_time: None,
            }),
    {
        let record = Execution {
            id,
            script_path: script_path.to_owned(),
            status: ExecutionStatus::Pending,
            output: None,
            error: None,
            exit_code: None,
            start_time: Some(now),
            end_time: None,
        };
        let ghost idv = record.id@;
        self.executions.push(record);
        proof {
            let pre = old(self);
            assert forall|i: int, j: int|
                0 <= i < j < self.executions@.len() implies self.exec_ids()[i]
                    != self.exec_ids()[j] by {
                if j < pre.executions@.len() {
                    assert(pre.exec_ids()[i] == self.exec_ids()[i]);
                    assert(pre.exec_ids()[j] == self.exec_ids()[j]);
                } else {
                    assert(self.exec_ids()[j] == idv);
                    assert(pre.exec_ids()[i] == self.exec_ids()[i]);
                    assert(!pre.has_exec(idv));
                }
            }
        }
    }

    /// Starts a run under a fresh random token and hands the token back; a
    /// token already on file (never seen in practice) yields nothing.
    pub fn execute_script(&mut self, script_path: &str, now: u64) -> (r: Option<String>)
        requires
            old(self).wf(),
        ensures
            final(self).wf(),
            r is None ==> *final(self) == *old(self),
            r matches Some(id) ==> {
                &&& final(self).executions@.len() == old(self).executions@.len() + 1
                &&& forall|j: int|
                    0 <= j < old(self).executions@.len() ==> final(self).executions@[j] == old(
                        self,
                    ).executions@[j]
                &&& !old(self).has_exec(id@)
                &&& final(self).executions@.last()@ == (ExecutionModel {
                    id: id@,
                    script_path: script_path@,
                    status: ExecutionStatus::Pending,
                    output: None,
                    error: None,
                    exit_code: None,
                    start_time: Some(now),
                    end_time: None,
                })
            },
    {
        let token = fresh_token();
        let id = connection_id_text(token);
        if self.find_exec(id.as_str()).is_some() {
            return None;
        }
        let id_out = id.clone();
        self.start_execution(id, script_path, now);
        Some(id_out)
    }

    /// Closes a record as completed, with the canned output of a simulated
    /// run and a zero exit code; an unknown id changes nothing.
    pub fn simulate_script_execution(&mut self, execution_id: &str, script_path: &str, now: u64)
        requires
            old(self).wf(),
        ensures
            final(self).wf(),
            !old(self).has_exec(execution_id@) ==> *final(self) == *old(self),
            final(self).executions@.len() == old(self).executions@.len(),
            forall|j: int|
                0 <= j < old(self).executions@.len() && (#[trigger] old(
                    self,
                ).executions@[j]).id@ != execution_id@ ==> final(self).executions@[j] == old(
                    self,
                ).executions@[j],
            forall|j: int|
                0 <= j < old(self).executions@.len() && (#[trigger] old(
                    self,
                ).executions@[j]).id@ == execution_id@ ==> final(self).executions@[j]@ == (
                ExecutionModel {
                    status: ExecutionStatus::Completed,
                    output: Some(simulated_prefix() + script_path@),
                    exit_code: Some(0),
                    end_time: Some(now),
                    ..old(self).executions@[j]@
                }),
    {
        let i = match self.find_exec(execution_id) {
            Some(i) => i,
            None => {
                proof {
                    assert forall|j: int|
                        !(0 <= j < self.executions@.len() && (#[trigger] self.executions@[j]).id@
                            == execution_id@) by {
                        if 0 <= j < self.executions@.len() && self.executions@[j].id@
                            == execution_id@ {
                            assert(self.exec_ids()[j] == execution_id@);
                        }
                    }
                }
                return ;
            },
        };
        proof {
            assert(self.exec_ids()[i as int] == execution_id@);
            assert forall|j: int|
                0 <= j < self.executions@.len() && (#[trigger] self.executions@[j]).id@
                    == execution_id@ implies j == i by {
                if j != i {
                    assert(self.exec_ids()[j] == self.exec_ids()[i as int]);
                }
            }
        }
        let mut output = String::from_str("Simulated output for ");
        output.append(script_path);
        proof {
            reveal_strlit("Simulated output for ");
            assert(output@ =~= simulated_prefix() + script_path@);
        }
        let entry = &mut self.executions[i];
        entry.status = ExecutionStatus::Completed;
        entry.output = Some(output);
        entry.exit_code = Some(0);
        entry.end_time = Some(now);
        proof {
            assert(self.exec_ids() =~= old(self).exec_ids());
        }
    }

    /// The status of one run, or `NotFound`, exactly by whether the id is on
    /// file.
    pub fn get_execution_status(&self, execution_id: &str) -> (r: Result<
        ExecutionStatus,
        RunnerError,
    >)
        requires
            self.wf(),
        ensures
            !self.has_exec(execution_id@) ==> r == Err::<ExecutionStatus, RunnerError>(
                RunnerError::NotFound,
            ),
            forall|j: int|
                0 <= j < self.executions@.len() && (#[trigger] self.executions@[j]).id@
                    == execution_id@ ==> r == Ok::<ExecutionStatus, RunnerError>(
                    self.executions@[j].status,
                ),
    {
        let i = match self.find_exec(execution_id) {
            Some(i) => i,
            None => {
                proof {
                    assert forall|j: int|
                        !(0 <= j < self.executions@.len() && (#[trigger] self.executions@[j]).id@
                            == execution_id@) by {
                        if 0 <= j < self.executions@.len() && self.executions@[j].id@
                            == execution_id@ {
                            assert(self.exec_ids()[j] == execution_id@);
                        }
                    }
                }
                return Err(RunnerError::NotFound);
            },
        };
        proof {
            assert(self.exec_ids()[i as int] == execution_id@);
            assert(self.has_exec(execution_id@));
            assert forall|j: int|
                0 <= j < self.executions@.len() && (#[trigger] self.executions@[j]).id@
                    == execution_id@ implies j == i by {
                if j != i {
                    assert(self.exec_ids()[j] == self.exec_ids()[i as int]);
                }
            }
        }
        Ok(self.executions[i].status)
    }

    /// A copy of one whole record, or `NotFound`.
    pub fn get_execution(&self, execution_id: &str) -> (r: Result<Execution, RunnerError>)
        requires
            self.wf(),
        ensures
            !self.has_exec(execution_id@) ==> r == Err::<Execution, RunnerError>(
                RunnerError::NotFound,
            ),
            forall|j: int|
                0 <= j < self.executions@.len() && (#[trigger] self.executions@[j]).id@
                    == execution_id@ ==> (r matches Ok(e) && e@ == self.executions@[j]@),
    {
        let i = match self.find_exec(execution_id) {
            Some(i) => i,
            None => {
                proof {
                    assert forall|j: int|
                        !(0 <= j < self.executions@.len() && (#[trigger] self.executions@[j]).id@
                            == execution_id@) by {
                        if 0 <= j < self.executions@.len() && self.executions@[j].id@
                            == execution_id@ {
                            assert(self.exec_ids()[j] == execution_id@);
                        }
                    }
                }
                return Err(RunnerError::NotFound);
            },
        };
        proof {
            assert(self.exec_ids()[i as int] == execution_id@);
            assert forall|j: int|
                0 <= j < self.executions@.len() && (#[trigger] self.executions@[j]).id@
                    == execution_id@ implies j == i by {
                if j != i {
                    assert(self.exec_ids()[j] == self.exec_ids()[i as int]);
                }
            }
        }
        Ok(self.executions[i].clone_record())
    }

    /// Marks a running execution cancelled, with the moment and the reason;
    /// refused exactly when the id is missing or the run is not running.
    pub fn cancel_execution(&mut self, execution_id: &str, now: u64) -> (r: Result<
        (),
        RunnerError,
    >)
        requires
            old(self).wf(),
        ensures
            final(self).wf(),
            final(self).executions@.len() == old(self).executions@.len(),
            !old(self).has_exec(execution_id@) ==> r == Err::<(), RunnerError>(
                RunnerError::NotFound,
            ) && *final(self) == *old(self),
            forall|j: int|
                0 <= j < old(self).executions@.len() && (#[trigger] old(
                    self,
                ).executions@[j]).id@ != execution_id@ ==> final(self).executions@[j] == old(
                    self,
                ).executions@[j],
            forall|j: int|
                0 <= j < old(self).executions@.len() && (#[trigger] old(
                    self,
                ).executions@[j]).id@ == execution_id@ ==> {
                    &&& (old(self).executions@[j].status != ExecutionStatus::Running ==> r
                        == Err::<(), RunnerError>(RunnerError::NotRunning) && *final(self) == *old(
                        self,
                    ))
                    &&& (old(self).executions@[j].status == ExecutionStatus::Running ==> r
                        == Ok::<(), RunnerError>(()) && final(self).executions@[j]@ == (
                    ExecutionModel {
                        status: ExecutionStatus::Cancelled,
                        end_time: Some(now),
                        error: Some(cancelled_reason()),
                        ..old(self).executions@[j]@
                    }))
                },
    {
        let i = match self.find_exec(execution_id) {
            Some(i) => i,
            None => {
                proof {
                    assert forall|j: int|
                        !(0 <= j < self.executions@.len() && (#[trigger] self.executions@[j]).id@
                            == execution_id@) by {
                        if 0 <= j < self.executions@.len() && self.executions@[j].id@
                            == execution_id@ {
                            assert(self.exec_ids()[j] == execution_id@);
                        }
                    }
                }
                return Err(RunnerError::NotFound);
            },
        };
        proof {
            assert(self.exec_ids()[i as int] == execution_id@);
            assert(self.has_exec(execution_id@));
            assert forall|j: int|
                0 <= j < self.executions@.len() && (#[trigger] self.executions@[j]).id@
                    == execution_id@ implies j == i by {
                if j != i {
                    assert(self.exec_ids()[j] == self.exec_ids()[i as int]);
                }
            }
        }
        if !matches!(self.executions[i].status, ExecutionStatus::Running) {
            return Err(RunnerError::NotRunning);
        }
        let reason = String::from_str("Execution cancelled by user");
        proof {
            reveal_strlit("Execution cancelled by user");
            assert(reason@ =~= cancelled_reason());
        }
        let entry = &mut self.executions[i];
        entry.status = ExecutionStatus::Cancelled;
        entry.end_time = Some(now);
        entry.error = Some(reason);
        proof {
            assert(self.exec_ids() =~= old(self).exec_ids());
        }
        Ok(())
    }
}

/// The records young enough to keep: those that started after the cutoff.
pub open spec fn keep_recent(s: Seq<Execution>, cutoff: u64) -> Seq<Execution>
    decreases s.len(),
{
    if s.len() == 0 {
        Seq::empty()
    } else if match s[0].start_time {
        Some(t) => t > cutoff,
        None => false,
    } {
        seq![s[0]] + keep_recent(s.drop_first(), cutoff)
    } else {
        keep_recent(s.drop_first(), cutoff)
    }
}

impl PythonRunnerService {
    /// Drops every record that started at or before the cutoff, or that never
    /// started; `hours_old` hours before now is the cutoff.
    pub fn cleanup_old_executions(&mut self, hours_old: u32, now: u64)
        requires
            old(self).wf(),
        ensures
            final(self).wf(),
            final(self).executions@ == keep_recent(
                old(self).executions@,
                crate::hub::spec_sat_sub(now, ((hours_old as u64) * 3600000) as u64),
            ),
    {
        let cutoff = crate::hub::sat_sub(now, (hours_old as u64) * 3600000);
        let ghost pre = self.executions@;
        let mut kept: Vec<Execution> = Vec::new();
        proof {
            assert(keep_recent(pre, cutoff) =~= kept@ + keep_recent(self.executions@, cutoff));
        }
        while self.executions.len() > 0
            invariant
                keep_recent(pre, cutoff) == kept@ + keep_recent(self.executions@, cutoff),
            decreases self.executions@.len(),
        {
            let ghost before = self.executions@;
            let e = self.executions.remove(0);
            proof {
                assert(self.executions@ =~= before.drop_first());
                assert(before[0] == e);
            }
            let fresh_enough = match e.start_time {
                Some(t) => t > cutoff,
                None => false,
            };
            if fresh_enough {
                kept.push(e);
            }
            proof {
                assert(keep_recent(pre, cutoff) =~= kept@ + keep_recent(
                    self.executions@,
                    cutoff,
                ));
            }
        }
        proof {
            assert(keep_recent(self.executions@, cutoff) =~= Seq::<Execution>::empty());
            assert(kept@ =~= keep_recent(pre, cutoff));
        }
        self.executions = kept;
        proof {
            lemma_keep_recent_distinct(pre, cutoff);
            assert forall|i: int, j: int|
                0 <= i < j < pre.len() implies (#[trigger] pre[i]).id@ != (
            #[trigger] pre[j]).id@ by {
                assert(old(self).exec_ids()[i] == pre[i].id@);
                assert(old(self).exec_ids()[j] == pre[j].id@);
            }
            assert forall|a: int, b: int|
                0 <= a < b < self.executions@.len() implies self.exec_ids()[a]
                    != self.exec_ids()[b] by {
                assert(self.exec_ids()[a] == self.executions@[a].id@);
                assert(self.exec_ids()[b] == self.executions@[b].id@);
            }
        }
    }

    /// The records passing the status filter, oldest first, cut to `limit`,
    /// then ordered newest start first. Every line is a faithful copy of a
    /// matching record on file.
    #[verifier::rlimit(100)]
    pub fn list_executions(&self, status_filter: Option<ExecutionStatus>, limit: Option<usize>) -> (r:
        Vec<Execution>)
        ensures
            forall|i: int|
                0 <= i < r@.len() ==> from_ledger(
                    self.executions@,
                    #[trigger] r@[i],
                    status_filter,
                ),
            forall|i: int, j: int|
                0 <= i < j < r@.len() ==> start_key((#[trigger] r@[i])@) >= start_key(
                    (#[trigger] r@[j])@,
                ),
            match limit {
                Some(l) => r@.len() <= l,
                None => true,
            },
    {
        let mut picked: Vec<Execution> = Vec::new();
        let len = self.executions.len();
        let mut i: usize = 0;
        while i < len
            invariant
                i <= len,
                len == self.executions@.len(),
                forall|k: int|
                    0 <= k < picked@.len() ==> from_ledger(
                        self.executions@,
                        #[trigger] picked@[k],
                        status_filter,
                    ),
                match limit {
                    Some(l) => picked@.len() <= l,
                    None => true,
                },
            decreases len - i,
        {
            let matches_filter = match &status_filter {
                Some(st) => self.executions[i].status == *st,
                None => true,
            };
            let under_limit = match limit {
                Some(l) => picked.len() < l,
                None => true,
            };
            if matches_filter && under_limit {
                let ghost j = i as int;
                let copy = self.executions[i].clone_record();
                picked.push(copy);
                proof {
                    assert(picked@.last()@ == self.executions@[j]@);
                }
            }
            i = i + 1;
        }
        let ghost picked_view = picked@;
        let sorted = sort_by_start_desc(picked);
        proof {
            broadcast use vstd::seq_lib::group_to_multiset_ensures;

            assert forall|k: int| 0 <= k < sorted@.len() implies from_ledger(
                self.executions@,
                #[trigger] sorted@[k],
                status_filter,
            ) by {
                assert(sorted@.contains(sorted@[k]));
                assert(sorted@.to_multiset().count(sorted@[k]) > 0);
                assert(picked_view.to_multiset().count(sorted@[k]) > 0);
                assert(picked_view.contains(sorted@[k]));
                let j1 = choose|j1: int|
                    0 <= j1 < picked_view.len() && picked_view[j1] == sorted@[k];
                let j2 = choose|j2: int|
                    0 <= j2 < self.executions@.len() && picked_view[j1]@ == self.executions@[j2]@
                        && passes_filter(self.executions@[j2]@, status_filter);
                assert(sorted@[k]@ == self.executions@[j2]@);
            }
        }
        sorted
    }
}

/// Orders records newest start first, touching nothing else: the result
/// holds exactly the records given, as a multiset.
fn sort_by_start_desc(v: Vec<Execution>) -> (r: Vec<Execution>)
    ensures
        r@.to_multiset() == v@.to_multiset(),
        r@.len() == v@.len(),
        forall|i: int, j: int|
            0 <= i < j < r@.len() ==> start_key((#[trigger] r@[i])@) >= start_key(
                (#[trigger] r@[j])@,
            ),
{
    broadcast use vstd::seq_lib::group_to_multiset_ensures;

    let mut work = v;
    let ghost orig = work@;
    let mut out: Vec<Execution> = Vec::new();
    proof {
        assert(out@.to_multiset().add(work@.to_multiset()) =~= orig.to_multiset());
    }
    while work.len() > 0
        invariant
            out@.len() + work@.len() == orig.len(),
            out@.to_multiset().add(work@.to_multiset()) == orig.to_multiset(),
            forall|i: int, j: int|
                0 <= i < j < out@.len() ==> start_key((#[trigger] out@[i])@) >= start_key(
                    (#[trigger] out@[j])@,
                ),
            forall|i: int, j: int|
                0 <= i < out@.len() && 0 <= j < work@.len() ==> start_key((#[trigger] out@[i])@)
                    >= start_key((#[trigger] work@[j])@),
        decreases work@.len(),
    {
        broadcast use vstd::seq_lib::group_to_multiset_ensures;
        // Find the remaining record with the newest start.
        let mut best: usize = 0;
        let wlen = work.len();
        let mut k: usize = 1;
        while k < wlen
            invariant
                wlen == work@.len(),
                wlen > 0,
                best < k,
                k <= wlen,
                forall|j: int|
                    0 <= j < k ==> start_key(work@[best as int]@) >= start_key(
                        (#[trigger] work@[j])@,
                    ),
            decreases wlen - k,
        {
            let k_key = match work[k].start_time {
                Some(t) => t,
                None => 0,
            };
            let best_key = match work[best].start_time {
                Some(t) => t,
                None => 0,
            };
            if k_key > best_key {
                best = k;
            }
            k = k + 1;
        }
        let ghost work_before = work@;
        let ghost out_before = out@;
        let e = work.remove(best);
        out.push(e);
        proof {
            assert(e == work_before[best as int]);
            assert(work@.to_multiset() =~= work_before.to_multiset().remove(e));
            assert(out@.to_multiset() =~= out_before.to_multiset().insert(e));
            assert(work_before.to_multiset().count(e) > 0);
            assert(out@.to_multiset().add(work@.to_multiset()) =~= orig.to_multiset());
        }
    }
    proof {
        assert(work@.to_multiset() =~= Multiset::<Execution>::empty());
        assert(out@.to_multiset() =~= orig.to_multiset());
    }
    out
}

/// Keeping only recent records keeps ids pairwise distinct.
proof fn lemma_keep_recent_distinct(s: Seq<Execution>, cutoff: u64)
    ensures
        forall|k: int|
            0 <= k < keep_recent(s, cutoff).len() ==> exists|j: int|
                0 <= j < s.len() && s[j] == #[trigger] keep_recent(s, cutoff)[k],
        (forall|i: int, j: int| 0 <= i < j < s.len() ==> (#[trigger] s[i]).id@ != (
        #[trigger] s[j]).id@) ==> (forall|i: int, j: int|
            0 <= i < j < keep_recent(s, cutoff).len() ==> (#[trigger] keep_recent(s, cutoff)[i]).id@
                != (#[trigger] keep_recent(s, cutoff)[j]).id@),
    decreases s.len(),
{
    if s.len() > 0 {
        let rest = s.drop_first();
        lemma_keep_recent_distinct(rest, cutoff);
        let kept = keep_recent(s, cutoff);
        let kept_rest = keep_recent(rest, cutoff);
        let head_kept = match s[0].start_time {
            Some(t) => t > cutoff,
            None => false,
        };
        assert forall|k: int|
            0 <= k < kept.len() implies exists|j: int| 0 <= j < s.len() && s[j] == #[trigger] kept[k] by {
            if head_kept {
                if k == 0 {
                    assert(s[0] == kept[0]);
                } else {
                    let j0 = choose|j: int| 0 <= j < rest.len() && rest[j] == kept_rest[k - 1];
                    assert(s[j0 + 1] == kept[k]);
                }
            } else {
                let j0 = choose|j: int| 0 <= j < rest.len() && rest[j] == kept_rest[k];
                assert(s[j0 + 1] == kept[k]);
            }
        }
        if forall|i: int, j: int| 0 <= i < j < s.len() ==> (#[trigger] s[i]).id@ != (
        #[trigger] s[j]).id@ {
            assert forall|i: int, j: int|
                0 <= i < j < rest.len() implies (#[trigger] rest[i]).id@ != (
            #[trigger] rest[j]).id@ by {
                assert(rest[i] == s[i + 1]);
                assert(rest[j] == s[j + 1]);
            }
            assert forall|i: int, j: int|
                0 <= i < j < kept.len() implies (#[trigger] kept[i]).id@ != (
            #[trigger] kept[j]).id@ by {
                if head_kept {
                    if i == 0 {
                        assert(kept[0] == s[0]);
                        assert(kept[j] == kept_rest[j - 1]);
                        let j0 = choose|w: int| 0 <= w < rest.len() && rest[w] == kept_rest[j - 1];
                        assert(s[j0 + 1] == kept[j]);
                        assert(s[0].id@ != s[j0 + 1].id@);
                    } else {
                        assert(kept[i] == kept_rest[i - 1]);
                        assert(kept[j] == kept_rest[j - 1]);
                    }
                } else {
                    assert(kept[i] == kept_rest[i]);
                    assert(kept[j] == kept_rest[j]);
                }
            }
        }
    }
}

} // verus!
