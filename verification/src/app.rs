//! The orchestrator: the state machine that drives a benchmarking run.
//!
//! It owns the candidate lists, dispatches one probe at a time to the
//! background worker over a capacity-1 queue, records each result as it
//! drains back in, maintains the per-mode best pointer incrementally, and
//! ranks the accumulated results.

use vstd::prelude::*;
use vstd::relations::sorted_by;
use vstd::string::StringExecFns;
use crate::distro::Distro;
use crate::distro::Mirror;
use crate::results::DnsTestResult;
use crate::results::MirrorTestResult;
use crate::results::dns_best_step;
use crate::results::mirror_best_step;
use crate::results::dns_best_fold;
use crate::results::mirror_best_fold;
use crate::results::lemma_dns_best_fold_push;
use crate::results::lemma_mirror_best_fold_push;
use crate::results::is_dns_better;
use crate::results::is_mirror_better;
use crate::sort::SortColumn;
use crate::sort::dns_leq;
use crate::sort::mirror_leq;
use crate::sort::sort_dns_results;
use crate::sort::sort_mirror_results;
use crate::queue::send_target;
use crate::queue::recv_result;

verus! {

/// The phase a run is in.
#[derive(Debug, Clone, Copy, PartialEq, Eq, Structural)]
pub enum AppState {
    Input,
    Testing,
    Results,
}

/// What kind of candidates the run probes.
#[derive(Debug, Clone, Copy, PartialEq, Eq, Structural)]
pub enum AppMode {
    Dns,
    Mirror,
}

/// One candidate handed to the worker: a resolver address in canonical
/// textual form, or a mirror descriptor.
#[derive(Debug)]
pub enum TestTarget {
    Dns(String),
    Mirror(Mirror),
}

impl Clone for TestTarget {
    fn clone(&self) -> (r: Self)
        ensures
            r == *self,
    {
        match self {
            TestTarget::Dns(ip) => TestTarget::Dns(ip.clone()),
            TestTarget::Mirror(m) => TestTarget::Mirror(m.clone()),
        }
    }
}

/// One measurement handed back by the worker.
#[derive(Debug)]
pub enum TestResult {
    Dns(DnsTestResult),
    Mirror(MirrorTestResult),
}

impl Clone for TestResult {
    fn clone(&self) -> (r: Self)
        ensures
            r == *self,
    {
        match self {
            TestResult::Dns(d) => TestResult::Dns(d.clone()),
            TestResult::Mirror(m) => TestResult::Mirror(m.clone()),
        }
    }
}

/// Whether a sequence of address strings holds one that spells `t`.
pub open spec fn seq_contains_string(s: Seq<String>, t: Seq<char>) -> bool {
    exists|k: int| 0 <= k < s.len() && #[trigger] s[k]@ == t
}

/// Whether the DNS results list is the one the active column and mode rank.
pub open spec fn dns_sort_applies(col: SortColumn, mode: AppMode) -> bool {
    ||| col == SortColumn::Ip
    ||| col == SortColumn::Latency
    ||| (col == SortColumn::DownloadSpeed && mode == AppMode::Dns)
}

/// Whether the mirror results list is the one the active column and mode
/// rank.
pub open spec fn mirror_sort_applies(col: SortColumn, mode: AppMode) -> bool {
    ||| col == SortColumn::Name
    ||| (col == SortColumn::DownloadSpeed && mode == AppMode::Mirror)
}

/// What one ranking pass does to the DNS results list: when the column
/// applies, the list becomes its stable sort under the column's order — so
/// it keeps exactly the same results, ties keep their arrival order, and an
/// already-ordered list stays put; otherwise the list is untouched.
pub open spec fn dns_list_sort_effect(
    pre: Seq<DnsTestResult>,
    post: Seq<DnsTestResult>,
    col: SortColumn,
    asc: bool,
    mode: AppMode,
) -> bool {
    if dns_sort_applies(col, mode) {
        &&& post == crate::sort::insertion_sort(pre, dns_leq(col, asc))
        &&& sorted_by(post, dns_leq(col, asc))
        &&& post.len() == pre.len()
        &&& post.to_multiset() == pre.to_multiset()
        &&& (sorted_by(pre, dns_leq(col, asc)) ==> post == pre)
    } else {
        post == pre
    }
}

/// What one ranking pass does to the mirror results list.
pub open spec fn mirror_list_sort_effect(
    pre: Seq<MirrorTestResult>,
    post: Seq<MirrorTestResult>,
    col: SortColumn,
    asc: bool,
    mode: AppMode,
) -> bool {
    if mirror_sort_applies(col, mode) {
        &&& post == crate::sort::insertion_sort(pre, mirror_leq(col, asc))
        &&& sorted_by(post, mirror_leq(col, asc))
        &&& post.len() == pre.len()
        &&& post.to_multiset() == pre.to_multiset()
        &&& (sorted_by(pre, mirror_leq(col, asc)) ==> post == pre)
    } else {
        post == pre
    }
}

/// The ring the sort column cycles through; the name column takes part only
/// in mirror mode.
pub open spec fn next_column(col: SortColumn, mode: AppMode) -> SortColumn {
    match col {
        SortColumn::Ip => SortColumn::Latency,
        SortColumn::Latency => SortColumn::DownloadSpeed,
        SortColumn::DownloadSpeed => if mode == AppMode::Mirror {
            SortColumn::Name
        } else {
            SortColumn::Ip
        },
        SortColumn::Name => SortColumn::Ip,
    }
}

/// The other mode.
pub open spec fn other_mode(mode: AppMode) -> AppMode {
    match mode {
        AppMode::Dns => AppMode::Mirror,
        AppMode::Mirror => AppMode::Dns,
    }
}

/// Whether the active mode has any candidates to probe.
pub open spec fn has_targets(a: App) -> bool {
    match a.mode {
        AppMode::Dns => a.dns_servers@.len() > 0,
        AppMode::Mirror => a.mirrors@.len() > 0,
    }
}

/// How many candidates the active mode's snapshot holds.
pub open spec fn active_candidate_count(a: App) -> nat {
    match a.mode {
        AppMode::Dns => a.dns_servers@.len(),
        AppMode::Mirror => a.mirrors@.len(),
    }
}

/// The orchestrator's whole state.
pub struct App {
    pub mode: AppMode,
    pub state: AppState,
    /// Candidate resolver addresses, in canonical textual form.
    pub dns_servers: Vec<String>,
    /// Candidate mirrors.
    pub mirrors: Vec<Mirror>,
    pub results: Vec<DnsTestResult>,
    pub mirror_results: Vec<MirrorTestResult>,
    pub last_result: Option<DnsTestResult>,
    pub last_mirror_result: Option<MirrorTestResult>,
    pub best_result: Option<DnsTestResult>,
    pub best_mirror_result: Option<MirrorTestResult>,
    /// How many probes have been dispatched and recorded.
    pub testing_index: usize,
    pub sort_column: SortColumn,
    pub sort_ascending: bool,
    pub should_quit: bool,
    pub error_message: Option<String>,
    /// A transient status line and whether it reports a failure.
    pub status_message: Option<(String, bool)>,
    pub detected_distro: Distro,
    pub tick_count: u64,
    /// Outbound capacity-1 queue to the worker.
    pub tx: Option<tokio::sync::mpsc::Sender<TestTarget>>,
    /// Inbound capacity-1 queue of results from the worker.
    pub rx: Option<tokio::sync::mpsc::Receiver<TestResult>>,
}

/// Fields a run never touches: the mode, the detected distribution, the
/// queues, and the interactive flags.
pub open spec fn same_env(a: App, b: App) -> bool {
    &&& a.mode == b.mode
    &&& a.detected_distro == b.detected_distro
    &&& a.tx == b.tx
    &&& a.rx == b.rx
    &&& a.should_quit == b.should_quit
    &&& a.tick_count == b.tick_count
}

/// The candidate lists.
pub open spec fn same_candidates(a: App, b: App) -> bool {
    a.dns_servers == b.dns_servers && a.mirrors == b.mirrors
}

/// The sort column and direction.
pub open spec fn same_sort_settings(a: App, b: App) -> bool {
    a.sort_column == b.sort_column && a.sort_ascending == b.sort_ascending
}

/// The two message lines.
pub open spec fn same_messages(a: App, b: App) -> bool {
    a.error_message == b.error_message && a.status_message == b.status_message
}

/// The last-seen and best-so-far pointers of both modes.
pub open spec fn same_best_and_last(a: App, b: App) -> bool {
    &&& a.last_result == b.last_result
    &&& a.last_mirror_result == b.last_mirror_result
    &&& a.best_result == b.best_result
    &&& a.best_mirror_result == b.best_mirror_result
}

/// What one drain pass leaves behind: a sequence of recorded DNS arrivals
/// and a sequence of recorded mirror arrivals, in arrival order, account
/// for the cursor, both results lists, and the last and best pointers —
/// the best pointer is the fold of the best-step rule over the arrivals.
pub open spec fn drained_outcome(
    pre: App,
    post: App,
    ds: Seq<DnsTestResult>,
    ms: Seq<MirrorTestResult>,
) -> bool {
    &&& post.testing_index == pre.testing_index + ds.len() + ms.len()
    &&& post.best_result == dns_best_fold(pre.best_result, ds)
    &&& post.best_mirror_result == mirror_best_fold(pre.best_mirror_result, ms)
    &&& post.last_result == (if ds.len() == 0 {
        pre.last_result
    } else {
        Some(ds.last())
    })
    &&& post.last_mirror_result == (if ms.len() == 0 {
        pre.last_mirror_result
    } else {
        Some(ms.last())
    })
    &&& (post.state == AppState::Testing ==> post.results@ == pre.results@ + ds
        && post.mirror_results@ == pre.mirror_results@ + ms)
    &&& post.results@.to_multiset() == (pre.results@ + ds).to_multiset()
    &&& post.mirror_results@.to_multiset() == (pre.mirror_results@ + ms).to_multiset()
}

/// Law: toggling the direction twice restores the DNS ranking. The
/// orchestrator orders the active list on every ranking pass, so wherever a
/// toggle can happen the list already stands in the current order — that
/// standing order and pairwise-distinct keys are the hypotheses. `mid` is
/// the app after one `toggle_sort_direction` and `post` the app after a
/// second, as that method's contract describes them; the direction and the
/// DNS results list both come back to where they started.
pub proof fn lemma_toggle_twice_restores_dns(app: App, mid: App, post: App)
    requires
        dns_sort_applies(app.sort_column, app.mode),
        sorted_by(app.results@, dns_leq(app.sort_column, app.sort_ascending)),
        crate::sort::dns_keys_distinct(app.results@, app.sort_column),
        mid.sort_column == app.sort_column,
        mid.sort_ascending == !app.sort_ascending,
        mid.mode == app.mode,
        dns_list_sort_effect(
            app.results@,
            mid.results@,
            app.sort_column,
            !app.sort_ascending,
            app.mode,
        ),
        post.sort_ascending == !mid.sort_ascending,
        dns_list_sort_effect(
            mid.results@,
            post.results@,
            mid.sort_column,
            !mid.sort_ascending,
            mid.mode,
        ),
    ensures
        post.sort_ascending == app.sort_ascending,
        post.results@ == app.results@,
{
    crate::sort::lemma_dns_toggle_twice(
        app.results@,
        mid.results@,
        post.results@,
        app.sort_column,
        app.sort_ascending,
    );
}

/// Law: toggling the direction twice restores the mirror ranking, under the
/// same standing-order and distinct-keys hypotheses.
pub proof fn lemma_toggle_twice_restores_mirror(app: App, mid: App, post: App)
    requires
        mirror_sort_applies(app.sort_column, app.mode),
        sorted_by(app.mirror_results@, mirror_leq(app.sort_column, app.sort_ascending)),
        crate::sort::mirror_keys_distinct(app.mirror_results@, app.sort_column),
        mid.sort_column == app.sort_column,
        mid.sort_ascending == !app.sort_ascending,
        mid.mode == app.mode,
        mirror_list_sort_effect(
            app.mirror_results@,
            mid.mirror_results@,
            app.sort_column,
            !app.sort_ascending,
            app.mode,
        ),
        post.sort_ascending == !mid.sort_ascending,
        mirror_list_sort_effect(
            mid.mirror_results@,
            post.mirror_results@,
            mid.sort_column,
            !mid.sort_ascending,
            mid.mode,
        ),
    ensures
        post.sort_ascending == app.sort_ascending,
        post.mirror_results@ == app.mirror_results@,
{
    crate::sort::lemma_mirror_toggle_twice(
        app.mirror_results@,
        mid.mirror_results@,
        post.mirror_results@,
        app.sort_column,
        app.sort_ascending,
    );
}

impl App {
    /// A fresh orchestrator over an initial address list, in input phase,
    /// ranked by throughput descending. The host's distribution is detected
    /// once at startup and passed in.
    pub fn new(initial_dns: Vec<String>, detected_distro: Distro) -> (app: App)
        ensures
            app.mode == AppMode::Dns,
            app.state == AppState::Input,
            app.dns_servers == initial_dns,
            app.mirrors@.len() == 0,
            app.results@.len() == 0,
            app.mirror_results@.len() == 0,
            app.last_result is None,
            app.last_mirror_result is None,
            app.best_result is None,
            app.best_mirror_result is None,
            app.testing_index == 0,
            app.sort_column == SortColumn::DownloadSpeed,
            app.sort_ascending == false,
            app.should_quit == false,
            app.error_message is None,
            app.status_message is None,
            app.detected_distro == detected_distro,
            app.tick_count == 0,
            app.tx is None,
            app.rx is None,
    {
        App {
            mode: AppMode::Dns,
            state: AppState::Input,
            dns_servers: initial_dns,
            mirrors: Vec::new(),
            results: Vec::new(),
            mirror_results: Vec::new(),
            last_result: None,
            last_mirror_result: None,
            best_result: None,
            best_mirror_result: None,
            testing_index: 0,
            sort_column: SortColumn::DownloadSpeed,
            sort_ascending: false,
            should_quit: false,
            error_message: None,
            status_message: None,
            detected_distro,
            tick_count: 0,
            tx: None,
            rx: None,
        }
    }

    /// Advance the animation counter, wrapping around at the top.
    pub fn tick(&mut self)
        ensures
            final(self).tick_count == if old(self).tick_count == u64::MAX {
                0u64
            } else {
                (old(self).tick_count + 1) as u64
            },
            final(self).mode == old(self).mode,
            final(self).state == old(self).state,
            final(self).detected_distro == old(self).detected_distro,
            final(self).tx == old(self).tx,
            final(self).rx == old(self).rx,
            final(self).should_quit == old(self).should_quit,
            final(self).testing_index == old(self).testing_index,
            final(self).results == old(self).results,
            final(self).mirror_results == old(self).mirror_results,
            same_candidates(*old(self), *final(self)),
            same_sort_settings(*old(self), *final(self)),
            same_messages(*old(self), *final(self)),
            same_best_and_last(*old(self), *final(self)),
    {
        if self.tick_count == u64::MAX {
            self.tick_count = 0;
        } else {
            self.tick_count = self.tick_count + 1;
        }
    }

    /// Add an address to the candidate list, rejecting a duplicate with a
    /// validation message. Candidates can only be edited in input phase.
    pub fn add_dns_server(&mut self, addr: String)
        requires
            old(self).state == AppState::Input,
        ensures
            same_env(*old(self), *final(self)),
            same_sort_settings(*old(self), *final(self)),
            same_best_and_last(*old(self), *final(self)),
            final(self).state == old(self).state,
            final(self).mirrors == old(self).mirrors,
            final(self).results == old(self).results,
            final(self).mirror_results == old(self).mirror_results,
            final(self).testing_index == old(self).testing_index,
            final(self).status_message == old(self).status_message,
            if seq_contains_string(old(self).dns_servers@, addr@) {
                &&& final(self).dns_servers == old(self).dns_servers
                &&& final(self).error_message matches Some(m) && m@ == addr@
                    + " is already in the list"@
            } else {
                &&& final(self).dns_servers@ == old(self).dns_servers@.push(addr)
                &&& final(self).error_message is None
            },
    {
        let mut found = false;
        let mut i: usize = 0;
        while i < self.dns_servers.len()
            invariant
                i <= self.dns_servers@.len(),
                found == seq_contains_string(self.dns_servers@.take(i as int), addr@),
            decreases self.dns_servers@.len() - i,
        {
            if self.dns_servers[i] == addr {
                found = true;
            }
            proof {
                assert(self.dns_servers@.take(i as int + 1)[i as int] == self.dns_servers@[i as int]);
                assert forall|k: int| 0 <= k < i implies self.dns_servers@.take(i as int + 1)[k]
                    == self.dns_servers@.take(i as int)[k] by {}
            }
            i = i + 1;
        }
        proof {
            assert(self.dns_servers@.take(self.dns_servers@.len() as int) =~= self.dns_servers@);
        }
        if found {
            self.error_message = Some(addr.concat(" is already in the list"));
        } else {
            self.dns_servers.push(addr);
            self.error_message = None;
        }
    }

    /// Record that the submitted text was not a valid address.
    pub fn reject_invalid_address(&mut self, raw: String)
        ensures
            same_env(*old(self), *final(self)),
            same_candidates(*old(self), *final(self)),
            same_sort_settings(*old(self), *final(self)),
            same_best_and_last(*old(self), *final(self)),
            final(self).state == old(self).state,
            final(self).results == old(self).results,
            final(self).mirror_results == old(self).mirror_results,
            final(self).testing_index == old(self).testing_index,
            final(self).status_message == old(self).status_message,
            final(self).error_message matches Some(m) && m@ == "Invalid IP address: "@ + raw@,
    {
        self.error_message = Some(String::from_str("Invalid IP address: ").concat(raw.as_str()));
    }

    /// Drop the most recently added candidate address, if any. Candidates
    /// can only be edited in input phase.
    pub fn remove_last_dns_server(&mut self)
        requires
            old(self).state == AppState::Input,
        ensures
            same_env(*old(self), *final(self)),
            same_sort_settings(*old(self), *final(self)),
            same_messages(*old(self), *final(self)),
            same_best_and_last(*old(self), *final(self)),
            final(self).state == old(self).state,
            final(self).mirrors == old(self).mirrors,
            final(self).results == old(self).results,
            final(self).mirror_results == old(self).mirror_results,
            final(self).testing_index == old(self).testing_index,
            old(self).dns_servers@.len() == 0 ==> final(self).dns_servers == old(self).dns_servers,
            old(self).dns_servers@.len() > 0 ==> final(self).dns_servers@
                == old(self).dns_servers@.drop_last(),
    {
        if self.dns_servers.len() > 0 {
            self.dns_servers.pop();
        }
    }

    /// The address the cursor points at, if the snapshot is not exhausted.
    pub fn get_current_test_target(&self) -> (r: Option<String>)
        ensures
            match r {
                Some(ip) => self.testing_index < self.dns_servers@.len() && ip == self
                    .dns_servers@[self.testing_index as int],
                None => self.testing_index >= self.dns_servers@.len(),
            },
    {
        if self.testing_index < self.dns_servers.len() {
            Some(self.dns_servers[self.testing_index].clone())
        } else {
            None
        }
    }

    /// The candidate the dispatch protocol hands to the worker next: the
    /// cursor's candidate of the active mode.
    pub fn next_target(&self) -> (t: TestTarget)
        requires
            self.testing_index < active_candidate_count(*self),
        ensures
            match self.mode {
                AppMode::Dns => t == TestTarget::Dns(self.dns_servers@[self.testing_index as int]),
                AppMode::Mirror => t == TestTarget::Mirror(
                    self.mirrors@[self.testing_index as int],
                ),
            },
    {
        match self.mode {
            AppMode::Dns => TestTarget::Dns(self.dns_servers[self.testing_index].clone()),
            AppMode::Mirror => TestTarget::Mirror(self.mirrors[self.testing_index].clone()),
        }
    }

    /// Offer the cursor's candidate of the active mode to the outbound
    /// queue, when a queue is attached. The payload is exactly what
    /// `next_target` fixes, and this is the one place the crate sends.
    fn dispatch_current(&self)
        requires
            self.testing_index < active_candidate_count(*self),
    {
        let target = self.next_target();
        match &self.tx {
            Some(tx) => send_target(tx, target),
            None => {},
        }
    }

    /// Record one DNS measurement: remember it as last seen, fold it into
    /// the best pointer, append it to the results, and advance the cursor.
    /// Recording the final candidate ends the run and ranks the results.
    pub fn record_result(&mut self, result: DnsTestResult)
        requires
            old(self).testing_index < usize::MAX,
        ensures
            same_env(*old(self), *final(self)),
            same_candidates(*old(self), *final(self)),
            same_sort_settings(*old(self), *final(self)),
            same_messages(*old(self), *final(self)),
            final(self).last_result == Some(result),
            final(self).last_mirror_result == old(self).last_mirror_result,
            final(self).best_result == dns_best_step(old(self).best_result, result),
            final(self).best_mirror_result == old(self).best_mirror_result,
            final(self).testing_index == old(self).testing_index + 1,
            old(self).testing_index + 1 < old(self).dns_servers@.len() ==> {
                &&& final(self).state == old(self).state
                &&& final(self).results@ == old(self).results@.push(result)
                &&& final(self).mirror_results == old(self).mirror_results
            },
            old(self).testing_index + 1 >= old(self).dns_servers@.len() ==> {
                &&& final(self).state == AppState::Results
                &&& dns_list_sort_effect(
                    old(self).results@.push(result),
                    final(self).results@,
                    old(self).sort_column,
                    old(self).sort_ascending,
                    old(self).mode,
                )
                &&& mirror_list_sort_effect(
                    old(self).mirror_results@,
                    final(self).mirror_results@,
                    old(self).sort_column,
                    old(self).sort_ascending,
                    old(self).mode,
                )
            },
    {
        self.last_result = Some(result.clone());
        let replace: bool = match &self.best_result {
            Some(best) => is_dns_better(&result, best),
            None => result.error.is_none() && (result.latency_micros.is_some()
                || result.download_speed_bps.is_some()),
        };
        if replace {
            self.best_result = Some(result.clone());
        }
        self.results.push(result);
        self.testing_index = self.testing_index + 1;
        if self.testing_index >= self.dns_servers.len() {
            self.finish_testing();
        }
    }

    /// Record one mirror measurement; the mirror analogue of
    /// `record_result`.
    pub fn record_mirror_result(&mut self, result: MirrorTestResult)
        requires
            old(self).testing_index < usize::MAX,
        ensures
            same_env(*old(self), *final(self)),
            same_candidates(*old(self), *final(self)),
            same_sort_settings(*old(self), *final(self)),
            same_messages(*old(self), *final(self)),
            final(self).last_mirror_result == Some(result),
            final(self).last_result == old(self).last_result,
            final(self).best_mirror_result == mirror_best_step(
                old(self).best_mirror_result,
                result,
            ),
            final(self).best_result == old(self).best_result,
            final(self).testing_index == old(self).testing_index + 1,
            old(self).testing_index + 1 < old(self).mirrors@.len() ==> {
                &&& final(self).state == old(self).state
                &&& final(self).mirror_results@ == old(self).mirror_results@.push(result)
                &&& final(self).results == old(self).results
            },
            old(self).testing_index + 1 >= old(self).mirrors@.len() ==> {
                &&& final(self).state == AppState::Results
                &&& dns_list_sort_effect(
                    old(self).results@,
                    final(self).results@,
                    old(self).sort_column,
                    old(self).sort_ascending,
                    old(self).mode,
                )
                &&& mirror_list_sort_effect(
                    old(self).mirror_results@.push(result),
                    final(self).mirror_results@,
                    old(self).sort_column,
                    old(self).sort_ascending,
                    old(self).mode,
                )
            },
    {
        self.last_mirror_result = Some(result.clone());
        let replace: bool = match &self.best_mirror_result {
            Some(best) => is_mirror_better(&result, best),
            None => result.error.is_none() && result.speed_bps.is_some(),
        };
        if replace {
            self.best_mirror_result = Some(result.clone());
        }
        self.mirror_results.push(result);
        self.testing_index = self.testing_index + 1;
        if self.testing_index >= self.mirrors.len() {
            self.finish_testing();
        }
    }

    /// End the run and rank the results once.
    fn finish_testing(&mut self)
        ensures
            same_env(*old(self), *final(self)),
            same_candidates(*old(self), *final(self)),
            same_sort_settings(*old(self), *final(self)),
            same_messages(*old(self), *final(self)),
            same_best_and_last(*old(self), *final(self)),
            final(self).testing_index == old(self).testing_index,
            final(self).state == AppState::Results,
            dns_list_sort_effect(
                old(self).results@,
                final(self).results@,
                old(self).sort_column,
                old(self).sort_ascending,
                old(self).mode,
            ),
            mirror_list_sort_effect(
                old(self).mirror_results@,
                final(self).mirror_results@,
                old(self).sort_column,
                old(self).sort_ascending,
                old(self).mode,
            ),
    {
        self.state = AppState::Results;
        self.sort_results();
    }

    /// Rank whichever results list the active column and mode select, in the
    /// active direction. The other list is untouched.
    pub fn sort_results(&mut self)
        ensures
            same_env(*old(self), *final(self)),
            same_candidates(*old(self), *final(self)),
            same_sort_settings(*old(self), *final(self)),
            same_messages(*old(self), *final(self)),
            same_best_and_last(*old(self), *final(self)),
            final(self).state == old(self).state,
            final(self).testing_index == old(self).testing_index,
            dns_list_sort_effect(
                old(self).results@,
                final(self).results@,
                old(self).sort_column,
                old(self).sort_ascending,
                old(self).mode,
            ),
            mirror_list_sort_effect(
                old(self).mirror_results@,
                final(self).mirror_results@,
                old(self).sort_column,
                old(self).sort_ascending,
                old(self).mode,
            ),
    {
        let ascending = self.sort_ascending;
        match self.sort_column {
            SortColumn::Ip => {
                sort_dns_results(&mut self.results, SortColumn::Ip, ascending);
            },
            SortColumn::Latency => {
                sort_dns_results(&mut self.results, SortColumn::Latency, ascending);
            },
            SortColumn::DownloadSpeed => {
                if self.mode == AppMode::Dns {
                    sort_dns_results(&mut self.results, SortColumn::DownloadSpeed, ascending);
                } else {
                    sort_mirror_results(
                        &mut self.mirror_results,
                        SortColumn::DownloadSpeed,
                        ascending,
                    );
                }
            },
            SortColumn::Name => {
                sort_mirror_results(&mut self.mirror_results, SortColumn::Name, ascending);
            },
        }
    }

    /// Step to the next column of the ring and re-rank at once.
    pub fn cycle_sort_column(&mut self)
        ensures
            same_env(*old(self), *final(self)),
            same_candidates(*old(self), *final(self)),
            same_messages(*old(self), *final(self)),
            same_best_and_last(*old(self), *final(self)),
            final(self).state == old(self).state,
            final(self).testing_index == old(self).testing_index,
            final(self).sort_column == next_column(old(self).sort_column, old(self).mode),
            final(self).sort_ascending == old(self).sort_ascending,
            dns_list_sort_effect(
                old(self).results@,
                final(self).results@,
                next_column(old(self).sort_column, old(self).mode),
                old(self).sort_ascending,
                old(self).mode,
            ),
            mirror_list_sort_effect(
                old(self).mirror_results@,
                final(self).mirror_results@,
                next_column(old(self).sort_column, old(self).mode),
                old(self).sort_ascending,
                old(self).mode,
            ),
    {
        self.sort_column = match self.sort_column {
            SortColumn::Ip => SortColumn::Latency,
            SortColumn::Latency => SortColumn::DownloadSpeed,
            SortColumn::DownloadSpeed => {
                if self.mode == AppMode::Mirror {
                    SortColumn::Name
                } else {
                    SortColumn::Ip
                }
            },
            SortColumn::Name => SortColumn::Ip,
        };
        self.sort_results();
    }

    /// Flip the sort direction and re-rank at once.
    pub fn toggle_sort_direction(&mut self)
        ensures
            same_env(*old(self), *final(self)),
            same_candidates(*old(self), *final(self)),
            same_messages(*old(self), *final(self)),
            same_best_and_last(*old(self), *final(self)),
            final(self).state == old(self).state,
            final(self).testing_index == old(self).testing_index,
            final(self).sort_column == old(self).sort_column,
            final(self).sort_ascending == !old(self).sort_ascending,
            dns_list_sort_effect(
                old(self).results@,
                final(self).results@,
                old(self).sort_column,
                !old(self).sort_ascending,
                old(self).mode,
            ),
            mirror_list_sort_effect(
                old(self).mirror_results@,
                final(self).mirror_results@,
                old(self).sort_column,
                !old(self).sort_ascending,
                old(self).mode,
            ),
    {
        self.sort_ascending = !self.sort_ascending;
        self.sort_results();
    }

    /// Return to input phase: results, cursor, best pointers and the status
    /// line are cleared; the candidate list is retained.
    pub fn reset(&mut self)
        ensures
            same_env(*old(self), *final(self)),
            same_candidates(*old(self), *final(self)),
            same_sort_settings(*old(self), *final(self)),
            final(self).state == AppState::Input,
            final(self).results@.len() == 0,
            final(self).mirror_results@.len() == 0,
            final(self).last_result is None,
            final(self).last_mirror_result is None,
            final(self).best_result is None,
            final(self).best_mirror_result is None,
            final(self).testing_index == 0,
            final(self).status_message is None,
            final(self).error_message == old(self).error_message,
    {
        self.state = AppState::Input;
        self.results.clear();
        self.mirror_results.clear();
        self.last_result = None;
        self.last_mirror_result = None;
        self.best_result = None;
        self.best_mirror_result = None;
        self.testing_index = 0;
        self.status_message = None;
    }

    /// The address the apply action would configure: the best result's, if
    /// a best result exists.
    pub fn fastest_dns_target(&self) -> (r: Option<String>)
        ensures
            match r {
                Some(ip) => self.best_result matches Some(b) && ip == b.ip,
                None => self.best_result is None,
            },
    {
        match &self.best_result {
            Some(best) => Some(best.ip.clone()),
            None => None,
        }
    }

    /// Note that the system resolver was reconfigured to `ip`.
    pub fn note_apply_success(&mut self, ip: String)
        ensures
            same_env(*old(self), *final(self)),
            same_candidates(*old(self), *final(self)),
            same_sort_settings(*old(self), *final(self)),
            same_best_and_last(*old(self), *final(self)),
            final(self).state == old(self).state,
            final(self).results == old(self).results,
            final(self).mirror_results == old(self).mirror_results,
            final(self).testing_index == old(self).testing_index,
            final(self).error_message == old(self).error_message,
            final(self).status_message matches Some(p) && p.0@ == "Successfully set system DNS to "@
                + ip@ && p.1 == false,
    {
        self.status_message = Some(
            (String::from_str("Successfully set system DNS to ").concat(ip.as_str()), false),
        );
    }

    /// Note that reconfiguring the system resolver failed, with the
    /// failure's text.
    pub fn note_apply_failure(&mut self, err: String)
        ensures
            same_env(*old(self), *final(self)),
            same_candidates(*old(self), *final(self)),
            same_sort_settings(*old(self), *final(self)),
            same_best_and_last(*old(self), *final(self)),
            final(self).state == old(self).state,
            final(self).results == old(self).results,
            final(self).mirror_results == old(self).mirror_results,
            final(self).testing_index == old(self).testing_index,
            final(self).error_message == old(self).error_message,
            final(self).status_message matches Some(p) && p.0@ == "Failed to set system DNS: "@
                + err@ && p.1 == true,
    {
        self.status_message = Some(
            (String::from_str("Failed to set system DNS: ").concat(err.as_str()), true),
        );
    }

    /// Note that there is no best result to apply.
    pub fn note_no_valid_results(&mut self)
        ensures
            same_env(*old(self), *final(self)),
            same_candidates(*old(self), *final(self)),
            same_sort_settings(*old(self), *final(self)),
            same_best_and_last(*old(self), *final(self)),
            final(self).state == old(self).state,
            final(self).results == old(self).results,
            final(self).mirror_results == old(self).mirror_results,
            final(self).testing_index == old(self).testing_index,
            final(self).error_message == old(self).error_message,
            final(self).status_message matches Some(p) && p.0@ == "No valid test results available."@
                && p.1 == true,
    {
        self.status_message = Some(
            (String::from_str("No valid test results available."), true),
        );
    }

    /// Flip between DNS and mirror mode; permitted only in input phase, and
    /// clears the run state like a reset.
    pub fn toggle_mode(&mut self)
        ensures
            old(self).state != AppState::Input ==> *final(self) == *old(self),
            old(self).state == AppState::Input ==> {
                &&& final(self).mode == other_mode(old(self).mode)
                &&& final(self).state == AppState::Input
                &&& same_candidates(*old(self), *final(self))
                &&& same_sort_settings(*old(self), *final(self))
                &&& final(self).detected_distro == old(self).detected_distro
                &&& final(self).tx == old(self).tx
                &&& final(self).rx == old(self).rx
                &&& final(self).should_quit == old(self).should_quit
                &&& final(self).tick_count == old(self).tick_count
                &&& final(self).results@.len() == 0
                &&& final(self).mirror_results@.len() == 0
                &&& final(self).last_result is None
                &&& final(self).last_mirror_result is None
                &&& final(self).best_result is None
                &&& final(self).best_mirror_result is None
                &&& final(self).testing_index == 0
                &&& final(self).status_message is None
                &&& final(self).error_message == old(self).error_message
            },
    {
        if self.state == AppState::Input {
            self.mode = match self.mode {
                AppMode::Dns => AppMode::Mirror,
                AppMode::Mirror => AppMode::Dns,
            };
            self.reset();
        }
    }

    /// Begin a run over the active mode's candidates: clear prior results,
    /// reset the cursor, and dispatch the first candidate — the cursor's,
    /// as `next_target` fixes it — to the worker. A no-op when the active
    /// mode has no candidates.
    pub fn start_testing(&mut self)
        ensures
            !has_targets(*old(self)) ==> *final(self) == *old(self),
            has_targets(*old(self)) ==> {
                &&& same_env(*old(self), *final(self))
                &&& same_candidates(*old(self), *final(self))
                &&& same_sort_settings(*old(self), *final(self))
                &&& same_messages(*old(self), *final(self))
                &&& same_best_and_last(*old(self), *final(self))
                &&& final(self).state == AppState::Testing
                &&& final(self).testing_index == 0
                &&& final(self).results@.len() == 0
                &&& final(self).mirror_results@.len() == 0
            },
    {
        let nonempty = match self.mode {
            AppMode::Dns => self.dns_servers.len() > 0,
            AppMode::Mirror => self.mirrors.len() > 0,
        };
        if nonempty {
            self.state = AppState::Testing;
            self.testing_index = 0;
            self.results.clear();
            self.mirror_results.clear();
            self.dispatch_current();
        }
    }

    /// Drain every result waiting in the inbound queue. Each drained result
    /// is recorded in arrival order, and then either the cursor's candidate
    /// is dispatched through `next_target` or the run ends. Does nothing
    /// outside the testing phase.
    ///
    /// The drain is bounded by the number of candidates still outstanding
    /// plus one; under the single-in-flight protocol no more results than
    /// that can ever be waiting.
    pub fn update(&mut self)
        requires
            old(self).state == AppState::Testing ==> old(self).rx is Some,
        ensures
            old(self).state != AppState::Testing ==> *final(self) == *old(self),
            old(self).state == AppState::Testing ==> {
                &&& final(self).mode == old(self).mode
                &&& same_candidates(*old(self), *final(self))
                &&& same_sort_settings(*old(self), *final(self))
                &&& same_messages(*old(self), *final(self))
                &&& final(self).detected_distro == old(self).detected_distro
                &&& final(self).should_quit == old(self).should_quit
                &&& final(self).tick_count == old(self).tick_count
                &&& final(self).tx == old(self).tx
                &&& final(self).rx is Some
                &&& (final(self).state == AppState::Testing || final(self).state
                    == AppState::Results)
                &&& (final(self).state == AppState::Testing ==> old(self).results@
                    .is_prefix_of(final(self).results@) && old(self).mirror_results@
                    .is_prefix_of(final(self).mirror_results@))
                &&& (final(self).state == AppState::Results ==> final(self).testing_index
                    >= old(self).dns_servers@.len() || final(self).testing_index
                    >= old(self).mirrors@.len())
                &&& (final(self).state == AppState::Results && old(self).mode == AppMode::Dns
                    && final(self).mirror_results@.len() == old(self).mirror_results@.len()
                    ==> final(self).testing_index >= old(self).dns_servers@.len())
                &&& (final(self).state == AppState::Results && old(self).mode == AppMode::Mirror
                    && final(self).results@.len() == old(self).results@.len()
                    ==> final(self).testing_index >= old(self).mirrors@.len())
                &&& final(self).testing_index >= old(self).testing_index
                &&& exists|ds: Seq<DnsTestResult>, ms: Seq<MirrorTestResult>|
                    #[trigger] drained_outcome(*old(self), *final(self), ds, ms)
            },
    {
        broadcast use vstd::seq_lib::group_to_multiset_ensures;

        if self.state != AppState::Testing {
            return ;
        }
        let ghost pre = *self;
        let total0: usize = match self.mode {
            AppMode::Dns => self.dns_servers.len(),
            AppMode::Mirror => self.mirrors.len(),
        };
        let remaining: usize = if total0 > self.testing_index {
            total0 - self.testing_index
        } else {
            0
        };
        let mut fuel: usize = if remaining < usize::MAX {
            remaining + 1
        } else {
            remaining
        };
        let ghost mut ds: Seq<DnsTestResult> = Seq::empty();
        let ghost mut ms: Seq<MirrorTestResult> = Seq::empty();
        proof {
            assert(pre.results@ + ds =~= pre.results@);
            assert(pre.mirror_results@ + ms =~= pre.mirror_results@);
        }
        loop
            invariant
                pre == *old(self),
                pre.state == AppState::Testing,
                self.rx is Some,
                self.mode == pre.mode,
                self.dns_servers == pre.dns_servers,
                self.mirrors == pre.mirrors,
                self.sort_column == pre.sort_column,
                self.sort_ascending == pre.sort_ascending,
                self.should_quit == pre.should_quit,
                self.error_message == pre.error_message,
                self.status_message == pre.status_message,
                self.detected_distro == pre.detected_distro,
                self.tick_count == pre.tick_count,
                self.tx == pre.tx,
                self.state == AppState::Testing || self.state == AppState::Results,
                self.state == AppState::Testing ==> self.results@ == pre.results@ + ds
                    && self.mirror_results@ == pre.mirror_results@ + ms,
                self.results@.to_multiset() == (pre.results@ + ds).to_multiset(),
                self.mirror_results@.to_multiset() == (pre.mirror_results@ + ms).to_multiset(),
                self.results@.len() == pre.results@.len() + ds.len(),
                self.mirror_results@.len() == pre.mirror_results@.len() + ms.len(),
                self.testing_index == pre.testing_index + ds.len() + ms.len(),
                self.best_result == dns_best_fold(pre.best_result, ds),
                self.best_mirror_result == mirror_best_fold(pre.best_mirror_result, ms),
                self.last_result == (if ds.len() == 0 {
                    pre.last_result
                } else {
                    Some(ds.last())
                }),
                self.last_mirror_result == (if ms.len() == 0 {
                    pre.last_mirror_result
                } else {
                    Some(ms.last())
                }),
                self.state == AppState::Results ==> self.testing_index
                    >= pre.dns_servers@.len() || self.testing_index >= pre.mirrors@.len(),
                self.state == AppState::Results && pre.mode == AppMode::Dns && ms.len() == 0
                    ==> self.testing_index >= pre.dns_servers@.len(),
                self.state == AppState::Results && pre.mode == AppMode::Mirror && ds.len() == 0
                    ==> self.testing_index >= pre.mirrors@.len(),
            decreases fuel,
        {
            if fuel == 0 {
                break ;
            }
            let received: Option<TestResult> = match &mut self.rx {
                Some(rx) => recv_result(rx),
                None => None,
            };
            match received {
                None => {
                    break ;
                },
                Some(res) => {
                    // the cursor counts recorded probes and cannot reach the
                    // machine limit under the one-at-a-time protocol; the
                    // guard keeps the degenerate case from overflowing
                    if self.testing_index < usize::MAX {
                        match res {
                            TestResult::Dns(d) => {
                                let ghost dd = d;
                                let ghost r0 = self.results@;
                                let ghost m0 = self.mirror_results@;
                                self.record_result(d);
                                proof {
                                    lemma_dns_best_fold_push(pre.best_result, ds, dd);
                                    vstd::seq_lib::to_multiset_build(r0, dd);
                                    assert(r0.push(dd).to_multiset() == r0.to_multiset().insert(
                                        dd,
                                    ));
                                    assert(self.results@.to_multiset() == r0.push(
                                        dd,
                                    ).to_multiset());
                                    assert(self.mirror_results@.to_multiset()
                                        == m0.to_multiset());
                                    vstd::seq_lib::to_multiset_build(pre.results@ + ds, dd);
                                    assert((pre.results@ + ds).push(dd) =~= pre.results@ + ds.push(
                                        dd,
                                    ));
                                    ds = ds.push(dd);
                                }
                            },
                            TestResult::Mirror(m) => {
                                let ghost mm = m;
                                let ghost r0 = self.results@;
                                let ghost m0 = self.mirror_results@;
                                self.record_mirror_result(m);
                                proof {
                                    lemma_mirror_best_fold_push(pre.best_mirror_result, ms, mm);
                                    vstd::seq_lib::to_multiset_build(m0, mm);
                                    assert(m0.push(mm).to_multiset() == m0.to_multiset().insert(
                                        mm,
                                    ));
                                    assert(self.mirror_results@.to_multiset() == m0.push(
                                        mm,
                                    ).to_multiset());
                                    assert(self.results@.to_multiset() == r0.to_multiset());
                                    vstd::seq_lib::to_multiset_build(pre.mirror_results@ + ms, mm);
                                    assert((pre.mirror_results@ + ms).push(mm)
                                        =~= pre.mirror_results@ + ms.push(mm));
                                    ms = ms.push(mm);
                                }
                            },
                        }
                    }
                    let total: usize = match self.mode {
                        AppMode::Dns => self.dns_servers.len(),
                        AppMode::Mirror => self.mirrors.len(),
                    };
                    if self.testing_index < total {
                        self.dispatch_current();
                    } else {
                        self.finish_testing();
                    }
                    fuel = fuel - 1;
                },
            }
        }
        proof {
            assert((pre.results@ + ds).take(pre.results@.len() as int) =~= pre.results@);
            assert((pre.mirror_results@ + ms).take(pre.mirror_results@.len() as int)
                =~= pre.mirror_results@);
            assert(drained_outcome(pre, *self, ds, ms));
        }
    }
}

/// One key press, reduced to what the decision table reads.
#[derive(Debug, Clone, Copy, PartialEq, Eq, Structural)]
pub enum KeyPress {
    Char(char),
    Enter,
    Tab,
    Backspace,
    Other,
}

/// What the interactive loop should do with a key press.
#[derive(Debug, Clone, Copy, PartialEq, Eq, Structural)]
pub enum KeyAction {
    Quit,
    SubmitAddress,
    StartTesting,
    ToggleMode,
    RemoveLast,
    Reset,
    CycleSortColumn,
    ToggleSortDirection,
    ApplyFastest,
    EditInput,
    Ignore,
}

/// The decision table of the interactive loop: what each key does in each
/// phase.
pub open spec fn spec_key_action(state: AppState, key: KeyPress) -> KeyAction {
    match state {
        AppState::Input => match key {
            KeyPress::Char(c) => if c == 'q' {
                KeyAction::Quit
            } else if c == 'm' {
                KeyAction::ToggleMode
            } else {
                KeyAction::EditInput
            },
            KeyPress::Enter => KeyAction::SubmitAddress,
            KeyPress::Tab => KeyAction::StartTesting,
            KeyPress::Backspace => KeyAction::RemoveLast,
            KeyPress::Other => KeyAction::EditInput,
        },
        AppState::Testing => match key {
            KeyPress::Char(c) => if c == 'q' {
                KeyAction::Quit
            } else {
                KeyAction::Ignore
            },
            _ => KeyAction::Ignore,
        },
        AppState::Results => match key {
            KeyPress::Char(c) => if c == 'q' {
                KeyAction::Quit
            } else if c == 'r' {
                KeyAction::Reset
            } else if c == 's' {
                KeyAction::CycleSortColumn
            } else if c == 'd' {
                KeyAction::ToggleSortDirection
            } else if c == 'a' {
                KeyAction::ApplyFastest
            } else if c == 'm' {
                KeyAction::ToggleMode
            } else {
                KeyAction::Ignore
            },
            _ => KeyAction::Ignore,
        },
    }
}

/// Decide what a key press does in the current phase.
pub fn key_action(state: &AppState, key: &KeyPress) -> (r: KeyAction)
    ensures
        r == spec_key_action(*state, *key),
{
    match state {
        AppState::Input => match key {
            KeyPress::Char(c) => {
                if *c == 'q' {
                    KeyAction::Quit
                } else if *c == 'm' {
                    KeyAction::ToggleMode
                } else {
                    KeyAction::EditInput
                }
            },
            KeyPress::Enter => KeyAction::SubmitAddress,
            KeyPress::Tab => KeyAction::StartTesting,
            KeyPress::Backspace => KeyAction::RemoveLast,
            KeyPress::Other => KeyAction::EditInput,
        },
        AppState::Testing => match key {
            KeyPress::Char(c) => {
                if *c == 'q' {
                    KeyAction::Quit
                } else {
                    KeyAction::Ignore
                }
            },
            _ => KeyAction::Ignore,
        },
        AppState::Results => match key {
            KeyPress::Char(c) => {
                if *c == 'q' {
                    KeyAction::Quit
                } else if *c == 'r' {
                    KeyAction::Reset
                } else if *c == 's' {
                    KeyAction::CycleSortColumn
                } else if *c == 'd' {
                    KeyAction::ToggleSortDirection
                } else if *c == 'a' {
                    KeyAction::ApplyFastest
                } else if *c == 'm' {
                    KeyAction::ToggleMode
                } else {
                    KeyAction::Ignore
                }
            },
            _ => KeyAction::Ignore,
        },
    }
}

/// The spinner frame each animation tick selects.
pub open spec fn spec_spinner(tick: u64) -> Seq<char> {
    let i = tick % 10;
    if i == 0 {
        "\u{280b}"@
    } else if i == 1 {
        "\u{2819}"@
    } else if i == 2 {
        "\u{2839}"@
    } else if i == 3 {
        "\u{2838}"@
    } else if i == 4 {
        "\u{283c}"@
    } else if i == 5 {
        "\u{2834}"@
    } else if i == 6 {
        "\u{2826}"@
    } else if i == 7 {
        "\u{2827}"@
    } else if i == 8 {
        "\u{2807}"@
    } else {
        "\u{280f}"@
    }
}

/// The spinner frame to draw while a run is in progress.
pub fn get_spinner(tick: u64) -> (r: &'static str)
    ensures
        r@ == spec_spinner(tick),
{
    let i: u64 = tick % 10;
    if i == 0 {
        "\u{280b}"
    } else if i == 1 {
        "\u{2819}"
    } else if i == 2 {
        "\u{2839}"
    } else if i == 3 {
        "\u{2838}"
    } else if i == 4 {
        "\u{283c}"
    } else if i == 5 {
        "\u{2834}"
    } else if i == 6 {
        "\u{2826}"
    } else if i == 7 {
        "\u{2827}"
    } else if i == 8 {
        "\u{2807}"
    } else {
        "\u{280f}"
    }
}

} // verus!
