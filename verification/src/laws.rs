//! What holds of the event fold whatever the events are.

use crate::formats::{EventView, ServiceStatus, ServiceView};
use crate::repository::RepoView;
use crate::runtime::tick_events;
use crate::service_handler::HandlerView;
use crate::validation::names_unique;
use vstd::prelude::*;

verus! {

/// Folding an event changes neither the number of handlers nor the service
/// that each of them stands for.
pub proof fn lemma_fold_keeps_services(repo: RepoView, event: EventView)
    ensures
        repo.fold(event).handlers.len() == repo.handlers.len(),
        forall|i: int|
            0 <= i < repo.handlers.len() ==> (#[trigger] repo.fold(event).handlers[i]).service
                == repo.handlers[i].service,
        repo.fold(event).services() == repo.services(),
{
    assert(repo.fold(event).services() =~= repo.services());
}

/// A run of events changes neither the number of handlers nor the service
/// that each of them stands for.
pub proof fn lemma_run_keeps_services(repo: RepoView, events: Seq<EventView>)
    ensures
        repo.fold_all(events).handlers.len() == repo.handlers.len(),
        forall|i: int|
            0 <= i < repo.handlers.len() ==> (#[trigger] repo.fold_all(events).handlers[i]).service
                == repo.handlers[i].service,
        repo.fold_all(events).services() == repo.services(),
    decreases events.len(),
{
    if events.len() > 0 {
        lemma_run_keeps_services(repo, events.drop_last());
        lemma_fold_keeps_services(repo.fold_all(events.drop_last()), events.last());
    }
}

/// Folding two runs one after the other is folding their concatenation: how
/// the events are batched does not matter.
pub proof fn lemma_run_in_batches(repo: RepoView, first: Seq<EventView>, second: Seq<EventView>)
    ensures
        repo.fold_all(first + second) == repo.fold_all(first).fold_all(second),
    decreases second.len(),
{
    if second.len() == 0 {
        assert(first + second =~= first);
    } else {
        assert((first + second).drop_last() =~= first + second.drop_last());
        assert((first + second).last() == second.last());
        lemma_run_in_batches(repo, first, second.drop_last());
    }
}

/// After every event, a handler that holds a pid is running or being killed.
pub proof fn law_pid_only_while_alive(repo: RepoView, event: EventView)
    requires
        repo.wf(),
    ensures
        repo.fold(event).wf(),
{
    assert forall|i: int| 0 <= i < repo.fold(event).handlers.len() implies (
    #[trigger] repo.fold(event).handlers[i]).wf() by {
        assert(repo.handlers[i].wf());
    }
}

/// A freshly built table upholds the pid invariant, and so does the table
/// after any run of events.
pub proof fn law_pid_only_while_alive_run(repo: RepoView, events: Seq<EventView>)
    requires
        repo.wf(),
    ensures
        repo.fold_all(events).wf(),
    decreases events.len(),
{
    if events.len() > 0 {
        law_pid_only_while_alive_run(repo, events.drop_last());
        law_pid_only_while_alive(repo.fold_all(events.drop_last()), events.last());
    }
}

/// Every handler of a freshly built table is waiting without a pid.
pub proof fn lemma_fresh_is_wf(services: Seq<ServiceView>)
    ensures
        RepoView::fresh(services).wf(),
        RepoView::fresh(services).services() == services,
{
    assert(RepoView::fresh(services).services() =~= services);
}

/// Stopping everything keeps the pid invariant.
pub proof fn law_pid_only_while_alive_stop(repo: RepoView)
    requires
        repo.wf(),
    ensures
        repo.stopped().wf(),
{
    assert forall|i: int| 0 <= i < repo.stopped().handlers.len() implies (
    #[trigger] repo.stopped().handlers[i]).wf() by {
        assert(repo.handlers[i].wf());
    }
}

/// No event moves a handler out of a terminal status.
pub proof fn law_terminal_is_final(repo: RepoView, event: EventView, i: int)
    requires
        repo.wf(),
        0 <= i < repo.handlers.len(),
        repo.handlers[i].status.spec_is_terminal(),
    ensures
        repo.fold(event).handlers[i] == repo.handlers[i],
{
    assert(repo.handlers[i].wf());
}

/// No run of events moves a handler out of a terminal status.
pub proof fn law_terminal_is_final_run(repo: RepoView, events: Seq<EventView>, i: int)
    requires
        repo.wf(),
        0 <= i < repo.handlers.len(),
        repo.handlers[i].status.spec_is_terminal(),
    ensures
        repo.fold_all(events).handlers[i] == repo.handlers[i],
    decreases events.len(),
{
    if events.len() > 0 {
        law_terminal_is_final_run(repo, events.drop_last(), i);
        law_pid_only_while_alive_run(repo, events.drop_last());
        lemma_run_keeps_services(repo, events.drop_last());
        law_terminal_is_final(repo.fold_all(events.drop_last()), events.last(), i);
    }
}

/// Stopping everything moves no handler out of a terminal status.
pub proof fn law_terminal_is_final_stop(repo: RepoView, i: int)
    requires
        0 <= i < repo.handlers.len(),
        repo.handlers[i].status.spec_is_terminal(),
    ensures
        repo.stopped().handlers[i] == repo.handlers[i],
{
}

/// No two handlers hold the same pid.
pub open spec fn pids_distinct(repo: RepoView) -> bool {
    forall|i: int, j: int|
        0 <= i < j < repo.handlers.len() && (#[trigger] repo.handlers[i]).pid is Some
            ==> repo.handlers[i].pid != (#[trigger] repo.handlers[j]).pid
}

/// Whether the event hands a handler a pid that another handler holds.
pub open spec fn reuses_held_pid(repo: RepoView, event: EventView) -> bool {
    event matches EventView::ServicePidAssigned(name, pid) && exists|i: int, j: int|
        0 <= i < repo.handlers.len() && 0 <= j < repo.handlers.len() && i != j && (
        #[trigger] repo.handlers[i]).service.name == name && (repo.handlers[i].status is ToBeRun
            || repo.handlers[i].status is Starting) && (#[trigger] repo.handlers[j]).pid == Some(
            pid,
        )
}

/// The pids that handlers hold stay distinct under every event, except one
/// that hands a handler a pid which another handler still holds.
pub proof fn law_pids_stay_distinct(repo: RepoView, event: EventView)
    requires
        repo.wf(),
        names_unique(repo.services()),
        pids_distinct(repo),
        !reuses_held_pid(repo, event),
    ensures
        pids_distinct(repo.fold(event)),
{
    let after = repo.fold(event);
    assert forall|i: int, j: int|
        0 <= i < j < after.handlers.len() && (#[trigger] after.handlers[i]).pid is Some implies after.handlers[i].pid
        != (#[trigger] after.handlers[j]).pid by {
        let a = repo.handlers[i];
        let b = repo.handlers[j];
        assert(a.wf() && b.wf());
        assert(repo.services()[i].name != repo.services()[j].name);
        if after.handlers[i].pid == after.handlers[j].pid {
            if a.pid is Some && b.pid is Some {
                assert(a.pid != b.pid);
            }
        }
    }
}

/// Two tables that were built for the same services and have folded the same
/// events are in the same state.
pub proof fn law_event_order_determinism(
    services: Seq<ServiceView>,
    events: Seq<EventView>,
    first: RepoView,
    second: RepoView,
)
    requires
        first == RepoView::fresh(services).fold_all(events),
        second == RepoView::fresh(services).fold_all(events),
    ensures
        first == second,
{
}

/// Folding any event a second time changes nothing.
pub proof fn law_fold_is_idempotent(repo: RepoView, event: EventView)
    ensures
        repo.fold(event).fold(event) == repo.fold(event),
{
    assert(repo.fold(event).fold(event).handlers =~= repo.fold(event).handlers);
}

/// Folding the same exit twice is folding it once: the first fold clears the
/// pid, so the second finds nothing to do.
pub proof fn law_restart_idempotence(repo: RepoView, name: Seq<char>, exit_code: i32)
    ensures
        repo.fold(EventView::ServiceExited(name, exit_code)).fold(
            EventView::ServiceExited(name, exit_code),
        ) == repo.fold(EventView::ServiceExited(name, exit_code)),
{
    law_fold_is_idempotent(repo, EventView::ServiceExited(name, exit_code));
}

/// Whether every handler that is alive holds a pid and none is still being
/// started.
pub open spec fn settled(repo: RepoView) -> bool {
    forall|i: int|
        0 <= i < repo.handlers.len() ==> {
            let h = #[trigger] repo.handlers[i];
            &&& !(h.status is Starting)
            &&& h.status.spec_may_hold_pid() ==> h.pid is Some
        }
}

/// Whether the event moves a handler to where it is alive without a pid, or
/// to where it is still being started.
pub open spec fn unsettles(repo: RepoView, event: EventView) -> bool {
    event matches EventView::StatusChanged(name, status) && (status is Starting || (
    status.spec_may_hold_pid() && exists|i: int|
        0 <= i < repo.handlers.len() && (#[trigger] repo.handlers[i]).service.name == name
            && !repo.handlers[i].status.spec_is_terminal() && repo.handlers[i].pid is None))
}

/// A fresh table is settled, and a settled table stays settled under every
/// event but a status change that itself unsettles it. Stopping everything
/// keeps a table settled too.
pub proof fn law_settled_is_kept(services: Seq<ServiceView>, repo: RepoView, event: EventView)
    requires
        repo.wf(),
        settled(repo),
    ensures
        settled(RepoView::fresh(services)),
        !unsettles(repo, event) ==> settled(repo.fold(event)),
        settled(repo.stopped()),
{
    if !unsettles(repo, event) {
        assert forall|i: int| 0 <= i < repo.fold(event).handlers.len() implies {
            let h = #[trigger] repo.fold(event).handlers[i];
            &&& !(h.status is Starting)
            &&& h.status.spec_may_hold_pid() ==> h.pid is Some
        } by {
            let before = repo.handlers[i];
            assert(before.wf());
            assert(!(before.status is Starting));
        }
    }
    assert forall|i: int| 0 <= i < repo.stopped().handlers.len() implies {
        let h = #[trigger] repo.stopped().handlers[i];
        &&& !(h.status is Starting)
        &&& h.status.spec_may_hold_pid() ==> h.pid is Some
    } by {
        let before = repo.handlers[i];
        assert(!(before.status is Starting));
    }
}

/// Whether the event is an exit of the named service.
pub open spec fn is_exit_of(event: EventView, name: Seq<char>) -> bool {
    event matches EventView::ServiceExited(n, _) && n == name
}

/// Whether the run winds the services down: it holds an exit for every pid
/// that is held, and no status change that would take a service back to
/// where it waits for a process.
pub open spec fn winds_down(repo: RepoView, events: Seq<EventView>) -> bool {
    &&& forall|k: int|
        0 <= k < events.len() ==> ((#[trigger] events[k]) matches EventView::StatusChanged(
            _,
            status,
        ) ==> status.spec_is_terminal() || status.spec_may_hold_pid())
    &&& forall|i: int|
        0 <= i < repo.handlers.len() && (#[trigger] repo.handlers[i]).pid is Some ==> exists|
            k: int,
        |
            0 <= k < events.len() && is_exit_of(#[trigger] events[k], repo.handlers[i].service.name)
}

/// While shutting down, a run without status changes back to waiting leaves
/// a handler terminal once it holds the handler's exit; until then the
/// handler keeps its pid.
proof fn lemma_exits_settle(repo: RepoView, events: Seq<EventView>, i: int)
    requires
        repo.wf(),
        repo.shutting_down,
        0 <= i < repo.handlers.len(),
        repo.handlers[i].status.spec_is_terminal() || repo.handlers[i].pid is Some,
        forall|k: int|
            0 <= k < events.len() ==> ((#[trigger] events[k]) matches EventView::StatusChanged(
                _,
                status,
            ) ==> status.spec_is_terminal() || status.spec_may_hold_pid()),
    ensures
        repo.fold_all(events).shutting_down,
        repo.fold_all(events).handlers.len() == repo.handlers.len(),
        repo.fold_all(events).handlers[i].status.spec_is_terminal() || (repo.fold_all(
            events,
        ).handlers[i].pid is Some && forall|k: int|
            0 <= k < events.len() ==> !is_exit_of(
                #[trigger] events[k],
                repo.handlers[i].service.name,
            )),
    decreases events.len(),
{
    if events.len() > 0 {
        let earlier = events.drop_last();
        lemma_exits_settle(repo, earlier, i);
        law_pid_only_while_alive_run(repo, earlier);
        lemma_run_keeps_services(repo, earlier);
        let mid = repo.fold_all(earlier);
        assert(mid.handlers[i].wf());
        assert(mid.handlers[i].service == repo.handlers[i].service);
        if !mid.handlers[i].status.spec_is_terminal() {
            assert forall|k: int| 0 <= k < earlier.len() implies !is_exit_of(
                #[trigger] events[k],
                repo.handlers[i].service.name,
            ) by {
                assert(earlier[k] == events[k]);
            }
        }
    }
}

/// Once a shutdown has been requested and everything has been stopped, the
/// exits of the processes that are still alive leave every handler terminal,
/// whatever else is folded in between, as long as no status change takes a
/// service back to where it waits for a process.
///
/// This is stated of tables in which every handler that is alive holds a pid
/// and none is still being started: a handler without a pid has no exit to
/// wait for.
pub proof fn law_shutdown_convergence(repo: RepoView, events: Seq<EventView>)
    requires
        repo.wf(),
        settled(repo),
        winds_down(repo, events),
    ensures
        repo.fold(EventView::ShutdownRequested).stopped().fold_all(events).all_terminal(),
{
    let stopping = repo.fold(EventView::ShutdownRequested).stopped();
    law_pid_only_while_alive(repo, EventView::ShutdownRequested);
    law_pid_only_while_alive_stop(repo.fold(EventView::ShutdownRequested));
    let done = stopping.fold_all(events);
    lemma_run_keeps_services(stopping, events);
    assert forall|i: int| 0 <= i < done.handlers.len() implies (
    #[trigger] done.handlers[i]).status.spec_is_terminal() by {
        let h = repo.handlers[i];
        assert(h.wf());
        assert(stopping.handlers[i] == h.fold(EventView::ShutdownRequested, repo.shutting_down).stopped());
        lemma_exits_settle(stopping, events, i);
        if !done.handlers[i].status.spec_is_terminal() {
            if stopping.handlers[i].status.spec_is_terminal() {
                law_terminal_is_final_run(stopping, events, i);
            }
            assert(h.pid is Some);
            let k = choose|k: int|
                0 <= k < events.len() && is_exit_of(#[trigger] events[k], h.service.name);
            assert(!is_exit_of(events[k], stopping.handlers[i].service.name));
        }
    }
}

/// Whether, at some point of the run, a service of that name had a status
/// that lets its successors start.
pub open spec fn started_during(repo: RepoView, events: Seq<EventView>, name: Seq<char>) -> bool {
    exists|t: int|
        0 <= t <= events.len() && repo.fold_all(#[trigger] events.take(t)).has_started(name)
}

/// Whether every service that the handler starts after has, at some point of
/// the run, had a status that lets its successors start.
pub open spec fn predecessors_started_during(
    repo: RepoView,
    events: Seq<EventView>,
    handler: HandlerView,
) -> bool {
    forall|k: int|
        0 <= k < handler.service.start_after.len() ==> started_during(
            repo,
            events,
            #[trigger] handler.service.start_after[k],
        )
}

/// Whether the event, folded after the run `history`, respects the start
/// order: a status change takes a handler out of its initial status only to
/// finish it unstarted, or once all its predecessors have started.
pub open spec fn respects_start_order(
    repo: RepoView,
    history: Seq<EventView>,
    event: EventView,
) -> bool {
    event matches EventView::StatusChanged(name, status) ==> forall|i: int|
        0 <= i < repo.handlers.len() && (#[trigger] repo.fold_all(history).handlers[i]).service.name
            == name && repo.fold_all(history).handlers[i].status is Initial ==> {
            ||| status is Initial
            ||| status is Finished
            ||| predecessors_started_during(repo, history, repo.fold_all(history).handlers[i])
        }
}

/// Whether every event of the run respects the start order after the events
/// before it.
pub open spec fn orderly(repo: RepoView, events: Seq<EventView>) -> bool {
    forall|t: int|
        0 <= t < events.len() ==> respects_start_order(repo, #[trigger] events.take(t), events[t])
}

/// Whether the status shows that the handler has been scheduled at some point.
pub open spec fn shows_scheduling(status: ServiceStatus) -> bool {
    !(status is Initial) && !(status is Finished)
}

/// What has started during the beginning of a run has started during the run.
pub proof fn lemma_started_during_prefix(
    repo: RepoView,
    events: Seq<EventView>,
    t: int,
    name: Seq<char>,
)
    requires
        0 <= t <= events.len(),
        started_during(repo, events.take(t), name),
    ensures
        started_during(repo, events, name),
{
    let so_far = events.take(t);
    let u = choose|u: int|
        0 <= u <= so_far.len() && repo.fold_all(#[trigger] so_far.take(u)).has_started(name);
    assert(so_far.take(u) =~= events.take(u));
}

/// The beginning of an orderly run is orderly.
pub proof fn lemma_orderly_prefix(repo: RepoView, events: Seq<EventView>, t: int)
    requires
        orderly(repo, events),
        0 <= t <= events.len(),
    ensures
        orderly(repo, events.take(t)),
{
    let so_far = events.take(t);
    assert forall|u: int| 0 <= u < so_far.len() implies respects_start_order(
        repo,
        #[trigger] so_far.take(u),
        so_far[u],
    ) by {
        assert(so_far.take(u) =~= events.take(u));
        assert(respects_start_order(repo, events.take(u), events[u]));
    }
}

/// In an orderly run from a fresh table, a handler whose status shows at the
/// end that it has been scheduled starts only after services that have, at
/// some point of the run, been running or finished.
proof fn lemma_start_order_at_end(
    services: Seq<ServiceView>,
    events: Seq<EventView>,
    i: int,
    k: int,
)
    requires
        orderly(RepoView::fresh(services), events),
        0 <= i < services.len(),
        0 <= k < services[i].start_after.len(),
        shows_scheduling(RepoView::fresh(services).fold_all(events).handlers[i].status),
    ensures
        started_during(RepoView::fresh(services), events, services[i].start_after[k]),
    decreases events.len(),
{
    let fresh = RepoView::fresh(services);
    let name = services[i].start_after[k];
    lemma_fresh_is_wf(services);
    if events.len() == 0 {
        assert(fresh.handlers[i].status is Initial);
    } else {
        let last = events.len() - 1;
        let earlier = events.drop_last();
        let before = fresh.fold_all(earlier);
        lemma_run_keeps_services(fresh, earlier);
        law_pid_only_while_alive_run(fresh, earlier);
        assert(events.take(last) =~= earlier);
        assert(before.handlers[i].wf());
        assert(before.handlers[i].service == services[i]);
        if shows_scheduling(before.handlers[i].status) {
            lemma_orderly_prefix(fresh, events, last);
            lemma_start_order_at_end(services, earlier, i, k);
        } else {
            assert(respects_start_order(fresh, events.take(last), events[last]));
            assert(predecessors_started_during(fresh, earlier, before.handlers[i]));
            assert(started_during(fresh, earlier, before.handlers[i].service.start_after[k]));
        }
        lemma_started_during_prefix(fresh, events, last, name);
    }
}

/// In an orderly run from a fresh table, a handler that has at some point
/// shown that it was scheduled starts only after services that have, at some
/// point of the run, been running or finished.
///
/// A run is orderly when no status change takes a handler out of its initial
/// status before its predecessors have started, except to finish it
/// unstarted. A handler that was finished without ever being scheduled never
/// shows scheduling, and the law says nothing of it.
pub proof fn law_start_order(
    services: Seq<ServiceView>,
    events: Seq<EventView>,
    t: int,
    i: int,
    k: int,
)
    requires
        orderly(RepoView::fresh(services), events),
        0 <= t <= events.len(),
        0 <= i < services.len(),
        0 <= k < services[i].start_after.len(),
        shows_scheduling(RepoView::fresh(services).fold_all(events.take(t)).handlers[i].status),
    ensures
        started_during(RepoView::fresh(services), events, services[i].start_after[k]),
{
    lemma_orderly_prefix(RepoView::fresh(services), events, t);
    lemma_start_order_at_end(services, events.take(t), i, k);
    lemma_started_during_prefix(RepoView::fresh(services), events, t, services[i].start_after[k]);
}

/// The status changes that hand the runnable handlers among the first `n` to
/// the spawner.
spec fn schedule_events_upto(repo: RepoView, n: int) -> Seq<EventView> {
    repo.handlers.take(n).filter(|h: HandlerView| repo.is_runnable(h)).map_values(
        |h: HandlerView| EventView::StatusChanged(h.service.name, ServiceStatus::ToBeRun),
    )
}

/// The handler once it has been handed to the spawner.
pub open spec fn handed_over(handler: HandlerView) -> HandlerView {
    HandlerView { status: ServiceStatus::ToBeRun, pid: None, ..handler }
}

/// One more event at the end of a run is folded last.
pub proof fn lemma_run_then_one(repo: RepoView, events: Seq<EventView>, event: EventView)
    ensures
        repo.fold_all(events.push(event)) == repo.fold_all(events).fold(event),
{
    assert(events.push(event).drop_last() =~= events);
}

/// A handler that can be started now has predecessors that have started.
pub proof fn lemma_runnable_has_started_predecessors(
    repo: RepoView,
    history: Seq<EventView>,
    handler: HandlerView,
)
    requires
        repo.fold_all(history).is_runnable(handler),
    ensures
        predecessors_started_during(repo, history, handler),
{
    assert(history.take(history.len() as int) =~= history);
}

/// A run is orderly when its beginning is, and its last event respects the
/// start order after the beginning.
pub proof fn lemma_orderly_then_one(repo: RepoView, events: Seq<EventView>, event: EventView)
    requires
        orderly(repo, events),
        respects_start_order(repo, events, event),
    ensures
        orderly(repo, events.push(event)),
{
    let longer = events.push(event);
    assert forall|t: int| 0 <= t < longer.len() implies respects_start_order(
        repo,
        #[trigger] longer.take(t),
        longer[t],
    ) by {
        if t < events.len() {
            assert(longer.take(t) =~= events.take(t));
            assert(respects_start_order(repo, events.take(t), events[t]));
        } else {
            assert(longer.take(t) =~= events);
        }
    }
}

/// Two orderly runs, the second from where the first ends, make one orderly
/// run.
pub proof fn lemma_orderly_runs_compose(
    repo: RepoView,
    first: Seq<EventView>,
    second: Seq<EventView>,
)
    requires
        orderly(repo, first),
        orderly(repo.fold_all(first), second),
    ensures
        orderly(repo, first + second),
{
    let whole = first + second;
    let middle = repo.fold_all(first);
    lemma_run_keeps_services(repo, first);
    assert forall|t: int| 0 <= t < whole.len() implies respects_start_order(
        repo,
        #[trigger] whole.take(t),
        whole[t],
    ) by {
        if t < first.len() {
            assert(whole.take(t) =~= first.take(t));
            assert(respects_start_order(repo, first.take(t), first[t]));
        } else {
            let u = t - first.len();
            let history = whole.take(t);
            assert(history =~= first + second.take(u));
            lemma_run_in_batches(repo, first, second.take(u));
            assert(respects_start_order(middle, second.take(u), second[u]));
            let now = repo.fold_all(history);
            assert forall|i: int, k: int|
                0 <= i < repo.handlers.len() && 0 <= k < now.handlers[i].service.start_after.len()
                    && started_during(
                    middle,
                    second.take(u),
                    now.handlers[i].service.start_after[k],
                ) implies started_during(
                repo,
                history,
                #[trigger] now.handlers[i].service.start_after[k],
            ) by {
                let name = now.handlers[i].service.start_after[k];
                let v = choose|v: int|
                    0 <= v <= second.take(u).len() && middle.fold_all(
                        #[trigger] second.take(u).take(v),
                    ).has_started(name);
                lemma_run_in_batches(repo, first, second.take(u).take(v));
                assert(history.take(first.len() + v) =~= first + second.take(u).take(v));
            }
        }
    }
}

/// Handing over the runnable handlers among the first `n` changes exactly
/// those, and is an orderly run.
proof fn lemma_schedule_upto(repo: RepoView, n: int)
    requires
        repo.wf(),
        names_unique(repo.services()),
        0 <= n <= repo.handlers.len(),
    ensures
        repo.fold_all(schedule_events_upto(repo, n)).shutting_down == repo.shutting_down,
        repo.fold_all(schedule_events_upto(repo, n)).handlers.len() == repo.handlers.len(),
        forall|j: int|
            0 <= j < repo.handlers.len() ==> #[trigger] repo.fold_all(
                schedule_events_upto(repo, n),
            ).handlers[j] == (if j < n && repo.is_runnable(repo.handlers[j]) {
                handed_over(repo.handlers[j])
            } else {
                repo.handlers[j]
            }),
        orderly(repo, schedule_events_upto(repo, n)),
    decreases n,
{
    let wanted = |h: HandlerView| repo.is_runnable(h);
    let announce = |h: HandlerView|
        EventView::StatusChanged(h.service.name, ServiceStatus::ToBeRun);
    if n == 0 {
        assert(repo.handlers.take(0).filter(wanted) =~= Seq::<HandlerView>::empty()) by {
            repo.handlers.take(0).lemma_filter_len(wanted);
        }
        assert(schedule_events_upto(repo, 0) =~= Seq::<EventView>::empty());
    } else {
        lemma_schedule_upto(repo, n - 1);
        let h = repo.handlers[n - 1];
        let earlier = schedule_events_upto(repo, n - 1);
        let before = repo.fold_all(earlier);
        assert(repo.handlers.take(n) =~= repo.handlers.take(n - 1).push(h));
        repo.handlers.take(n - 1).lemma_filter_push(h, wanted);
        if repo.is_runnable(h) {
            let event = announce(h);
            assert(schedule_events_upto(repo, n) =~= earlier.push(event));
            lemma_run_then_one(repo, earlier, event);
            let after = before.fold(event);
            assert(h.wf());
            assert forall|j: int| 0 <= j < repo.handlers.len() implies #[trigger] after.handlers[j]
                == (if j < n && repo.is_runnable(repo.handlers[j]) {
                handed_over(repo.handlers[j])
            } else {
                repo.handlers[j]
            }) by {
                assert(after.handlers[j] == before.handlers[j].fold(event, before.shutting_down));
                if j != n - 1 {
                    if j < n - 1 {
                        assert(repo.services()[j].name != repo.services()[n - 1].name);
                    } else {
                        assert(repo.services()[n - 1].name != repo.services()[j].name);
                    }
                }
            }
            assert(respects_start_order(repo, earlier, event)) by {
                assert forall|i: int|
                    0 <= i < before.handlers.len() && (#[trigger] before.handlers[i]).service.name
                        == h.service.name && before.handlers[i].status is Initial implies predecessors_started_during(
                    repo,
                    earlier,
                    before.handlers[i],
                ) by {
                    if i < n - 1 {
                        assert(repo.services()[i].name != repo.services()[n - 1].name);
                    } else if i > n - 1 {
                        assert(repo.services()[n - 1].name != repo.services()[i].name);
                    }
                    assert(before.handlers[i] == h);
                    assert forall|k: int| 0 <= k < h.service.start_after.len() implies before.has_started(
                        #[trigger] h.service.start_after[k],
                    ) by {
                        assert(repo.has_started(h.service.start_after[k]));
                        let j = choose|j: int|
                            0 <= j < repo.handlers.len() && (#[trigger] repo.handlers[j]).service.name
                                == h.service.start_after[k]
                                && repo.handlers[j].status.spec_lets_successors_start();
                        assert(before.handlers[j] == repo.handlers[j]);
                    }
                    lemma_runnable_has_started_predecessors(repo, earlier, h);
                }
            }
            lemma_orderly_then_one(repo, earlier, event);
        } else {
            assert(schedule_events_upto(repo, n) =~= earlier);
        }
    }
}

/// Scheduling hands every runnable handler to the spawner and leaves the
/// others as they are.
pub proof fn law_schedule_marks_runnable(repo: RepoView, j: int)
    requires
        repo.wf(),
        names_unique(repo.services()),
        0 <= j < repo.handlers.len(),
    ensures
        repo.scheduled().handlers.len() == repo.handlers.len(),
        repo.scheduled().shutting_down == repo.shutting_down,
        repo.scheduled().handlers[j] == (if repo.is_runnable(repo.handlers[j]) {
            handed_over(repo.handlers[j])
        } else {
            repo.handlers[j]
        }),
{
    lemma_schedule_upto(repo, repo.handlers.len() as int);
    assert(repo.handlers.take(repo.handlers.len() as int) =~= repo.handlers);
}

/// The status changes that scheduling publishes respect the start order.
pub proof fn law_schedule_is_orderly(repo: RepoView)
    requires
        repo.wf(),
        names_unique(repo.services()),
    ensures
        orderly(repo, repo.schedule_events()),
{
    lemma_schedule_upto(repo, repo.handlers.len() as int);
    assert(repo.handlers.take(repo.handlers.len() as int) =~= repo.handlers);
}

/// The status changes that stopping the first `n` handlers announces.
spec fn stop_events_upto(repo: RepoView, n: int) -> Seq<EventView> {
    repo.handlers.take(n).filter_map(|h: HandlerView| h.announced_by_stop())
}

/// Folding what stopping the first `n` handlers announces stops exactly
/// those, and is an orderly run.
proof fn lemma_stop_upto(repo: RepoView, n: int)
    requires
        repo.wf(),
        names_unique(repo.services()),
        0 <= n <= repo.handlers.len(),
    ensures
        repo.fold_all(stop_events_upto(repo, n)).shutting_down == repo.shutting_down,
        repo.fold_all(stop_events_upto(repo, n)).handlers.len() == repo.handlers.len(),
        forall|j: int|
            0 <= j < repo.handlers.len() ==> #[trigger] repo.fold_all(
                stop_events_upto(repo, n),
            ).handlers[j] == (if j < n {
                repo.handlers[j].stopped()
            } else {
                repo.handlers[j]
            }),
        orderly(repo, stop_events_upto(repo, n)),
    decreases n,
{
    let announces = |h: HandlerView| h.announced_by_stop();
    if n == 0 {
        assert(stop_events_upto(repo, 0) =~= Seq::<EventView>::empty());
    } else {
        lemma_stop_upto(repo, n - 1);
        let h = repo.handlers[n - 1];
        let earlier = stop_events_upto(repo, n - 1);
        let before = repo.fold_all(earlier);
        repo.handlers.lemma_filter_map_take_succ(announces, n - 1);
        assert(h.wf());
        match h.announced_by_stop() {
            Some(event) => {
                assert(stop_events_upto(repo, n) =~= earlier.push(event));
                lemma_run_then_one(repo, earlier, event);
                let after = before.fold(event);
                assert forall|j: int| 0 <= j < repo.handlers.len() implies #[trigger] after.handlers[j]
                    == (if j < n {
                    repo.handlers[j].stopped()
                } else {
                    repo.handlers[j]
                }) by {
                    assert(after.handlers[j] == before.handlers[j].fold(event, before.shutting_down));
                    if j < n - 1 {
                        assert(repo.services()[j].name != repo.services()[n - 1].name);
                    } else if j > n - 1 {
                        assert(repo.services()[n - 1].name != repo.services()[j].name);
                    }
                }
                assert(respects_start_order(repo, earlier, event)) by {
                    assert forall|i: int|
                        0 <= i < before.handlers.len() && (
                        #[trigger] before.handlers[i]).service.name == h.service.name
                            && before.handlers[i].status is Initial implies h.status is Initial by {
                        if i < n - 1 {
                            assert(repo.services()[i].name != repo.services()[n - 1].name);
                        } else if i > n - 1 {
                            assert(repo.services()[n - 1].name != repo.services()[i].name);
                        }
                    }
                }
                lemma_orderly_then_one(repo, earlier, event);
            },
            None => {
                assert(stop_events_upto(repo, n) =~= earlier);
            },
        }
    }
}

/// Folding the status changes that stopping announces leads to the stopped
/// table: a replica that only sees the events ends where the scheduler is.
pub proof fn law_stop_is_fold_of_its_events(repo: RepoView)
    requires
        repo.wf(),
        names_unique(repo.services()),
    ensures
        repo.fold_all(repo.stop_events()) == repo.stopped(),
{
    lemma_stop_upto(repo, repo.handlers.len() as int);
    assert(repo.handlers.take(repo.handlers.len() as int) =~= repo.handlers);
    assert(repo.fold_all(repo.stop_events()).handlers =~= repo.stopped().handlers);
}

/// The status changes that stopping announces respect the start order.
pub proof fn law_stop_is_orderly(repo: RepoView)
    requires
        repo.wf(),
        names_unique(repo.services()),
    ensures
        orderly(repo, repo.stop_events()),
{
    lemma_stop_upto(repo, repo.handlers.len() as int);
    assert(repo.handlers.take(repo.handlers.len() as int) =~= repo.handlers);
}

/// What a tick publishes tells the whole of what it did: a replica that
/// folds the published events ends in the state of the scheduler, and the
/// events respect the start order.
pub proof fn law_tick_is_fold_of_its_events(folded: RepoView)
    requires
        folded.wf(),
        names_unique(folded.services()),
    ensures
        folded.fold_all(tick_events(folded)) == folded.stop_checked().scheduled().concluded(),
        orderly(folded, tick_events(folded)),
{
    let stopping = if folded.must_stop() {
        folded.stop_events()
    } else {
        Seq::<EventView>::empty()
    };
    let checked = folded.stop_checked();
    let scheduling = checked.schedule_events();
    let scheduled = checked.scheduled();
    let concluding = if scheduled.must_conclude() {
        seq![EventView::ShutdownRequested]
    } else {
        Seq::<EventView>::empty()
    };
    if folded.must_stop() {
        law_stop_is_fold_of_its_events(folded);
        law_stop_is_orderly(folded);
        law_pid_only_while_alive_stop(folded);
        assert(checked.services() =~= folded.services());
    }
    assert(folded.fold_all(stopping) == checked);
    assert(orderly(folded, stopping));
    law_schedule_is_orderly(checked);
    lemma_run_in_batches(folded, stopping, scheduling);
    lemma_orderly_runs_compose(folded, stopping, scheduling);
    lemma_run_in_batches(folded, stopping + scheduling, concluding);
    if scheduled.must_conclude() {
        assert(concluding =~= Seq::<EventView>::empty().push(EventView::ShutdownRequested));
        lemma_run_then_one(scheduled, Seq::empty(), EventView::ShutdownRequested);
    }
    assert(orderly(scheduled, concluding)) by {
        assert forall|t: int| 0 <= t < concluding.len() implies respects_start_order(
            scheduled,
            #[trigger] concluding.take(t),
            concluding[t],
        ) by {}
    }
    lemma_orderly_runs_compose(folded, stopping + scheduling, concluding);
}

} // verus!
