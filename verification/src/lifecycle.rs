//! What holds of one recording through everything that can happen to a
//! supervisor: it only ever advances, it stops once and stays stopped, and
//! its encoder sees frames in the order of their indices.

use crate::frame::FrameView;
use crate::host_model::{
    lemma_position_unique,
    lemma_run_keeps_wf,
    lemma_step_keeps_wf,
    HostError,
    HostEvent,
    HostModel,
    TriggerAction,
};
use crate::registry::TargetId;
use crate::session::{SessionId, SessionModel, SessionState, StopReason};
use vstd::prelude::*;

verus! {

/// `later` is the recording `earlier` at the same or a later stage: the
/// same session of the same target, with no frame taken back, no index
/// below the last one seen, and no way out of `Stopped`.
pub open spec fn advances(earlier: SessionModel, later: SessionModel) -> bool {
    &&& later.id == earlier.id
    &&& later.target == earlier.target
    &&& later.created_at == earlier.created_at
    &&& later.policy == earlier.policy
    &&& earlier.state is Stopped ==> later == earlier
    &&& earlier.state is Active ==> !(later.state is Negotiating)
    &&& later.frames >= earlier.frames
    &&& earlier.sink.last_index matches Some(first) ==> (later.sink.last_index matches Some(last)
        && first <= last)
}

/// Whether the session `id` is in the table after the event as a later
/// stage of what it was before, or is a session that the event created.
pub open spec fn carried_over(before: HostModel, after: HostModel, id: SessionId) -> bool {
    ||| before.has_session(id) && advances(
        before.session(id).unwrap(),
        after.session(id).unwrap(),
    )
    ||| !before.has_session(id) && id.0 >= before.minted
}

proof fn lemma_same_place(h: HostModel, after: HostModel, id: SessionId, j: int)
    requires
        h.wf(),
        after.wf(),
        0 <= j < h.sessions.len(),
        0 <= j < after.sessions.len(),
        after.sessions[j].id == id,
        h.sessions[j].id == id,
        advances(h.sessions[j], after.sessions[j]),
    ensures
        carried_over(h, after, id),
{
    lemma_position_unique(h, id, j);
    lemma_position_unique(after, id, j);
}

proof fn lemma_after_put(h: HostModel, changed: SessionId, s: SessionModel, id: SessionId)
    requires
        h.wf(),
        h.has_session(changed),
        advances(h.session(changed).unwrap(), s),
        h.put(changed, s).wf(),
        h.put(changed, s).has_session(id),
    ensures
        carried_over(h, h.put(changed, s), id),
{
    let after = h.put(changed, s);
    let p = h.position(changed);
    let j = after.position(id);
    lemma_position_unique(after, id, j);
    if j == p {
        lemma_position_unique(h, id, p);
    } else {
        lemma_position_unique(h, id, j);
    }
}

proof fn lemma_after_without(h: HostModel, dropped: SessionId, id: SessionId)
    requires
        h.wf(),
        h.has_session(dropped),
        h.without(dropped).wf(),
        h.without(dropped).has_session(id),
    ensures
        carried_over(h, h.without(dropped), id),
{
    let after = h.without(dropped);
    let p = h.position(dropped);
    let j = after.position(id);
    lemma_position_unique(after, id, j);
    let i = if j < p {
        j
    } else {
        j + 1
    };
    assert(after.sessions[j] == h.sessions[i]);
    lemma_position_unique(h, id, i);
}

proof fn lemma_after_start(h: HostModel, target: TargetId, now: u64, id: SessionId)
    requires
        h.wf(),
        h.start_capture(target, now).wf(),
        h.start_capture(target, now).has_session(id),
    ensures
        carried_over(h, h.start_capture(target, now), id),
        h.start_capture(target, now).minted >= h.minted,
{
    let after = h.start_capture(target, now);
    let j = after.position(id);
    lemma_position_unique(after, id, j);
    if h.start_verdict(target).is_ok() {
        if j < h.sessions.len() {
            assert(after.sessions[j] == h.sessions[j]);
            lemma_position_unique(h, id, j);
        } else {
            assert(id.0 == h.minted);
            if h.has_session(id) {
                assert(h.sessions[h.position(id)].id.0 < h.minted);
            }
        }
    } else {
        lemma_position_unique(h, id, j);
    }
}

proof fn lemma_after_stop(h: HostModel, stopped: SessionId, reason: StopReason, id: SessionId)
    requires
        h.wf(),
        h.stop_session(stopped, reason).wf(),
        h.stop_session(stopped, reason).has_session(id),
    ensures
        carried_over(h, h.stop_session(stopped, reason), id),
{
    let after = h.stop_session(stopped, reason);
    if h.has_session(stopped) {
        lemma_after_put(h, stopped, h.session(stopped).unwrap().stop(reason), id);
    } else {
        let j = after.position(id);
        lemma_same_place(h, after, id, j);
    }
}

/// Through one event a session only advances: whatever the event, a
/// session that is in the table after it was there before, at the same or
/// an earlier stage, or has an identifier that had not been handed out.
pub proof fn lemma_step_advances(h: HostModel, event: HostEvent, id: SessionId)
    requires
        h.wf(),
    ensures
        h.step(event).wf(),
        h.step(event).minted >= h.minted,
        h.step(event).has_session(id) ==> carried_over(h, h.step(event), id),
{
    let after = h.step(event);
    lemma_step_keeps_wf(h, event);
    if after.has_session(id) {
        let j = after.position(id);
        lemma_position_unique(after, id, j);
        match event {
            HostEvent::Register { exe, pid, capability, now } => {
                lemma_same_place(h, after, id, j);
            },
            HostEvent::BeginSweep { now } => {
                lemma_same_place(h, after, id, j);
            },
            HostEvent::ProbesExpired { now } => {
                lemma_same_place(h, after, id, j);
            },
            HostEvent::ProbeResolved { target, outcome, now } => {
                lemma_same_place(h, after, id, j);
            },
            HostEvent::FinishSweep => {
                lemma_same_place(h, after, id, j);
            },
            HostEvent::TransportClosed { target } => {
                lemma_same_place(h, after, id, j);
            },
            HostEvent::Tick { now } => {
                lemma_same_place(h, after, id, j);
            },
            HostEvent::StartCapture { target, now } => {
                lemma_after_start(h, target, now, id);
            },
            HostEvent::NegotiationSucceeded { session, source, stop } => {
                match h.negotiation_verdict(session) {
                    Ok(()) => {
                        lemma_after_put(
                            h,
                            session,
                            h.session(session).unwrap().activate(source, stop),
                            id,
                        );
                    },
                    Err(HostError::UnknownTarget) => {
                        lemma_after_without(h, session, id);
                    },
                    Err(_) => {
                        lemma_same_place(h, after, id, j);
                    },
                }
            },
            HostEvent::NegotiationFailed { session } => {
                if h.failure_verdict(session).is_ok() {
                    lemma_after_without(h, session, id);
                } else {
                    lemma_same_place(h, after, id, j);
                }
            },
            HostEvent::Frame { session, frame } => {
                if h.has_session(session) {
                    let s = h.session(session).unwrap();
                    assert(s.wf());
                    lemma_after_put(h, session, s.submit(frame), id);
                } else {
                    lemma_same_place(h, after, id, j);
                }
            },
            HostEvent::Stop { session, reason } => {
                lemma_after_stop(h, session, reason, id);
            },
            HostEvent::Trigger { target, now } => {
                match h.trigger_action(target) {
                    TriggerAction::Stop(session) => {
                        lemma_after_stop(h, session, StopReason::Explicit, id);
                    },
                    TriggerAction::Start(_) => {
                        lemma_after_start(h, target, now, id);
                    },
                    TriggerAction::Ignored => {
                        lemma_same_place(h, after, id, j);
                    },
                }
            },
            HostEvent::Forget { session } => {
                if h.forgettable(session) {
                    lemma_after_without(h, session, id);
                } else {
                    lemma_same_place(h, after, id, j);
                }
            },
        }
    }
}

/// Through any sequence of events a session only advances, and no session
/// identifier is handed out twice.
pub proof fn lemma_run_advances(h: HostModel, events: Seq<HostEvent>, id: SessionId)
    requires
        h.wf(),
    ensures
        h.run(events).wf(),
        h.run(events).minted >= h.minted,
        h.run(events).has_session(id) ==> carried_over(h, h.run(events), id),
    decreases events.len(),
{
    if events.len() > 0 {
        let mid = h.run(events.drop_last());
        let end = h.run(events);
        lemma_run_advances(h, events.drop_last(), id);
        lemma_step_advances(mid, events.last(), id);
        if end.has_session(id) {
            if mid.has_session(id) {
                assert(mid.session(id).unwrap().wf()) by {
                    assert(mid.sessions[mid.position(id)].wf());
                }
            } else {
                if h.has_session(id) {
                    assert(h.sessions[h.position(id)].id.0 < h.minted);
                }
            }
        }
    } else {
        if h.has_session(id) {
            lemma_position_unique(h, id, h.position(id));
        }
    }
}

/// `Stopped` is terminal: whatever happens after a session has stopped, it
/// is never active again. As long as it is in the table it is exactly as
/// the stop left it.
pub proof fn lemma_stopped_is_final(h: HostModel, events: Seq<HostEvent>, id: SessionId)
    requires
        h.wf(),
        h.session(id) matches Some(s) && s.state is Stopped,
    ensures
        h.run(events).session(id).is_none() || h.run(events).session(id) == h.session(id),
{
    lemma_run_advances(h, events, id);
}

/// A session that has left the table never comes back, and neither does
/// its identifier.
pub proof fn lemma_session_ids_are_never_reused(h: HostModel, events: Seq<HostEvent>, id: SessionId)
    requires
        h.wf(),
        id.0 < h.minted,
        !h.has_session(id),
    ensures
        !h.run(events).has_session(id),
{
    lemma_run_advances(h, events, id);
}

/// Where the session `id` stands: its state while it is in the table,
/// `Absent` while it is not.
pub open spec fn phase(h: HostModel, id: SessionId) -> SessionState {
    match h.session(id) {
        Some(s) => s.state,
        None => SessionState::Absent,
    }
}

/// The session `id` stops between the two states. This is when the
/// supervisor tells its caller that the session has ended, and the caller
/// closes the encoder.
pub open spec fn closes(before: HostModel, after: HostModel, id: SessionId) -> bool {
    phase(before, id) is Active && phase(after, id) is Stopped
}

/// No event takes an active session out of the table: only a session that
/// has stopped is forgotten, and only a negotiation is dropped.
proof fn lemma_active_session_is_kept(h: HostModel, event: HostEvent, id: SessionId)
    requires
        h.wf(),
        phase(h, id) is Active,
    ensures
        h.step(event).has_session(id),
{
    let after = h.step(event);
    let p = h.position(id);
    lemma_position_unique(h, id, p);
    let dropped: Option<SessionId> = match event {
        HostEvent::NegotiationSucceeded { session, source, stop } => if h.negotiation_verdict(
            session,
        ) == Err::<(), HostError>(HostError::UnknownTarget) {
            Some(session)
        } else {
            None
        },
        HostEvent::NegotiationFailed { session } => if h.failure_verdict(session).is_ok() {
            Some(session)
        } else {
            None
        },
        HostEvent::Forget { session } => if h.forgettable(session) {
            Some(session)
        } else {
            None
        },
        _ => None,
    };
    match dropped {
        Some(session) => {
            let q = h.position(session);
            assert(after == h.without(session));
            assert(q != p);
            let j = if p < q {
                p
            } else {
                p - 1
            };
            assert(after.sessions[j] == h.sessions[p]);
        },
        None => {
            assert(after.sessions.len() >= h.sessions.len());
            assert(after.sessions[p].id == id);
        },
    }
}

/// How a session moves through one event: an active session stays active
/// or stops; a session that has stopped stays so until it is forgotten;
/// and a session that is gone stays gone.
pub proof fn lemma_phase_step(h: HostModel, event: HostEvent, id: SessionId)
    requires
        h.wf(),
    ensures
        h.step(event).wf(),
        h.step(event).minted >= h.minted,
        !(phase(h.step(event), id) is Absent) ==> id.0 < h.step(event).minted,
        phase(h, id) is Active ==> phase(h.step(event), id) is Active || phase(h.step(event), id)
            is Stopped,
        phase(h, id) is Stopped ==> phase(h.step(event), id) is Stopped || phase(
            h.step(event),
            id,
        ) is Absent,
        phase(h, id) is Absent && id.0 < h.minted ==> phase(h.step(event), id) is Absent,
{
    let after = h.step(event);
    lemma_step_advances(h, event, id);
    if h.has_session(id) {
        assert(h.sessions[h.position(id)].wf());
    }
    if after.has_session(id) {
        assert(after.sessions[after.position(id)].wf());
        assert(after.sessions[after.position(id)].id.0 < after.minted);
    }
    if phase(h, id) is Active {
        lemma_active_session_is_kept(h, event, id);
    }
}

/// How often the session `id` stops in the course of a sequence of events.
pub open spec fn closings(h: HostModel, events: Seq<HostEvent>, id: SessionId) -> nat
    decreases events.len(),
{
    if events.len() == 0 {
        0
    } else {
        let before = closings(h, events.drop_last(), id);
        if closes(h.run(events.drop_last()), h.run(events), id) {
            before + 1
        } else {
            before
        }
    }
}

proof fn lemma_closings(h: HostModel, events: Seq<HostEvent>, id: SessionId)
    requires
        h.wf(),
    ensures
        h.run(events).wf(),
        closings(h, events, id) <= 1,
        closings(h, events, id) == 1 ==> id.0 < h.run(events).minted && (phase(h.run(events), id)
            is Stopped || phase(h.run(events), id) is Absent),
        phase(h, id) is Active ==> (phase(h.run(events), id) is Active && closings(h, events, id)
            == 0) || (!(phase(h.run(events), id) is Active) && closings(h, events, id) == 1),
    decreases events.len(),
{
    if events.len() > 0 {
        let head = events.drop_last();
        lemma_closings(h, head, id);
        lemma_phase_step(h.run(head), events.last(), id);
    } else {
        lemma_phase_step(h, HostEvent::FinishSweep, id);
    }
}

/// Stopped exactly once: whatever happens to a supervisor, a session stops
/// at most once, so that its encoder is closed at most once; and a session
/// that was active and is so no longer has stopped once, so that no encoder
/// is left open behind it.
pub proof fn lemma_stopped_exactly_once(h: HostModel, events: Seq<HostEvent>, id: SessionId)
    requires
        h.wf(),
    ensures
        closings(h, events, id) <= 1,
        phase(h.run(events), id) is Active ==> closings(h, events, id) == 0,
        phase(h, id) is Active && !(phase(h.run(events), id) is Active) ==> closings(h, events, id)
            == 1,
{
    lemma_closings(h, events, id);
}

/// The frames of session `id` that reach its encoder in the course of a
/// sequence of events, in the order in which they reach it.
pub open spec fn forwarded(h: HostModel, events: Seq<HostEvent>, id: SessionId) -> Seq<FrameView>
    decreases events.len(),
{
    if events.len() == 0 {
        Seq::empty()
    } else {
        let before = forwarded(h, events.drop_last(), id);
        match events.last() {
            HostEvent::Frame { session, frame } => if session == id && h.run(
                events.drop_last(),
            ).frame_verdict(id, frame).is_ok() {
                before.push(frame)
            } else {
                before
            },
            _ => before,
        }
    }
}

/// No frame that has reached the encoder has an index above the one that
/// the session saw last; and once the session has left the table, its
/// identifier is used up.
proof fn lemma_forwarded_bound(h: HostModel, events: Seq<HostEvent>, id: SessionId)
    requires
        h.wf(),
    ensures
        h.run(events).wf(),
        forwarded(h, events, id).len() > 0 ==> id.0 < h.run(events).minted,
        forwarded(h, events, id).len() > 0 && h.run(events).has_session(id) ==> {
            &&& h.run(events).session(id).unwrap().sink.last_index matches Some(last)
            &&& forall|k: int|
                0 <= k < forwarded(h, events, id).len() ==> (#[trigger] forwarded(
                    h,
                    events,
                    id,
                )[k]).index <= last
        },
        forall|a: int, b: int|
            0 <= a < b < forwarded(h, events, id).len() ==> (#[trigger] forwarded(
                h,
                events,
                id,
            )[a]).index < (#[trigger] forwarded(h, events, id)[b]).index,
    decreases events.len(),
{
    lemma_run_keeps_wf(h, events);
    if events.len() > 0 {
        let head = events.drop_last();
        let mid = h.run(head);
        let end = h.run(events);
        let seen = forwarded(h, head, id);
        let all = forwarded(h, events, id);
        lemma_forwarded_bound(h, head, id);
        lemma_step_advances(mid, events.last(), id);
        let taken = events.last() matches HostEvent::Frame { session, frame } && session == id
            && mid.frame_verdict(id, frame).is_ok();
        if taken {
            let frame = events.last()->Frame_frame;
            let s = mid.session(id).unwrap();
            assert(mid.has_session(id));
            let p = mid.position(id);
            assert(mid.sessions[p].id.0 < mid.minted);
            assert(all == seen.push(frame));
            assert(end == mid.put(id, s.submit(frame)));
            assert(end.sessions[p].id == id);
            lemma_position_unique(end, id, p);
            assert(end.session(id).unwrap().sink.last_index == Some(frame.index));
            assert forall|k: int| 0 <= k < all.len() implies (#[trigger] all[k]).index
                <= frame.index by {
                if k < seen.len() {
                    assert(all[k] == seen[k]);
                }
            }
            assert forall|a: int, b: int| 0 <= a < b < all.len() implies (#[trigger] all[a]).index < (
            #[trigger] all[b]).index by {
                assert(all[a] == seen[a]);
                if b < seen.len() {
                    assert(all[b] == seen[b]);
                } else {
                    assert(s.sink.in_order(frame));
                }
            }
        } else {
            assert(all == seen);
            if all.len() > 0 && end.has_session(id) {
                assert(mid.has_session(id));
            }
        }
    }
}

/// Frame ordering: whatever happens to a supervisor, and in whatever order,
/// the frames of a session reach its encoder in the order in which they
/// were submitted and with strictly growing sequence indices.
pub proof fn lemma_frame_ordering(h: HostModel, events: Seq<HostEvent>, id: SessionId, a: int, b: int)
    requires
        h.wf(),
        0 <= a < b < forwarded(h, events, id).len(),
    ensures
        forwarded(h, events, id)[a].index < forwarded(h, events, id)[b].index,
{
    lemma_forwarded_bound(h, events, id);
}

} // verus!
