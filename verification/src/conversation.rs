//! The conversation between the supervisor and its agents: what each side
//! makes of a message, and what it tells its caller to do about it.
//!
//! To the supervisor a connection is known by its number, which is also
//! the capability under which the agent on it registers. An agent speaks
//! for the sessions of its own target alone. The caller carries out the
//! actions in the order given: it sends the messages, and it opens, feeds
//! and closes the encoders, and reports how opening and feeding went.
//!
//! An agent answers the supervisor's messages one by one.

use crate::frame::{FrameLayout, FrameView, PixelFormat, VideoFrameEnvelope};
use crate::host::HostImpl;
use crate::host_model::{HostError, HostEvent, HostModel, Pass, TriggerAction};
use crate::hub::{FrameRequest, GlobalHub, HubModel};
use crate::registry::{Capability, Evicted, Probe, ProbeOutcome};
use crate::session::{SessionId, StopReason};
use crate::sink::SinkError;
use crate::source::{VideoSource, VideoSourceKind};
use crate::wire::{Message, MessageView};
use vstd::prelude::*;
use vstd::string::*;

verus! {

/// What the caller is to do.
#[derive(Debug)]
pub enum Action {
    /// Send the message over the connection.
    Send { connection: u64, message: Message },
    /// Open an encoder for the session, and report with `encoder_opened`.
    OpenEncoder { connection: u64, session: u64, video: VideoSource },
    /// Hand the frame to the encoder of the session, and report with
    /// `frame_written`.
    WriteFrame { connection: u64, session: u64, index: u64, timestamp: u64, last: bool, data: Vec<u8> },
    /// Close the encoder of the session.
    CloseEncoder { session: u64 },
    /// Close the connection: its agent has been evicted.
    Disconnect { connection: u64 },
}

/// The mathematical content of an action.
pub enum ActionView {
    Send { connection: u64, message: MessageView },
    OpenEncoder { connection: u64, session: u64, video: VideoSource },
    WriteFrame {
        connection: u64,
        session: u64,
        index: u64,
        timestamp: u64,
        last: bool,
        data: Seq<u8>,
    },
    CloseEncoder { session: u64 },
    Disconnect { connection: u64 },
}

impl View for Action {
    type V = ActionView;

    open spec fn view(&self) -> ActionView {
        match *self {
            Action::Send { connection, message } => ActionView::Send {
                connection,
                message: message@,
            },
            Action::OpenEncoder { connection, session, video } => ActionView::OpenEncoder {
                connection,
                session,
                video,
            },
            Action::WriteFrame {
                connection,
                session,
                index,
                timestamp,
                last,
                data,
            } => ActionView::WriteFrame {
                connection,
                session,
                index,
                timestamp,
                last,
                data: data@,
            },
            Action::CloseEncoder { session } => ActionView::CloseEncoder { session },
            Action::Disconnect { connection } => ActionView::Disconnect { connection },
        }
    }
}

/// What a list of actions holds.
pub open spec fn actions_view(actions: Seq<Action>) -> Seq<ActionView> {
    actions.map_values(|a: Action| a@)
}

/// A supervisor and what its caller is to do.
pub struct Reaction {
    pub host: HostModel,
    pub actions: Seq<ActionView>,
}

/// Why a request was refused, in words.
pub open spec fn reason_text(e: HostError) -> Seq<char> {
    match e {
        HostError::MalformedRequest => "malformed request"@,
        HostError::IdentifiersExhausted => "identifiers exhausted"@,
        HostError::UnknownTarget => "unknown target"@,
        HostError::Conflict => "conflict"@,
        HostError::UnknownSession => "unknown session"@,
        HostError::NotNegotiating => "not negotiating"@,
        HostError::Frame(SinkError::SessionNotActive) => "session not active"@,
        HostError::Frame(SinkError::SessionStopped) => "session stopped"@,
        HostError::Frame(SinkError::MalformedFrame) => "malformed frame"@,
        HostError::Frame(SinkError::OutOfOrder) => "out of order"@,
    }
}

/// Why a request was refused, in words.
pub fn reason(e: HostError) -> (s: String)
    ensures
        s@ == reason_text(e),
{
    match e {
        HostError::MalformedRequest => String::from_str("malformed request"),
        HostError::IdentifiersExhausted => String::from_str("identifiers exhausted"),
        HostError::UnknownTarget => String::from_str("unknown target"),
        HostError::Conflict => String::from_str("conflict"),
        HostError::UnknownSession => String::from_str("unknown session"),
        HostError::NotNegotiating => String::from_str("not negotiating"),
        HostError::Frame(SinkError::SessionNotActive) => String::from_str("session not active"),
        HostError::Frame(SinkError::SessionStopped) => String::from_str("session stopped"),
        HostError::Frame(SinkError::MalformedFrame) => String::from_str("malformed frame"),
        HostError::Frame(SinkError::OutOfOrder) => String::from_str("out of order"),
    }
}

/// The action that sends a message.
pub open spec fn send(connection: u64, message: MessageView) -> ActionView {
    ActionView::Send { connection, message }
}

/// The action that tells an agent that its message could not be dealt with.
pub open spec fn refusal(connection: u64, text: Seq<char>) -> ActionView {
    send(connection, MessageView::Malformed { reason: text })
}

/// What follows the end of a session: its encoder is closed and its agent
/// told to stop.
pub open spec fn end_of(connection: u64, session: u64) -> Seq<ActionView> {
    seq![ActionView::CloseEncoder { session }, send(connection, MessageView::Stop { session })]
}

/// The same where the session has ended, nothing where it has not.
pub open spec fn end_if(ended: bool, connection: u64, session: u64) -> Seq<ActionView> {
    if ended {
        end_of(connection, session)
    } else {
        Seq::empty()
    }
}

/// The surface that an agent reports.
pub open spec fn surface(width: u32, height: u32, pitch: u32, vflip: bool) -> VideoSource {
    VideoSource { kind: VideoSourceKind::OpenGL, width, height, pitch, vflip }
}

/// The frame that a frame message carries.
pub open spec fn frame_of(
    index: u64,
    timestamp: u64,
    width: u32,
    height: u32,
    pitch: u32,
    vflip: bool,
    data: Seq<u8>,
) -> FrameView {
    FrameView {
        index,
        timestamp,
        data,
        layout: FrameLayout { width, height, pitch, vflip, format: PixelFormat::Rgba },
    }
}

/// The session belongs to the target that registered over the connection.
pub open spec fn owns(h: HostModel, connection: u64, session: u64) -> bool {
    h.session(SessionId(session)) matches Some(s) && h.registry.holder(Capability(connection))
        == Some(s.target)
}

/// A supervisor that stays as it is, and nothing to do.
pub open spec fn unmoved(h: HostModel) -> Reaction {
    Reaction { host: h, actions: Seq::empty() }
}

/// An agent registers over a connection. A connection carries one agent: a
/// second registration over it is refused.
pub open spec fn on_register(h: HostModel, connection: u64, pid: u64, exe: Seq<char>, now: u64)
    -> Reaction {
    if h.registry.holder(Capability(connection)) is Some {
        Reaction { host: h, actions: seq![refusal(connection, "already registered"@)] }
    } else {
        match h.register_verdict(exe, pid) {
            Ok(_) => Reaction {
                host: h.register(exe, pid, Capability(connection), now),
                actions: Seq::empty(),
            },
            Err(e) => Reaction { host: h, actions: seq![refusal(connection, reason_text(e))] },
        }
    }
}

/// The trigger fired in the agent on a connection.
pub open spec fn on_hotkey(h: HostModel, connection: u64, now: u64) -> Reaction {
    match h.registry.holder(Capability(connection)) {
        None => unmoved(h),
        Some(target) => Reaction {
            host: h.trigger(target, now),
            actions: match h.trigger_action(target) {
                TriggerAction::Start(id) => seq![
                    send(connection, MessageView::StartCapture { session: id.0 }),
                ],
                TriggerAction::Stop(id) => end_of(connection, id.0),
                TriggerAction::Ignored => Seq::empty(),
            },
        },
    }
}

/// An agent accepted a start-capture request: the encoder is to be opened
/// before the session becomes active.
pub open spec fn on_accepted(h: HostModel, connection: u64, session: u64, video: VideoSource)
    -> Reaction {
    if !owns(h, connection, session) {
        Reaction { host: h, actions: seq![refusal(connection, "not your session"@)] }
    } else {
        match h.negotiation_verdict(SessionId(session)) {
            Ok(()) => Reaction {
                host: h,
                actions: seq![ActionView::OpenEncoder { connection, session, video }],
            },
            Err(e) => Reaction { host: h, actions: seq![refusal(connection, reason_text(e))] },
        }
    }
}

/// An agent rejected a start-capture request.
pub open spec fn on_rejected(h: HostModel, connection: u64, session: u64) -> Reaction {
    if owns(h, connection, session) {
        Reaction { host: h.negotiation_failed(SessionId(session)), actions: Seq::empty() }
    } else {
        unmoved(h)
    }
}

/// An agent submitted a frame. A frame that the session takes is to be
/// handed to the encoder; the agent gets its answer after that.
pub open spec fn on_frame(h: HostModel, connection: u64, session: u64, frame: FrameView)
    -> Reaction {
    if !owns(h, connection, session) {
        Reaction {
            host: h,
            actions: seq![
                send(
                    connection,
                    MessageView::FrameRefused { index: frame.index, reason: "not your session"@ },
                ),
            ],
        }
    } else {
        Reaction {
            host: h.submit_frame(SessionId(session), frame),
            actions: match h.frame_verdict(SessionId(session), frame) {
                Ok(ack) => seq![
                    ActionView::WriteFrame {
                        connection,
                        session,
                        index: frame.index,
                        timestamp: frame.timestamp,
                        last: ack.stopped is Some,
                        data: frame.data,
                    },
                ],
                Err(e) => seq![
                    send(
                        connection,
                        MessageView::FrameRefused { index: frame.index, reason: reason_text(e) },
                    ),
                ],
            },
        }
    }
}

/// An agent asked for its session to stop.
pub open spec fn on_stop(h: HostModel, connection: u64, session: u64) -> Reaction {
    if !owns(h, connection, session) {
        Reaction { host: h, actions: seq![refusal(connection, "not your session"@)] }
    } else {
        Reaction {
            host: h.stop_session(SessionId(session), StopReason::Explicit),
            actions: (if h.stoppable(SessionId(session)) {
                seq![ActionView::CloseEncoder { session }]
            } else {
                Seq::empty()
            }) + seq![send(connection, MessageView::Stopped { session })],
        }
    }
}

/// An agent has seen its session stop.
pub open spec fn on_stopped(h: HostModel, connection: u64, session: u64) -> Reaction {
    if owns(h, connection, session) {
        Reaction { host: h.forget(SessionId(session)), actions: Seq::empty() }
    } else {
        unmoved(h)
    }
}

/// An agent answered its probe.
pub open spec fn on_probe_answer(h: HostModel, connection: u64, now: u64) -> Reaction {
    match h.registry.holder(Capability(connection)) {
        Some(target) => Reaction {
            host: h.probe_resolved(target, ProbeOutcome::Responded, now),
            actions: Seq::empty(),
        },
        None => unmoved(h),
    }
}

/// What the supervisor makes of a message that arrives over a connection at
/// `now`.
pub open spec fn received(h: HostModel, connection: u64, m: MessageView, now: u64) -> Reaction {
    match m {
        MessageView::Register { pid, exe } => on_register(h, connection, pid, exe, now),
        MessageView::Hotkey => on_hotkey(h, connection, now),
        MessageView::Accepted { session, width, height, pitch, vflip } => on_accepted(
            h,
            connection,
            session,
            surface(width, height, pitch, vflip),
        ),
        MessageView::Rejected { session, reason } => on_rejected(h, connection, session),
        MessageView::Frame {
            session,
            index,
            timestamp,
            width,
            height,
            pitch,
            vflip,
            data,
        } => on_frame(
            h,
            connection,
            session,
            frame_of(index, timestamp, width, height, pitch, vflip, data),
        ),
        MessageView::Stop { session } => on_stop(h, connection, session),
        MessageView::Stopped { session } => on_stopped(h, connection, session),
        MessageView::ProbeAnswer { pid, exe } => on_probe_answer(h, connection, now),
        MessageView::Malformed { reason } => unmoved(h),
        _ => Reaction { host: h, actions: seq![refusal(connection, "unexpected message"@)] },
    }
}

/// What the supervisor makes of the news that the encoder for a session
/// was opened, or could not be.
pub open spec fn after_opening(
    h: HostModel,
    connection: u64,
    session: u64,
    video: VideoSource,
    opened: bool,
) -> Reaction {
    if opened {
        Reaction {
            host: h.negotiation_succeeded(SessionId(session), video, Capability(session)),
            actions: if h.negotiation_verdict(SessionId(session)).is_ok() {
                Seq::empty()
            } else {
                end_of(connection, session)
            },
        }
    } else {
        Reaction {
            host: h.negotiation_failed(SessionId(session)),
            actions: seq![send(connection, MessageView::Stop { session })],
        }
    }
}

/// What the supervisor makes of the news that a frame was handed to the
/// encoder, or could not be. `last` says whether the frame ended the
/// session.
pub open spec fn after_writing(
    h: HostModel,
    connection: u64,
    session: u64,
    index: u64,
    last: bool,
    written: bool,
) -> Reaction {
    if written {
        Reaction {
            host: h,
            actions: end_if(last, connection, session) + seq![
                send(connection, MessageView::FrameAck { index }),
            ],
        }
    } else {
        Reaction {
            host: h.stop_session(SessionId(session), StopReason::EncoderFailed),
            actions: end_if(last || h.stoppable(SessionId(session)), connection, session) + seq![
                send(connection, MessageView::FrameRefused { index, reason: "encoder failed"@ }),
            ],
        }
    }
}

/// The action that closes the encoder of a session.
pub open spec fn closing(id: SessionId) -> ActionView {
    ActionView::CloseEncoder { session: id.0 }
}

/// What the supervisor makes of the loss of a connection at `now`.
pub open spec fn after_closing(h: HostModel, connection: u64, now: u64) -> Reaction {
    match h.registry.holder(Capability(connection)) {
        None => Reaction { host: h, actions: Seq::empty() },
        Some(target) => Reaction {
            host: h.transport_closed(target).probe_resolved(target, ProbeOutcome::Closed, now),
            actions: h.ended_by(Pass::CutOff(target), h.registry).map_values(
                |id: SessionId| closing(id),
            ),
        },
    }
}

/// The action that sends a probe.
pub open spec fn probing(p: Probe) -> ActionView {
    send(p.capability.0, MessageView::Probe)
}

/// The action that closes the connection of an evicted target.
pub open spec fn dropping(e: Evicted) -> ActionView {
    ActionView::Disconnect { connection: e.capability.0 }
}

/// The action that tells the agent of a session to stop, as long as the
/// session and its target are known.
pub open spec fn stop_notice(h: HostModel, id: SessionId) -> Option<ActionView> {
    match h.session(id) {
        Some(s) => match h.registry.lookup(s.target) {
            Some(r) => Some(send(r.target.0, MessageView::Stop { session: id.0 })),
            None => None,
        },
        None => None,
    }
}

/// What the supervisor does when the clock is read as `now`. Where a sweep
/// is due it begins one and sends the probes. It fails the probes whose
/// time is up and, once no probe is in flight, ends the sweep: the encoders
/// of the sessions that this ends are closed, and so are the connections of
/// the targets that it evicts. Last, the sessions whose time budget is used
/// up stop: their encoders are closed and their agents told.
pub open spec fn at_clock(h: HostModel, now: u64) -> Reaction {
    let due = h.registry.sweep_due(now);
    let begun = if due {
        h.begin_sweep(now)
    } else {
        h
    };
    let probes = if due {
        h.registry.probes()
    } else {
        Seq::empty()
    };
    let expired = begun.probes_expired(now);
    let settled = expired.registry.settled();
    let finished = expired.finish_sweep();
    let orphaned = if settled {
        expired.ended_by(Pass::Orphaned, expired.registry.finish())
    } else {
        Seq::empty()
    };
    let evicted = if settled {
        expired.registry.evicted()
    } else {
        Seq::empty()
    };
    let timed_out = finished.ended_by(Pass::Clock(now), finished.registry);
    let ticked = finished.tick(now);
    Reaction {
        host: ticked,
        actions: probes.map_values(|p: Probe| probing(p)) + orphaned.map_values(
            |id: SessionId| closing(id),
        ) + evicted.map_values(|e: Evicted| dropping(e)) + timed_out.map_values(
            |id: SessionId| closing(id),
        ) + timed_out.filter_map(|id: SessionId| stop_notice(ticked, id)),
    }
}

fn push_probes(actions: &mut Vec<Action>, probes: &Vec<Probe>)
    ensures
        actions_view(final(actions)@) == actions_view(old(actions)@) + probes@.map_values(
            |p: Probe| probing(p),
        ),
{
    let ghost base = actions_view(actions@);
    let mut i: usize = 0;
    while i < probes.len()
        invariant
            i <= probes.len(),
            actions.len() == base.len() + i,
            forall|j: int| 0 <= j < base.len() ==> (#[trigger] actions[j])@ == base[j],
            forall|k: int|
                base.len() <= k < actions.len() ==> (#[trigger] actions[k])@ == probing(
                    probes[k - base.len()],
                ),
        decreases probes.len() - i,
    {
        actions.push(Action::Send { connection: probes[i].capability.0, message: Message::Probe });
        i += 1;
    }
    assert(actions_view(actions@) =~= base + probes@.map_values(|p: Probe| probing(p)));
}

fn push_closings(actions: &mut Vec<Action>, ids: &Vec<SessionId>)
    ensures
        actions_view(final(actions)@) == actions_view(old(actions)@) + ids@.map_values(
            |id: SessionId| closing(id),
        ),
{
    let ghost base = actions_view(actions@);
    let mut i: usize = 0;
    while i < ids.len()
        invariant
            i <= ids.len(),
            actions.len() == base.len() + i,
            forall|j: int| 0 <= j < base.len() ==> (#[trigger] actions[j])@ == base[j],
            forall|k: int|
                base.len() <= k < actions.len() ==> (#[trigger] actions[k])@ == closing(
                    ids[k - base.len()],
                ),
        decreases ids.len() - i,
    {
        actions.push(Action::CloseEncoder { session: ids[i].0 });
        i += 1;
    }
    assert(actions_view(actions@) =~= base + ids@.map_values(|id: SessionId| closing(id)));
}

fn push_drops(actions: &mut Vec<Action>, evicted: &Vec<Evicted>)
    ensures
        actions_view(final(actions)@) == actions_view(old(actions)@) + evicted@.map_values(
            |e: Evicted| dropping(e),
        ),
{
    let ghost base = actions_view(actions@);
    let mut i: usize = 0;
    while i < evicted.len()
        invariant
            i <= evicted.len(),
            actions.len() == base.len() + i,
            forall|j: int| 0 <= j < base.len() ==> (#[trigger] actions[j])@ == base[j],
            forall|k: int|
                base.len() <= k < actions.len() ==> (#[trigger] actions[k])@ == dropping(
                    evicted[k - base.len()],
                ),
        decreases evicted.len() - i,
    {
        actions.push(Action::Disconnect { connection: evicted[i].capability.0 });
        i += 1;
    }
    assert(actions_view(actions@) =~= base + evicted@.map_values(|e: Evicted| dropping(e)));
}

fn push_notices(actions: &mut Vec<Action>, host: &HostImpl, ids: &Vec<SessionId>)
    requires
        host.wf(),
    ensures
        actions_view(final(actions)@) == actions_view(old(actions)@) + ids@.filter_map(
            |id: SessionId| stop_notice(host@, id),
        ),
{
    let ghost base = actions_view(actions@);
    let ghost notice = |id: SessionId| stop_notice(host@, id);
    let mut i: usize = 0;
    proof {
        assert(ids@.take(0) =~= Seq::<SessionId>::empty());
        assert(actions_view(actions@) =~= base + ids@.take(0).filter_map(notice));
    }
    while i < ids.len()
        invariant
            i <= ids.len(),
            host.wf(),
            notice == (|id: SessionId| stop_notice(host@, id)),
            actions_view(actions@) == base + ids@.take(i as int).filter_map(notice),
        decreases ids.len() - i,
    {
        let ghost before = actions_view(actions@);
        proof {
            ids@.lemma_filter_map_take_succ(notice, i as int);
        }
        match host.session(ids[i]) {
            Some(s) => match host.registry().get(s.target()) {
                Some(handle) => {
                    actions.push(
                        Action::Send {
                            connection: handle.target.0,
                            message: Message::Stop { session: ids[i].0 },
                        },
                    );
                    proof {
                        assert(actions_view(actions@) =~= before.push(
                            stop_notice(host@, ids[i as int]).unwrap(),
                        ));
                    }
                },
                None => {},
            },
            None => {},
        }
        proof {
            assert(actions_view(actions@) =~= base + ids@.take(i as int + 1).filter_map(notice));
        }
        i += 1;
    }
    proof {
        assert(ids@.take(i as int) =~= ids@);
    }
}

fn refuse(connection: u64, text: &str) -> (a: Action)
    ensures
        a@ == refusal(connection, text@),
{
    Action::Send { connection, message: Message::Malformed { reason: String::from_str(text) } }
}

fn refuse_for(connection: u64, e: HostError) -> (a: Action)
    ensures
        a@ == refusal(connection, reason_text(e)),
{
    Action::Send { connection, message: Message::Malformed { reason: reason(e) } }
}

fn push_end(actions: &mut Vec<Action>, ended: bool, connection: u64, session: u64)
    ensures
        actions_view(final(actions)@) == actions_view(old(actions)@) + end_if(
            ended,
            connection,
            session,
        ),
{
    if ended {
        actions.push(Action::CloseEncoder { session });
        actions.push(Action::Send { connection, message: Message::Stop { session } });
    }
    assert(actions_view(actions@) =~= actions_view(old(actions)@) + end_if(
        ended,
        connection,
        session,
    ));
}

fn is_owner(host: &HostImpl, connection: u64, session: u64) -> (b: bool)
    requires
        host.wf(),
    ensures
        b == owns(host@, connection, session),
{
    match (host.session(SessionId(session)), host.holder(Capability(connection))) {
        (Some(s), Some(target)) => s.target() == target,
        _ => false,
    }
}

fn register(host: &mut HostImpl, connection: u64, pid: u64, exe: String, now: u64) -> (actions:
    Vec<Action>)
    requires
        old(host).wf(),
    ensures
        final(host).wf(),
        final(host)@ == on_register(old(host)@, connection, pid, exe@, now).host,
        actions_view(actions@) == on_register(old(host)@, connection, pid, exe@, now).actions,
{
    let mut actions: Vec<Action> = Vec::new();
    if host.holder(Capability(connection)).is_some() {
        actions.push(refuse(connection, "already registered"));
    } else {
        match host.register_target(exe.as_str(), pid, Capability(connection), now) {
            Ok(_) => {},
            Err(e) => {
                actions.push(refuse_for(connection, e));
            },
        }
    }
    assert(actions_view(actions@) =~= on_register(old(host)@, connection, pid, exe@, now).actions);
    actions
}

fn hotkey(host: &mut HostImpl, connection: u64, now: u64) -> (actions: Vec<Action>)
    requires
        old(host).wf(),
    ensures
        final(host).wf(),
        final(host)@ == on_hotkey(old(host)@, connection, now).host,
        actions_view(actions@) == on_hotkey(old(host)@, connection, now).actions,
{
    let mut actions: Vec<Action> = Vec::new();
    match host.holder(Capability(connection)) {
        None => {},
        Some(target) => {
            match host.hotkey_pressed(target, now) {
                TriggerAction::Start(id) => {
                    actions.push(
                        Action::Send {
                            connection,
                            message: Message::StartCapture { session: id.0 },
                        },
                    );
                },
                TriggerAction::Stop(id) => {
                    push_end(&mut actions, true, connection, id.0);
                },
                TriggerAction::Ignored => {},
            }
        },
    }
    assert(actions_view(actions@) =~= on_hotkey(old(host)@, connection, now).actions);
    actions
}

fn accepted(host: &HostImpl, connection: u64, session: u64, video: VideoSource) -> (actions: Vec<
    Action,
>)
    requires
        host.wf(),
    ensures
        actions_view(actions@) == on_accepted(host@, connection, session, video).actions,
        on_accepted(host@, connection, session, video).host == host@,
{
    let mut actions: Vec<Action> = Vec::new();
    if !is_owner(host, connection, session) {
        actions.push(refuse(connection, "not your session"));
    } else {
        match host.negotiation_check(SessionId(session)) {
            Ok(()) => {
                actions.push(Action::OpenEncoder { connection, session, video });
            },
            Err(e) => {
                actions.push(refuse_for(connection, e));
            },
        }
    }
    assert(actions_view(actions@) =~= on_accepted(host@, connection, session, video).actions);
    actions
}

fn take_frame(host: &mut HostImpl, connection: u64, session: u64, envelope: VideoFrameEnvelope) -> (actions:
    Vec<Action>)
    requires
        old(host).wf(),
    ensures
        final(host).wf(),
        final(host)@ == on_frame(old(host)@, connection, session, envelope@).host,
        actions_view(actions@) == on_frame(old(host)@, connection, session, envelope@).actions,
{
    let mut actions: Vec<Action> = Vec::new();
    let ghost view = envelope@;
    if !is_owner(host, connection, session) {
        actions.push(
            Action::Send {
                connection,
                message: Message::FrameRefused {
                    index: envelope.index,
                    reason: String::from_str("not your session"),
                },
            },
        );
    } else {
        match host.submit_frame(SessionId(session), &envelope) {
            Ok(ack) => {
                actions.push(
                    Action::WriteFrame {
                        connection,
                        session,
                        index: envelope.index,
                        timestamp: envelope.timestamp,
                        last: ack.stopped.is_some(),
                        data: envelope.data,
                    },
                );
            },
            Err(e) => {
                actions.push(
                    Action::Send {
                        connection,
                        message: Message::FrameRefused { index: envelope.index, reason: reason(e) },
                    },
                );
            },
        }
    }
    assert(actions_view(actions@) =~= on_frame(old(host)@, connection, session, view).actions);
    actions
}

fn stop(host: &mut HostImpl, connection: u64, session: u64) -> (actions: Vec<Action>)
    requires
        old(host).wf(),
    ensures
        final(host).wf(),
        final(host)@ == on_stop(old(host)@, connection, session).host,
        actions_view(actions@) == on_stop(old(host)@, connection, session).actions,
{
    let mut actions: Vec<Action> = Vec::new();
    if !is_owner(host, connection, session) {
        actions.push(refuse(connection, "not your session"));
    } else {
        if host.stop_session(SessionId(session), StopReason::Explicit) {
            actions.push(Action::CloseEncoder { session });
        }
        actions.push(Action::Send { connection, message: Message::Stopped { session } });
    }
    assert(actions_view(actions@) =~= on_stop(old(host)@, connection, session).actions);
    actions
}

/// Deals with a message that arrived over a connection at `now`, and
/// returns what the caller is to do.
pub fn receive(host: &mut HostImpl, connection: u64, message: Message, now: u64) -> (actions: Vec<
    Action,
>)
    requires
        old(host).wf(),
    ensures
        final(host).wf(),
        final(host)@ == received(old(host)@, connection, message@, now).host,
        actions_view(actions@) == received(old(host)@, connection, message@, now).actions,
{
    match message {
        Message::Register { pid, exe } => register(host, connection, pid, exe, now),
        Message::Hotkey => hotkey(host, connection, now),
        Message::Accepted { session, width, height, pitch, vflip } => accepted(
            host,
            connection,
            session,
            VideoSource { kind: VideoSourceKind::OpenGL, width, height, pitch, vflip },
        ),
        Message::Rejected { session, reason } => {
            if is_owner(host, connection, session) {
                let _ = host.negotiation_failed(SessionId(session));
            }
            let actions: Vec<Action> = Vec::new();
            assert(actions_view(actions@) =~= Seq::<ActionView>::empty());
            actions
        },
        Message::Frame { session, index, timestamp, width, height, pitch, vflip, data } => take_frame(
            host,
            connection,
            session,
            VideoFrameEnvelope {
                index,
                timestamp,
                data,
                layout: FrameLayout { width, height, pitch, vflip, format: PixelFormat::Rgba },
            },
        ),
        Message::Stop { session } => stop(host, connection, session),
        Message::Stopped { session } => {
            if is_owner(host, connection, session) {
                host.forget(SessionId(session));
            }
            let actions: Vec<Action> = Vec::new();
            assert(actions_view(actions@) =~= Seq::<ActionView>::empty());
            actions
        },
        Message::ProbeAnswer { pid, exe } => {
            match host.holder(Capability(connection)) {
                Some(target) => {
                    host.probe_resolved(target, ProbeOutcome::Responded, now);
                },
                None => {},
            }
            let actions: Vec<Action> = Vec::new();
            assert(actions_view(actions@) =~= Seq::<ActionView>::empty());
            actions
        },
        Message::Malformed { reason } => {
            let actions: Vec<Action> = Vec::new();
            assert(actions_view(actions@) =~= Seq::<ActionView>::empty());
            actions
        },
        _ => {
            let mut actions: Vec<Action> = Vec::new();
            actions.push(refuse(connection, "unexpected message"));
            assert(actions_view(actions@) =~= seq![refusal(connection, "unexpected message"@)]);
            actions
        },
    }
}

/// Deals with the news that the encoder for a session was opened, or could
/// not be.
pub fn encoder_opened(
    host: &mut HostImpl,
    connection: u64,
    session: u64,
    video: VideoSource,
    opened: bool,
) -> (actions: Vec<Action>)
    requires
        old(host).wf(),
    ensures
        final(host).wf(),
        final(host)@ == after_opening(old(host)@, connection, session, video, opened).host,
        actions_view(actions@) == after_opening(
            old(host)@,
            connection,
            session,
            video,
            opened,
        ).actions,
{
    let mut actions: Vec<Action> = Vec::new();
    if opened {
        let accepted = host.negotiation_succeeded(SessionId(session), video, Capability(session));
        push_end(&mut actions, accepted.is_err(), connection, session);
    } else {
        let _ = host.negotiation_failed(SessionId(session));
        actions.push(Action::Send { connection, message: Message::Stop { session } });
    }
    assert(actions_view(actions@) =~= after_opening(
        old(host)@,
        connection,
        session,
        video,
        opened,
    ).actions);
    actions
}

/// Deals with the news that a frame was handed to the encoder, or could
/// not be. The agent gets its answer only now.
pub fn frame_written(
    host: &mut HostImpl,
    connection: u64,
    session: u64,
    index: u64,
    last: bool,
    written: bool,
) -> (actions: Vec<Action>)
    requires
        old(host).wf(),
    ensures
        final(host).wf(),
        final(host)@ == after_writing(old(host)@, connection, session, index, last, written).host,
        actions_view(actions@) == after_writing(
            old(host)@,
            connection,
            session,
            index,
            last,
            written,
        ).actions,
{
    let mut actions: Vec<Action> = Vec::new();
    if written {
        push_end(&mut actions, last, connection, session);
        actions.push(Action::Send { connection, message: Message::FrameAck { index } });
    } else {
        let ended = host.encoder_failed(SessionId(session));
        push_end(&mut actions, last || ended, connection, session);
        actions.push(
            Action::Send {
                connection,
                message: Message::FrameRefused { index, reason: String::from_str("encoder failed") },
            },
        );
    }
    assert(actions_view(actions@) =~= after_writing(
        old(host)@,
        connection,
        session,
        index,
        last,
        written,
    ).actions);
    actions
}

/// Deals with the loss of a connection at `now`: the recording of its
/// agent stops, and the probe for it, if one is in flight, has failed.
pub fn connection_closed(host: &mut HostImpl, connection: u64, now: u64) -> (actions: Vec<Action>)
    requires
        old(host).wf(),
    ensures
        final(host).wf(),
        final(host)@ == after_closing(old(host)@, connection, now).host,
        actions_view(actions@) == after_closing(old(host)@, connection, now).actions,
{
    let mut actions: Vec<Action> = Vec::new();
    match host.holder(Capability(connection)) {
        None => {
            assert(actions_view(actions@) =~= after_closing(old(host)@, connection, now).actions);
        },
        Some(target) => {
            let ended = host.transport_closed(target);
            host.probe_resolved(target, ProbeOutcome::Closed, now);
            push_closings(&mut actions, &ended);
            proof {
                assert(actions_view(actions@) =~= after_closing(
                    old(host)@,
                    connection,
                    now,
                ).actions);
            }
        },
    }
    actions
}

/// The events that a message amounts to.
pub open spec fn events_of(h: HostModel, connection: u64, m: MessageView, now: u64) -> Seq<
    HostEvent,
> {
    let holder = h.registry.holder(Capability(connection));
    match m {
        MessageView::Register { pid, exe } => if holder is None {
            seq![HostEvent::Register { exe, pid, capability: Capability(connection), now }]
        } else {
            Seq::empty()
        },
        MessageView::Hotkey => match holder {
            Some(target) => seq![HostEvent::Trigger { target, now }],
            None => Seq::empty(),
        },
        MessageView::Rejected { session, reason } => if owns(h, connection, session) {
            seq![HostEvent::NegotiationFailed { session: SessionId(session) }]
        } else {
            Seq::empty()
        },
        MessageView::Frame {
            session,
            index,
            timestamp,
            width,
            height,
            pitch,
            vflip,
            data,
        } => if owns(h, connection, session) {
            seq![
                HostEvent::Frame {
                    session: SessionId(session),
                    frame: frame_of(index, timestamp, width, height, pitch, vflip, data),
                },
            ]
        } else {
            Seq::empty()
        },
        MessageView::Stop { session } => if owns(h, connection, session) {
            seq![HostEvent::Stop { session: SessionId(session), reason: StopReason::Explicit }]
        } else {
            Seq::empty()
        },
        MessageView::Stopped { session } => if owns(h, connection, session) {
            seq![HostEvent::Forget { session: SessionId(session) }]
        } else {
            Seq::empty()
        },
        MessageView::ProbeAnswer { pid, exe } => match holder {
            Some(target) => seq![
                HostEvent::ProbeResolved { target, outcome: ProbeOutcome::Responded, now },
            ],
            None => Seq::empty(),
        },
        _ => Seq::empty(),
    }
}

/// The events that the passing of time amounts to.
pub open spec fn events_at(h: HostModel, now: u64) -> Seq<HostEvent> {
    (if h.registry.sweep_due(now) {
        seq![HostEvent::BeginSweep { now }]
    } else {
        Seq::empty()
    }) + seq![HostEvent::ProbesExpired { now }, HostEvent::FinishSweep, HostEvent::Tick { now }]
}

/// A run of events and one more is the run and then the one.
pub proof fn lemma_run_push(h: HostModel, events: Seq<HostEvent>, event: HostEvent)
    ensures
        h.run(events.push(event)) == h.run(events).step(event),
        h.run(Seq::empty()) == h,
{
    assert(events.push(event).drop_last() =~= events);
}

/// A run of one event is that event.
pub proof fn lemma_run_one(h: HostModel, a: HostEvent)
    ensures
        h.run(seq![a]) == h.step(a),
{
    lemma_run_push(h, Seq::empty(), a);
    assert(seq![a] =~= Seq::<HostEvent>::empty().push(a));
}

/// A run of two events is the one and then the other.
pub proof fn lemma_run_two(h: HostModel, a: HostEvent, b: HostEvent)
    ensures
        h.run(seq![a, b]) == h.step(a).step(b),
{
    lemma_run_one(h, a);
    lemma_run_push(h, seq![a], b);
    assert(seq![a, b] =~= seq![a].push(b));
}

/// The conversation moves a supervisor by events alone: whatever it makes
/// of a message is what a run of events makes of the supervisor. So what
/// holds of every supervisor that events can lead to holds of every
/// supervisor in a conversation.
pub proof fn lemma_received_is_a_run(h: HostModel, connection: u64, m: MessageView, now: u64)
    ensures
        received(h, connection, m, now).host == h.run(events_of(h, connection, m, now)),
{
    lemma_run_push(h, Seq::empty(), HostEvent::FinishSweep);
    let events = events_of(h, connection, m, now);
    if events.len() > 0 {
        lemma_run_one(h, events[0]);
        assert(events =~= seq![events[0]]);
    }
}

/// The same of the reports on encoders.
pub proof fn lemma_reports_are_runs(
    h: HostModel,
    connection: u64,
    session: u64,
    video: VideoSource,
    index: u64,
    last: bool,
)
    ensures
        after_opening(h, connection, session, video, true).host == h.run(
            seq![
                HostEvent::NegotiationSucceeded {
                    session: SessionId(session),
                    source: video,
                    stop: Capability(session),
                },
            ],
        ),
        after_opening(h, connection, session, video, false).host == h.run(
            seq![HostEvent::NegotiationFailed { session: SessionId(session) }],
        ),
        after_writing(h, connection, session, index, last, true).host == h,
        after_writing(h, connection, session, index, last, false).host == h.run(
            seq![
                HostEvent::Stop { session: SessionId(session), reason: StopReason::EncoderFailed },
            ],
        ),
{
    lemma_run_one(
        h,
        HostEvent::NegotiationSucceeded {
            session: SessionId(session),
            source: video,
            stop: Capability(session),
        },
    );
    lemma_run_one(h, HostEvent::NegotiationFailed { session: SessionId(session) });
    lemma_run_one(
        h,
        HostEvent::Stop { session: SessionId(session), reason: StopReason::EncoderFailed },
    );
}

/// The same of the loss of a connection.
pub proof fn lemma_closing_is_a_run(h: HostModel, connection: u64, now: u64)
    ensures
        after_closing(h, connection, now).host == match h.registry.holder(Capability(connection)) {
            Some(target) => h.run(
                seq![
                    HostEvent::TransportClosed { target },
                    HostEvent::ProbeResolved { target, outcome: ProbeOutcome::Closed, now },
                ],
            ),
            None => h,
        },
{
    match h.registry.holder(Capability(connection)) {
        Some(target) => {
            lemma_run_two(
                h,
                HostEvent::TransportClosed { target },
                HostEvent::ProbeResolved { target, outcome: ProbeOutcome::Closed, now },
            );
        },
        None => {},
    }
}

/// The same of the passing of time.
pub proof fn lemma_clock_is_a_run(h: HostModel, now: u64)
    ensures
        at_clock(h, now).host == h.run(events_at(h, now)),
{
    let expire = HostEvent::ProbesExpired { now };
    let tick = HostEvent::Tick { now };
    if h.registry.sweep_due(now) {
        let a = seq![HostEvent::BeginSweep { now }];
        let b = a.push(expire);
        let c = b.push(HostEvent::FinishSweep);
        lemma_run_one(h, HostEvent::BeginSweep { now });
        lemma_run_push(h, a, expire);
        lemma_run_push(h, b, HostEvent::FinishSweep);
        lemma_run_push(h, c, tick);
        assert(events_at(h, now) =~= c.push(tick));
    } else {
        let a = seq![expire];
        let b = a.push(HostEvent::FinishSweep);
        lemma_run_one(h, expire);
        lemma_run_push(h, a, HostEvent::FinishSweep);
        lemma_run_push(h, b, tick);
        assert(events_at(h, now) =~= b.push(tick));
    }
}

/// The message that carries a captured frame to the supervisor.
pub fn frame_message(request: FrameRequest, data: Vec<u8>) -> (m: Message)
    ensures
        m@ == (MessageView::Frame {
            session: request.sink.0,
            index: request.index,
            timestamp: request.timestamp,
            width: request.width,
            height: request.height,
            pitch: request.pitch,
            vflip: request.vflip,
            data: data@,
        }),
{
    Message::Frame {
        session: request.sink.0,
        index: request.index,
        timestamp: request.timestamp,
        width: request.width,
        height: request.height,
        pitch: request.pitch,
        vflip: request.vflip,
        data,
    }
}

/// An agent and its answer.
pub struct Answer {
    pub hub: HubModel,
    pub message: Option<MessageView>,
}

/// The session of the hub is the one that the supervisor knows by the
/// given number.
pub open spec fn is_session(hub: HubModel, session: u64) -> bool {
    hub.session matches Some(s) && s.sink == Capability(session)
}

/// What an agent makes of a message from the supervisor, where `pid` and
/// `exe` are what it reports of its own process. To a start-capture request
/// it answers with its surface, or with the reason why it cannot capture;
/// to a stop request, that the session has stopped, and its own session
/// stops if it is the one meant; to a probe, with what it reports of its
/// process. It has no answer to anything else.
pub open spec fn answered(hub: HubModel, m: MessageView, pid: u64, exe: Seq<char>) -> Answer {
    match m {
        MessageView::StartCapture { session } => Answer {
            hub: hub.start_capture(Capability(session)),
            message: Some(
                match hub.start_verdict() {
                    Ok(video) => MessageView::Accepted {
                        session,
                        width: video.width,
                        height: video.height,
                        pitch: video.pitch,
                        vflip: video.vflip,
                    },
                    Err(e) => MessageView::Rejected { session, reason: e.text() },
                },
            ),
        },
        MessageView::Stop { session } => Answer {
            hub: if is_session(hub, session) {
                hub.stop()
            } else {
                hub
            },
            message: Some(MessageView::Stopped { session }),
        },
        MessageView::Probe => Answer { hub, message: Some(MessageView::ProbeAnswer { pid, exe }) },
        _ => Answer { hub, message: None },
    }
}

/// Deals with a message from the supervisor, and returns the answer to
/// send, if there is one.
pub fn reply(hub: &mut GlobalHub, message: Message, pid: u64, exe: &str) -> (answer: Option<
    Message,
>)
    ensures
        final(hub)@ == answered(old(hub)@, message@, pid, exe@).hub,
        match answer {
            Some(m) => answered(old(hub)@, message@, pid, exe@).message == Some(m@),
            None => answered(old(hub)@, message@, pid, exe@).message.is_none(),
        },
{
    match message {
        Message::StartCapture { session } => match hub.start_capture(Capability(session)) {
            Ok(video) => Some(
                Message::Accepted {
                    session,
                    width: video.width,
                    height: video.height,
                    pitch: video.pitch,
                    vflip: video.vflip,
                },
            ),
            Err(e) => Some(Message::Rejected { session, reason: e.message() }),
        },
        Message::Stop { session } => {
            let ours = match hub.peek() {
                Some(s) => s.sink == Capability(session),
                None => false,
            };
            if ours {
                hub.stop();
            }
            Some(Message::Stopped { session })
        },
        Message::Probe => Some(Message::ProbeAnswer { pid, exe: String::from_str(exe) }),
        _ => None,
    }
}

/// Deals with the passing of time: the clock was read as `now`.
pub fn clock(host: &mut HostImpl, now: u64) -> (actions: Vec<Action>)
    requires
        old(host).wf(),
    ensures
        final(host).wf(),
        final(host)@ == at_clock(old(host)@, now).host,
        actions_view(actions@) == at_clock(old(host)@, now).actions,
{
    let mut actions: Vec<Action> = Vec::new();
    assert(actions_view(actions@) =~= Seq::<ActionView>::empty());
    if host.sweep_due(now) {
        let probes = host.begin_sweep(now);
        push_probes(&mut actions, &probes);
    } else {
        assert(actions_view(actions@) =~= actions_view(actions@) + Seq::<Probe>::empty().map_values(
            |p: Probe| probing(p),
        ));
    }
    host.expire_probes(now);
    match host.finish_sweep() {
        Some(report) => {
            push_closings(&mut actions, &report.ended);
            push_drops(&mut actions, &report.evicted);
        },
        None => {
            assert(actions_view(actions@) =~= actions_view(actions@) + Seq::<
                SessionId,
            >::empty().map_values(|id: SessionId| closing(id)) + Seq::<Evicted>::empty().map_values(
                |e: Evicted| dropping(e),
            ));
        },
    }
    let timed_out = host.tick(now);
    push_closings(&mut actions, &timed_out);
    push_notices(&mut actions, host, &timed_out);
    actions
}

} // verus!
