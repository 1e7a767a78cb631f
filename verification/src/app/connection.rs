//! What one connection does with the bytes it receives: the preface, then
//! frames that build calls, answered by the handlers of their paths.
//!
//! The I/O (the socket, the TLS session, the handlers) stays with the caller:
//! `ConnectionState::incoming` takes the received bytes and gives back the
//! actions to perform, in order.

use vstd::prelude::*;
use std::collections::HashMap;
use vstd::slice::slice_subrange;
use crate::app::call::{Call, CallModel, empty_call, path_name};
use crate::proto::{handshake, preface_bytes};
use crate::proto::frame::{Frame, FrameModel, frame_readable, frame_len, frame_model, SETTINGS};
use crate::proto::frame::head::{Head, head_bytes, head_from_bytes, flag_bit};
use crate::proto::session::Session;

verus! {

broadcast use vstd::std_specs::hash::group_hash_axioms;

/// Something for the caller to do.
pub enum Action {
    /// Write these bytes to the peer.
    Write(Vec<u8>),
    /// A call is ready: answer it on `stream_id` with the handler of `path`.
    Serve { stream_id: u32, path: Vec<u8>, call: Call },
    /// The bytes cannot be read as the protocol asks; the connection cannot go on.
    Malformed,
}

/// An action, as mathematical values.
pub enum ActionModel {
    Write(Seq<u8>),
    Serve(u32, Seq<u8>, CallModel),
    Malformed,
}

impl Action {
    /// This action, as mathematical values.
    pub open spec fn model(&self) -> ActionModel {
        match self {
            Action::Write(v) => ActionModel::Write(v@),
            Action::Serve { stream_id, path, call } => ActionModel::Serve(*stream_id, path@, call@),
            Action::Malformed => ActionModel::Malformed,
        }
    }
}

/// A list of actions, as mathematical values.
pub open spec fn actions_model(v: Seq<Action>) -> Seq<ActionModel> {
    Seq::new(v.len(), |i: int| v[i].model())
}

/// The head of the empty SETTINGS frame sent on stream `stream_id` with
/// flags `flags` (1 is ACK).
pub open spec fn settings_head(flags: u8, stream_id: u32) -> Head {
    Head { length: 0, kind: SETTINGS, flags: flags, stream_id: stream_id }
}

/// What a call becomes when a frame arrives on its stream.
pub open spec fn call_after(c: CallModel, f: FrameModel) -> CallModel {
    match f {
        FrameModel::Data { head, data } => CallModel {
            end_stream: flag_bit(head.flags, 0),
            data: c.data + data,
            ..c
        },
        FrameModel::Headers { head, fields } => CallModel {
            end_stream: flag_bit(head.flags, 0),
            end_headers: flag_bit(head.flags, 2),
            headers: c.headers.union_prefer_right(fields),
            ..c
        },
        FrameModel::Continuation { head, fields } => CallModel {
            end_headers: flag_bit(head.flags, 2),
            headers: c.headers.union_prefer_right(fields),
            ..c
        },
        _ => c,
    }
}

/// Whether a frame goes to a call.
pub open spec fn is_call_frame(f: FrameModel) -> bool {
    f is Data || f is Headers || f is Continuation
}

/// The calls and the actions after one frame on stream `stream_id`: a frame
/// for a call updates the call of its stream (a new one if there is none) and,
/// once the call is ready and has a path, asks for it to be served; a SETTINGS
/// frame is acknowledged; other frames are ignored.
pub open spec fn after_frame(calls: Map<u32, CallModel>, f: FrameModel, stream_id: u32) -> (
    Map<u32, CallModel>,
    Seq<ActionModel>,
) {
    if is_call_frame(f) {
        let c = if calls.contains_key(stream_id) { calls[stream_id] } else { empty_call() };
        let c2 = call_after(c, f);
        let acts = if c2.end_headers && c2.end_stream && c2.headers.contains_key(path_name()) {
            seq![ActionModel::Serve(stream_id, c2.headers[path_name()], c2)]
        } else {
            Seq::empty()
        };
        (calls.insert(stream_id, c2), acts)
    } else if f is Settings {
        (calls, seq![ActionModel::Write(head_bytes(settings_head(1, stream_id)))])
    } else {
        (calls, Seq::empty())
    }
}

/// The calls and the actions after the frames of `buf`, one after another;
/// a frame that cannot be read ends them with `Malformed`.
pub open spec fn after_frames(calls: Map<u32, CallModel>, buf: Seq<u8>) -> (
    Map<u32, CallModel>,
    Seq<ActionModel>,
)
    decreases buf.len(),
{
    if buf.len() == 0 {
        (calls, Seq::empty())
    } else if !frame_readable(buf) {
        (calls, seq![ActionModel::Malformed])
    } else {
        let (calls1, acts1) = after_frame(calls, frame_model(buf), head_from_bytes(buf).stream_id);
        let (calls2, acts2) = after_frames(
            calls1,
            buf.subrange(frame_len(buf) as int, buf.len() as int),
        );
        (calls2, acts1 + acts2)
    }
}

/// The state of a connection, as mathematical values.
pub struct ConnectionModel {
    pub accepted: bool,
    pub calls: Map<u32, CallModel>,
}

/// The state and the actions after `buf` arrives: before the preface is
/// accepted, `buf` must start with it (fewer than 24 bytes cannot be read);
/// once it is, a SETTINGS frame is sent and the rest of `buf` is read as
/// frames. After that, every `buf` is read as frames.
pub open spec fn after_incoming(m: ConnectionModel, buf: Seq<u8>) -> (
    ConnectionModel,
    Seq<ActionModel>,
) {
    if !m.accepted {
        if buf.len() < 24 {
            (m, seq![ActionModel::Malformed])
        } else if buf.subrange(0, 24) == preface_bytes() {
            let (calls, acts) = after_frames(m.calls, buf.subrange(24, buf.len() as int));
            (
                ConnectionModel { accepted: true, calls: calls },
                seq![ActionModel::Write(head_bytes(settings_head(0, 0)))] + acts,
            )
        } else {
            (m, Seq::empty())
        }
    } else {
        let (calls, acts) = after_frames(m.calls, buf);
        (ConnectionModel { accepted: true, calls: calls }, acts)
    }
}

/// The protocol state of one connection: its session and its calls by stream.
pub struct ConnectionState {
    h2_session: Session,
    calls: HashMap<u32, Call>,
}

impl View for ConnectionState {
    type V = ConnectionModel;

    closed spec fn view(&self) -> ConnectionModel {
        ConnectionModel {
            accepted: self.h2_session.accepted,
            calls: self.calls@.map_values(|c: Call| c@),
        }
    }
}

/// The bytes of an empty SETTINGS frame.
fn settings_frame(flags: u8, stream_id: u32) -> (r: Vec<u8>)
    ensures
        r@ == head_bytes(settings_head(flags, stream_id)),
{
    let head = Head { length: 0, kind: 4, flags: flags, stream_id: stream_id };
    head.as_bytes()
}

impl ConnectionState {
    /// A connection that has received nothing.
    pub fn new() -> (r: ConnectionState)
        ensures
            r@ == (ConnectionModel { accepted: false, calls: Map::empty() }),
    {
        let r = ConnectionState { h2_session: Session::new(), calls: HashMap::new() };
        assert(r@.calls =~= Map::<u32, CallModel>::empty());
        r
    }

    /// Takes in `buf`, received from the peer; gives the actions to perform, in order.
    pub fn incoming(&mut self, buf: &[u8]) -> (r: Vec<Action>)
        ensures
            (final(self)@, actions_model(r@)) == after_incoming(old(self)@, buf@),
    {
        let mut actions: Vec<Action> = Vec::new();
        if !self.h2_session.is_accepted() {
            if buf.len() < 24 {
                actions.push(Action::Malformed);
                assert(actions_model(actions@) =~= seq![ActionModel::Malformed]);
                return actions;
            }
            if handshake(buf) {
                let ghost calls0 = self@.calls;
                self.h2_session.accept();
                actions.push(Action::Write(settings_frame(0, 0)));
                let ghost pushed = actions_model(actions@);
                let rest = slice_subrange(buf, 24, buf.len());
                self.handle(rest, &mut actions);
                proof {
                    assert(calls0 == old(self)@.calls);
                    assert(pushed =~= seq![ActionModel::Write(head_bytes(settings_head(0, 0)))]);
                    assert(actions_model(actions@) =~= pushed + actions_model(actions@).subrange(
                        1,
                        actions@.len() as int,
                    ));
                }
                return actions;
            } else {
                assert(actions_model(actions@) =~= Seq::<ActionModel>::empty());
                return actions;
            }
        } else {
            self.handle(buf, &mut actions);
        }
        actions
    }

    /// Reads the frames of `buf`, one after another, and appends their actions.
    fn handle(&mut self, buf: &[u8], actions: &mut Vec<Action>)
        ensures
            final(self)@.accepted == old(self)@.accepted,
            final(actions)@.len() >= old(actions)@.len(),
            (final(self)@.calls, actions_model(final(actions)@).subrange(
                old(actions)@.len() as int,
                final(actions)@.len() as int,
            )) == after_frames(old(self)@.calls, buf@),
            actions_model(final(actions)@).subrange(0, old(actions)@.len() as int)
                == actions_model(old(actions)@),
    {
        let ghost start = old(actions)@.len() as int;
        let ghost first = actions_model(old(actions)@);
        let ghost goal = after_frames(old(self)@.calls, buf@);
        let mut cursor: usize = 0;
        assert(buf@.subrange(0, buf@.len() as int) =~= buf@);
        assert(actions_model(actions@).subrange(start, actions@.len() as int) =~= Seq::<
            ActionModel,
        >::empty());
        while cursor < buf.len()
            invariant
                cursor <= buf.len(),
                self@.accepted == old(self)@.accepted,
                actions@.len() >= start,
                start == old(actions)@.len(),
                first == actions_model(old(actions)@),
                actions_model(actions@).subrange(0, start) == first,
                goal == after_frames(old(self)@.calls, buf@),
                goal.0 == after_frames(
                    self@.calls,
                    buf@.subrange(cursor as int, buf@.len() as int),
                ).0,
                goal.1 == actions_model(actions@).subrange(start, actions@.len() as int)
                    + after_frames(self@.calls, buf@.subrange(cursor as int, buf@.len() as int)).1,
            decreases buf.len() - cursor,
        {
            let rest = slice_subrange(buf, cursor, buf.len());
            let ghost calls0 = self@.calls;
            let ghost acts0 = actions_model(actions@).subrange(start, actions@.len() as int);
            let ghost before = actions@;
            if !Frame::is_readable(rest) {
                actions.push(Action::Malformed);
                proof {
                    assert(actions_model(actions@).subrange(start, actions@.len() as int) =~= acts0
                        + seq![ActionModel::Malformed]);
                    assert(actions_model(actions@).subrange(0, start) =~= actions_model(
                        before,
                    ).subrange(0, start));
                    assert(actions_model(actions@).subrange(0, start) == first);
                }
                return;
            }
            let (frame, length, stream_id) = Frame::parse(rest);
            let ghost fm = frame.model();
            if frame.is_call() {
                self.call(stream_id, frame, actions);
            } else {
                self.modify(stream_id, frame, actions);
            }
            let ghost next = rest@.subrange(frame_len(rest@) as int, rest@.len() as int);
            cursor = cursor + length;
            proof {
                assert(next =~= buf@.subrange(cursor as int, buf@.len() as int));
                let step = after_frame(calls0, fm, head_from_bytes(rest@).stream_id);
                assert(actions_model(actions@).subrange(start, actions@.len() as int) =~= acts0
                    + step.1) by {
                    assert(actions_model(actions@).subrange(start, before.len() as int) =~= acts0);
                }
                assert(actions_model(actions@).subrange(0, start) =~= actions_model(
                    before,
                ).subrange(0, start));
                assert(acts0 + (step.1 + after_frames(step.0, next).1) =~= (acts0 + step.1)
                    + after_frames(step.0, next).1);
            }
        }
        proof {
            assert(buf@.subrange(cursor as int, buf@.len() as int).len() == 0);
            assert(goal.1 =~= actions_model(actions@).subrange(start, actions@.len() as int));
        }
    }

    /// Hands a frame for a call to the call of its stream.
    fn call(&mut self, stream_id: u32, frame: Frame, actions: &mut Vec<Action>)
        requires
            is_call_frame(frame.model()),
        ensures
            final(self)@.accepted == old(self)@.accepted,
            final(actions)@.len() >= old(actions)@.len(),
            actions_model(final(actions)@).subrange(0, old(actions)@.len() as int) == actions_model(
                old(actions)@,
            ),
            (final(self)@.calls, actions_model(final(actions)@).subrange(
                old(actions)@.len() as int,
                final(actions)@.len() as int,
            )) == after_frame(old(self)@.calls, frame.model(), stream_id),
    {
        let ghost old_calls = self@.calls;
        let ghost old_actions = actions@;
        let mut call = match self.calls.remove(&stream_id) {
            Some(c) => c,
            None => Call::from(),
        };
        let ghost c0 = call@;
        assert(c0 == (if old_calls.contains_key(stream_id) { old_calls[stream_id] } else { empty_call() }));
        match frame {
            Frame::Data(d) => call.insert_data(d),
            Frame::Headers(h) => call.insert_headers(h),
            Frame::Continuation(c) => call.insert_continuation(c),
            _ => {},
        }
        assert(call@ == call_after(c0, frame.model()));
        if call.is_ready() {
            match call.path() {
                Some(path) => {
                    let p = crate::fields::copy_bytes(path);
                    let snapshot = call.copy();
                    actions.push(Action::Serve { stream_id: stream_id, path: p, call: snapshot });
                },
                None => {},
            }
        }
        self.calls.insert(stream_id, call);
        proof {
            assert(self@.calls =~= old_calls.insert(stream_id, call_after(c0, frame.model())));
            assert(actions_model(actions@).subrange(0, old_actions.len() as int) =~= actions_model(
                old_actions,
            ));
            assert(actions_model(actions@).subrange(old_actions.len() as int, actions@.len() as int)
                =~= after_frame(old_calls, frame.model(), stream_id).1);
        }
    }

    /// Answers a frame that does not go to a call: a SETTINGS frame is acknowledged.
    fn modify(&mut self, stream_id: u32, frame: Frame, actions: &mut Vec<Action>)
        requires
            !is_call_frame(frame.model()),
        ensures
            final(self)@ == old(self)@,
            final(actions)@.len() >= old(actions)@.len(),
            actions_model(final(actions)@).subrange(0, old(actions)@.len() as int) == actions_model(
                old(actions)@,
            ),
            (final(self)@.calls, actions_model(final(actions)@).subrange(
                old(actions)@.len() as int,
                final(actions)@.len() as int,
            )) == after_frame(old(self)@.calls, frame.model(), stream_id),
    {
        let ghost old_actions = actions@;
        match frame {
            Frame::Settings(_) => {
                actions.push(Action::Write(settings_frame(1, stream_id)));
            },
            _ => {},
        }
        proof {
            assert(actions_model(actions@).subrange(0, old_actions.len() as int) =~= actions_model(
                old_actions,
            ));
            assert(actions_model(actions@).subrange(old_actions.len() as int, actions@.len() as int)
                =~= after_frame(old(self)@.calls, frame.model(), stream_id).1);
        }
    }
}

} // verus!

verus! {

/// Reading two runs of bytes one after the other, split at a frame boundary,
/// does what reading them together does: the second run starts from the
/// calls the first left, and the actions follow one another.
pub proof fn lemma_frames_split(calls: Map<u32, CallModel>, a: Seq<u8>, b: Seq<u8>)
    requires
        crate::proto::codec::frames_readable(a),
    ensures
        after_frames(calls, a + b) == (
            after_frames(after_frames(calls, a).0, b).0,
            after_frames(calls, a).1 + after_frames(after_frames(calls, a).0, b).1,
        ),
    decreases a.len(),
{
    if a.len() == 0 {
        assert(a + b =~= b);
        assert(after_frames(calls, a).1 + after_frames(calls, b).1 =~= after_frames(calls, b).1);
    } else {
        crate::proto::codec::lemma_frame_extend(a, b);
        let rest = a.subrange(frame_len(a) as int, a.len() as int);
        let step = after_frame(calls, frame_model(a), head_from_bytes(a).stream_id);
        lemma_frames_split(step.0, rest, b);
        assert((a + b).len() > 0);
        let x = after_frames(step.0, rest);
        let y = after_frames(x.0, b);
        assert(step.1 + (x.1 + y.1) =~= (step.1 + x.1) + y.1);
    }
}

/// Once the preface is accepted it stays accepted; before, it is accepted
/// exactly when the bytes received start with it.
pub proof fn lemma_accepted(m: ConnectionModel, buf: Seq<u8>)
    ensures
        m.accepted ==> after_incoming(m, buf).0.accepted,
        !m.accepted ==> (after_incoming(m, buf).0.accepted <==> (buf.len() >= 24 && buf.subrange(
            0,
            24,
        ) == preface_bytes())),
{
}

/// No call is forgotten: every stream that had a call still has one.
pub proof fn lemma_calls_kept(calls: Map<u32, CallModel>, buf: Seq<u8>)
    ensures
        calls.dom().subset_of(after_frames(calls, buf).0.dom()),
    decreases buf.len(),
{
    if buf.len() > 0 && frame_readable(buf) {
        let step = after_frame(calls, frame_model(buf), head_from_bytes(buf).stream_id);
        lemma_calls_kept(step.0, buf.subrange(frame_len(buf) as int, buf.len() as int));
    }
}

/// Whether `a` asks to serve a call that is ready and whose path is the one given.
pub open spec fn serves_ready_call(a: ActionModel) -> bool {
    a matches ActionModel::Serve(_, path, c) ==> c.end_headers && c.end_stream
        && c.headers.contains_key(path_name()) && c.headers[path_name()] == path
}

/// A call is served only once its headers and its stream have ended, and
/// with the path it holds; `Malformed` can only be the last action.
pub proof fn lemma_actions_well_formed(calls: Map<u32, CallModel>, buf: Seq<u8>)
    ensures
        forall|i: int|
            0 <= i < after_frames(calls, buf).1.len() ==> serves_ready_call(
                #[trigger] after_frames(calls, buf).1[i],
            ),
        forall|i: int|
            0 <= i < after_frames(calls, buf).1.len() - 1 ==> !(
            #[trigger] after_frames(calls, buf).1[i] is Malformed),
    decreases buf.len(),
{
    if buf.len() > 0 && frame_readable(buf) {
        let step = after_frame(calls, frame_model(buf), head_from_bytes(buf).stream_id);
        let rest = buf.subrange(frame_len(buf) as int, buf.len() as int);
        lemma_actions_well_formed(step.0, rest);
        let acts = after_frames(calls, buf).1;
        assert(acts == step.1 + after_frames(step.0, rest).1);
        assert forall|i: int| 0 <= i < acts.len() implies serves_ready_call(#[trigger] acts[i]) by {
            if i >= step.1.len() {
                assert(acts[i] == after_frames(step.0, rest).1[i - step.1.len()]);
            }
        }
        assert forall|i: int| 0 <= i < acts.len() - 1 implies !(#[trigger] acts[i] is Malformed) by {
            if i >= step.1.len() {
                assert(acts[i] == after_frames(step.0, rest).1[i - step.1.len()]);
            }
        }
    }
}

/// Accepting the preface loses none of the frames that come after it in the
/// same bytes: a connection that has not accepted the preface and receives it
/// followed by `rest` sends its SETTINGS frame and then does what reading all
/// of `rest` as frames does, which is what receiving the preface and then
/// `rest` on their own does.
pub proof fn lemma_preface_then_frames(m: ConnectionModel, rest: Seq<u8>)
    requires
        !m.accepted,
    ensures
        after_incoming(m, preface_bytes() + rest).1 == seq![
            ActionModel::Write(head_bytes(settings_head(0, 0))),
        ] + after_frames(m.calls, rest).1,
        after_incoming(m, preface_bytes() + rest).0 == (ConnectionModel {
            accepted: true,
            calls: after_frames(m.calls, rest).0,
        }),
        after_incoming(m, preface_bytes() + rest) == (
            after_incoming(after_incoming(m, preface_bytes()).0, rest).0,
            after_incoming(m, preface_bytes()).1 + after_incoming(
                after_incoming(m, preface_bytes()).0,
                rest,
            ).1,
        ),
{
    let b = preface_bytes() + rest;
    assert(b.subrange(0, 24) =~= preface_bytes());
    assert(b.subrange(24, b.len() as int) =~= rest);
    let p = preface_bytes();
    assert(p.subrange(0, 24) =~= p);
    assert(p.subrange(24, p.len() as int) =~= Seq::<u8>::empty());
    let w = seq![ActionModel::Write(head_bytes(settings_head(0, 0)))];
    assert(w + Seq::<ActionModel>::empty() =~= w);
}

} // verus!
