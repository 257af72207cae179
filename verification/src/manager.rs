//! The connection manager: the state machine that owns the protocol.
//!
//! Exactly one task owns the transport and all protocol state.  That
//! task feeds every inbound frame and every caller command through the
//! [`Manager`], which decides what happens: it keeps the lifecycle
//! state, the pending-command queue that preserves submission order
//! across the handshake window, and the subscription registry.  Each
//! step hands back a list of [`Effect`]s — frames to write, callbacks
//! to invoke, the order to stop — which the owning task carries out;
//! the manager itself performs no I/O.
//!
//! The lifecycle runs AwaitingAck -> Ready -> Closed.  (Before a
//! manager exists the connection is merely being opened: the caller
//! opens the transport, sends the [`init_frame`], and only then starts
//! the loop with a fresh manager.)  Closed is terminal.

use vstd::prelude::*;
use vstd::string::StringExecFns;
use crate::codec::{ProtocolMessage, spec_decode_text, from_json};
use crate::ids::{format_sub_id, parse_sub_id, spec_sub_id, spec_parse_sub_id};
use crate::json::{JsonValue, parse_text, to_text, json_text_of};
use crate::registry::{
    Registry, CallbackInfo, reg_has, reg_info, reg_insert, reg_remove, reg_wf, lemma_reg_at,
    lemma_reg_remove_props,
};

verus! {

/// Lifecycle state of the connection while its loop runs.
#[derive(Debug, Clone, Copy, PartialEq, Eq, Structural)]
pub enum ConnState {
    /// Handshake sent, acknowledgement not yet received: subscribe
    /// commands queue up instead of going to the wire.
    AwaitingAck,
    /// Handshake complete: commands dispatch directly.
    Ready,
    /// Terminal; no transition leaves it.
    Closed,
}

/// One subscription request: the fresh id the caller drew, the query,
/// its variables, and which optional callbacks the caller supplied.
pub struct PendingSub {
    pub id: u64,
    pub query: String,
    pub variables: Vec<(String, JsonValue)>,
    pub info: CallbackInfo,
}

/// One caller command, as delivered over the command channel.
pub enum Command {
    Subscribe(PendingSub),
    Unsubscribe { id: u64 },
    /// A token can only be taken up by a fresh handshake, so this is
    /// fatal to the running connection.
    UpdateToken { token: String },
    Disconnect,
}

/// One action the owning task must carry out, in list order.
#[derive(Debug, PartialEq, Eq)]
pub enum Effect {
    /// Write this frame to the transport.
    Send(ProtocolMessage),
    /// Write a close frame to the transport.
    SendClose,
    /// Invoke the subscription's data callback with the payload.
    Data { id: u64, payload: JsonValue },
    /// Invoke the subscription's error callback with the message.
    ErrorSignal { id: u64, message: String },
    /// Invoke the subscription's completion callback.
    CompleteSignal { id: u64 },
    /// Leave the loop; the manager is Closed.
    Stop,
}

/// Mathematical image of one effect, with strings as character
/// sequences.
pub enum EffectView {
    SendSubscribe { id: Seq<char>, query: Seq<char>, variables: Seq<(Seq<char>, JsonValue)> },
    SendComplete { id: Seq<char> },
    /// A sent frame of a kind the manager never produces.
    SendOther,
    SendClose,
    Data { id: u64, payload: JsonValue },
    ErrorSignal { id: u64, message: Seq<char> },
    CompleteSignal { id: u64 },
    Stop,
}

/// Key views of an object's pairs.
pub open spec fn kv_view(s: Seq<(String, JsonValue)>) -> Seq<(Seq<char>, JsonValue)> {
    s.map_values(|p: (String, JsonValue)| (p.0@, p.1))
}

pub open spec fn effect_view(e: Effect) -> EffectView {
    match e {
        Effect::Send(m) => match m {
            ProtocolMessage::Subscribe { id, query, variables } => EffectView::SendSubscribe {
                id: id@,
                query: query@,
                variables: kv_view(variables@),
            },
            ProtocolMessage::Complete { id } => EffectView::SendComplete { id: id@ },
            _ => EffectView::SendOther,
        },
        Effect::SendClose => EffectView::SendClose,
        Effect::Data { id, payload } => EffectView::Data { id, payload },
        Effect::ErrorSignal { id, message } => EffectView::ErrorSignal { id, message: message@ },
        Effect::CompleteSignal { id } => EffectView::CompleteSignal { id },
        Effect::Stop => EffectView::Stop,
    }
}

pub open spec fn effects_view(s: Seq<Effect>) -> Seq<EffectView> {
    s.map_values(|e: Effect| effect_view(e))
}

/// Mathematical image of the manager.
#[verifier::ext_equal]
pub struct ManagerView {
    pub state: ConnState,
    pub pending: Seq<PendingSub>,
    pub reg: Seq<(u64, CallbackInfo)>,
}

pub open spec fn mv_wf(m: ManagerView) -> bool {
    reg_wf(m.reg)
}

/// The subscribe frame owed for one queued subscription.
pub open spec fn sub_frame_view(p: PendingSub) -> EffectView {
    EffectView::SendSubscribe {
        id: spec_sub_id(p.id as nat),
        query: p.query@,
        variables: kv_view(p.variables@),
    }
}

/// The subscribe frames owed for a queue, in queue order.
pub open spec fn subs_view(s: Seq<PendingSub>) -> Seq<EffectView> {
    s.map_values(|p: PendingSub| sub_frame_view(p))
}

/// The registry after registering every queued subscription, in queue
/// order.
pub open spec fn flush_reg(
    reg: Seq<(u64, CallbackInfo)>,
    pending: Seq<PendingSub>,
) -> Seq<(u64, CallbackInfo)>
    decreases pending.len(),
{
    if pending.len() == 0 {
        reg
    } else {
        reg_insert(flush_reg(reg, pending.drop_last()), pending.last().id, pending.last().info)
    }
}

/// The message handed to error callbacks when the connection goes away.
pub open spec fn closed_msg() -> Seq<char> {
    "WebSocket connection closed"@
}

/// The error notices owed at teardown: one per live subscription that
/// supplied an error callback, in registration order.
pub open spec fn teardown_effects(reg: Seq<(u64, CallbackInfo)>) -> Seq<EffectView>
    decreases reg.len(),
{
    if reg.len() == 0 {
        Seq::<EffectView>::empty()
    } else {
        teardown_effects(reg.drop_last()) + (if reg.last().1.has_on_error {
            seq![EffectView::ErrorSignal { id: reg.last().0, message: closed_msg() }]
        } else {
            Seq::<EffectView>::empty()
        })
    }
}

/// Every command of the sequence is a subscribe.
pub open spec fn all_subscribes(cmds: Seq<Command>) -> bool {
    forall|i: int| 0 <= i < cmds.len() ==> cmds[i] is Subscribe
}

/// The subscription requests carried by a sequence of subscribe
/// commands, in order.
pub open spec fn sub_payloads(cmds: Seq<Command>) -> Seq<PendingSub> {
    cmds.map_values(|c: Command| c->Subscribe_0)
}

/// The manager after a sequence of commands, effects disregarded.
pub open spec fn spec_apply_commands(m: ManagerView, cmds: Seq<Command>) -> ManagerView
    decreases cmds.len(),
{
    if cmds.len() == 0 {
        m
    } else {
        spec_apply_commands(spec_handle_command(m, cmds[0]).0, cmds.skip(1))
    }
}

/// How many error notices in the list are addressed to `id`.
pub open spec fn count_error_for(effs: Seq<EffectView>, id: u64) -> nat
    decreases effs.len(),
{
    if effs.len() == 0 {
        0
    } else {
        count_error_for(effs.drop_last(), id) + (match effs.last() {
            EffectView::ErrorSignal { id: i, message: _ } => if i == id {
                1nat
            } else {
                0nat
            },
            _ => 0nat,
        })
    }
}

proof fn lemma_count_additive(a: Seq<EffectView>, b: Seq<EffectView>, id: u64)
    ensures
        count_error_for(a + b, id) == count_error_for(a, id) + count_error_for(b, id),
    decreases b.len(),
{
    if b.len() == 0 {
        assert(a + b =~= a);
    } else {
        lemma_count_additive(a, b.drop_last(), id);
        assert((a + b).drop_last() =~= a + b.drop_last());
        assert((a + b).last() == b.last());
    }
}

proof fn lemma_count_singleton(e: EffectView, id: u64)
    ensures
        count_error_for(seq![e], id) == (match e {
            EffectView::ErrorSignal { id: i, message: _ } => if i == id {
                1nat
            } else {
                0nat
            },
            _ => 0nat,
        }),
{
    let s = seq![e];
    assert(s.drop_last() =~= Seq::<EffectView>::empty());
    assert(s.last() == e);
    assert(count_error_for(Seq::<EffectView>::empty(), id) == 0);
}

/// At teardown a live subscription that supplied an error callback is
/// owed exactly one notice; every other id is owed none.
pub proof fn lemma_teardown_exactly_once(reg: Seq<(u64, CallbackInfo)>, id: u64)
    requires
        reg_wf(reg),
    ensures
        count_error_for(teardown_effects(reg), id) == (
        if reg_has(reg, id) && reg_info(reg, id).has_on_error {
            1nat
        } else {
            0nat
        }),
    decreases reg.len(),
{
    if reg.len() == 0 {
        assert(!reg_has(reg, id));
    } else {
        let dl = reg.drop_last();
        let last = reg.last();
        assert(reg_wf(dl));
        lemma_teardown_exactly_once(dl, id);
        let tail = if last.1.has_on_error {
            seq![EffectView::ErrorSignal { id: last.0, message: closed_msg() }]
        } else {
            Seq::<EffectView>::empty()
        };
        lemma_count_additive(teardown_effects(dl), tail, id);
        if last.1.has_on_error {
            lemma_count_singleton(EffectView::ErrorSignal { id: last.0, message: closed_msg() }, id);
        }
        if last.0 == id {
            lemma_reg_at(reg, id, reg.len() - 1);
            assert(!reg_has(dl, id)) by {
                if reg_has(dl, id) {
                    let i = choose|i: int| 0 <= i < dl.len() && dl[i].0 == id;
                    assert(reg[i].0 == reg[reg.len() - 1].0);
                }
            }
        } else {
            assert(count_error_for(tail, id) == 0);
            if reg_has(dl, id) {
                let i = choose|i: int| 0 <= i < dl.len() && dl[i].0 == id;
                lemma_reg_at(dl, id, i);
                lemma_reg_at(reg, id, i);
            } else {
                assert(!reg_has(reg, id)) by {
                    if reg_has(reg, id) {
                        let i = choose|i: int| 0 <= i < reg.len() && reg[i].0 == id;
                        assert(i < dl.len() ==> dl[i].0 == id);
                    }
                }
            }
        }
    }
}

/// What one inbound frame does to the manager, and the effects owed.
pub open spec fn spec_handle_frame(m: ManagerView, msg: ProtocolMessage) -> (
    ManagerView,
    Seq<EffectView>,
) {
    if m.state is Closed {
        (m, Seq::<EffectView>::empty())
    } else {
        match msg {
            ProtocolMessage::ConnectionAck => (
                ManagerView {
                    state: ConnState::Ready,
                    pending: Seq::<PendingSub>::empty(),
                    reg: flush_reg(m.reg, m.pending),
                },
                subs_view(m.pending),
            ),
            ProtocolMessage::ConnectionError { payload } => (
                ManagerView {
                    state: ConnState::Closed,
                    pending: m.pending,
                    reg: Seq::<(u64, CallbackInfo)>::empty(),
                },
                teardown_effects(m.reg) + seq![EffectView::Stop],
            ),
            ProtocolMessage::Next { id, payload } => match spec_parse_sub_id(id@) {
                Some(n) => {
                    if reg_has(m.reg, n as u64) {
                        (m, seq![EffectView::Data { id: n as u64, payload }])
                    } else {
                        (m, Seq::<EffectView>::empty())
                    }
                },
                None => (m, Seq::<EffectView>::empty()),
            },
            ProtocolMessage::Error { id, payload } => match spec_parse_sub_id(id@) {
                Some(n) => {
                    if reg_has(m.reg, n as u64) && reg_info(m.reg, n as u64).has_on_error {
                        (
                            m,
                            seq![
                                EffectView::ErrorSignal {
                                    id: n as u64,
                                    message: json_text_of(payload),
                                }
                            ],
                        )
                    } else {
                        (m, Seq::<EffectView>::empty())
                    }
                },
                None => (m, Seq::<EffectView>::empty()),
            },
            ProtocolMessage::Complete { id } => match spec_parse_sub_id(id@) {
                Some(n) => {
                    if reg_has(m.reg, n as u64) {
                        (
                            ManagerView {
                                state: m.state,
                                pending: m.pending,
                                reg: reg_remove(m.reg, n as u64),
                            },
                            if reg_info(m.reg, n as u64).has_on_complete {
                                seq![EffectView::CompleteSignal { id: n as u64 }]
                            } else {
                                Seq::<EffectView>::empty()
                            },
                        )
                    } else {
                        (m, Seq::<EffectView>::empty())
                    }
                },
                None => (m, Seq::<EffectView>::empty()),
            },
            _ => (m, Seq::<EffectView>::empty()),
        }
    }
}

/// What one caller command does to the manager, and the effects owed.
pub open spec fn spec_handle_command(m: ManagerView, cmd: Command) -> (
    ManagerView,
    Seq<EffectView>,
) {
    if m.state is Closed {
        (m, Seq::<EffectView>::empty())
    } else {
        match cmd {
            Command::Subscribe(p) => {
                if m.state is AwaitingAck {
                    (
                        ManagerView { state: m.state, pending: m.pending.push(p), reg: m.reg },
                        Seq::<EffectView>::empty(),
                    )
                } else {
                    (
                        ManagerView {
                            state: m.state,
                            pending: m.pending,
                            reg: reg_insert(m.reg, p.id, p.info),
                        },
                        seq![sub_frame_view(p)],
                    )
                }
            },
            Command::Unsubscribe { id } => (
                ManagerView { state: m.state, pending: m.pending, reg: reg_remove(m.reg, id) },
                seq![EffectView::SendComplete { id: spec_sub_id(id as nat) }],
            ),
            Command::UpdateToken { token } => (
                ManagerView {
                    state: ConnState::Closed,
                    pending: m.pending,
                    reg: Seq::<(u64, CallbackInfo)>::empty(),
                },
                teardown_effects(m.reg) + seq![EffectView::Stop],
            ),
            Command::Disconnect => (
                ManagerView {
                    state: ConnState::Closed,
                    pending: m.pending,
                    reg: Seq::<(u64, CallbackInfo)>::empty(),
                },
                seq![EffectView::SendClose] + teardown_effects(m.reg) + seq![EffectView::Stop],
            ),
        }
    }
}

/// What the loss of the transport does: same cleanup as any other
/// terminal path, with no close frame of our own.
pub open spec fn spec_connection_lost(m: ManagerView) -> (ManagerView, Seq<EffectView>) {
    if m.state is Closed {
        (m, Seq::<EffectView>::empty())
    } else {
        (
            ManagerView {
                state: ConnState::Closed,
                pending: m.pending,
                reg: Seq::<(u64, CallbackInfo)>::empty(),
            },
            teardown_effects(m.reg) + seq![EffectView::Stop],
        )
    }
}

/// What one inbound text frame does: decode, then dispatch; text that
/// decodes to nothing is dropped and the loop continues.
pub open spec fn spec_handle_text(m: ManagerView, t: Seq<char>) -> (ManagerView, Seq<EffectView>) {
    match spec_decode_text(t) {
        Some(msg) => spec_handle_frame(m, msg),
        None => (m, Seq::<EffectView>::empty()),
    }
}

/// The handshake frame: the bearer token rides in the payload when
/// there is one; an empty token gives an empty payload.
pub fn init_frame(token: &str) -> (m: ProtocolMessage)
    ensures
        match m {
            ProtocolMessage::ConnectionInit { payload } => {
                if token@.len() == 0 {
                    payload@.len() == 0
                } else {
                    &&& payload@.len() == 1
                    &&& payload@[0].0@ == "Authorization"@
                    &&& match payload@[0].1 {
                        JsonValue::Str(s) => s@ == "Bearer "@ + token@,
                        _ => false,
                    }
                }
            },
            _ => false,
        },
{
    let mut payload: Vec<(String, JsonValue)> = Vec::new();
    if token.unicode_len() > 0 {
        let mut bearer = String::from_str("Bearer ");
        bearer.append(token);
        payload.push((String::from_str("Authorization"), JsonValue::Str(bearer)));
    }
    ProtocolMessage::ConnectionInit { payload }
}

/// The connection manager's state: lifecycle, pending-command queue,
/// and subscription registry.
pub struct Manager {
    state: ConnState,
    pending: Vec<PendingSub>,
    registry: Registry,
}

impl View for Manager {
    type V = ManagerView;

    closed spec fn view(&self) -> ManagerView {
        ManagerView { state: self.state, pending: self.pending@, reg: self.registry@ }
    }
}

impl Manager {
    pub open spec fn wf(self) -> bool {
        mv_wf(self@)
    }

    /// A manager for a connection whose handshake frame is on the wire.
    pub fn new() -> (r: Manager)
        ensures
            r@.state is AwaitingAck,
            r@.pending == Seq::<PendingSub>::empty(),
            r@.reg == Seq::<(u64, CallbackInfo)>::empty(),
            r.wf(),
    {
        Manager { state: ConnState::AwaitingAck, pending: Vec::new(), registry: Registry::new() }
    }

    /// The lifecycle state the manager is in.
    pub fn lifecycle(&self) -> (r: ConnState)
        ensures
            r == self@.state,
    {
        self.state
    }

    /// Whether a subscription id is live.
    pub fn is_live(&self, id: u64) -> (r: bool)
        ensures
            r == reg_has(self@.reg, id),
    {
        self.registry.contains(id)
    }

    /// How many subscriptions are live.
    pub fn live_count(&self) -> (r: usize)
        ensures
            r == self@.reg.len(),
    {
        self.registry.len()
    }

    /// Closes down: every live subscription with an error callback is
    /// owed one notice, in registration order, then the loop stops.
    fn teardown(&mut self, effects: &mut Vec<Effect>)
        requires
            old(self).wf(),
        ensures
            final(self).wf(),
            final(self)@ == (ManagerView {
                state: ConnState::Closed,
                pending: old(self)@.pending,
                reg: Seq::<(u64, CallbackInfo)>::empty(),
            }),
            effects_view(final(effects)@) == effects_view(old(effects)@) + teardown_effects(
                old(self)@.reg,
            ) + seq![EffectView::Stop],
    {
        self.state = ConnState::Closed;
        let entries = self.registry.drain();
        let ghost base = effects@;
        let mut i: usize = 0;
        while i < entries.len()
            invariant
                i <= entries@.len(),
                effects_view(effects@) =~= effects_view(base) + teardown_effects(
                    entries@.subrange(0, i as int),
                ),
            decreases entries@.len() - i,
        {
            let e = entries[i];
            let ghost before = effects@;
            if e.1.has_on_error {
                effects.push(
                    Effect::ErrorSignal {
                        id: e.0,
                        message: String::from_str("WebSocket connection closed"),
                    },
                );
            }
            i = i + 1;
            proof {
                let s = entries@.subrange(0, i as int);
                assert(s.drop_last() =~= entries@.subrange(0, i - 1));
                assert(s.last() == entries@[i - 1]);
                let tail = if entries@[i - 1].1.has_on_error {
                    seq![
                        EffectView::ErrorSignal { id: entries@[i - 1].0, message: closed_msg() }
                    ]
                } else {
                    Seq::<EffectView>::empty()
                };
                assert(teardown_effects(s) == teardown_effects(s.drop_last()) + tail);
                assert(effects_view(effects@) =~= effects_view(before) + tail);
                assert(effects_view(effects@) =~= effects_view(base) + teardown_effects(s));
            }
        }
        proof {
            assert(entries@.subrange(0, entries@.len() as int) =~= entries@);
        }
        effects.push(Effect::Stop);
        proof {
            assert(effects_view(effects@) =~= effects_view(base) + teardown_effects(entries@)
                + seq![EffectView::Stop]);
        }
    }

    /// Applies one inbound frame.
    pub fn handle_frame(&mut self, msg: ProtocolMessage) -> (effects: Vec<Effect>)
        requires
            old(self).wf(),
        ensures
            final(self).wf(),
            final(self)@ == spec_handle_frame(old(self)@, msg).0,
            effects_view(effects@) == spec_handle_frame(old(self)@, msg).1,
    {
        let ghost pre = self@;
        let mut effects: Vec<Effect> = Vec::new();
        if self.state == ConnState::Closed {
            proof {
                assert(effects_view(effects@) =~= spec_handle_frame(pre, msg).1);
            }
            return effects;
        }
        match msg {
            ProtocolMessage::ConnectionAck => {
                self.state = ConnState::Ready;
                let mut ps: Vec<PendingSub> = Vec::new();
                core::mem::swap(&mut ps, &mut self.pending);
                let ghost orig = ps@;
                let ghost mut k: int = 0;
                while ps.len() > 0
                    invariant
                        self.wf(),
                        0 <= k <= orig.len(),
                        ps@ =~= orig.skip(k),
                        self@.state is Ready,
                        self@.pending == Seq::<PendingSub>::empty(),
                        self@.reg =~= flush_reg(pre.reg, orig.subrange(0, k)),
                        effects_view(effects@) =~= subs_view(orig.subrange(0, k)),
                    decreases ps@.len(),
                {
                    let p = ps.remove(0);
                    proof {
                        assert(p == orig[k]);
                    }
                    self.registry.insert(p.id, p.info);
                    let frame = ProtocolMessage::Subscribe {
                        id: format_sub_id(p.id),
                        query: p.query,
                        variables: p.variables,
                    };
                    let ghost before = effects@;
                    let ghost ge = Effect::Send(frame);
                    effects.push(Effect::Send(frame));
                    proof {
                        k = k + 1;
                        let s = orig.subrange(0, k);
                        assert(s.drop_last() =~= orig.subrange(0, k - 1));
                        assert(s.last() == orig[k - 1]);
                        assert(flush_reg(pre.reg, s) == reg_insert(
                            flush_reg(pre.reg, s.drop_last()),
                            orig[k - 1].id,
                            orig[k - 1].info,
                        ));
                        assert(ps@ =~= orig.skip(k));
                        assert(effects@ == before.push(ge));
                        assert(effect_view(ge) == sub_frame_view(orig[k - 1]));
                        assert(effects_view(before) =~= subs_view(orig.subrange(0, k - 1)));
                        assert(effects_view(before).len() == subs_view(
                            orig.subrange(0, k - 1),
                        ).len());
                        assert(before.len() == k - 1);
                        assert(effects@.len() == k);
                        assert(effects_view(effects@).len() == k);
                        assert(subs_view(s).len() == k);
                        assert forall|j: int| 0 <= j < k implies effects_view(effects@)[j]
                            == subs_view(s)[j] by {
                            assert(effects_view(effects@)[j] == effect_view(effects@[j]));
                            assert(subs_view(s)[j] == sub_frame_view(s[j]));
                            assert(s[j] == orig[j]);
                            if j < k - 1 {
                                assert(effects@[j] == before[j]);
                                assert(effects_view(before)[j] == effect_view(before[j]));
                                assert(subs_view(orig.subrange(0, k - 1))[j] == sub_frame_view(
                                    orig[j],
                                ));
                            } else {
                                assert(effects@[j] == ge);
                            }
                        }
                        assert(effects_view(effects@) =~= subs_view(s));
                    }
                }
                proof {
                    assert(orig.subrange(0, orig.len() as int) =~= orig);
                    assert(pre.pending == orig);
                }
                effects
            },
            ProtocolMessage::ConnectionError { payload: _ } => {
                self.teardown(&mut effects);
                effects
            },
            ProtocolMessage::Next { id, payload } => {
                match parse_sub_id(id.as_str()) {
                    Some(n) => {
                        if self.registry.contains(n) {
                            effects.push(Effect::Data { id: n, payload });
                        }
                    },
                    None => {},
                }
                effects
            },
            ProtocolMessage::Error { id, payload } => {
                match parse_sub_id(id.as_str()) {
                    Some(n) => {
                        match self.registry.lookup(n) {
                            Some(info) => {
                                if info.has_on_error {
                                    let message = to_text(&payload);
                                    effects.push(Effect::ErrorSignal { id: n, message });
                                }
                            },
                            None => {},
                        }
                    },
                    None => {},
                }
                effects
            },
            ProtocolMessage::Complete { id } => {
                match parse_sub_id(id.as_str()) {
                    Some(n) => {
                        match self.registry.remove(n) {
                            Some(info) => {
                                if info.has_on_complete {
                                    effects.push(Effect::CompleteSignal { id: n });
                                }
                            },
                            None => {},
                        }
                    },
                    None => {},
                }
                effects
            },
            _ => effects,
        }
    }

    /// Applies one caller command.
    pub fn handle_command(&mut self, cmd: Command) -> (effects: Vec<Effect>)
        requires
            old(self).wf(),
        ensures
            final(self).wf(),
            final(self)@ == spec_handle_command(old(self)@, cmd).0,
            effects_view(effects@) == spec_handle_command(old(self)@, cmd).1,
    {
        let ghost pre = self@;
        let mut effects: Vec<Effect> = Vec::new();
        if self.state == ConnState::Closed {
            proof {
                assert(effects_view(effects@) =~= spec_handle_command(pre, cmd).1);
            }
            return effects;
        }
        match cmd {
            Command::Subscribe(p) => {
                if self.state == ConnState::AwaitingAck {
                    self.pending.push(p);
                } else {
                    self.registry.insert(p.id, p.info);
                    let frame = ProtocolMessage::Subscribe {
                        id: format_sub_id(p.id),
                        query: p.query,
                        variables: p.variables,
                    };
                    effects.push(Effect::Send(frame));
                    proof {
                        assert(effects_view(effects@) =~= seq![sub_frame_view(p)]);
                    }
                }
            },
            Command::Unsubscribe { id } => {
                let _removed = self.registry.remove(id);
                effects.push(Effect::Send(ProtocolMessage::Complete { id: format_sub_id(id) }));
                proof {
                    assert(effects_view(effects@) =~= seq![
                        EffectView::SendComplete { id: spec_sub_id(id as nat) }
                    ]);
                }
            },
            Command::UpdateToken { token: _ } => {
                self.teardown(&mut effects);
            },
            Command::Disconnect => {
                effects.push(Effect::SendClose);
                self.teardown(&mut effects);
            },
        }
        effects
    }

    /// Notes that the transport itself ended: an inbound close, a read
    /// error, or the peer going away.
    pub fn connection_lost(&mut self) -> (effects: Vec<Effect>)
        requires
            old(self).wf(),
        ensures
            final(self).wf(),
            final(self)@ == spec_connection_lost(old(self)@).0,
            effects_view(effects@) == spec_connection_lost(old(self)@).1,
    {
        let ghost pre = self@;
        let mut effects: Vec<Effect> = Vec::new();
        if self.state == ConnState::Closed {
            proof {
                assert(effects_view(effects@) =~= spec_connection_lost(pre).1);
            }
            return effects;
        }
        self.teardown(&mut effects);
        effects
    }

    /// Closed is terminal: no frame, command or transport event leaves
    /// it, and none of them has any effect there.
    pub proof fn law_closed_is_terminal(m: ManagerView, msg: ProtocolMessage, cmd: Command)
        requires
            m.state is Closed,
        ensures
            spec_handle_frame(m, msg).0 == m,
            spec_handle_frame(m, msg).1 == Seq::<EffectView>::empty(),
            spec_handle_command(m, cmd).0 == m,
            spec_handle_command(m, cmd).1 == Seq::<EffectView>::empty(),
            spec_connection_lost(m).0 == m,
            spec_connection_lost(m).1 == Seq::<EffectView>::empty(),
    {
    }

    /// Before the acknowledgement, a subscribe command reaches neither
    /// the wire nor the registry: it only joins the queue, at the back.
    pub proof fn law_subscribe_queues_while_awaiting(m: ManagerView, p: PendingSub)
        requires
            m.state is AwaitingAck,
        ensures
            spec_handle_command(m, Command::Subscribe(p)).1 == Seq::<EffectView>::empty(),
            spec_handle_command(m, Command::Subscribe(p)).0.pending == m.pending.push(p),
            spec_handle_command(m, Command::Subscribe(p)).0.reg == m.reg,
            spec_handle_command(m, Command::Subscribe(p)).0.state is AwaitingAck,
    {
    }

    /// Any sequence of subscribe commands issued while AwaitingAck
    /// sends nothing and only grows the queue in submission order; the
    /// acknowledgement then sends exactly their subscribe frames, in
    /// that same order.
    pub proof fn law_handshake_preserves_order(m: ManagerView, cmds: Seq<Command>)
        requires
            m.state is AwaitingAck,
            all_subscribes(cmds),
        ensures
            spec_apply_commands(m, cmds).state is AwaitingAck,
            spec_apply_commands(m, cmds).reg == m.reg,
            spec_apply_commands(m, cmds).pending == m.pending + sub_payloads(cmds),
            spec_handle_frame(spec_apply_commands(m, cmds), ProtocolMessage::ConnectionAck).1
                == subs_view(m.pending + sub_payloads(cmds)),
        decreases cmds.len(),
    {
        if cmds.len() == 0 {
            assert(m.pending + sub_payloads(cmds) =~= m.pending);
        } else {
            let c0 = cmds[0];
            let p0 = c0->Subscribe_0;
            let m1 = spec_handle_command(m, c0).0;
            assert(m1.pending == m.pending.push(p0));
            Self::law_handshake_preserves_order(m1, cmds.skip(1));
            assert(sub_payloads(cmds.skip(1)) =~= sub_payloads(cmds).skip(1));
            assert(m.pending.push(p0) + sub_payloads(cmds).skip(1) =~= m.pending + sub_payloads(
                cmds,
            ));
        }
    }

    /// A data frame for an id that is not live is dropped outright: no
    /// callback fires, and no subscription's state is touched.
    pub proof fn law_unknown_next_dropped(m: ManagerView, id: String, payload: JsonValue)
        requires
            match spec_parse_sub_id(id@) {
                Some(n) => !reg_has(m.reg, n as u64),
                None => true,
            },
        ensures
            spec_handle_frame(m, ProtocolMessage::Next { id, payload }).0 == m,
            spec_handle_frame(m, ProtocolMessage::Next { id, payload }).1 == Seq::<
                EffectView,
            >::empty(),
    {
    }

    /// Once a completion for an id is processed, later data and error
    /// frames for that id do nothing.
    pub proof fn law_complete_then_silent(
        m: ManagerView,
        id: String,
        id2: String,
        payload: JsonValue,
        payload2: JsonValue,
    )
        requires
            mv_wf(m),
            id2@ == id@,
        ensures
            ({
                let m2 = spec_handle_frame(m, ProtocolMessage::Complete { id }).0;
                &&& spec_handle_frame(m2, ProtocolMessage::Next { id: id2, payload }).0 == m2
                &&& spec_handle_frame(m2, ProtocolMessage::Next { id: id2, payload }).1 == Seq::<
                    EffectView,
                >::empty()
                &&& spec_handle_frame(m2, ProtocolMessage::Error { id: id2, payload: payload2 }).0
                    == m2
                &&& spec_handle_frame(m2, ProtocolMessage::Error { id: id2, payload: payload2 }).1
                    == Seq::<EffectView>::empty()
            }),
    {
        let m2 = spec_handle_frame(m, ProtocolMessage::Complete { id }).0;
        if !(m.state is Closed) {
            match spec_parse_sub_id(id@) {
                Some(n) => {
                    if reg_has(m.reg, n as u64) {
                        lemma_reg_remove_props(m.reg, n as u64);
                    }
                },
                None => {},
            }
        }
    }

    /// Unsubscribing sends exactly one completion frame, for that id,
    /// and the id is gone from the registry by the time it is sent;
    /// every other subscription is untouched.
    pub proof fn law_unsubscribe_sends_one_complete(m: ManagerView, id: u64)
        requires
            mv_wf(m),
            !(m.state is Closed),
        ensures
            spec_handle_command(m, Command::Unsubscribe { id }).1 == seq![
                EffectView::SendComplete { id: spec_sub_id(id as nat) }
            ],
            !reg_has(spec_handle_command(m, Command::Unsubscribe { id }).0.reg, id),
            spec_handle_command(m, Command::Unsubscribe { id }).0.state == m.state,
            forall|x: u64|
                x != id ==> reg_has(
                    spec_handle_command(m, Command::Unsubscribe { id }).0.reg,
                    x,
                ) == reg_has(m.reg, x),
            forall|x: u64|
                x != id && reg_has(m.reg, x) ==> reg_info(
                    spec_handle_command(m, Command::Unsubscribe { id }).0.reg,
                    x,
                ) == reg_info(m.reg, x),
    {
        lemma_reg_remove_props(m.reg, id);
    }

    /// Disconnecting sends the close frame first, then notifies every
    /// live subscription that supplied an error callback exactly once,
    /// in registration order, leaves the registry empty, and stops the
    /// loop last.
    pub proof fn law_disconnect_notifies_each_once(m: ManagerView, id: u64)
        requires
            mv_wf(m),
            !(m.state is Closed),
        ensures
            spec_handle_command(m, Command::Disconnect).0.reg == Seq::<
                (u64, CallbackInfo),
            >::empty(),
            spec_handle_command(m, Command::Disconnect).0.state is Closed,
            spec_handle_command(m, Command::Disconnect).1 == seq![EffectView::SendClose]
                + teardown_effects(m.reg) + seq![EffectView::Stop],
            spec_handle_command(m, Command::Disconnect).1[0] is SendClose,
            spec_handle_command(m, Command::Disconnect).1.last() is Stop,
            count_error_for(spec_handle_command(m, Command::Disconnect).1, id) == (
            if reg_has(m.reg, id) && reg_info(m.reg, id).has_on_error {
                1nat
            } else {
                0nat
            }),
    {
        let effs = spec_handle_command(m, Command::Disconnect).1;
        lemma_teardown_exactly_once(m.reg, id);
        lemma_count_singleton(EffectView::SendClose, id);
        lemma_count_singleton(EffectView::Stop, id);
        lemma_count_additive(seq![EffectView::SendClose], teardown_effects(m.reg), id);
        lemma_count_additive(
            seq![EffectView::SendClose] + teardown_effects(m.reg),
            seq![EffectView::Stop],
            id,
        );
        assert(effs.last() == EffectView::Stop);
    }

    /// Applies one inbound text frame: decode, then dispatch; text that
    /// decodes to nothing is dropped.
    pub fn handle_text(&mut self, text: &str) -> (effects: Vec<Effect>)
        requires
            old(self).wf(),
        ensures
            final(self).wf(),
            final(self)@ == spec_handle_text(old(self)@, text@).0,
            effects_view(effects@) == spec_handle_text(old(self)@, text@).1,
    {
        match parse_text(text) {
            Some(v) => {
                match from_json(v) {
                    Some(msg) => self.handle_frame(msg),
                    None => Vec::new(),
                }
            },
            None => Vec::new(),
        }
    }
}

} // verus!
