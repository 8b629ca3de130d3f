//! The discovery and session engine as a state machine.
//!
//! The host loop sleeps, then hands the engine one event at a time: a tick
//! with the current time, a command from the user interface, a datagram, the
//! bytes of a stream, the outcome of a clipboard read or of a rebind. The
//! engine updates its peer table and timers and answers with actions for the
//! host to carry out, in order: datagrams and streams to send, clipboard and
//! menu work, a rebind of the sockets.
use crate::clipboard::{ClipboardData, ClipboardError, ClipboardView};
use crate::message::{
    compose_message, decode, message_wire, parse_message, MessageType, MessageView, PeerData,
};
use crate::network::{broadcast_addr, is_loopback_ip, PeerAddr, PROTOCOL_VER};
use std::collections::HashMap;
use vstd::prelude::*;
use vstd::string::StringExecFns;

verus! {

broadcast use vstd::std_specs::hash::group_hash_axioms;

/// Quiet time after the last network change before the sockets are rebuilt.
pub const DEBOUNCE_MS: u64 = 2000;

/// Period of the full reset and re-announce.
pub const REDISCOVER_MS: u64 = 300_000;

/// What the engine asks its host to do.
#[derive(Debug, PartialEq)]
pub enum Action {
    SendDatagram(PeerAddr, Vec<u8>),
    SendStream(PeerAddr, Vec<u8>),
    /// Read the local clipboard and hand the outcome to `on_clipboard`.
    ReadClipboard(PeerAddr),
    WriteClipboard(ClipboardData),
    /// A dynamic menu entry with this label whose click asks this peer for
    /// its clipboard.
    AddMenuEntry(String, PeerAddr),
    RemoveMenuEntry(PeerAddr),
    RemoveAllMenuEntries,
    /// Drop and bind the sockets again, and hand the outcome to `on_rebind`.
    Rebind,
}

pub enum ActionView {
    SendDatagram(PeerAddr, Seq<u8>),
    SendStream(PeerAddr, Seq<u8>),
    ReadClipboard(PeerAddr),
    WriteClipboard(ClipboardView),
    AddMenuEntry(Seq<char>, PeerAddr),
    RemoveMenuEntry(PeerAddr),
    RemoveAllMenuEntries,
    Rebind,
}

impl View for Action {
    type V = ActionView;

    open spec fn view(&self) -> ActionView {
        match self {
            Action::SendDatagram(a, b) => ActionView::SendDatagram(*a, b@),
            Action::SendStream(a, b) => ActionView::SendStream(*a, b@),
            Action::ReadClipboard(a) => ActionView::ReadClipboard(*a),
            Action::WriteClipboard(c) => ActionView::WriteClipboard(c@),
            Action::AddMenuEntry(l, a) => ActionView::AddMenuEntry(l@, *a),
            Action::RemoveMenuEntry(a) => ActionView::RemoveMenuEntry(*a),
            Action::RemoveAllMenuEntries => ActionView::RemoveAllMenuEntries,
            Action::Rebind => ActionView::Rebind,
        }
    }
}

pub open spec fn actions_view(v: Seq<Action>) -> Seq<ActionView> {
    v.map_values(|a: Action| a@)
}

/// A request from the user interface or the network-change notifier.
pub enum SessionCommand {
    Stop,
    Discover,
    NetworkChange,
    Cmd(PeerAddr, MessageType),
}

pub enum CommandView {
    Stop,
    Discover,
    NetworkChange,
    Cmd(PeerAddr, MessageView),
}

impl View for SessionCommand {
    type V = CommandView;

    open spec fn view(&self) -> CommandView {
        match self {
            SessionCommand::Stop => CommandView::Stop,
            SessionCommand::Discover => CommandView::Discover,
            SessionCommand::NetworkChange => CommandView::NetworkChange,
            SessionCommand::Cmd(a, m) => CommandView::Cmd(*a, m@),
        }
    }
}

/// The engine's state: who we are, the peers we know by IPv4 address, the
/// time of the last network change not yet acted on, the time of the last
/// rediscovery, and whether the sockets are bound.
pub struct Session {
    pub me: PeerData,
    pub local_ip: u32,
    pub peers: HashMap<u32, PeerData>,
    pub pending_change: Option<u64>,
    pub last_rediscover: u64,
    pub bound: bool,
    pub stopped: bool,
    pub debounce_ms: u64,
    pub rediscover_ms: u64,
}

pub struct SessionView {
    pub me: Seq<char>,
    pub local_ip: u32,
    pub peers: Map<u32, Seq<char>>,
    pub pending_change: Option<u64>,
    pub last_rediscover: u64,
    pub bound: bool,
    pub stopped: bool,
    pub debounce_ms: u64,
    pub rediscover_ms: u64,
}

impl View for Session {
    type V = SessionView;

    open spec fn view(&self) -> SessionView {
        SessionView {
            me: self.me@,
            local_ip: self.local_ip,
            peers: self.peers@.map_values(|p: PeerData| p@),
            pending_change: self.pending_change,
            last_rediscover: self.last_rediscover,
            bound: self.bound,
            stopped: self.stopped,
            debounce_ms: self.debounce_ms,
            rediscover_ms: self.rediscover_ms,
        }
    }
}

/// Sending `m` to `to` as a datagram; nothing where `m` cannot be encoded.
pub open spec fn send_to(to: PeerAddr, m: MessageView) -> Seq<ActionView> {
    match message_wire(m, PROTOCOL_VER) {
        Ok(b) => seq![ActionView::SendDatagram(to, b)],
        Err(_) => seq![],
    }
}

/// Announcing ourselves to the broadcast address.
pub open spec fn announce(s: SessionView) -> Seq<ActionView> {
    send_to(broadcast_addr(), MessageView::Xcon(s.me))
}

pub open spec fn label_prefix() -> Seq<char> {
    seq!['c', 'o', 'p', 'y', ' ', 'f', 'r', 'o', 'm', ' ']
}

/// The label of the menu entry of a peer called `name`.
pub open spec fn label_of(name: Seq<char>) -> Seq<char> {
    label_prefix() + name
}

/// The state without peers.
pub open spec fn forget_peers(s: SessionView) -> SessionView {
    SessionView { peers: Map::empty(), ..s }
}

pub open spec fn debounce_due(s: SessionView, now: u64) -> bool {
    s.pending_change matches Some(t) && now >= t && now - t > s.debounce_ms
}

pub open spec fn rediscovery_due(s: SessionView, now: u64) -> bool {
    now >= s.last_rediscover && now - s.last_rediscover > s.rediscover_ms
}

/// The first half of a tick: a network change that has been quiet long
/// enough starts a rebind; unbound sockets are bound again.
pub open spec fn tick_rebind(s: SessionView, now: u64) -> (SessionView, Seq<ActionView>) {
    if debounce_due(s, now) {
        (
            SessionView { pending_change: None, bound: false, ..forget_peers(s) },
            seq![ActionView::RemoveAllMenuEntries, ActionView::Rebind],
        )
    } else if !s.bound {
        (s, seq![ActionView::Rebind])
    } else {
        (s, seq![])
    }
}

/// A tick at time `now`.
pub open spec fn tick_step(s: SessionView, now: u64) -> (SessionView, Seq<ActionView>) {
    let (s1, a1) = tick_rebind(s, now);
    if rediscovery_due(s1, now) {
        (
            SessionView { last_rediscover: now, ..forget_peers(s1) },
            a1 + seq![ActionView::RemoveAllMenuEntries] + announce(s1),
        )
    } else {
        (s1, a1)
    }
}

/// The host's report on a rebind: the new local address, or none on failure.
pub open spec fn rebind_step(s: SessionView, local: Option<u32>) -> (SessionView, Seq<ActionView>) {
    match local {
        Some(ip) => (SessionView { bound: true, local_ip: ip, ..s }, announce(s)),
        None => (SessionView { bound: false, ..s }, seq![]),
    }
}

/// A command at time `now`.
pub open spec fn command_step(s: SessionView, c: CommandView, now: u64) -> (
    SessionView,
    Seq<ActionView>,
) {
    match c {
        CommandView::Stop => (
            SessionView { stopped: true, ..s },
            send_to(broadcast_addr(), MessageView::Xdis),
        ),
        CommandView::Discover => (
            SessionView { last_rediscover: now, ..forget_peers(s) },
            seq![ActionView::RemoveAllMenuEntries] + announce(s),
        ),
        CommandView::NetworkChange => (SessionView { pending_change: Some(now), ..s }, seq![]),
        CommandView::Cmd(target, m) => if m is Xcpy {
            (s, send_to(target, MessageView::Xcpy))
        } else {
            (s, seq![])
        },
    }
}

/// Taking note of a peer called `name` at `from`, unless it is known.
pub open spec fn learn(s: SessionView, from: PeerAddr, name: Seq<char>) -> (
    SessionView,
    Seq<ActionView>,
) {
    if s.peers.contains_key(from.ip) {
        (s, seq![])
    } else {
        (
            SessionView { peers: s.peers.insert(from.ip, name), ..s },
            seq![ActionView::AddMenuEntry(label_of(name), from)],
        )
    }
}

/// A datagram with bytes `data` from `from`.
pub open spec fn datagram_step(s: SessionView, from: PeerAddr, data: Seq<u8>) -> (
    SessionView,
    Seq<ActionView>,
) {
    if from.ip == s.local_ip || is_loopback_ip(from.ip) {
        (s, seq![])
    } else {
        match decode(data) {
            Ok(MessageView::Xcon(name)) => {
                let (s1, a) = learn(s, from, name);
                (s1, send_to(from, MessageView::Xacn(s.me)) + a)
            },
            Ok(MessageView::Xacn(name)) => learn(s, from, name),
            Ok(MessageView::Xdis) => (
                SessionView { peers: s.peers.remove(from.ip), ..s },
                seq![ActionView::RemoveMenuEntry(from)],
            ),
            Ok(MessageView::Xcpy) => (s, seq![ActionView::ReadClipboard(from)]),
            _ => (s, seq![]),
        }
    }
}

/// The bytes `data` read from an inbound stream.
pub open spec fn stream_actions(data: Seq<u8>) -> Seq<ActionView> {
    match decode(data) {
        Ok(MessageView::Xpst(c)) => seq![ActionView::WriteClipboard(c)],
        _ => seq![],
    }
}

/// The clipboard read that `requester` asked for, when it succeeded with `c`.
pub open spec fn clipboard_actions(requester: PeerAddr, c: ClipboardView) -> Seq<ActionView> {
    match message_wire(MessageView::Xpst(c), PROTOCOL_VER) {
        Ok(b) => seq![ActionView::SendStream(requester, b)],
        Err(_) => seq![],
    }
}

proof fn lemma_push_view(v: Seq<Action>, a: Action)
    ensures
        actions_view(v.push(a)) == actions_view(v).push(a@),
{
    assert(actions_view(v.push(a)) =~= actions_view(v).push(a@));
}

fn copy_peer(p: &PeerData) -> (r: PeerData)
    ensures
        r@ == p@,
{
    PeerData { peer_name: p.peer_name.clone() }
}

/// Appends the datagram that carries `m`, if `m` can be encoded.
fn push_send(to: PeerAddr, m: &MessageType, out: &mut Vec<Action>)
    ensures
        actions_view(final(out)@) == actions_view(old(out)@) + send_to(to, m@),
{
    match compose_message(m, PROTOCOL_VER) {
        Ok(b) => {
            proof {
                lemma_push_view(out@, Action::SendDatagram(to, b));
            }
            out.push(Action::SendDatagram(to, b));
        },
        Err(_) => {},
    }
    assert(actions_view(final(out)@) =~= actions_view(old(out)@) + send_to(to, m@));
}

fn push(out: &mut Vec<Action>, a: Action)
    ensures
        actions_view(final(out)@) == actions_view(old(out)@).push(a@),
{
    proof {
        lemma_push_view(out@, a);
    }
    out.push(a);
}

/// The label of the menu entry of `p`.
pub fn menu_label(p: &PeerData) -> (r: String)
    ensures
        r@ == label_of(p@),
{
    let mut label = "copy from ".to_owned();
    proof {
        reveal_strlit("copy from ");
    }
    label.append(p.peer_name.as_str());
    label
}

impl Session {
    /// A bound session for the node `me` at `local_ip`, started at `now`.
    pub fn new(me: PeerData, local_ip: u32, now: u64) -> (r: Session)
        ensures
            r@ == (SessionView {
                me: me@,
                local_ip,
                peers: Map::empty(),
                pending_change: None,
                last_rediscover: now,
                bound: true,
                stopped: false,
                debounce_ms: DEBOUNCE_MS,
                rediscover_ms: REDISCOVER_MS,
            }),
    {
        let r = Session {
            me,
            local_ip,
            peers: HashMap::new(),
            pending_change: None,
            last_rediscover: now,
            bound: true,
            stopped: false,
            debounce_ms: DEBOUNCE_MS,
            rediscover_ms: REDISCOVER_MS,
        };
        assert(r@.peers =~= Map::empty());
        r
    }

    /// The announcement of this node to the broadcast address.
    pub fn announce(&self) -> (r: Vec<Action>)
        ensures
            actions_view(r@) == announce(self@),
    {
        let mut out: Vec<Action> = Vec::new();
        self.push_announce(&mut out);
        assert(actions_view(out@) =~= announce(self@));
        out
    }

    fn push_announce(&self, out: &mut Vec<Action>)
        ensures
            actions_view(final(out)@) == actions_view(old(out)@) + announce(self@),
    {
        let msg = MessageType::Xcon(copy_peer(&self.me));
        push_send(PeerAddr::broadcast(), &msg, out);
    }

    fn clear_peers(&mut self)
        ensures
            final(self)@ == forget_peers(old(self)@),
    {
        self.peers.clear();
        assert(final(self)@.peers =~= Map::empty());
    }

    pub fn on_tick(&mut self, now: u64) -> (r: Vec<Action>)
        ensures
            tick_step(old(self)@, now) == (final(self)@, actions_view(r@)),
    {
        let mut out: Vec<Action> = Vec::new();
        let due = match self.pending_change {
            Some(t) => now >= t && now - t > self.debounce_ms,
            None => false,
        };
        if due {
            self.clear_peers();
            self.pending_change = None;
            self.bound = false;
            push(&mut out, Action::RemoveAllMenuEntries);
            push(&mut out, Action::Rebind);
        } else if !self.bound {
            push(&mut out, Action::Rebind);
        }
        assert(tick_rebind(old(self)@, now) == (self@, actions_view(out@)));
        if now >= self.last_rediscover && now - self.last_rediscover > self.rediscover_ms {
            let ghost before = self@;
            self.push_announce_after_reset(&mut out, now);
            assert(actions_view(out@) =~= tick_rebind(old(self)@, now).1 + seq![
                ActionView::RemoveAllMenuEntries,
            ] + announce(before));
        }
        out
    }

    /// Forgets the peers, notes `now` as the last rediscovery, asks for the
    /// dynamic menu entries to go, and announces this node.
    fn push_announce_after_reset(&mut self, out: &mut Vec<Action>, now: u64)
        ensures
            final(self)@ == (SessionView { last_rediscover: now, ..forget_peers(old(self)@) }),
            actions_view(final(out)@) == actions_view(old(out)@) + seq![
                ActionView::RemoveAllMenuEntries,
            ] + announce(old(self)@),
    {
        self.clear_peers();
        self.last_rediscover = now;
        push(out, Action::RemoveAllMenuEntries);
        self.push_announce(out);
        assert(actions_view(final(out)@) =~= actions_view(old(out)@) + seq![
            ActionView::RemoveAllMenuEntries,
        ] + announce(old(self)@));
    }

    pub fn on_rebind(&mut self, local: Option<u32>) -> (r: Vec<Action>)
        ensures
            rebind_step(old(self)@, local) == (final(self)@, actions_view(r@)),
    {
        match local {
            Some(ip) => {
                let out = self.announce();
                self.bound = true;
                self.local_ip = ip;
                out
            },
            None => {
                self.bound = false;
                let out: Vec<Action> = Vec::new();
                assert(actions_view(out@) =~= Seq::<ActionView>::empty());
                out
            },
        }
    }

    pub fn on_command(&mut self, cmd: SessionCommand, now: u64) -> (r: Vec<Action>)
        ensures
            command_step(old(self)@, cmd@, now) == (final(self)@, actions_view(r@)),
    {
        let mut out: Vec<Action> = Vec::new();
        match cmd {
            SessionCommand::Stop => {
                self.stopped = true;
                push_send(PeerAddr::broadcast(), &MessageType::Xdis, &mut out);
            },
            SessionCommand::Discover => {
                self.push_announce_after_reset(&mut out, now);
            },
            SessionCommand::NetworkChange => {
                self.pending_change = Some(now);
            },
            SessionCommand::Cmd(target, m) => {
                if let MessageType::Xcpy = m {
                    push_send(target, &MessageType::Xcpy, &mut out);
                }
            },
        }
        assert(actions_view(out@) =~= command_step(old(self)@, cmd@, now).1);
        out
    }

    fn learn(&mut self, from: PeerAddr, p: PeerData, out: &mut Vec<Action>)
        ensures
            ({
                let (s1, a) = learn(old(self)@, from, p@);
                &&& final(self)@ == s1
                &&& actions_view(final(out)@) == actions_view(old(out)@) + a
            }),
    {
        if !self.peers.contains_key(&from.ip) {
            let label = menu_label(&p);
            self.peers.insert(from.ip, p);
            push(out, Action::AddMenuEntry(label, from));
            assert(final(self)@.peers =~= old(self)@.peers.insert(from.ip, p@));
        }
        assert(actions_view(final(out)@) =~= actions_view(old(out)@) + learn(
            old(self)@,
            from,
            p@,
        ).1);
    }

    pub fn on_datagram(&mut self, from: PeerAddr, data: Vec<u8>) -> (r: Vec<Action>)
        ensures
            datagram_step(old(self)@, from, data@) == (final(self)@, actions_view(r@)),
    {
        let mut out: Vec<Action> = Vec::new();
        if from.ip == self.local_ip || from.is_loopback() {
            assert(actions_view(out@) =~= Seq::<ActionView>::empty());
            return out;
        }
        match parse_message(data) {
            Ok(MessageType::Xcon(p)) => {
                let ack = MessageType::Xacn(copy_peer(&self.me));
                push_send(from, &ack, &mut out);
                self.learn(from, p, &mut out);
            },
            Ok(MessageType::Xacn(p)) => {
                self.learn(from, p, &mut out);
            },
            Ok(MessageType::Xdis) => {
                self.peers.remove(&from.ip);
                push(&mut out, Action::RemoveMenuEntry(from));
                assert(final(self)@.peers =~= old(self)@.peers.remove(from.ip));
            },
            Ok(MessageType::Xcpy) => {
                push(&mut out, Action::ReadClipboard(from));
            },
            _ => {},
        }
        assert(actions_view(out@) =~= datagram_step(old(self)@, from, data@).1);
        out
    }

    pub fn on_stream(&self, data: Vec<u8>) -> (r: Vec<Action>)
        ensures
            actions_view(r@) == stream_actions(data@),
    {
        let mut out: Vec<Action> = Vec::new();
        if let Ok(MessageType::Xpst(cp_data)) = parse_message(data) {
            push(&mut out, Action::WriteClipboard(cp_data));
        }
        assert(actions_view(out@) =~= stream_actions(data@));
        out
    }

    /// The outcome of the clipboard read that `requester` asked for.
    pub fn on_clipboard(&self, requester: PeerAddr, read: Result<ClipboardData, ClipboardError>) -> (r:
        Vec<Action>)
        ensures
            read matches Ok(c) ==> actions_view(r@) == clipboard_actions(requester, c@),
            read is Err ==> r@.len() == 0,
    {
        let mut out: Vec<Action> = Vec::new();
        if let Ok(cp_buffer) = read {
            let msg = MessageType::Xpst(cp_buffer);
            if let Ok(data) = compose_message(&msg, PROTOCOL_VER) {
                push(&mut out, Action::SendStream(requester, data));
            }
            assert(actions_view(out@) =~= clipboard_actions(requester, msg@->Xpst_0));
        }
        out
    }
}

/// Asking twice in a row for rediscovery leaves the peer table empty after
/// each request, and the second request acts exactly as the first: the
/// dynamic menu entries are cleared and this node announced again, and no
/// menu entry is added.
pub proof fn lemma_rediscovery_idempotent(s: SessionView, t1: u64, t2: u64)
    ensures
        ({
            let (s1, a1) = command_step(s, CommandView::Discover, t1);
            let (s2, a2) = command_step(s1, CommandView::Discover, t2);
            &&& s1.peers == Map::<u32, Seq<char>>::empty()
            &&& s2.peers == Map::<u32, Seq<char>>::empty()
            &&& a1 == a2
            &&& forall|i: int| 0 <= i < a2.len() ==> !(#[trigger] a2[i] is AddMenuEntry)
        }),
{
    let (s1, a1) = command_step(s, CommandView::Discover, t1);
    let (s2, a2) = command_step(s1, CommandView::Discover, t2);
    assert(s1.me == s.me);
    assert forall|i: int| 0 <= i < a2.len() implies !(#[trigger] a2[i] is AddMenuEntry) by {
        if i > 0 {
            assert(a2[i] == announce(s1)[i - 1]);
        }
    }
}

/// What reaches the engine between ticks, as far as rebinding goes: a tick,
/// or a network-change notification, each with its time.
pub enum Stimulus {
    Tick(u64),
    Change(u64),
}

pub open spec fn stimulus_step(s: SessionView, x: Stimulus) -> (SessionView, Seq<ActionView>) {
    match x {
        Stimulus::Tick(now) => tick_step(s, now),
        Stimulus::Change(now) => command_step(s, CommandView::NetworkChange, now),
    }
}

/// The state and the actions after the stimuli `xs`, one after the other.
pub open spec fn run(s: SessionView, xs: Seq<Stimulus>) -> (SessionView, Seq<ActionView>)
    decreases xs.len(),
{
    if xs.len() == 0 {
        (s, seq![])
    } else {
        let (s1, a1) = run(s, xs.drop_last());
        let (s2, a2) = stimulus_step(s1, xs.last());
        (s2, a1 + a2)
    }
}

/// The number of rebinds among `a`.
pub open spec fn rebind_count(a: Seq<ActionView>) -> nat
    decreases a.len(),
{
    if a.len() == 0 {
        0
    } else {
        rebind_count(a.drop_last()) + if a.last() is Rebind {
            1nat
        } else {
            0nat
        }
    }
}

/// The time of the last notification among `xs`.
pub open spec fn last_change(xs: Seq<Stimulus>) -> Option<u64>
    decreases xs.len(),
{
    if xs.len() == 0 {
        None
    } else {
        match xs.last() {
            Stimulus::Change(t) => Some(t),
            Stimulus::Tick(_) => last_change(xs.drop_last()),
        }
    }
}

/// A burst: it opens with a notification, and every tick in it comes within
/// `window` of the notification before it.
pub open spec fn is_burst(xs: Seq<Stimulus>, window: u64) -> bool {
    &&& xs.len() > 0
    &&& xs[0] is Change
    &&& forall|i: int|
        0 <= i < xs.len() ==> (#[trigger] xs[i] matches Stimulus::Tick(now) ==> (last_change(
            xs.subrange(0, i),
        ) matches Some(t) && now - t <= window))
}

proof fn lemma_rebind_count_concat(a: Seq<ActionView>, b: Seq<ActionView>)
    ensures
        rebind_count(a + b) == rebind_count(a) + rebind_count(b),
    decreases b.len(),
{
    if b.len() > 0 {
        assert((a + b).drop_last() =~= a + b.drop_last());
        lemma_rebind_count_concat(a, b.drop_last());
    } else {
        assert(a + b =~= a);
    }
}

proof fn lemma_no_rebind_in_send(to: PeerAddr, m: MessageView)
    ensures
        rebind_count(send_to(to, m)) == 0,
{
    reveal_with_fuel(rebind_count, 2);
}

/// Inside a burst on bound sockets nothing is rebound, the sockets stay
/// bound, and the pending change is the last notification.
proof fn lemma_burst_prefix(s: SessionView, xs: Seq<Stimulus>, k: int)
    requires
        s.bound,
        is_burst(xs, s.debounce_ms),
        1 <= k <= xs.len(),
    ensures
        ({
            let (s1, a1) = run(s, xs.subrange(0, k));
            &&& s1.bound
            &&& s1.debounce_ms == s.debounce_ms
            &&& s1.pending_change == last_change(xs.subrange(0, k))
            &&& rebind_count(a1) == 0
        }),
    decreases k,
{
    let p = xs.subrange(0, k);
    assert(p.drop_last() =~= xs.subrange(0, k - 1));
    reveal_with_fuel(rebind_count, 3);
    if k == 1 {
        assert(xs.subrange(0, 0) =~= Seq::<Stimulus>::empty());
        assert(p.last() == xs[0]);
    } else {
        lemma_burst_prefix(s, xs, k - 1);
        let (s0, a0) = run(s, xs.subrange(0, k - 1));
        let (s1, a1) = stimulus_step(s0, xs[k - 1]);
        assert(p.last() == xs[k - 1]);
        lemma_rebind_count_concat(a0, a1);
        match xs[k - 1] {
            Stimulus::Change(_) => {},
            Stimulus::Tick(now) => {
                assert(xs[k - 1] matches Stimulus::Tick(now) ==> (last_change(
                    xs.subrange(0, k - 1),
                ) matches Some(t) && now - t <= s.debounce_ms));
                assert(!debounce_due(s0, now));
                let (r1, b1) = tick_rebind(s0, now);
                assert(b1 =~= Seq::<ActionView>::empty());
                if rediscovery_due(r1, now) {
                    lemma_no_rebind_in_send(broadcast_addr(), MessageView::Xcon(r1.me));
                    lemma_rebind_count_concat(
                        b1 + seq![ActionView::RemoveAllMenuEntries],
                        announce(r1),
                    );
                    lemma_rebind_count_concat(b1, seq![ActionView::RemoveAllMenuEntries]);
                }
            },
        }
    }
}

/// Network-change notifications that come in a burst, each tick between them
/// within the debounce window of the notification before it, lead to exactly
/// one rebind once a tick finds the network quiet for longer than the window.
pub proof fn lemma_debounce_collapse(s: SessionView, xs: Seq<Stimulus>, now: u64)
    requires
        s.bound,
        is_burst(xs, s.debounce_ms),
        last_change(xs) matches Some(t) && now >= t && now - t > s.debounce_ms,
    ensures
        rebind_count(run(s, xs.push(Stimulus::Tick(now))).1) == 1,
{
    let ys = xs.push(Stimulus::Tick(now));
    assert(ys.drop_last() =~= xs);
    assert(xs.subrange(0, xs.len() as int) =~= xs);
    lemma_burst_prefix(s, xs, xs.len() as int);
    let (s0, a0) = run(s, xs);
    let (r1, b1) = tick_rebind(s0, now);
    assert(debounce_due(s0, now));
    reveal_with_fuel(rebind_count, 3);
    assert(b1.drop_last() =~= seq![ActionView::RemoveAllMenuEntries]);
    assert(rebind_count(b1) == 1);
    let (s2, a2) = tick_step(s0, now);
    if rediscovery_due(r1, now) {
        lemma_no_rebind_in_send(broadcast_addr(), MessageView::Xcon(r1.me));
        lemma_rebind_count_concat(b1 + seq![ActionView::RemoveAllMenuEntries], announce(r1));
        lemma_rebind_count_concat(b1, seq![ActionView::RemoveAllMenuEntries]);
    }
    lemma_rebind_count_concat(a0, a2);
}

} // verus!
