//! WebRTC direct-connection mode: which address is advertised, which peers
//! there are, what their connections bring forth, where packets go and which
//! frames are pushed to whom.
//!
//! The application owns the sockets and the timers. It asks this module what to
//! do and performs it.

use crate::audio::EncodedAudio;
use crate::buffer::{contents, share};
use crate::emulator::Button;
use crate::input::{is_buttons, Command};
use crate::net::{socket_addr, AddressBook, IpAddr, SocketAddr};
use crate::peer::{InputCommand, PeerError, WebrtcOutput, WebrtcPeer};
use crate::table::Table;
use crate::text::{joined, same_text, texts};
use bytes::Bytes;
use vstd::prelude::*;

verus! {

// Commands

/// The buttons that are named, in order. Names that stand for no button are
/// skipped.
pub open spec fn pressed(names: Seq<Seq<char>>) -> Seq<Button>
    decreases names.len(),
{
    if names.len() == 0 {
        Seq::empty()
    } else {
        let front = pressed(names.drop_last());
        match crate::emulator::button_named(names.last()) {
            Some(b) => front.push(b),
            None => front,
        }
    }
}

/// Whether a command is what a data channel message stands for: `reset`, or a
/// button state of the one WebRTC viewer.
pub open spec fn stands_for(cmd: InputCommand, command: Command) -> bool {
    if cmd.cmd_type@ == "reset"@ {
        command is Reset
    } else {
        is_buttons(
            command,
            pressed(texts(cmd.buttons@)),
            "webrtc-viewer"@,
            Seq::empty(),
            cmd.client_ts,
        )
    }
}

fn pressed_buttons(names: &Vec<String>) -> (r: Vec<Button>)
    ensures
        r@ == pressed(texts(names@)),
{
    let mut out: Vec<Button> = Vec::new();
    let mut i: usize = 0;
    let ghost all = texts(names@);
    while i < names.len()
        invariant
            i <= names@.len(),
            all == texts(names@),
            out@ == pressed(all.take(i as int)),
        decreases names@.len() - i,
    {
        proof {
            assert(all.take(i + 1).drop_last() == all.take(i as int));
            assert(all.take(i + 1).last() == names@[i as int]@);
        }
        if let Some(b) = Button::from_name(names[i].as_str()) {
            out.push(b);
        }
        i += 1;
    }
    assert(all.take(all.len() as int) == all);
    out
}

/// The command for the emulator that a data channel message stands for.
pub fn into_command(cmd: InputCommand) -> (r: Command)
    ensures
        stands_for(cmd, r),
{
    if same_text(cmd.cmd_type.as_str(), "reset") {
        return Command::Reset;
    }
    let r = Command::Buttons {
        buttons: pressed_buttons(&cmd.buttons),
        viewer_id: "webrtc-viewer".to_string(),
        timestamps: Vec::new(),
        client_ts: cmd.client_ts,
    };
    assert(crate::input::stamps(Seq::<crate::input::TimestampEntry>::empty()) =~= Seq::empty());
    r
}

// Addresses

/// The address to advertise in ICE host candidates, and what there is to warn
/// about.
#[derive(Clone, Copy, Debug, PartialEq, Eq, Structural)]
pub struct IceAddress {
    pub ip: IpAddr,
    /// A loopback address was detected: browsers must be on the same machine.
    pub loopback_detected: bool,
    /// A browser on a remote machine cannot reach the address.
    pub unreachable: bool,
}

/// 127.0.0.1.
pub const LOCALHOST: u32 = 0x7f00_0001;

/// The address to advertise: the configured one, else the one that was
/// detected, else 127.0.0.1.
pub open spec fn ice_ip(configured: Option<IpAddr>, detected: Option<IpAddr>) -> IpAddr {
    match configured {
        Some(ip) => ip,
        None => match detected {
            Some(ip) => ip,
            None => IpAddr::V4(LOCALHOST),
        },
    }
}

/// Decides which address to advertise. A loopback address is fine where it was
/// configured.
pub fn resolve_ice_ip(configured: Option<IpAddr>, detected: Option<IpAddr>) -> (r: IceAddress)
    ensures
        r.ip == ice_ip(configured, detected),
        r.loopback_detected == (configured is None && r.ip.loopback()),
        r.unreachable == (r.ip.unspecified() || (r.ip.loopback() && configured is None)),
{
    let ip = match configured {
        Some(ip) => ip,
        None => match detected {
            Some(ip) => ip,
            None => IpAddr::V4(LOCALHOST),
        },
    };
    let found = configured.is_none();
    IceAddress {
        ip,
        loopback_detected: found && ip.is_loopback(),
        unreachable: ip.is_unspecified() || (ip.is_loopback() && found),
    }
}

/// The address to bind the UDP socket to: all IPv4 interfaces, on the
/// configured port, else on a port that the system picks.
pub fn udp_bind_addr(port: Option<u16>) -> (r: SocketAddr)
    ensures
        r == (SocketAddr::V4 {
            ip: 0,
            port: match port {
                Some(p) => p,
                None => 0,
            },
        }),
{
    let port: u16 = match port {
        Some(p) => p,
        None => 0,
    };
    SocketAddr::V4 { ip: 0, port }
}

// Peers

/// What polling a peer gave.
pub type Polled = Result<Vec<WebrtcOutput>, PeerError>;

/// What is to be done about what a peer brought forth.
#[derive(Debug)]
pub enum Action {
    /// Push this text to the client of a session, via signaling.
    PushIce { session_id: String, text: String },
    /// Send this packet.
    Send { destination: SocketAddr, contents: Vec<u8> },
}

/// What is pushed, and to whom; or what is sent, and where.
pub enum ActionView {
    PushIce { session_id: Seq<char>, text: Seq<char> },
    Send { destination: SocketAddr, contents: Seq<u8> },
}

impl View for Action {
    type V = ActionView;

    open spec fn view(&self) -> ActionView {
        match *self {
            Action::PushIce { session_id, text } => ActionView::PushIce {
                session_id: session_id@,
                text: text@,
            },
            Action::Send { destination, contents } => ActionView::Send {
                destination,
                contents: contents@,
            },
        }
    }
}

/// What is to be done about the outputs of the peer kept under `name`.
///
/// A candidate goes to that session, an answer to the one it names.
pub open spec fn actions(name: Seq<char>, outputs: Seq<WebrtcOutput>) -> Seq<ActionView>
    decreases outputs.len(),
{
    if outputs.len() == 0 {
        Seq::empty()
    } else {
        let front = actions(name, outputs.drop_last());
        match outputs.last() {
            WebrtcOutput::IceCandidate { session_id, candidate } => front.push(
                ActionView::PushIce { session_id: name, text: candidate@ },
            ),
            WebrtcOutput::Answer { session_id, sdp } => front.push(
                ActionView::PushIce { session_id: session_id@, text: "ANSWER:"@ + sdp@ },
            ),
            WebrtcOutput::Transmit { destination, contents } => front.push(
                ActionView::Send { destination, contents: contents@ },
            ),
            WebrtcOutput::IceDisconnected(_) => front,
        }
    }
}

/// The sessions that the outputs report as lost.
pub open spec fn lost(outputs: Seq<WebrtcOutput>) -> Seq<Seq<char>>
    decreases outputs.len(),
{
    if outputs.len() == 0 {
        Seq::empty()
    } else {
        let front = lost(outputs.drop_last());
        match outputs.last() {
            WebrtcOutput::IceDisconnected(session_id) => front.push(session_id@),
            _ => front,
        }
    }
}

/// The views of a list of actions.
pub open spec fn action_views(actions: Seq<Action>) -> Seq<ActionView> {
    actions.map_values(|a: Action| a@)
}

/// Decides what to do about what polling the peer kept under `name` gave: which
/// actions to take, and which sessions are lost. A peer that cannot be polled is
/// lost.
pub fn apply_outputs(
    name: &str,
    polled: &Polled,
    todo: &mut Vec<Action>,
    dead: &mut Vec<String>,
)
    ensures
        *polled matches Ok(outputs) ==> {
            &&& action_views(final(todo)@) == action_views(old(todo)@) + actions(name@, outputs@)
            &&& texts(final(dead)@) == texts(old(dead)@) + lost(outputs@)
        },
        *polled is Err ==> {
            &&& final(todo)@ == old(todo)@
            &&& texts(final(dead)@) == texts(old(dead)@).push(name@)
        },
{
    let outputs = match polled {
        Ok(outputs) => outputs,
        Err(_) => {
            dead.push(name.to_string());
            assert(texts(dead@) =~= texts(old(dead)@).push(name@));
            return ;
        },
    };
    let ghost todo0 = action_views(todo@);
    let ghost dead0 = texts(dead@);
    let mut i: usize = 0;
    assert(todo0 + actions(name@, outputs@.take(0)) =~= todo0);
    assert(dead0 + lost(outputs@.take(0)) =~= dead0);
    while i < outputs.len()
        invariant
            i <= outputs@.len(),
            action_views(todo@) == todo0 + actions(name@, outputs@.take(i as int)),
            texts(dead@) == dead0 + lost(outputs@.take(i as int)),
        decreases outputs@.len() - i,
    {
        let ghost had = action_views(todo@);
        let ghost gone = texts(dead@);
        proof {
            assert(outputs@.take(i + 1).drop_last() == outputs@.take(i as int));
            assert(outputs@.take(i + 1).last() == outputs@[i as int]);
        }
        match &outputs[i] {
            WebrtcOutput::IceCandidate { session_id: _, candidate } => {
                let a = Action::PushIce { session_id: name.to_string(), text: candidate.clone() };
                todo.push(a);
                assert(action_views(todo@) =~= had.push(a@));
            },
            WebrtcOutput::Answer { session_id, sdp } => {
                let a = Action::PushIce {
                    session_id: session_id.clone(),
                    text: joined("ANSWER:", sdp.as_str()),
                };
                todo.push(a);
                assert(action_views(todo@) =~= had.push(a@));
            },
            WebrtcOutput::Transmit { destination, contents } => {
                let a = Action::Send { destination: *destination, contents: contents.clone() };
                assert(a@->contents =~= contents@);
                todo.push(a);
                assert(action_views(todo@) =~= had.push(a@));
            },
            WebrtcOutput::IceDisconnected(session_id) => {
                dead.push(session_id.clone());
                assert(texts(dead@) =~= gone.push(session_id@));
            },
        }
        proof {
            let o = outputs@.take(i + 1);
            assert(action_views(todo@) =~= todo0 + actions(name@, o));
            assert(texts(dead@) =~= dead0 + lost(o));
        }
        i += 1;
    }
    assert(outputs@.take(outputs@.len() as int) == outputs@);
}

/// Whether `commands` are what the inputs stand for, one for one.
pub open spec fn follow(inputs: Seq<InputCommand>, commands: Seq<Command>) -> bool {
    &&& commands.len() == inputs.len()
    &&& forall|i: int| 0 <= i < inputs.len() ==> stands_for(inputs[i], #[trigger] commands[i])
}

/// Whether a peer was left as it was, but for its inputs, which were taken out.
pub open spec fn drained(before: WebrtcPeer, after: WebrtcPeer) -> bool {
    &&& after.incoming_commands@ == Seq::<InputCommand>::empty()
    &&& after == (WebrtcPeer { incoming_commands: after.incoming_commands, ..before })
}

/// The inputs of all peers, peer by peer.
pub open spec fn all_inputs(peers: Seq<(String, WebrtcPeer)>) -> Seq<InputCommand>
    decreases peers.len(),
{
    if peers.len() == 0 {
        Seq::empty()
    } else {
        all_inputs(peers.drop_last()) + peers.last().1.incoming_commands@
    }
}

/// What is to be done about what polling the peers gave, peer by peer.
pub open spec fn all_actions(names: Seq<Seq<char>>, polled: Seq<Polled>) -> Seq<ActionView>
    decreases polled.len(),
{
    if polled.len() == 0 {
        Seq::empty()
    } else {
        all_actions(names, polled.drop_last()) + match polled.last() {
            Ok(outputs) => actions(names[polled.len() - 1], outputs@),
            Err(_) => Seq::empty(),
        }
    }
}

/// The sessions that are lost by what polling the peers gave: those that are
/// reported as lost, and those whose peer cannot be polled.
pub open spec fn all_lost(names: Seq<Seq<char>>, polled: Seq<Polled>) -> Seq<Seq<char>>
    decreases polled.len(),
{
    if polled.len() == 0 {
        Seq::empty()
    } else {
        all_lost(names, polled.drop_last()) + match polled.last() {
            Ok(outputs) => lost(outputs@),
            Err(_) => seq![names[polled.len() - 1]],
        }
    }
}

fn take_inputs(peer: &mut WebrtcPeer, commands: &mut Vec<Command>)
    ensures
        drained(*old(peer), *final(peer)),
        final(commands)@.len() == old(commands)@.len() + old(peer).incoming_commands@.len(),
        final(commands)@.take(old(commands)@.len() as int) == old(commands)@,
        follow(
            old(peer).incoming_commands@,
            final(commands)@.skip(old(commands)@.len() as int),
        ),
{
    let ghost first = commands@.len() as int;
    let ghost inputs = peer.incoming_commands@;
    let ghost mut taken: int = 0;
    assert(inputs.skip(0) =~= inputs);
    loop
        invariant
            0 <= taken <= inputs.len(),
            inputs == old(peer).incoming_commands@,
            peer.incoming_commands@ == inputs.skip(taken),
            *peer == (WebrtcPeer { incoming_commands: peer.incoming_commands, ..*old(peer) }),
            first == old(commands)@.len(),
            commands@.len() == first + taken,
            commands@.take(first) == old(commands)@,
            forall|i: int| 0 <= i < taken ==> stands_for(inputs[i], #[trigger] commands@[first + i]),
        ensures
            taken == inputs.len(),
            peer.incoming_commands@.len() == 0,
        decreases peer.incoming_commands@.len(),
    {
        match peer.recv_input() {
            Some(cmd) => {
                let ghost before = commands@;
                let command = into_command(cmd);
                commands.push(command);
                proof {
                    assert(cmd == inputs[taken]);
                    assert(peer.incoming_commands@ =~= inputs.skip(taken + 1));
                    assert(commands@.take(first) =~= before.take(first));
                    assert forall|i: int| 0 <= i < taken + 1 implies stands_for(
                        inputs[i],
                        #[trigger] commands@[first + i],
                    ) by {
                        if i < taken {
                            assert(before[first + i] == commands@[first + i]);
                        }
                    }
                    taken = taken + 1;
                }
            },
            None => {
                break ;
            },
        }
    }
    proof {
        let new = commands@.skip(first);
        assert(peer.incoming_commands@ =~= Seq::<InputCommand>::empty());
        assert forall|i: int| 0 <= i < inputs.len() implies stands_for(inputs[i], #[trigger] new[i]) by {
            assert(new[i] == commands@[first + i]);
        }
    }
}

/// What is to be done after a round of polling.
#[derive(Debug)]
pub struct Round {
    /// Actions to take.
    pub actions: Vec<Action>,
    /// Commands to hand to the emulator, as far as there is room for them.
    pub commands: Vec<Command>,
    /// Sessions that were removed.
    pub lost: Vec<String>,
}

/// Where a packet from a remote address goes.
#[derive(Debug)]
pub enum Route {
    /// To the peer of this session.
    Feed(String),
    /// To the first of these sessions' peers that accepts it; the address
    /// belongs to that session from then on.
    Try(Vec<String>),
}

/// The peers of a WebRTC server.
pub struct WebrtcSession {
    /// Peers by session identifier.
    pub peers: Table<WebrtcPeer>,
    /// Which session packets from a remote address belong to.
    pub peer_addrs: AddressBook,
    /// ICE host candidate address (advertised to browsers).
    pub ice_addr: SocketAddr,
    /// Whether there is anyone to send video to: at least one connected peer.
    pub video_active: bool,
    /// Whether there is anyone to send audio to: at least one connected peer.
    pub audio_active: bool,
}

/// Whether any of the peers is connected.
pub open spec fn any_connected(peers: Map<Seq<char>, WebrtcPeer>) -> bool {
    exists|s: Seq<char>| #[trigger] peers.dom().contains(s) && peers[s].ice_connected
}

fn has_connected(peers: &Table<WebrtcPeer>) -> (r: bool)
    requires
        peers.wf(),
    ensures
        r == any_connected(peers@),
{
    let n: usize = peers.len();
    let mut i: usize = 0;
    while i < n
        invariant
            i <= n,
            n == peers.in_order().len(),
            peers.wf(),
            forall|k: int| 0 <= k < i ==> !(#[trigger] peers.in_order()[k]).1.ice_connected,
        decreases n - i,
    {
        if peers.at(i).1.is_connected() {
            return true;
        }
        i += 1;
    }
    proof {
        peers.lemma_in_order();
        assert forall|s: Seq<char>| #[trigger] peers@.dom().contains(s) implies !peers@[s].ice_connected by {
            let p = crate::table::place(peers.in_order(), s);
            assert(peers.in_order()[p].0@ == s);
        }
    }
    false
}

/// The names under which peers are kept, in order.
pub open spec fn names(peers: Seq<(String, WebrtcPeer)>) -> Seq<Seq<char>> {
    peers.map_values(|p: (String, WebrtcPeer)| p.0@)
}

impl WebrtcSession {
    /// Each session has one peer, and no address belongs to a session without
    /// one.
    pub open spec fn wf(self) -> bool {
        &&& self.peers.wf()
        &&& self.peer_addrs.wf()
        &&& forall|a: SocketAddr|
            (#[trigger] self.peer_addrs.session_of(a)) matches Some(s) ==> self.peers@.dom().contains(
                s,
            )
    }

    /// A server without peers.
    pub fn new(ice_addr: SocketAddr) -> (r: Self)
        ensures
            r.wf(),
            r.peers@ == Map::<Seq<char>, WebrtcPeer>::empty(),
            forall|a: SocketAddr| r.peer_addrs.session_of(a) is None,
            r.ice_addr == ice_addr,
            !r.video_active,
            !r.audio_active,
    {
        WebrtcSession {
            peers: Table::new(),
            peer_addrs: AddressBook::new(),
            ice_addr,
            video_active: false,
            audio_active: false,
        }
    }

    /// Accept a browser's offer: create a peer and register it under its
    /// session. Returns whether the offer was accepted.
    pub fn accept(&mut self, session_id: &str, sdp_offer: &str) -> (accepted: bool)
        requires
            old(self).wf(),
        ensures
            final(self).wf(),
            accepted,
            final(self).peers@.dom() == old(self).peers@.dom().insert(session_id@),
            forall|s: Seq<char>|
                s != session_id@ && old(self).peers@.dom().contains(s) ==> final(self).peers@[s]
                    == #[trigger] old(self).peers@[s],
            ({
                let peer = final(self).peers@[session_id@];
                &&& peer.session_id@ == session_id@
                &&& peer.incoming_commands@ == Seq::<InputCommand>::empty()
                &&& !peer.ice_connected
                &&& peer.buffered_sps_pps@ == Seq::<Bytes>::empty()
            }),
            final(self).peer_addrs == old(self).peer_addrs,
            final(self).ice_addr == old(self).ice_addr,
            final(self).video_active == old(self).video_active,
            final(self).audio_active == old(self).audio_active,
    {
        match WebrtcPeer::accept_offer(session_id.to_string(), sdp_offer) {
            Ok(peer) => {
                self.peers.insert(session_id.to_string(), peer);
                assert(self.peers@.dom() =~= old(self).peers@.dom().insert(session_id@));
                true
            },
            Err(_) => false,
        }
    }

    /// The state after the peers of some sessions were removed.
    pub open spec fn buried(self, after: Self, dead: Seq<Seq<char>>) -> bool {
        &&& after.peers@ == self.peers@.remove_keys(dead.to_set())
        &&& forall|a: SocketAddr| #[trigger]
            after.peer_addrs.session_of(a) == (match self.peer_addrs.session_of(a) {
                Some(s) => if dead.contains(s) {
                    None
                } else {
                    Some(s)
                },
                None => None,
            })
        &&& after.ice_addr == self.ice_addr
        &&& after.video_active <==> any_connected(after.peers@)
        &&& after.audio_active <==> any_connected(after.peers@)
    }

    /// Remove the peers of some sessions and their addresses. Media is active
    /// while any of the peers that are left is connected.
    pub fn bury(&mut self, dead: &Vec<String>)
        requires
            old(self).wf(),
        ensures
            final(self).wf(),
            old(self).buried(*final(self), texts(dead@)),
            dead@.len() == 0 ==> final(self).peers == old(self).peers,
    {
        let ghost start = *self;
        let ghost all = texts(dead@);
        let mut i: usize = 0;
        proof {
            assert(start.peers@.remove_keys(all.take(0).to_set()) =~= start.peers@);
        }
        while i < dead.len()
            invariant
                i <= dead@.len(),
                all == texts(dead@),
                start == *old(self),
                start.wf(),
                self.wf(),
                self.peers@ == start.peers@.remove_keys(all.take(i as int).to_set()),
                forall|a: SocketAddr| #[trigger]
                    self.peer_addrs.session_of(a) == (match start.peer_addrs.session_of(a) {
                        Some(s) => if all.take(i as int).contains(s) {
                            None
                        } else {
                            Some(s)
                        },
                        None => None,
                    }),
                self.ice_addr == start.ice_addr,
                dead@.len() == 0 ==> self.peers == start.peers,
            decreases dead@.len() - i,
        {
            let ghost sid = dead@[i as int]@;
            let ghost before = *self;
            let _ = self.peers.remove(dead[i].as_str());
            self.peer_addrs.forget(dead[i].as_str());
            proof {
                let now = all.take(i + 1);
                assert(now =~= all.take(i as int).push(sid));
                assert forall|s: Seq<char>| now.contains(s) <==> all.take(i as int).contains(s) || s
                    == sid by {
                    if all.take(i as int).contains(s) {
                        let k = all.take(i as int).index_of(s);
                        assert(now[k] == s);
                    }
                    assert(now[i as int] == sid);
                    if now.contains(s) && s != sid {
                        let k = now.index_of(s);
                        assert(all.take(i as int)[k] == s);
                    }
                }
                assert(self.peers@ =~= start.peers@.remove_keys(now.to_set()));
                assert forall|a: SocketAddr|
                    (#[trigger] self.peer_addrs.session_of(a)) matches Some(s) implies self.peers@.dom().contains(
                    self.peer_addrs.session_of(a)->Some_0,
                ) by {
                    assert(before.peer_addrs.session_of(a) is Some);
                }
            }
            i += 1;
        }
        assert(all.take(all.len() as int) =~= all);
        let active = has_connected(&self.peers);
        self.video_active = active;
        self.audio_active = active;
    }

    /// The state after a round in which the peers gave `polled`: the inputs of
    /// every peer are taken out, and the sessions that are lost are removed.
    pub open spec fn polled_to(self, after: Self, polled: Seq<Polled>) -> bool {
        let dead = all_lost(names(self.peers.in_order()), polled);
        &&& after.peers@.dom() == self.peers@.dom().difference(dead.to_set())
        &&& forall|s: Seq<char>| #[trigger]
            after.peers@.dom().contains(s) ==> drained(self.peers@[s], after.peers@[s])
        &&& forall|a: SocketAddr| #[trigger]
            after.peer_addrs.session_of(a) == (match self.peer_addrs.session_of(a) {
                Some(s) => if dead.contains(s) {
                    None
                } else {
                    Some(s)
                },
                None => None,
            })
        &&& after.ice_addr == self.ice_addr
        &&& after.video_active <==> any_connected(after.peers@)
        &&& after.audio_active <==> any_connected(after.peers@)
    }

    /// One round over all peers, each with what polling it gave: decide what to
    /// do about that, take out its inputs, and remove the sessions that are
    /// lost.
    pub fn round(&mut self, polled: &Vec<Polled>) -> (r: Round)
        requires
            old(self).wf(),
            polled@.len() == old(self).peers.in_order().len(),
        ensures
            final(self).wf(),
            action_views(r.actions@) == all_actions(names(old(self).peers.in_order()), polled@),
            texts(r.lost@) == all_lost(names(old(self).peers.in_order()), polled@),
            follow(all_inputs(old(self).peers.in_order()), r.commands@),
            old(self).polled_to(*final(self), polled@),
    {
        let mut actions: Vec<Action> = Vec::new();
        let mut lost: Vec<String> = Vec::new();
        let mut commands: Vec<Command> = Vec::new();
        let ghost start = *self;
        let ghost entries = start.peers.in_order();
        let ghost called = names(entries);
        let ghost results = polled@;
        let n: usize = self.peers.len();
        proof {
            assert(action_views(actions@) =~= Seq::<ActionView>::empty());
            assert(texts(lost@) =~= Seq::<Seq<char>>::empty());
            assert(all_inputs(entries.take(0)) =~= Seq::<InputCommand>::empty());
        }
        let mut i: usize = 0;
        while i < n
            invariant
                i <= n,
                n == entries.len(),
                n == results.len(),
                results == polled@,
                start == *old(self),
                entries == start.peers.in_order(),
                called == names(entries),
                self.peers.wf(),
                self.peers.in_order().len() == n,
                self.peer_addrs == start.peer_addrs,
                self.ice_addr == start.ice_addr,
                action_views(actions@) == all_actions(called, results.take(i as int)),
                texts(lost@) == all_lost(called, results.take(i as int)),
                forall|k: int|
                    0 <= k < n ==> (#[trigger] self.peers.in_order()[k]).0@ == entries[k].0@,
                forall|k: int|
                    i <= k < n ==> (#[trigger] self.peers.in_order()[k]).1 == entries[k].1,
                forall|k: int|
                    0 <= k < i ==> drained(entries[k].1, (#[trigger] self.peers.in_order()[k]).1),
                follow(all_inputs(entries.take(i as int)), commands@),
            decreases n - i,
        {
            let name = self.peers.at(i).0.to_string();
            let ghost done = commands@;
            let ghost before = self.peers.in_order();
            proof {
                assert(results.take(i + 1).drop_last() =~= results.take(i as int));
                assert(results.take(i + 1).last() == results[i as int]);
            }
            apply_outputs(name.as_str(), &polled[i], &mut actions, &mut lost);
            proof {
                assert(called[i as int] == name@);
                assert(action_views(actions@) =~= all_actions(called, results.take(i + 1)));
                assert(texts(lost@) =~= all_lost(called, results.take(i + 1)));
            }
            take_inputs(self.peers.at_mut(i), &mut commands);
            proof {
                let inputs = entries[i as int].1.incoming_commands@;
                let some = all_inputs(entries.take(i as int));
                assert(entries.take(i + 1).drop_last() == entries.take(i as int));
                assert(entries.take(i + 1).last() == entries[i as int]);
                assert(all_inputs(entries.take(i + 1)) == some + inputs);
                assert forall|k: int| 0 <= k < (some + inputs).len() implies stands_for(
                    (some + inputs)[k],
                    #[trigger] commands@[k],
                ) by {
                    if k < some.len() {
                        assert(commands@.take(done.len() as int)[k] == done[k]);
                    } else {
                        assert(commands@.skip(done.len() as int)[k - some.len()] == commands@[k]);
                    }
                }
                let after = self.peers.in_order();
                assert forall|k: int| 0 <= k < n implies (#[trigger] after[k]).0@ == entries[k].0@ by {
                    assert(before[k].0@ == entries[k].0@);
                }
                assert forall|k: int| i < k < n implies (#[trigger] after[k]).1 == entries[k].1 by {
                    assert(before[k].1 == entries[k].1);
                }
                assert forall|k: int| 0 <= k < i + 1 implies drained(
                    entries[k].1,
                    (#[trigger] after[k]).1,
                ) by {
                    assert(before[k].0@ == entries[k].0@);
                    if k < i {
                        assert(drained(entries[k].1, before[k].1));
                    }
                }
            }
            i += 1;
        }
        proof {
            assert(entries.take(n as int) =~= entries);
            assert(results.take(n as int) =~= results);
            lemma_drained(start.peers, self.peers);
            assert forall|a: SocketAddr|
                (#[trigger] self.peer_addrs.session_of(a)) matches Some(s) implies self.peers@.dom().contains(
                self.peer_addrs.session_of(a)->Some_0,
            ) by {
                assert(start.peer_addrs.session_of(a) is Some);
            }
        }
        let ghost middle = *self;
        self.bury(&lost);
        proof {
            let dead = all_lost(called, results);
            assert(self.peers@.dom() =~= start.peers@.dom().difference(dead.to_set()));
            assert forall|s: Seq<char>| #[trigger] self.peers@.dom().contains(s) implies drained(
                start.peers@[s],
                self.peers@[s],
            ) by {
                assert(self.peers@[s] == middle.peers@[s]);
            }
        }
        Round { actions, commands, lost }
    }

    /// Poll every peer and do a round with what that gave.
    pub fn tick(&mut self) -> (r: Round)
        requires
            old(self).wf(),
        ensures
            final(self).wf(),
            r.actions@.len() == 0,
            r.lost@.len() == 0,
            follow(all_inputs(old(self).peers.in_order()), r.commands@),
            final(self).peers@.dom() == old(self).peers@.dom(),
            forall|s: Seq<char>| #[trigger]
                final(self).peers@.dom().contains(s) ==> drained(
                    old(self).peers@[s],
                    final(self).peers@[s],
                ),
            forall|a: SocketAddr| #[trigger]
                final(self).peer_addrs.session_of(a) == old(self).peer_addrs.session_of(a),
            final(self).ice_addr == old(self).ice_addr,
            final(self).video_active <==> any_connected(old(self).peers@),
            final(self).audio_active <==> any_connected(old(self).peers@),
    {
        let ghost start = *self;
        let ghost entries = start.peers.in_order();
        let n: usize = self.peers.len();
        let mut polled: Vec<Polled> = Vec::new();
        let mut i: usize = 0;
        while i < n
            invariant
                i <= n,
                n == entries.len(),
                entries == start.peers.in_order(),
                start == *old(self),
                self.peers.wf(),
                self.peers.in_order() == entries,
                self.peer_addrs == start.peer_addrs,
                self.ice_addr == start.ice_addr,
                polled@.len() == i,
                all_actions(names(entries), polled@) == Seq::<ActionView>::empty(),
                all_lost(names(entries), polled@) == Seq::<Seq<char>>::empty(),
            decreases n - i,
        {
            let ghost so_far = polled@;
            let outputs = self.peers.at_mut(i).poll();
            polled.push(outputs);
            proof {
                assert(self.peers.in_order() =~= entries);
                assert(polled@.drop_last() =~= so_far);
                assert(all_actions(names(entries), polled@) =~= Seq::<ActionView>::empty());
                assert(all_lost(names(entries), polled@) =~= Seq::<Seq<char>>::empty());
            }
            i += 1;
        }
        proof {
            self.peers.lemma_in_order();
            start.peers.lemma_in_order();
            assert forall|a: SocketAddr|
                (#[trigger] self.peer_addrs.session_of(a)) matches Some(s) implies self.peers@.dom().contains(
                self.peer_addrs.session_of(a)->Some_0,
            ) by {
                assert(start.peer_addrs.session_of(a) is Some);
            }
        }
        let r = self.round(&polled);
        proof {
            assert(r.actions@.len() == action_views(r.actions@).len());
            assert(r.lost@.len() == texts(r.lost@).len());
            assert(self.peers@.dom() =~= start.peers@.dom());
            assert(any_connected(self.peers@) <==> any_connected(start.peers@)) by {
                assert forall|s: Seq<char>| #[trigger] start.peers@.dom().contains(s) implies (
                self.peers@[s].ice_connected <==> start.peers@[s].ice_connected) by {
                    assert(self.peers@.dom().contains(s));
                }
            }
        }
        r
    }

    /// Decides where a packet from a remote address goes: to the session that
    /// the address belongs to, else to whichever session accepts it.
    pub fn route(&self, source: SocketAddr) -> (r: Route)
        requires
            self.wf(),
        ensures
            self.peer_addrs.session_of(source) matches Some(s) ==> {
                &&& r matches Route::Feed(session_id)
                &&& session_id@ == s
                &&& self.peers@.dom().contains(s)
            },
            self.peer_addrs.session_of(source) is None ==> {
                &&& r matches Route::Try(sessions)
                &&& texts(sessions@) == names(self.peers.in_order())
            },
    {
        match self.peer_addrs.get(source) {
            Some(s) => Route::Feed(s.to_string()),
            None => {
                let mut sessions: Vec<String> = Vec::new();
                let n: usize = self.peers.len();
                let mut i: usize = 0;
                while i < n
                    invariant
                        i <= n,
                        n == self.peers.in_order().len(),
                        self.peers.wf(),
                        texts(sessions@) == names(self.peers.in_order()).take(i as int),
                    decreases n - i,
                {
                    let ghost before = texts(sessions@);
                    let name = self.peers.at(i).0.to_string();
                    sessions.push(name);
                    proof {
                        assert(texts(sessions@) =~= before.push(name@));
                        assert(names(self.peers.in_order()).take(i + 1) =~= before.push(name@));
                    }
                    i += 1;
                }
                assert(names(self.peers.in_order()).take(n as int) =~= names(self.peers.in_order()));
                Route::Try(sessions)
            },
        }
    }

    /// A packet from a remote address was accepted by the peer of a session:
    /// the address belongs to the session from now on.
    pub fn accepted(&mut self, source: SocketAddr, session_id: &str)
        requires
            old(self).wf(),
            old(self).peers@.dom().contains(session_id@),
        ensures
            final(self).wf(),
            forall|a: SocketAddr| #[trigger]
                final(self).peer_addrs.session_of(a) == (if a == source {
                    Some(session_id@)
                } else {
                    old(self).peer_addrs.session_of(a)
                }),
            *final(self) == (WebrtcSession { peer_addrs: final(self).peer_addrs, ..*old(self) }),
    {
        self.peer_addrs.insert(source, session_id.to_string());
    }

    /// Pushes the units of a frame, in order, to each peer that is connected.
    fn push_units(&self, units: &Vec<Bytes>, timestamp: u32) -> (r: Vec<Push>)
        requires
            self.wf(),
        ensures
            push_views(r@) == pushes(self.peers.in_order(), unit_bytes(units@), timestamp),
    {
        let ghost bytes = unit_bytes(units@);
        let ghost entries = self.peers.in_order();
        let mut out: Vec<Push> = Vec::new();
        let n: usize = self.peers.len();
        let mut i: usize = 0;
        assert(push_views(out@) =~= pushes(entries.take(0), bytes, timestamp));
        while i < n
            invariant
                i <= n,
                n == entries.len(),
                self.peers.wf(),
                entries == self.peers.in_order(),
                bytes == unit_bytes(units@),
                push_views(out@) == pushes(entries.take(i as int), bytes, timestamp),
            decreases n - i,
        {
            proof {
                assert(entries.take(i + 1).drop_last() == entries.take(i as int));
                assert(entries.take(i + 1).last() == entries[i as int]);
            }
            let (name, peer) = self.peers.at(i);
            if peer.is_connected() {
                let ghost front = push_views(out@);
                let mut k: usize = 0;
                assert(front + pushes_to(name@, bytes.take(0), timestamp) =~= front);
                while k < units.len()
                    invariant
                        k <= units@.len(),
                        bytes == unit_bytes(units@),
                        push_views(out@) == front + pushes_to(name@, bytes.take(k as int), timestamp),
                    decreases units@.len() - k,
                {
                    let push = Push {
                        session_id: name.to_string(),
                        payload: share(&units[k]),
                        timestamp,
                    };
                    let ghost before = push_views(out@);
                    out.push(push);
                    proof {
                        assert(push_views(out@) =~= before.push((name@, bytes[k as int], timestamp)));
                        assert(pushes_to(name@, bytes.take(k + 1), timestamp) =~= pushes_to(
                            name@,
                            bytes.take(k as int),
                            timestamp,
                        ).push((name@, bytes[k as int], timestamp)));
                    }
                    k += 1;
                }
                assert(bytes.take(bytes.len() as int) =~= bytes);
            }
            i += 1;
        }
        assert(entries.take(n as int) =~= entries);
        out
    }

    /// Decides which NAL units of a video frame are pushed to whom.
    pub fn dispatch(&self, frame: &EncodedFrame) -> (r: Vec<Push>)
        requires
            self.wf(),
            frame.ts_us * 90 <= u64::MAX,
        ensures
            push_views(r@) == pushes(
                self.peers.in_order(),
                unit_bytes(frame.nals@),
                rtp_timestamp(frame.ts_us),
            ),
    {
        self.push_units(&frame.nals, pts_90khz(frame.ts_us))
    }

    /// Decides to whom an Opus frame is pushed.
    pub fn dispatch_audio(&self, frame: &EncodedAudio) -> (r: Vec<Push>)
        requires
            self.wf(),
            frame.ts_us * 48 <= u64::MAX,
        ensures
            push_views(r@) == pushes(
                self.peers.in_order(),
                seq![contents(frame.data)],
                audio_rtp_timestamp(frame.ts_us),
            ),
    {
        let mut units: Vec<Bytes> = Vec::new();
        units.push(share(&frame.data));
        assert(unit_bytes(units@) =~= seq![contents(frame.data)]);
        self.push_units(&units, pts_48khz(frame.ts_us))
    }

    /// Decides what to do about what came in from the video encoder: frames are
    /// dispatched, a lag is passed over, and the end ends the dispatching.
    pub fn on_video(&self, event: VideoEvent) -> (r: DispatchStep)
        requires
            self.wf(),
            event matches VideoEvent::Frame(frame) ==> frame.ts_us * 90 <= u64::MAX,
        ensures
            match event {
                VideoEvent::Frame(frame) => {
                    &&& r matches DispatchStep::Push(p)
                    &&& push_views(p@) == pushes(
                        self.peers.in_order(),
                        unit_bytes(frame.nals@),
                        rtp_timestamp(frame.ts_us),
                    )
                },
                VideoEvent::Lagged(_) => r is Skip,
                VideoEvent::Closed => r is Stop,
            },
    {
        match event {
            VideoEvent::Frame(frame) => DispatchStep::Push(self.dispatch(&frame)),
            VideoEvent::Lagged(_) => DispatchStep::Skip,
            VideoEvent::Closed => DispatchStep::Stop,
        }
    }

    /// Decides what to do about what came in from the audio encoder: as for
    /// video.
    pub fn on_audio(&self, event: AudioEvent) -> (r: DispatchStep)
        requires
            self.wf(),
            event matches AudioEvent::Frame(frame) ==> frame.ts_us * 48 <= u64::MAX,
        ensures
            match event {
                AudioEvent::Frame(frame) => {
                    &&& r matches DispatchStep::Push(p)
                    &&& push_views(p@) == pushes(
                        self.peers.in_order(),
                        seq![contents(frame.data)],
                        audio_rtp_timestamp(frame.ts_us),
                    )
                },
                AudioEvent::Lagged(_) => r is Skip,
                AudioEvent::Closed => r is Stop,
            },
    {
        match event {
            AudioEvent::Frame(frame) => DispatchStep::Push(self.dispatch_audio(&frame)),
            AudioEvent::Lagged(_) => DispatchStep::Skip,
            AudioEvent::Closed => DispatchStep::Stop,
        }
    }
}

// Media

/// An encoded video frame.
pub struct EncodedFrame {
    /// The NAL units of the frame, without start codes.
    pub nals: Vec<Bytes>,
    /// Timestamp in microseconds since the emulator started.
    pub ts_us: u64,
}

/// What comes in from the video encoder.
pub enum VideoEvent {
    Frame(EncodedFrame),
    /// This many frames were missed.
    Lagged(u64),
    Closed,
}

/// What comes in from the audio encoder.
pub enum AudioEvent {
    Frame(EncodedAudio),
    /// This many frames were missed.
    Lagged(u64),
    Closed,
}

/// A unit to push to the peer of a session: a NAL unit of video, or an Opus
/// frame.
pub struct Push {
    pub session_id: String,
    pub payload: Bytes,
    /// RTP timestamp.
    pub timestamp: u32,
}

/// What to do about what came in from an encoder.
pub enum DispatchStep {
    Push(Vec<Push>),
    Skip,
    Stop,
}

/// The RTP timestamp of a video frame: its time on the 90 kHz clock, modulo 2^32.
pub open spec fn rtp_timestamp(ts_us: u64) -> u32 {
    ((ts_us * 90 / 1000) % 0x1_0000_0000) as u32
}

/// The RTP timestamp of a video frame.
pub fn pts_90khz(ts_us: u64) -> (r: u32)
    requires
        ts_us * 90 <= u64::MAX,
    ensures
        r == rtp_timestamp(ts_us),
{
    ((ts_us * 90 / 1000) % 0x1_0000_0000) as u32
}

/// The RTP timestamp of an Opus frame: its time on the 48 kHz clock, modulo
/// 2^32.
pub open spec fn audio_rtp_timestamp(ts_us: u64) -> u32 {
    ((ts_us * 48 / 1000) % 0x1_0000_0000) as u32
}

/// The RTP timestamp of an Opus frame.
pub fn pts_48khz(ts_us: u64) -> (r: u32)
    requires
        ts_us * 48 <= u64::MAX,
    ensures
        r == audio_rtp_timestamp(ts_us),
{
    ((ts_us * 48 / 1000) % 0x1_0000_0000) as u32
}

/// The bytes of each unit of a list.
pub open spec fn unit_bytes(units: Seq<Bytes>) -> Seq<Seq<u8>> {
    units.map_values(|b: Bytes| contents(b))
}

/// To whom what is pushed, and with which timestamp.
pub open spec fn push_views(p: Seq<Push>) -> Seq<(Seq<char>, Seq<u8>, u32)> {
    p.map_values(|p: Push| (p.session_id@, contents(p.payload), p.timestamp))
}

/// The pushes of all units to one session.
pub open spec fn pushes_to(name: Seq<char>, units: Seq<Seq<u8>>, timestamp: u32) -> Seq<
    (Seq<char>, Seq<u8>, u32),
> {
    units.map_values(|unit: Seq<u8>| (name, unit, timestamp))
}

/// The pushes of a frame: all of its units, in order, to each peer that is
/// connected.
pub open spec fn pushes(
    peers: Seq<(String, WebrtcPeer)>,
    units: Seq<Seq<u8>>,
    timestamp: u32,
) -> Seq<(Seq<char>, Seq<u8>, u32)>
    decreases peers.len(),
{
    if peers.len() == 0 {
        Seq::empty()
    } else {
        let front = pushes(peers.drop_last(), units, timestamp);
        if peers.last().1.ice_connected {
            front + pushes_to(peers.last().0@, units, timestamp)
        } else {
            front
        }
    }
}

proof fn lemma_drained(before: Table<WebrtcPeer>, after: Table<WebrtcPeer>)
    requires
        before.wf(),
        after.wf(),
        after.in_order().len() == before.in_order().len(),
        forall|k: int|
            0 <= k < before.in_order().len() ==> {
                &&& (#[trigger] after.in_order()[k]).0@ == before.in_order()[k].0@
                &&& drained(before.in_order()[k].1, after.in_order()[k].1)
            },
    ensures
        after@.dom() == before@.dom(),
        forall|s: Seq<char>| #[trigger]
            after@.dom().contains(s) ==> drained(before@[s], after@[s]),
{
    before.lemma_in_order();
    after.lemma_in_order();
    let old_peers = before.in_order();
    let new_peers = after.in_order();
    assert forall|s: Seq<char>| #[trigger] after@.dom().contains(s) implies before@.dom().contains(s)
        && drained(before@[s], after@[s]) by {
        let p = crate::table::place(new_peers, s);
        assert(new_peers[p].0@ == s);
        assert(old_peers[p].0@ == s);
    }
    assert forall|s: Seq<char>| #[trigger] before@.dom().contains(s) implies after@.dom().contains(s) by {
        let p = crate::table::place(old_peers, s);
        assert(old_peers[p].0@ == s);
        assert(new_peers[p].0@ == s);
    }
    assert(after@.dom() =~= before@.dom());
}

// Laws

/// While a round leaves media active, there is a peer that the next frame goes
/// to, and while it does not, there is none: the emulator stands still exactly
/// while it would encode for nobody.
pub proof fn law_active_means_someone_watches(
    before: WebrtcSession,
    after: WebrtcSession,
    polled: Seq<Polled>,
    units: Seq<Seq<u8>>,
    timestamp: u32,
)
    requires
        before.polled_to(after, polled),
        after.wf(),
        units.len() > 0,
    ensures
        after.video_active <==> pushes(after.peers.in_order(), units, timestamp).len() > 0,
        after.audio_active == after.video_active,
{
    let peers = after.peers.in_order();
    after.peers.lemma_in_order();
    if after.video_active {
        let s = choose|s: Seq<char>| #[trigger]
            after.peers@.dom().contains(s) && after.peers@[s].ice_connected;
        let p = crate::table::place(peers, s);
        assert(peers[p].0@ == s);
        law_connected_peers_get_every_frame(peers, units, timestamp, p, 0);
        let k = pushes(peers, units, timestamp).index_of((peers[p].0@, units[0], timestamp));
    }
    if pushes(peers, units, timestamp).len() > 0 {
        law_only_connected_peers_get_frames(peers, units, timestamp, 0);
        let i = choose|i: int|
            0 <= i < peers.len() && (#[trigger] peers[i]).1.ice_connected && peers[i].0@ == pushes(
                peers,
                units,
                timestamp,
            )[0].0;
        assert(after.peers@.dom().contains(peers[i].0@));
    }
}

/// The RTP clock of video runs at 90 kHz: a frame that comes whole seconds later is
/// stamped 90000 ticks per second later, modulo 2^32.
pub proof fn law_rtp_clock_rate(ts_us: u64, seconds: u64)
    requires
        ts_us + seconds * 1_000_000 <= u64::MAX,
    ensures
        rtp_timestamp((ts_us + seconds * 1_000_000) as u64) == (rtp_timestamp(ts_us) + seconds
            * 90_000) % 0x1_0000_0000,
{
    let a = ts_us * 90 / 1000;
    let b = (ts_us + seconds * 1_000_000) * 90 / 1000;
    assert(b == a + seconds * 90_000);
    vstd::arithmetic::div_mod::lemma_add_mod_noop(a, seconds * 90_000, 0x1_0000_0000);
    vstd::arithmetic::div_mod::lemma_add_mod_noop(
        a % 0x1_0000_0000,
        seconds * 90_000,
        0x1_0000_0000,
    );
}

/// The RTP clock of audio runs at 48 kHz: a frame that comes whole seconds later
/// is stamped 48000 ticks per second later, modulo 2^32.
pub proof fn law_audio_rtp_clock_rate(ts_us: u64, seconds: u64)
    requires
        ts_us + seconds * 1_000_000 <= u64::MAX,
    ensures
        audio_rtp_timestamp((ts_us + seconds * 1_000_000) as u64) == (audio_rtp_timestamp(ts_us)
            + seconds * 48_000) % 0x1_0000_0000,
{
    let a = ts_us * 48 / 1000;
    let b = (ts_us + seconds * 1_000_000) * 48 / 1000;
    assert(b == a + seconds * 48_000);
    vstd::arithmetic::div_mod::lemma_add_mod_noop(a, seconds * 48_000, 0x1_0000_0000);
    vstd::arithmetic::div_mod::lemma_add_mod_noop(
        a % 0x1_0000_0000,
        seconds * 48_000,
        0x1_0000_0000,
    );
}

/// Once a session is removed, no packet is fed to it any more, and none of the
/// others is affected.
pub proof fn law_removed_sessions_get_no_packets(
    before: WebrtcSession,
    after: WebrtcSession,
    dead: Seq<Seq<char>>,
    source: SocketAddr,
)
    requires
        before.wf(),
        before.buried(after, dead),
    ensures
        after.peer_addrs.session_of(source) matches Some(s) ==> !dead.contains(s)
            && after.peers@.dom().contains(s),
        before.peer_addrs.session_of(source) matches Some(s) ==> !dead.contains(s)
            ==> after.peer_addrs.session_of(source) == Some(s),
{
    if let Some(s) = after.peer_addrs.session_of(source) {
        assert(before.peer_addrs.session_of(source) == Some(s));
        assert(before.peers@.dom().contains(s));
    }
}

/// A session that is lost in a round is gone after it, and so are its
/// addresses. A session that is not lost keeps its peer.
pub proof fn law_lost_sessions_are_gone(
    before: WebrtcSession,
    after: WebrtcSession,
    polled: Seq<Polled>,
    session_id: Seq<char>,
)
    requires
        before.wf(),
        before.polled_to(after, polled),
        before.peers@.dom().contains(session_id),
    ensures
        ({
            let lost = all_lost(names(before.peers.in_order()), polled).contains(session_id);
            &&& after.peers@.dom().contains(session_id) <==> !lost
            &&& lost ==> forall|a: SocketAddr| #[trigger]
                after.peer_addrs.session_of(a) != Some(session_id)
        }),
{
}

/// A peer that is not connected gets nothing.
pub proof fn law_only_connected_peers_get_frames(
    peers: Seq<(String, WebrtcPeer)>,
    units: Seq<Seq<u8>>,
    timestamp: u32,
    k: int,
)
    requires
        0 <= k < pushes(peers, units, timestamp).len(),
    ensures
        exists|i: int|
            0 <= i < peers.len() && (#[trigger] peers[i]).1.ice_connected && peers[i].0@ == pushes(
                peers,
                units,
                timestamp,
            )[k].0,
        units.contains(pushes(peers, units, timestamp)[k].1),
        pushes(peers, units, timestamp)[k].2 == timestamp,
    decreases peers.len(),
{
    let front = pushes(peers.drop_last(), units, timestamp);
    if k < front.len() {
        law_only_connected_peers_get_frames(peers.drop_last(), units, timestamp, k);
        let i = choose|i: int|
            0 <= i < peers.drop_last().len() && (#[trigger] peers.drop_last()[i]).1.ice_connected
                && peers.drop_last()[i].0@ == front[k].0;
        assert(peers[i].1.ice_connected);
    } else {
        assert(peers[peers.len() - 1].1.ice_connected);
        assert(units[k - front.len()] == pushes(peers, units, timestamp)[k].1);
    }
}

/// A connected peer gets every unit of a frame.
pub proof fn law_connected_peers_get_every_frame(
    peers: Seq<(String, WebrtcPeer)>,
    units: Seq<Seq<u8>>,
    timestamp: u32,
    i: int,
    n: int,
)
    requires
        0 <= i < peers.len(),
        peers[i].1.ice_connected,
        0 <= n < units.len(),
    ensures
        pushes(peers, units, timestamp).contains((peers[i].0@, units[n], timestamp)),
    decreases peers.len(),
{
    let front = pushes(peers.drop_last(), units, timestamp);
    let all = pushes(peers, units, timestamp);
    let wanted = (peers[i].0@, units[n], timestamp);
    if i < peers.len() - 1 {
        assert(peers.drop_last()[i] == peers[i]);
        law_connected_peers_get_every_frame(peers.drop_last(), units, timestamp, i, n);
        let k = front.index_of(wanted);
        assert(all[k] == wanted);
    } else {
        assert(all[front.len() + n] == wanted);
    }
}

proof fn lemma_pressed(names: Seq<Seq<char>>)
    ensures
        pressed(names) == names.filter_map(|name: Seq<char>| crate::emulator::button_named(name)),
    decreases names.len(),
{
    let f = |name: Seq<char>| crate::emulator::button_named(name);
    if names.len() > 0 {
        lemma_pressed(names.drop_last());
    }
    assert(pressed(names) =~= names.filter_map(f));
}

/// Whether a command is what a browser meant by a message: a reset, or else all
/// the buttons that it names, in order, with its timestamp.
pub open spec fn means(message: InputCommand, command: Command) -> bool {
    &&& message.cmd_type@ == "reset"@ <==> command is Reset
    &&& message.cmd_type@ != "reset"@ ==> (command matches Command::Buttons {
        buttons,
        viewer_id,
        timestamps,
        client_ts,
    } && {
        &&& buttons@ == texts(message.buttons@).filter_map(
            |name: Seq<char>| crate::emulator::button_named(name),
        )
        &&& viewer_id@ == "webrtc-viewer"@
        &&& timestamps@.len() == 0
        &&& client_ts == message.client_ts
    })
}

proof fn lemma_means(message: InputCommand, command: Command)
    requires
        stands_for(message, command),
    ensures
        means(message, command),
{
    lemma_pressed(texts(message.buttons@));
    if let Command::Buttons { timestamps, .. } = command {
        assert(crate::input::stamps(timestamps@).len() == timestamps@.len());
    }
}

/// What a browser sends over its data channel becomes the command that it means.
pub proof fn law_browsers_are_understood(message: InputCommand, r: Command)
    requires
        call_ensures(into_command, (message,), r),
    ensures
        means(message, r),
{
    lemma_means(message, r);
}

/// The address that is advertised is the configured one, else the detected one,
/// else that of this machine. A browser elsewhere cannot reach an unspecified
/// address, nor a loopback address that nobody asked for.
pub proof fn law_the_advertised_address(
    configured: Option<IpAddr>,
    detected: Option<IpAddr>,
    r: IceAddress,
    loopback: bool,
    unspecified: bool,
)
    requires
        call_ensures(resolve_ice_ip, (configured, detected), r),
        call_ensures(IpAddr::is_loopback, (r.ip,), loopback),
        call_ensures(IpAddr::is_unspecified, (r.ip,), unspecified),
    ensures
        configured matches Some(ip) ==> r.ip == ip && !r.loopback_detected,
        configured is None ==> (detected matches Some(ip) ==> r.ip == ip),
        configured is None && detected is None ==> r.ip == IpAddr::V4(0x7f00_0001) && r.unreachable,
        configured is None ==> (r.loopback_detected <==> loopback),
        r.unreachable <==> unspecified || (loopback && configured is None),
{
}

/// The UDP socket listens on all interfaces, on the port that is configured and
/// otherwise on any.
pub proof fn law_the_udp_socket(port: Option<u16>, r: SocketAddr)
    requires
        call_ensures(udp_bind_addr, (port,), r),
    ensures
        r matches SocketAddr::V4 { ip, port: p } && {
            &&& ip == 0
            &&& port matches Some(wanted) ==> p == wanted
            &&& port is None ==> p == 0
        },
{
}

/// What is to be done about one output of the peer kept under `name`.
pub open spec fn action_for(name: Seq<char>, output: WebrtcOutput) -> Option<ActionView> {
    match output {
        WebrtcOutput::IceCandidate { candidate, .. } => Some(
            ActionView::PushIce { session_id: name, text: candidate@ },
        ),
        WebrtcOutput::Answer { session_id, sdp } => Some(
            ActionView::PushIce { session_id: session_id@, text: "ANSWER:"@ + sdp@ },
        ),
        WebrtcOutput::Transmit { destination, contents } => Some(
            ActionView::Send { destination, contents: contents@ },
        ),
        WebrtcOutput::IceDisconnected(_) => None,
    }
}

/// The session that an output reports as lost.
pub open spec fn loss_in(output: WebrtcOutput) -> Option<Seq<char>> {
    match output {
        WebrtcOutput::IceDisconnected(session_id) => Some(session_id@),
        _ => None,
    }
}

proof fn lemma_outputs(name: Seq<char>, outputs: Seq<WebrtcOutput>)
    ensures
        actions(name, outputs) == outputs.filter_map(|o: WebrtcOutput| action_for(name, o)),
        lost(outputs) == outputs.filter_map(|o: WebrtcOutput| loss_in(o)),
    decreases outputs.len(),
{
    let f = |o: WebrtcOutput| action_for(name, o);
    let g = |o: WebrtcOutput| loss_in(o);
    if outputs.len() > 0 {
        lemma_outputs(name, outputs.drop_last());
    }
    assert(actions(name, outputs) =~= outputs.filter_map(f));
    assert(lost(outputs) =~= outputs.filter_map(g));
}

/// Everything that a peer brings forth is acted upon, in order, and every loss
/// that it reports is noted. A peer that cannot be polled is lost itself.
pub proof fn law_outputs_are_acted_upon(
    name: &str,
    polled: &Polled,
    todo: &mut Vec<Action>,
    dead: &mut Vec<String>,
)
    requires
        call_ensures(apply_outputs, (name, polled, todo, dead), ()),
    ensures
        *polled matches Ok(outputs) ==> {
            &&& final(todo)@.map_values(|a: Action| a@) == old(todo)@.map_values(|a: Action| a@)
                + outputs@.filter_map(|o: WebrtcOutput| action_for(name@, o))
            &&& texts(final(dead)@) == texts(old(dead)@) + outputs@.filter_map(
                |o: WebrtcOutput| loss_in(o),
            )
        },
        *polled is Err ==> {
            &&& final(todo)@ == old(todo)@
            &&& texts(final(dead)@) == texts(old(dead)@).push(name@)
        },
{
    if let Ok(outputs) = polled {
        lemma_outputs(name@, outputs@);
    }
}

proof fn lemma_all_inputs(peers: Seq<(String, WebrtcPeer)>)
    ensures
        all_inputs(peers) == peers.map_values(
            |p: (String, WebrtcPeer)| p.1.incoming_commands@,
        ).flatten(),
    decreases peers.len(),
{
    let f = |p: (String, WebrtcPeer)| p.1.incoming_commands@;
    if peers.len() > 0 {
        let front = peers.drop_last();
        lemma_all_inputs(front);
        assert(peers.map_values(f) =~= front.map_values(f).push(f(peers.last())));
        front.map_values(f).lemma_flatten_push(f(peers.last()));
    } else {
        assert(peers.map_values(f).len() == 0);
        assert(all_inputs(peers) =~= peers.map_values(f).flatten());
    }
}

/// In a round every message of every connected browser becomes the command that
/// it means, peer by peer and in the order of arrival, and none is left.
pub proof fn law_every_message_is_taken(
    session: &mut WebrtcSession,
    polled: &Vec<Polled>,
    r: Round,
    k: int,
    s: Seq<char>,
)
    requires
        call_ensures(WebrtcSession::round, (session, polled), r),
    ensures
        ({
            let messages = old(session).peers.in_order().map_values(
                |p: (String, WebrtcPeer)| p.1.incoming_commands@,
            ).flatten();
            &&& r.commands@.len() == messages.len()
            &&& 0 <= k < messages.len() ==> means(messages[k], r.commands@[k])
        }),
        final(session).peers@.dom().contains(s) ==> final(session).peers@[s].incoming_commands@.len()
            == 0,
{
    let peers = old(session).peers.in_order();
    lemma_all_inputs(peers);
    let messages = all_inputs(peers);
    if 0 <= k < messages.len() {
        assert(stands_for(messages[k], r.commands@[k]));
        lemma_means(messages[k], r.commands@[k]);
    }
}

proof fn lemma_all_lost(names: Seq<Seq<char>>, polled: Seq<Polled>, s: Seq<char>)
    ensures
        all_lost(names, polled).contains(s) <==> exists|i: int|
            0 <= i < polled.len() && #[trigger] reports_lost(names[i], polled[i], s),
    decreases polled.len(),
{
    if polled.len() > 0 {
        let front = polled.drop_last();
        let n = front.len() as int;
        lemma_all_lost(names, front, s);
        let a = all_lost(names, front);
        let b = match polled.last() {
            Ok(outputs) => lost(outputs@),
            Err(_) => seq![names[n]],
        };
        let all = all_lost(names, polled);
        assert(all == a + b);
        assert(all.contains(s) <==> a.contains(s) || b.contains(s)) by {
            if a.contains(s) {
                let k = a.index_of(s);
                assert(all[k] == s);
            }
            if b.contains(s) {
                let k = b.index_of(s);
                assert(all[a.len() + k] == s);
            }
            if all.contains(s) {
                let k = all.index_of(s);
                if k < a.len() {
                    assert(a[k] == s);
                } else {
                    assert(b[k - a.len()] == s);
                }
            }
        }
        assert(b.contains(s) <==> reports_lost(names[n], polled[n], s)) by {
            match polled.last() {
                Ok(outputs) => {
                    lemma_lost(outputs@, s);
                },
                Err(_) => {
                    assert(b[0] == names[n]);
                },
            }
        }
        if a.contains(s) {
            let i = choose|i: int|
                0 <= i < front.len() && #[trigger] reports_lost(names[i], front[i], s);
            assert(reports_lost(names[i], polled[i], s));
        }
        if exists|i: int| 0 <= i < polled.len() && #[trigger] reports_lost(names[i], polled[i], s) {
            let i = choose|i: int|
                0 <= i < polled.len() && #[trigger] reports_lost(names[i], polled[i], s);
            if i < n {
                assert(reports_lost(names[i], front[i], s));
            }
        }
    }
}

proof fn lemma_lost(outputs: Seq<WebrtcOutput>, s: Seq<char>)
    ensures
        lost(outputs).contains(s) <==> exists|k: int|
            0 <= k < outputs.len() && loss_in(#[trigger] outputs[k]) == Some(s),
    decreases outputs.len(),
{
    if outputs.len() > 0 {
        let front = outputs.drop_last();
        lemma_lost(front, s);
        let a = lost(front);
        let all = lost(outputs);
        if a.contains(s) {
            let k = a.index_of(s);
            assert(all[k] == s);
            let j = choose|k: int| 0 <= k < front.len() && loss_in(#[trigger] front[k]) == Some(s);
            assert(loss_in(outputs[j]) == Some(s));
        }
        if loss_in(outputs.last()) == Some(s) {
            assert(all[a.len() as int] == s);
            assert(loss_in(outputs[outputs.len() - 1]) == Some(s));
        }
        if all.contains(s) && !a.contains(s) {
            let k = all.index_of(s);
            if k < a.len() {
                assert(a[k] == s);
            }
            assert(loss_in(outputs.last()) == Some(s));
        }
        if exists|k: int| 0 <= k < outputs.len() && loss_in(#[trigger] outputs[k]) == Some(s) {
            let j = choose|k: int|
                0 <= k < outputs.len() && loss_in(#[trigger] outputs[k]) == Some(s);
            if j < front.len() {
                assert(loss_in(front[j]) == Some(s));
            }
        }
    }
}

/// Whether what polling the peer of a session gave means that a session is lost:
/// the peer says so, or cannot be polled itself.
pub open spec fn reports_lost(name: Seq<char>, polled: Polled, s: Seq<char>) -> bool {
    match polled {
        Ok(outputs) => exists|k: int|
            0 <= k < outputs@.len() && loss_in(#[trigger] outputs@[k]) == Some(s),
        Err(_) => name == s,
    }
}

/// After a round exactly those peers are left that nobody reported as lost, each
/// as it was, and media is active exactly if one of them is connected.
pub proof fn law_rounds_keep_who_is_not_lost(
    session: &mut WebrtcSession,
    polled: &Vec<Polled>,
    r: Round,
    s: Seq<char>,
)
    requires
        call_ensures(WebrtcSession::round, (session, polled), r),
        old(session).peers@.dom().contains(s),
        polled@.len() == old(session).peers.in_order().len(),
    ensures
        ({
            let peers = old(session).peers.in_order();
            let gone = exists|i: int|
                0 <= i < polled@.len() && #[trigger] reports_lost(
                    names(peers)[i],
                    polled@[i],
                    s,
                );
            &&& final(session).peers@.dom().contains(s) <==> !gone
            &&& !gone ==> final(session).peers@[s].ice_connected == old(
                session).peers@[s].ice_connected
            &&& !gone ==> final(session).peers@[s].session_id == old(session).peers@[s].session_id
        }),
        final(session).video_active <==> exists|t: Seq<char>| #[trigger]
            final(session).peers@.dom().contains(t) && final(session).peers@[t].ice_connected,
        final(session).audio_active <==> final(session).video_active,
        final(session).ice_addr == old(session).ice_addr,
{
    lemma_all_lost(names(old(session).peers.in_order()), polled@, s);
    let dead = all_lost(names(old(session).peers.in_order()), polled@);
    assert(dead.to_set().contains(s) <==> dead.contains(s));
}

/// A browser whose offer was accepted has a peer of its own, not connected yet,
/// and the peers of others stay as they are.
pub proof fn law_accepted_browsers_have_a_peer(
    session: &mut WebrtcSession,
    session_id: &str,
    offer: &str,
    accepted: bool,
    other: Seq<char>,
)
    requires
        call_ensures(WebrtcSession::accept, (session, session_id, offer), accepted),
    ensures
        accepted,
        final(session).peers@.dom().contains(session_id@),
        !final(session).peers@[session_id@].ice_connected,
        final(session).peers@[session_id@].session_id@ == session_id@,
        final(session).peers@[session_id@].incoming_commands@.len() == 0,
        other != session_id@ ==> (final(session).peers@.dom().contains(other) <==> old(
            session).peers@.dom().contains(other)),
        other != session_id@ && old(session).peers@.dom().contains(other) ==> final(
            session).peers@[other] == old(session).peers@[other],
        final(session).ice_addr == old(session).ice_addr,
        final(session).video_active == old(session).video_active,
        final(session).audio_active == old(session).audio_active,
{
}

/// A packet goes to the session that its address belongs to. A packet from an
/// unknown address is tried with every peer, and once one accepted it, the
/// address is that session's.
pub proof fn law_packets_find_their_peer(
    session: &mut WebrtcSession,
    source: SocketAddr,
    session_id: &str,
    r: Route,
    other: SocketAddr,
)
    requires
        call_ensures(WebrtcSession::accepted, (session, source, session_id), ()),
        call_ensures(WebrtcSession::route, (final(session), other), r),
    ensures
        other == source ==> (r matches Route::Feed(id) && id@ == session_id@),
        other != source ==> (old(session).peer_addrs.session_of(other) matches Some(s) ==> (
        r matches Route::Feed(id) && id@ == s)),
        other != source && old(session).peer_addrs.session_of(other) is None ==> (
        r matches Route::Try(ids) && texts(ids@) == names(old(session).peers.in_order())),
{
}

proof fn lemma_pushes(peers: Seq<(String, WebrtcPeer)>, units: Seq<Seq<u8>>, timestamp: u32)
    ensures
        pushes(peers, units, timestamp) == peers.map_values(
            |p: (String, WebrtcPeer)| pushes_of(p, units, timestamp),
        ).flatten(),
    decreases peers.len(),
{
    let f = |p: (String, WebrtcPeer)| pushes_of(p, units, timestamp);
    if peers.len() > 0 {
        let front = peers.drop_last();
        lemma_pushes(front, units, timestamp);
        let last = peers.last();
        assert(peers.map_values(f) =~= front.map_values(f).push(f(last)));
        front.map_values(f).lemma_flatten_push(f(last));
        assert(pushes_to(last.0@, units, timestamp) =~= units.map_values(
            |unit: Seq<u8>| (last.0@, unit, timestamp),
        ));
        assert(pushes(peers, units, timestamp) =~= peers.map_values(f).flatten());
    } else {
        assert(peers.map_values(f).len() == 0);
        assert(pushes(peers, units, timestamp) =~= peers.map_values(f).flatten());
    }
}

/// What one peer gets of a frame: every unit in order if it is connected, and
/// otherwise nothing.
pub open spec fn pushes_of(peer: (String, WebrtcPeer), units: Seq<Seq<u8>>, timestamp: u32) -> Seq<
    (Seq<char>, Seq<u8>, u32),
> {
    if peer.1.ice_connected {
        units.map_values(|unit: Seq<u8>| (peer.0@, unit, timestamp))
    } else {
        Seq::empty()
    }
}

/// Whether a list of pushes is a frame for everyone: every connected peer, in
/// order, gets every unit of it, in order and stamped with this timestamp, and
/// nobody gets anything else.
pub open spec fn reaches_everyone(
    list: Seq<Push>,
    peers: Seq<(String, WebrtcPeer)>,
    units: Seq<Seq<u8>>,
    timestamp: u32,
) -> bool {
    list.map_values(|p: Push| (p.session_id@, contents(p.payload), p.timestamp))
        == peers.map_values(
        |p: (String, WebrtcPeer)| pushes_of(p, units, timestamp),
    ).flatten()
}

/// A video frame reaches every connected peer whole, stamped on the 90 kHz clock,
/// and an Opus frame does so on the 48 kHz clock.
pub proof fn law_frames_reach_everyone(
    session: &WebrtcSession,
    video: &EncodedFrame,
    audio: &EncodedAudio,
    sent: (Vec<Push>, Vec<Push>),
    stamps: (u32, u32),
)
    requires
        call_ensures(WebrtcSession::dispatch, (session, video), sent.0),
        call_ensures(WebrtcSession::dispatch_audio, (session, audio), sent.1),
        call_ensures(pts_90khz, (video.ts_us,), stamps.0),
        call_ensures(pts_48khz, (audio.ts_us,), stamps.1),
    ensures
        reaches_everyone(
            sent.0@,
            session.peers.in_order(),
            video.nals@.map_values(|b: Bytes| contents(b)),
            stamps.0,
        ),
        reaches_everyone(
            sent.1@,
            session.peers.in_order(),
            seq![contents(audio.data)],
            stamps.1,
        ),
{
    let peers = session.peers.in_order();
    lemma_pushes(peers, video.nals@.map_values(|b: Bytes| contents(b)), stamps.0);
    lemma_pushes(peers, seq![contents(audio.data)], stamps.1);
}

/// The RTP clocks tick 90 and 48 times in a millisecond, and wrap after 2^32
/// ticks.
pub proof fn law_rtp_clocks(ts_us: u64, r: (u32, u32), wraps: int)
    requires
        call_ensures(pts_90khz, (ts_us,), r.0),
        call_ensures(pts_48khz, (ts_us,), r.1),
    ensures
        0 <= ts_us * 90 - wraps * 0x1_0000_0000 * 1_000 < 0x1_0000_0000 * 1_000 ==> r.0 * 1_000
            <= ts_us * 90 - wraps * 0x1_0000_0000 * 1_000 < (r.0 + 1) * 1_000,
        0 <= ts_us * 48 - wraps * 0x1_0000_0000 * 1_000 < 0x1_0000_0000 * 1_000 ==> r.1 * 1_000
            <= ts_us * 48 - wraps * 0x1_0000_0000 * 1_000 < (r.1 + 1) * 1_000,
{
    if 0 <= ts_us * 90 - wraps * 0x1_0000_0000 * 1_000 < 0x1_0000_0000 * 1_000 {
        let q = ts_us * 90 / 1000;
        vstd::arithmetic::div_mod::lemma_fundamental_div_mod_converse(
            q,
            0x1_0000_0000,
            wraps,
            q - wraps * 0x1_0000_0000,
        );
    }
    if 0 <= ts_us * 48 - wraps * 0x1_0000_0000 * 1_000 < 0x1_0000_0000 * 1_000 {
        let q = ts_us * 48 / 1000;
        vstd::arithmetic::div_mod::lemma_fundamental_div_mod_converse(
            q,
            0x1_0000_0000,
            wraps,
            q - wraps * 0x1_0000_0000,
        );
    }
}

/// What comes in from an encoder is dispatched as long as it is a frame. A lag is
/// passed over, and the end is the end.
pub proof fn law_frames_are_dispatched(
    session: &WebrtcSession,
    video: VideoEvent,
    audio: AudioEvent,
    r: (DispatchStep, DispatchStep),
)
    requires
        call_ensures(WebrtcSession::on_video, (session, video), r.0),
        call_ensures(WebrtcSession::on_audio, (session, audio), r.1),
    ensures
        video is Frame <==> r.0 is Push,
        video is Lagged <==> r.0 is Skip,
        video is Closed <==> r.0 is Stop,
        audio is Frame <==> r.1 is Push,
        audio is Lagged <==> r.1 is Skip,
        audio is Closed <==> r.1 is Stop,
        video matches VideoEvent::Frame(frame) ==> reaches_everyone(
            r.0->Push_0@,
            session.peers.in_order(),
            frame.nals@.map_values(|b: Bytes| contents(b)),
            rtp_timestamp(frame.ts_us),
        ),
        audio matches AudioEvent::Frame(frame) ==> reaches_everyone(
            r.1->Push_0@,
            session.peers.in_order(),
            seq![contents(frame.data)],
            audio_rtp_timestamp(frame.ts_us),
        ),
{
    let peers = session.peers.in_order();
    if let VideoEvent::Frame(frame) = video {
        lemma_pushes(
            peers,
            frame.nals@.map_values(|b: Bytes| contents(b)),
            rtp_timestamp(frame.ts_us),
        );
    }
    if let AudioEvent::Frame(frame) = audio {
        lemma_pushes(peers, seq![contents(frame.data)], audio_rtp_timestamp(frame.ts_us));
    }
}

/// Exactly the sessions that are named are removed, together with their addresses,
/// and media is active exactly if one of the peers that are left is connected.
pub proof fn law_the_dead_are_buried(
    session: &mut WebrtcSession,
    dead: &Vec<String>,
    s: Seq<char>,
    a: SocketAddr,
)
    requires
        call_ensures(WebrtcSession::bury, (session, dead), ()),
    ensures
        final(session).peers@.dom().contains(s) <==> old(session).peers@.dom().contains(s) && !texts(
            dead@,
        ).contains(s),
        final(session).peers@.dom().contains(s) ==> final(session).peers@[s] == old(
            session).peers@[s],
        old(session).peer_addrs.session_of(a) matches Some(t) ==> {
            &&& texts(dead@).contains(t) ==> final(session).peer_addrs.session_of(a) is None
            &&& !texts(dead@).contains(t) ==> final(session).peer_addrs.session_of(a) == Some(t)
        },
        final(session).video_active <==> exists|t: Seq<char>| #[trigger]
            final(session).peers@.dom().contains(t) && final(session).peers@[t].ice_connected,
        final(session).audio_active <==> final(session).video_active,
        final(session).ice_addr == old(session).ice_addr,
{
    assert(texts(dead@).to_set().contains(s) <==> texts(dead@).contains(s));
}

/// A tick takes every message of every browser, and loses nobody.
pub proof fn law_ticks_take_every_message(
    session: &mut WebrtcSession,
    r: Round,
    k: int,
    s: Seq<char>,
)
    requires
        call_ensures(WebrtcSession::tick, (session,), r),
    ensures
        ({
            let messages = old(session).peers.in_order().map_values(
                |p: (String, WebrtcPeer)| p.1.incoming_commands@,
            ).flatten();
            &&& r.commands@.len() == messages.len()
            &&& 0 <= k < messages.len() ==> means(messages[k], r.commands@[k])
        }),
        final(session).peers@.dom().contains(s) <==> old(session).peers@.dom().contains(s),
        final(session).peers@.dom().contains(s) ==> {
            &&& final(session).peers@[s].incoming_commands@.len() == 0
            &&& final(session).peers@[s].ice_connected == old(session).peers@[s].ice_connected
        },
        final(session).video_active <==> exists|t: Seq<char>| #[trigger]
            old(session).peers@.dom().contains(t) && old(session).peers@[t].ice_connected,
        final(session).audio_active <==> final(session).video_active,
        r.lost@.len() == 0,
        r.actions@.len() == 0,
{
    let peers = old(session).peers.in_order();
    lemma_all_inputs(peers);
    let messages = all_inputs(peers);
    if 0 <= k < messages.len() {
        assert(stands_for(messages[k], r.commands@[k]));
        lemma_means(messages[k], r.commands@[k]);
    }
}

} // verus!
