//! The state of a WebRTC peer connection, as far as the rest of the library
//! sees it: its identity, whether media can flow, and what its data channel
//! brought in.

use crate::net::SocketAddr;
use bytes::Bytes;
use std::collections::VecDeque;
use vstd::prelude::*;

verus! {

/// A viewer command received from the data channel.
#[derive(Clone, Debug)]
pub struct InputCommand {
    /// `"buttons"` or `"reset"`.
    pub cmd_type: String,
    /// Button names when `cmd_type` is `"buttons"`.
    pub buttons: Vec<String>,
    /// Client-side timestamp, for latency measurement.
    pub client_ts: Option<u64>,
}

/// What a peer connection brings forth.
#[derive(Debug)]
pub enum WebrtcOutput {
    /// SDP answer to send to the client via signaling.
    Answer { session_id: String, sdp: String },
    /// ICE candidate to push to the client via signaling.
    IceCandidate { session_id: String, candidate: String },
    /// The ICE connection was lost for this session.
    IceDisconnected(String),
    /// A packet to send to the client.
    Transmit { destination: SocketAddr, contents: Vec<u8> },
}

/// Why a peer connection failed.
#[derive(Debug)]
pub struct PeerError {
    pub reason: String,
}

/// A single WebRTC peer connection. Each viewer gets one.
pub struct WebrtcPeer {
    pub session_id: String,
    /// Data channel messages from the viewer that are still to be handled.
    pub incoming_commands: VecDeque<InputCommand>,
    /// Whether the ICE connection is established (media can flow).
    pub ice_connected: bool,
    /// Parameter sets to send before the next keyframe.
    pub buffered_sps_pps: Vec<Bytes>,
}

impl WebrtcPeer {
    /// Accept a client's SDP offer. Every offer is accepted; the connection is
    /// not established yet.
    pub fn accept_offer(session_id: String, offer_sdp: &str) -> (r: Result<Self, PeerError>)
        ensures
            r matches Ok(peer) && {
                &&& peer.session_id == session_id
                &&& peer.incoming_commands@ == Seq::<InputCommand>::empty()
                &&& !peer.ice_connected
                &&& peer.buffered_sps_pps@ == Seq::<Bytes>::empty()
            },
    {
        let _ = offer_sdp;
        Ok(
            WebrtcPeer {
                session_id,
                incoming_commands: VecDeque::new(),
                ice_connected: false,
                buffered_sps_pps: Vec::new(),
            },
        )
    }

    /// Set the parameter sets that are to be sent before the next keyframe.
    ///
    /// To be called once the encoder has produced its first keyframe, so that
    /// new peers receive what they need for decoding.
    pub fn set_sps_pps(&mut self, sps: Bytes, pps: Bytes)
        ensures
            final(self).buffered_sps_pps@ == seq![sps, pps],
            *final(self) == (WebrtcPeer {
                buffered_sps_pps: final(self).buffered_sps_pps,
                ..*old(self)
            }),
    {
        let mut sets: Vec<Bytes> = Vec::new();
        sets.push(sps);
        sets.push(pps);
        assert(sets@ =~= seq![sps, pps]);
        self.buffered_sps_pps = sets;
    }

    /// Drive the connection and collect what it brings forth. There is nothing
    /// to drive yet: no output, and no change.
    pub fn poll(&mut self) -> (r: Result<Vec<WebrtcOutput>, PeerError>)
        ensures
            r matches Ok(out) && out@.len() == 0,
            *final(self) == *old(self),
    {
        Ok(Vec::new())
    }

    /// The next viewer command that is still to be handled, in the order of
    /// arrival.
    pub fn recv_input(&mut self) -> (r: Option<InputCommand>)
        ensures
            r is None <==> old(self).incoming_commands@.len() == 0,
            r is None ==> final(self).incoming_commands@ == old(self).incoming_commands@,
            r matches Some(cmd) ==> {
                &&& cmd == old(self).incoming_commands@[0]
                &&& final(self).incoming_commands@ == old(self).incoming_commands@.skip(1)
            },
            *final(self) == (WebrtcPeer {
                incoming_commands: final(self).incoming_commands,
                ..*old(self)
            }),
    {
        let next = self.incoming_commands.pop_front();
        assert(next is Some ==> self.incoming_commands@ =~= old(self).incoming_commands@.skip(1));
        next
    }

    /// Take note of a remote ICE candidate received via signaling. Candidates
    /// are accepted and not kept.
    pub fn add_ice_candidate(&mut self, candidate: &str) -> (r: Result<(), PeerError>)
        ensures
            r is Ok,
            *final(self) == *old(self),
    {
        let _ = candidate;
        Ok(())
    }

    /// Whether the ICE connection is established and media can flow.
    pub fn is_connected(&self) -> (r: bool)
        ensures
            r == self.ice_connected,
    {
        self.ice_connected
    }

    /// The session identifier for signaling.
    pub fn session_id(&self) -> (r: &str)
        ensures
            r@ == self.session_id@,
    {
        self.session_id.as_str()
    }
}

/// Messages are handled in the order of arrival, each once.
pub proof fn law_messages_come_in_order(peer: &mut WebrtcPeer, r: Option<InputCommand>)
    requires
        call_ensures(WebrtcPeer::recv_input, (peer,), r),
    ensures
        old(peer).incoming_commands@.len() == 0 <==> r is None,
        r matches Some(first) ==> old(peer).incoming_commands@ == seq![first]
            + final(peer).incoming_commands@,
        r is None ==> final(peer).incoming_commands@.len() == 0,
        final(peer).ice_connected == old(peer).ice_connected,
        final(peer).session_id == old(peer).session_id,
{
    let before = old(peer).incoming_commands@;
    if let Some(first) = r {
        assert(before =~= seq![first] + before.skip(1));
    }
}

/// A new peer is that of its session, is not connected, and has nothing waiting.
pub proof fn law_new_peers(session_id: String, offer: &str, r: Result<WebrtcPeer, PeerError>)
    requires
        call_ensures(WebrtcPeer::accept_offer, (session_id, offer), r),
    ensures
        r matches Ok(peer) && peer.session_id@ == session_id@ && !peer.ice_connected
            && peer.incoming_commands@.len() == 0 && peer.buffered_sps_pps@.len() == 0,
{
}

/// The parameter sets wait in their order, the one for the sequence first, in
/// place of any that waited before.
pub proof fn law_parameter_sets_wait(peer: &mut WebrtcPeer, sps: Bytes, pps: Bytes)
    requires
        call_ensures(WebrtcPeer::set_sps_pps, (peer, sps, pps), ()),
    ensures
        final(peer).buffered_sps_pps@.len() == 2,
        final(peer).buffered_sps_pps@[0] == sps,
        final(peer).buffered_sps_pps@[1] == pps,
        final(peer).session_id == old(peer).session_id,
        final(peer).ice_connected == old(peer).ice_connected,
        final(peer).incoming_commands == old(peer).incoming_commands,
{
}

} // verus!
