//! Viewer discovery and command handling.
//!
//! Viewers are publishers: each has a broadcast under the viewer prefix with a
//! `command` track of JSON button states and reset requests. This module turns
//! what is read from those tracks into commands for the emulator.

use crate::clock::Duration;
use crate::emulator::Button;
use crate::text::utf8_text;
use vstd::prelude::*;

verus! {

/// A timestamp as a viewer reports it.
#[derive(Debug)]
pub struct RawTimestamp {
    pub label: String,
    /// The media timestamp, where what was reported is a span of time.
    pub ts: Option<Duration>,
}

/// A parsed timestamp entry.
#[derive(Debug)]
pub struct TimestampEntry {
    pub label: String,
    pub ts: Duration,
}

/// A command as a viewer sends it.
#[derive(Debug)]
pub enum RawCommand {
    Buttons {
        buttons: Vec<Button>,
        /// Ordered media timestamps at each pipeline stage.
        timestamps: Vec<RawTimestamp>,
        /// Client-side timestamp in milliseconds, for the watermark overlay.
        client_ts: Option<u64>,
    },
    Reset,
}

/// A command with the identity of its viewer attached.
#[derive(Debug)]
pub enum Command {
    /// Full button state for a viewer.
    Buttons {
        buttons: Vec<Button>,
        viewer_id: String,
        /// Ordered media timestamps at each pipeline stage.
        timestamps: Vec<TimestampEntry>,
        /// Client-side timestamp in milliseconds, for the watermark overlay.
        client_ts: Option<u64>,
    },
    Reset,
    /// A viewer disconnected or went offline.
    ViewerLeft { viewer_id: String },
}

/// A label and a span of time.
pub type Stamp = (Seq<char>, Duration);

/// The entries of a list of timestamps.
pub open spec fn stamps(entries: Seq<TimestampEntry>) -> Seq<Stamp> {
    entries.map_values(|e: TimestampEntry| (e.label@, e.ts))
}

/// The reported timestamps that are spans of time, in order.
pub open spec fn usable(raw: Seq<RawTimestamp>) -> Seq<Stamp>
    decreases raw.len(),
{
    if raw.len() == 0 {
        Seq::empty()
    } else {
        let front = usable(raw.drop_last());
        match raw.last().ts {
            Some(ts) => front.push((raw.last().label@, ts)),
            None => front,
        }
    }
}

/// Whether a command is the given button state of a viewer.
pub open spec fn is_buttons(
    command: Command,
    buttons: Seq<Button>,
    viewer_id: Seq<char>,
    timestamps: Seq<Stamp>,
    client_ts: Option<u64>,
) -> bool {
    match command {
        Command::Buttons { buttons: b, viewer_id: v, timestamps: t, client_ts: c } => {
            &&& b@ == buttons
            &&& v@ == viewer_id
            &&& stamps(t@) == timestamps
            &&& c == client_ts
        },
        _ => false,
    }
}

/// Whether a command says that a viewer left.
pub open spec fn is_viewer_left(command: Command, viewer_id: Seq<char>) -> bool {
    command matches Command::ViewerLeft { viewer_id: v } && v@ == viewer_id
}

/// A command frame that is not text.
#[derive(Clone, Copy, Debug, PartialEq, Eq, Structural)]
pub enum InputError {
    InvalidUtf8,
}

/// What an announcement under the viewer prefix calls for.
#[derive(Debug)]
pub enum ViewerEvent {
    /// Subscribe to the viewer's command track.
    Subscribe,
    /// Hand this command to the emulator.
    Send(Command),
}

/// What the announcement of a viewer calls for: a broadcast that came online is
/// subscribed to, one that went offline is reported.
pub fn announced(viewer_id: &str, online: bool) -> (r: ViewerEvent)
    ensures
        online ==> r is Subscribe,
        !online ==> (r matches ViewerEvent::Send(c) && is_viewer_left(c, viewer_id@)),
{
    if online {
        ViewerEvent::Subscribe
    } else {
        ViewerEvent::Send(viewer_left(viewer_id))
    }
}

/// The command that reports the end of a viewer's command track, whatever
/// ended it.
pub fn viewer_left(viewer_id: &str) -> (r: Command)
    ensures
        is_viewer_left(r, viewer_id@),
{
    Command::ViewerLeft { viewer_id: viewer_id.to_string() }
}

/// The text of a command frame. A frame that is not UTF-8 ends the viewer's
/// command track.
pub fn frame_text(frame: &[u8]) -> (r: Result<&str, InputError>)
    ensures
        r is Ok <==> vstd::utf8::valid_utf8(frame@),
        r matches Ok(s) ==> s@ == vstd::utf8::decode_utf8(frame@),
{
    match utf8_text(frame) {
        Some(s) => Ok(s),
        None => Err(InputError::InvalidUtf8),
    }
}

fn usable_entries(raw: Vec<RawTimestamp>) -> (r: Vec<TimestampEntry>)
    ensures
        stamps(r@) == usable(raw@),
{
    let mut out: Vec<TimestampEntry> = Vec::new();
    let mut i: usize = 0;
    assert(raw@.take(0) == Seq::<RawTimestamp>::empty());
    assert(stamps(out@) == Seq::<Stamp>::empty());
    while i < raw.len()
        invariant
            i <= raw@.len(),
            stamps(out@) == usable(raw@.take(i as int)),
        decreases raw@.len() - i,
    {
        proof {
            assert(raw@.take(i + 1).drop_last() == raw@.take(i as int));
            assert(raw@.take(i + 1).last() == raw@[i as int]);
        }
        if let Some(ts) = raw[i].ts {
            let entry = TimestampEntry { label: raw[i].label.clone(), ts };
            let ghost before = out@;
            out.push(entry);
            assert(stamps(out@) == stamps(before).push((entry.label@, entry.ts)));
        }
        i += 1;
    }
    assert(raw@.take(raw@.len() as int) == raw@);
    out
}

/// The command for the emulator that a viewer's message makes, if the message
/// was understood. Timestamps that are not spans of time are left out.
pub fn viewer_command(viewer_id: &str, message: Option<RawCommand>) -> (r: Option<Command>)
    ensures
        message is None <==> r is None,
        message matches Some(RawCommand::Buttons { buttons, timestamps, client_ts }) ==> is_buttons(
            r->Some_0,
            buttons@,
            viewer_id@,
            usable(timestamps@),
            client_ts,
        ),
        message matches Some(RawCommand::Reset) ==> r->Some_0 is Reset,
{
    match message {
        Some(RawCommand::Buttons { buttons, timestamps, client_ts }) => Some(
            Command::Buttons {
                buttons,
                viewer_id: viewer_id.to_string(),
                timestamps: usable_entries(timestamps),
                client_ts,
            },
        ),
        Some(RawCommand::Reset) => Some(Command::Reset),
        None => None,
    }
}

/// Nothing is added to what a viewer reports, and what is kept stays in order:
/// reports that are all spans of time are kept as they are.
pub proof fn law_usable_timestamps_are_kept(raw: Seq<RawTimestamp>)
    ensures
        usable(raw).len() <= raw.len(),
        (forall|i: int| 0 <= i < raw.len() ==> (#[trigger] raw[i]).ts is Some) ==> usable(raw)
            == raw.map_values(|t: RawTimestamp| (t.label@, t.ts->Some_0)),
    decreases raw.len(),
{
    let f = |t: RawTimestamp| (t.label@, t.ts->Some_0);
    if raw.len() == 0 {
        assert(usable(raw) == raw.map_values(f));
    } else {
        let front = raw.drop_last();
        law_usable_timestamps_are_kept(front);
        if forall|i: int| 0 <= i < raw.len() ==> (#[trigger] raw[i]).ts is Some {
            assert forall|i: int| 0 <= i < front.len() implies (#[trigger] front[i]).ts is Some by {
                assert(raw[i].ts is Some);
            }
            assert(raw[raw.len() - 1].ts is Some);
            assert(usable(raw) =~= raw.map_values(f));
        }
    }
}

proof fn lemma_usable(raw: Seq<RawTimestamp>)
    ensures
        usable(raw) == raw.filter_map(
            |t: RawTimestamp|
                match t.ts {
                    Some(ts) => Some((t.label@, ts)),
                    None => None,
                },
        ),
    decreases raw.len(),
{
    let f = |t: RawTimestamp|
        match t.ts {
            Some(ts) => Some((t.label@, ts)),
            None => None,
        };
    if raw.len() > 0 {
        lemma_usable(raw.drop_last());
    }
    assert(usable(raw) =~= raw.filter_map(f));
}

/// A viewer's message becomes a command of that viewer: the same buttons in the
/// same order, the timestamps that are spans of time, and the client timestamp.
/// A reset stays one, and what was not understood becomes nothing.
pub proof fn law_messages_become_commands(
    viewer_id: &str,
    message: Option<RawCommand>,
    r: Option<Command>,
    button: Button,
)
    requires
        call_ensures(viewer_command, (viewer_id, message), r),
    ensures
        message is None <==> r is None,
        message matches Some(RawCommand::Reset) <==> r matches Some(Command::Reset),
        !(r matches Some(Command::ViewerLeft { .. })),
        message matches Some(RawCommand::Buttons { buttons, timestamps, client_ts }) ==> (
        r matches Some(Command::Buttons { buttons: b, viewer_id: v, timestamps: t, client_ts: c }) && {
            &&& b@.len() == buttons@.len()
            &&& forall|i: int| 0 <= i < buttons@.len() ==> #[trigger] b@[i] == buttons@[i]
            &&& b@.contains(button) <==> buttons@.contains(button)
            &&& v@ == viewer_id@
            &&& t@.map_values(|e: TimestampEntry| (e.label@, e.ts)) == timestamps@.filter_map(
                |t: RawTimestamp|
                    match t.ts {
                        Some(ts) => Some((t.label@, ts)),
                        None => None,
                    },
            )
            &&& c == client_ts
        }),
{
    if let Some(RawCommand::Buttons { timestamps, .. }) = message {
        lemma_usable(timestamps@);
    }
}

/// A viewer that comes online is listened to, and one that goes offline or whose
/// track ends has left.
pub proof fn law_viewers_come_and_go(viewer_id: &str, online: bool, r: ViewerEvent, left: Command)
    requires
        call_ensures(announced, (viewer_id, online), r),
        call_ensures(viewer_left, (viewer_id,), left),
    ensures
        online <==> r is Subscribe,
        !online ==> (r matches ViewerEvent::Send(Command::ViewerLeft { viewer_id: v }) && v@
            == viewer_id@),
        left matches Command::ViewerLeft { viewer_id: v } && v@ == viewer_id@,
{
}

/// The text of a command frame encodes to the frame, and a frame that no text
/// encodes to has none.
pub proof fn law_frames_are_text(frame: &[u8], r: Result<&str, InputError>, text: Seq<char>)
    requires
        call_ensures(frame_text, (frame,), r),
    ensures
        r matches Ok(s) ==> s@ == vstd::utf8::decode_utf8(frame@),
        r is Err <==> !vstd::utf8::valid_utf8(frame@),
        frame@ == vstd::utf8::encode_utf8(text) ==> (r matches Ok(s) && s@ == text),
{
    vstd::utf8::encode_utf8_valid_utf8(text);
    vstd::utf8::encode_utf8_decode_utf8(text);
}

} // verus!
