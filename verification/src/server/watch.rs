//! Playing a recording to a client.

use crate::protocol;
use crate::protocol::Packet;
use crate::text;
use crate::text::i32_to_text;
use vstd::prelude::*;

verus! {

/// The path of a video file.
pub open spec fn video_path(filename: Seq<char>) -> Seq<char> {
    "recordings/"@ + filename + ".mp4"@
}

/// The path of the video with a given name: `recordings/{filename}.mp4`.
pub fn get_video_path(filename: &str) -> (path: String)
    ensures
        path@ == video_path(filename@),
{
    let mut path: String = "recordings/".to_owned();
    path.append(filename);
    path.append(".mp4");
    path
}

/// The arguments with which the video is encoded from a time on.
pub open spec fn play_arguments(filename: Seq<char>, time_seconds: i32) -> Seq<Seq<char>> {
    seq![
        "-ss"@,
        text::signed_decimal(time_seconds as int),
        "-i"@,
        video_path(filename),
        "-vcodec"@,
        "libx264"@,
        "-preset"@,
        "ultrafast"@,
        "-tune"@,
        "zerolatency"@,
        "-force_key_frames"@,
        "expr:gte(t,0)"@,
        "-f"@,
        "h264"@,
        "-"@,
    ]
}

/// The arguments with which a session is saved to a video file.
pub open spec fn save_arguments(filename: Seq<char>) -> Seq<Seq<char>> {
    seq!["-f"@, "h264"@, "-i"@, "-"@, "-c"@, "copy"@, video_path(filename)]
}

/// The arguments for `ffmpeg` to encode a video with H.264, from a time on.
pub fn ffmpeg_send_recording(filename: &str, time_seconds: i32) -> (arguments: Vec<String>)
    ensures
        text::texts(arguments@) == play_arguments(filename@, time_seconds),
{
    let mut arguments: Vec<String> = Vec::new();
    arguments.push("-ss".to_owned());
    arguments.push(i32_to_text(time_seconds));
    arguments.push("-i".to_owned());
    arguments.push(get_video_path(filename));
    arguments.push("-vcodec".to_owned());
    arguments.push("libx264".to_owned());
    arguments.push("-preset".to_owned());
    arguments.push("ultrafast".to_owned());
    arguments.push("-tune".to_owned());
    arguments.push("zerolatency".to_owned());
    arguments.push("-force_key_frames".to_owned());
    arguments.push("expr:gte(t,0)".to_owned());
    arguments.push("-f".to_owned());
    arguments.push("h264".to_owned());
    arguments.push("-".to_owned());
    assert(text::texts(arguments@) =~= play_arguments(filename@, time_seconds));
    arguments
}

/// The arguments for `ffmpeg` to save the recording of a session.
pub fn ffmpeg_save_recording(filename: &str) -> (arguments: Vec<String>)
    ensures
        text::texts(arguments@) == save_arguments(filename@),
{
    let mut arguments: Vec<String> = Vec::new();
    arguments.push("-f".to_owned());
    arguments.push("h264".to_owned());
    arguments.push("-i".to_owned());
    arguments.push("-".to_owned());
    arguments.push("-c".to_owned());
    arguments.push("copy".to_owned());
    arguments.push(get_video_path(filename));
    assert(text::texts(arguments@) =~= save_arguments(filename@));
    arguments
}

/// One step of what the server does for a client that watches.
#[derive(PartialEq, Eq, Debug)]
pub enum WatchAction {
    /// Stop the running playback and wait for its end.
    Stop,
    /// Start a playback from a time on.
    Start { time_seconds: i32 },
    /// Send a packet.
    Send { packet: Packet },
}

/// The content of a [`WatchAction`].
#[verifier::ext_equal]
pub enum WatchActionView {
    Stop,
    Start { time_seconds: i32 },
    Send { packet: protocol::PacketView },
}

impl View for WatchAction {
    type V = WatchActionView;

    open spec fn view(&self) -> WatchActionView {
        match self {
            WatchAction::Stop => WatchActionView::Stop,
            WatchAction::Start { time_seconds } => WatchActionView::Start {
                time_seconds: *time_seconds,
            },
            WatchAction::Send { packet } => WatchActionView::Send { packet: packet@ },
        }
    }
}

/// The contents of a list of actions.
pub open spec fn watch_views(actions: Seq<WatchAction>) -> Seq<WatchActionView> {
    actions.map_values(|a: WatchAction| a@)
}

/// What the server does with a packet of a client that watches.
pub open spec fn watch_plan(packet: protocol::PacketView) -> Seq<WatchActionView> {
    match packet {
        protocol::PacketView::SeekInit => seq![
            WatchActionView::Stop,
            WatchActionView::Send { packet: protocol::PacketView::SeekInit },
        ],
        protocol::PacketView::SeekTo { time_seconds } => seq![
            WatchActionView::Start { time_seconds },
        ],
        protocol::PacketView::SessionExit | protocol::PacketView::Empty => seq![
            WatchActionView::Stop,
            WatchActionView::Send { packet: protocol::PacketView::SessionExit },
        ],
        _ => Seq::empty(),
    }
}

/// Whether a packet stops the playback.
pub open spec fn stops(packet: protocol::PacketView) -> bool {
    packet is SeekInit || packet is SessionExit || packet is Empty
}

/// Whether there is a playback after a packet: moving to a time starts one.
pub open spec fn playing_after(playing: bool, packet: protocol::PacketView) -> bool {
    if stops(packet) {
        false
    } else {
        playing || packet is SeekTo
    }
}

/// Whether there is a playback after a row of packets.
pub open spec fn playing_after_all(playing: bool, packets: Seq<protocol::PacketView>) -> bool
    decreases packets.len(),
{
    if packets.len() == 0 {
        playing
    } else {
        playing_after(playing_after_all(playing, packets.drop_last()), packets.last())
    }
}

/// A client that watches a recording.
pub struct Watching {
    /// Whether there is a playback to stop.
    pub playing: bool,
    /// Whether the client still watches.
    pub watching: bool,
}

impl Watching {
    /// The client starts to watch: the recording is played from its beginning.
    pub fn start() -> (started: (Watching, WatchAction))
        ensures
            started.0 == (Watching { playing: true, watching: true }),
            started.1@ == (WatchActionView::Start { time_seconds: 0 }),
    {
        (Watching { playing: true, watching: true }, WatchAction::Start { time_seconds: 0 })
    }

    /// Works out what to do with a packet of the client.
    ///
    /// A packet that could not be received counts as [`Packet::Empty`]. There
    /// has to be a playback if the packet stops it.
    pub fn handle_watching(&mut self, packet: &Packet) -> (actions: Vec<WatchAction>)
        requires
            stops(packet@) ==> old(self).playing,
        ensures
            watch_views(actions@) == watch_plan(packet@),
            final(self).playing == playing_after(old(self).playing, packet@),
            final(self).watching == (old(self).watching && !(packet@ is SessionExit
                || packet@ is Empty)),
    {
        let mut actions: Vec<WatchAction> = Vec::new();
        match packet {
            Packet::SeekInit => {
                self.playing = false;
                actions.push(WatchAction::Stop);
                actions.push(WatchAction::Send { packet: Packet::SeekInit });
            },
            Packet::SeekTo { time_seconds } => {
                self.playing = true;
                actions.push(WatchAction::Start { time_seconds: *time_seconds });
            },
            Packet::SessionExit | Packet::Empty => {
                self.playing = false;
                self.watching = false;
                actions.push(WatchAction::Stop);
                actions.push(WatchAction::Send { packet: Packet::SessionExit });
            },
            _ => {},
        }
        assert(watch_views(actions@) =~= watch_plan(packet@));
        actions
    }
}

/// The path leads into the directory of the recordings, to the file with the
/// given name and the ending of a video.
pub proof fn law_path_of_a_video(filename: Seq<char>, other: Seq<char>)
    ensures
        video_path(filename).take(11) == "recordings/"@,
        video_path(filename).subrange(11, 11 + filename.len() as int) == filename,
        video_path(filename).skip(11 + filename.len() as int) == ".mp4"@,
        video_path(filename) == video_path(other) ==> filename == other,
{
    reveal_strlit("recordings/");
    reveal_strlit(".mp4");
    let n = filename.len() as int;
    assert(video_path(filename).take(11) =~= "recordings/"@);
    assert(video_path(filename).subrange(11, 11 + n) =~= filename);
    assert(video_path(filename).skip(11 + n) =~= ".mp4"@);
    if video_path(filename) == video_path(other) {
        assert(video_path(filename).len() == 15 + filename.len());
        assert(video_path(other).len() == 15 + other.len());
        assert(video_path(other).subrange(11, 11 + n) =~= other);
    }
}

/// A recording is played from the given time on, out of the file with its name,
/// as H.264 without delay, to the standard output.
pub proof fn law_playing_a_recording(filename: Seq<char>, time_seconds: i32)
    ensures
        ({
            let arguments = play_arguments(filename, time_seconds);
            &&& arguments.len() == 15
            &&& arguments[0] == "-ss"@ && arguments[1] == text::signed_decimal(time_seconds as int)
            &&& arguments[2] == "-i"@ && arguments[3] == "recordings/"@ + filename + ".mp4"@
            &&& arguments[4] == "-vcodec"@ && arguments[5] == "libx264"@
            &&& arguments[6] == "-preset"@ && arguments[7] == "ultrafast"@
            &&& arguments[8] == "-tune"@ && arguments[9] == "zerolatency"@
            &&& arguments[10] == "-force_key_frames"@ && arguments[11] == "expr:gte(t,0)"@
            &&& arguments[12] == "-f"@ && arguments[13] == "h264"@
            &&& arguments[14] == "-"@
        }),
{
}

/// A session is saved as it comes from the standard input, as H.264 and without
/// encoding it again, to the file with its name, which stands last.
pub proof fn law_saving_a_session(filename: Seq<char>)
    ensures
        ({
            let arguments = save_arguments(filename);
            &&& arguments.len() == 7
            &&& arguments[0] == "-f"@ && arguments[1] == "h264"@
            &&& arguments[2] == "-i"@ && arguments[3] == "-"@
            &&& arguments[4] == "-c"@ && arguments[5] == "copy"@
            &&& arguments[6] == "recordings/"@ + filename + ".mp4"@
        }),
{
}

/// A recording goes on at just the time that the client asks for, and only if
/// the client asks for one.
pub proof fn law_playback_starts_where_asked(packet: protocol::PacketView, k: int)
    requires
        0 <= k < watch_plan(packet).len(),
    ensures
        watch_plan(packet)[k] is Start ==> packet == (protocol::PacketView::SeekTo {
            time_seconds: watch_plan(packet)[k]->time_seconds,
        }),
        packet is SeekTo ==> watch_plan(packet).len() == 1 && watch_plan(packet)[0] is Start,
{
}

/// A client that moves in a recording or leaves it has the playback stopped
/// first, and is then answered with the same packet; a client that is lost is
/// taken for one that leaves. Nothing is done for packets that do not ask for
/// anything here.
pub proof fn law_client_that_watches(packet: protocol::PacketView)
    ensures
        packet is SeekInit ==> watch_plan(packet) == seq![
            WatchActionView::Stop,
            WatchActionView::Send { packet },
        ],
        packet is SessionExit ==> watch_plan(packet) == seq![
            WatchActionView::Stop,
            WatchActionView::Send { packet },
        ],
        watch_plan(protocol::PacketView::Empty) == watch_plan(protocol::PacketView::SessionExit),
        watch_plan(packet).len() > 0 <==> stops(packet) || packet is SeekTo,
        stops(packet) <==> packet is SeekInit || packet is SessionExit || packet is Empty,
{
}

/// There is a playback after a row of packets exactly if the last packet among
/// them that starts or stops one starts it, or if none does and there was one.
pub proof fn law_last_packet_decides(
    playing: bool,
    packets: Seq<protocol::PacketView>,
    more: Seq<protocol::PacketView>,
    packet: protocol::PacketView,
)
    requires
        forall|i: int|
            0 <= i < more.len() ==> !(#[trigger] more[i] is SeekTo || more[i] is SeekInit
                || more[i] is SessionExit || more[i] is Empty),
    ensures
        playing_after_all(playing, more) == playing,
        packet is SeekTo ==> playing_after_all(playing, packets.push(packet) + more),
        packet is SeekInit || packet is SessionExit || packet is Empty ==> !playing_after_all(
            playing,
            packets.push(packet) + more,
        ),
    decreases more.len(),
{
    let all = packets.push(packet);
    if more.len() == 0 {
        assert(all + more =~= all);
        assert(all.drop_last() =~= packets);
    } else {
        let fewer = more.drop_last();
        assert forall|i: int| 0 <= i < fewer.len() implies !(#[trigger] fewer[i] is SeekTo
            || fewer[i] is SeekInit || fewer[i] is SessionExit || fewer[i] is Empty) by {
            assert(fewer[i] == more[i]);
        }
        law_last_packet_decides(playing, packets, fewer, packet);
        assert((all + more).drop_last() =~= all + fewer);
        assert(more[more.len() - 1] == more.last());
    }
}

} // verus!
