//! The scene in which a recording is watched.

use crate::protocol;
use crate::protocol::Packet;
use crate::scenes::scene;
use crate::scenes::scene::SceneChange;
use crate::server::watch;
use crate::text;
use crate::text::push_two_digits;
use std::collections::VecDeque;
use vstd::prelude::*;

verus! {

/// The number of pictures that may wait to be shown.
pub const MAX_QUEUED_FRAMES: usize = 30;

/// The quotient of two numbers, rounded toward zero.
pub open spec fn quotient(a: int, b: int) -> int {
    if a >= 0 {
        a / b
    } else {
        -((-a) / b)
    }
}

/// The remainder that belongs to [`quotient`].
pub open spec fn remainder(a: int, b: int) -> int {
    a - b * quotient(a, b)
}

/// Minutes and seconds of a number of frames, at 30 frames a second.
pub open spec fn clock(frames: int) -> Seq<char> {
    text::two_digits(quotient(frames, 1800)) + ":"@ + text::two_digits(
        quotient(remainder(frames, 1800), 30),
    )
}

/// The number in a range that is closest to another.
pub open spec fn clamped(value: int, low: int, high: int) -> int {
    if value < low {
        low
    } else if value > high {
        high
    } else {
        value
    }
}

/// The second at which a recording goes on after it was moved by `delta`
/// seconds.
pub open spec fn seek_target(frame: int, duration: int, delta: int) -> int {
    clamped(quotient(frame, 30) + delta, 0, quotient(duration, 30))
}

/// One step of what the scene does in a frame.
#[derive(PartialEq, Eq, Debug)]
pub enum PlayerAction {
    /// Send a packet.
    Send { packet: Packet },
    /// Stop the threads and the decoder, and wait for them.
    StopPlayer,
    /// Start the decoder and the threads anew.
    StartPlayer,
    /// Receive the recordings with which the server answers a user who comes
    /// back.
    ReceiveRecordings,
}

/// The content of a [`PlayerAction`].
#[verifier::ext_equal]
pub enum PlayerActionView {
    Send { packet: protocol::PacketView },
    StopPlayer,
    StartPlayer,
    ReceiveRecordings,
}

impl View for PlayerAction {
    type V = PlayerActionView;

    open spec fn view(&self) -> PlayerActionView {
        match self {
            PlayerAction::Send { packet } => PlayerActionView::Send { packet: packet@ },
            PlayerAction::StopPlayer => PlayerActionView::StopPlayer,
            PlayerAction::StartPlayer => PlayerActionView::StartPlayer,
            PlayerAction::ReceiveRecordings => PlayerActionView::ReceiveRecordings,
        }
    }
}

/// The contents of a list of actions.
pub open spec fn player_views(actions: Seq<PlayerAction>) -> Seq<PlayerActionView> {
    actions.map_values(|a: PlayerAction| a@)
}

/// The actions with which a recording goes on at another second.
pub open spec fn seek_actions(time_seconds: i32) -> Seq<PlayerActionView> {
    seq![
        PlayerActionView::Send { packet: protocol::PacketView::SeekInit },
        PlayerActionView::StopPlayer,
        PlayerActionView::Send { packet: protocol::PacketView::SeekTo { time_seconds } },
        PlayerActionView::StartPlayer,
    ]
}

/// The actions with which the scene is left.
pub open spec fn exit_actions() -> Seq<PlayerActionView> {
    seq![
        PlayerActionView::Send { packet: protocol::PacketView::SessionExit },
        PlayerActionView::StopPlayer,
    ]
}

/// The actions with which the client ends when it leaves the scene for good.
pub open spec fn last_actions() -> Seq<PlayerActionView> {
    seq![PlayerActionView::ReceiveRecordings] + scene::goodbye().map_values(
        |packet: protocol::PacketView| PlayerActionView::Send { packet },
    )
}

/// What the user does in a frame.
#[derive(Clone, Copy, PartialEq, Eq, Structural, Debug)]
pub struct WatchInput {
    /// It is time for the next picture.
    pub frame_due: bool,
    /// The button to pause and go on was clicked.
    pub toggle_pause: bool,
    /// The button to go back was clicked.
    pub backward: bool,
    /// The button to go forward was clicked.
    pub forward: bool,
    /// "Exit" was clicked.
    pub exit: bool,
}

/// What a frame brings.
pub struct WatchFrame {
    /// The actions, in order.
    pub actions: Vec<PlayerAction>,
    /// The scene that comes next.
    pub change: SceneChange,
}

/// What is to be done for a packet of the server.
#[derive(PartialEq, Eq, Debug)]
pub enum PlayerEvent {
    /// Nothing.
    Nothing,
    /// Hand a piece of video to the decoder.
    Decode { bytes: Vec<u8> },
    /// The video is complete: close the decoder's input.
    CloseVideo,
    /// Stop to receive packets.
    Stop,
}

/// Whether an event is right for a packet, while the decoder's input is open
/// or not.
pub open spec fn is_player_event(
    event: PlayerEvent,
    packet: protocol::PacketView,
    open: bool,
) -> bool {
    match packet {
        protocol::PacketView::Screen { bytes } => if open {
            event is Decode && event->bytes@ == bytes
        } else {
            event is Nothing
        },
        protocol::PacketView::Empty => event is CloseVideo,
        protocol::PacketView::SeekInit | protocol::PacketView::SessionExit => event is Stop,
        _ => event is Nothing,
    }
}

/// Works out what is to be done for a packet of the server.
pub fn on_player_packet(packet: Packet, open: bool) -> (event: PlayerEvent)
    ensures
        is_player_event(event, packet@, open),
{
    match packet {
        Packet::Screen { bytes } => if open {
            PlayerEvent::Decode { bytes }
        } else {
            PlayerEvent::Nothing
        },
        Packet::Empty => PlayerEvent::CloseVideo,
        Packet::SeekInit => PlayerEvent::Stop,
        Packet::SessionExit => PlayerEvent::Stop,
        _ => PlayerEvent::Nothing,
    }
}

/// The scene in which a recording is watched.
pub struct WatchScene {
    /// The name of the user.
    pub username: String,
    /// The length of the recording in frames.
    pub duration: i32,
    /// The number of frames that were shown or skipped.
    pub current_frame_number: i32,
    /// Whether the recording is paused.
    pub is_paused: bool,
    /// The pictures that are still to be shown.
    pub frame_queue: VecDeque<Vec<u8>>,
    /// The picture that is shown.
    pub current_frame: Vec<u8>,
}

/// What the buttons of a frame make of a position.
pub open spec fn position_after(frame: int, duration: int, input: WatchInput) -> int {
    let back = if input.backward {
        seek_target(frame, duration, -5) * 30
    } else {
        frame
    };
    if input.forward {
        seek_target(back, duration, 5) * 30
    } else {
        back
    }
}

/// The actions of the buttons of a frame.
pub open spec fn button_actions(frame: int, duration: int, input: WatchInput) -> Seq<
    PlayerActionView,
> {
    let back = if input.backward {
        seek_target(frame, duration, -5) * 30
    } else {
        frame
    };
    (if input.backward {
        seek_actions(seek_target(frame, duration, -5) as i32)
    } else {
        Seq::empty()
    }) + (if input.forward {
        seek_actions(seek_target(back, duration, 5) as i32)
    } else {
        Seq::empty()
    }) + (if input.exit {
        exit_actions()
    } else {
        Seq::empty()
    })
}

/// The quotient of two numbers, rounded toward zero.
fn divide(a: i32, b: i32) -> (q: i32)
    requires
        b > 1,
    ensures
        q == quotient(a as int, b as int),
        a >= 0 ==> 0 <= q <= a,
        a < 0 ==> a <= q <= 0,
{
    if a >= 0 {
        proof {
            lemma_quotient_bounds(a as int, b as int);
        }
        a / b
    } else {
        let positive: i64 = -(a as i64);
        proof {
            lemma_quotient_bounds(positive as int, b as int);
        }
        (-(positive / (b as i64))) as i32
    }
}

/// A quotient is no larger than what is divided.
proof fn lemma_quotient_bounds(a: int, b: int)
    requires
        a >= 0,
        b > 1,
    ensures
        0 <= a / b <= a,
{
    assert(0 <= a / b <= a) by (nonlinear_arith)
        requires
            a >= 0,
            b > 1,
    ;
}

/// Appends minutes and seconds of a number of frames.
fn push_clock(line: &mut String, frames: i32)
    ensures
        final(line)@ == old(line)@ + clock(frames as int),
{
    let minutes: i32 = divide(frames, 1800);
    let rest: i32 = (frames as i64 - 1800 * (minutes as i64)) as i32;
    let seconds: i32 = divide(rest, 30);
    push_two_digits(line, minutes);
    line.append(":");
    push_two_digits(line, seconds);
    assert(line@ =~= old(line)@ + clock(frames as int));
}

impl WatchScene {
    /// The scene at the beginning of a recording, with an empty picture.
    pub fn new(username: String, duration: i32, blank_frame: Vec<u8>) -> (scene: WatchScene)
        ensures
            scene.username == username,
            scene.duration == duration,
            scene.current_frame_number == 0,
            !scene.is_paused,
            scene.frame_queue@ == Seq::<Vec<u8>>::empty(),
            scene.current_frame == blank_frame,
    {
        WatchScene {
            username,
            duration,
            current_frame_number: 0,
            is_paused: false,
            frame_queue: VecDeque::new(),
            current_frame: blank_frame,
        }
    }

    /// Whether another picture may wait.
    pub fn has_room(&self) -> (room: bool)
        ensures
            room == (self.frame_queue@.len() < MAX_QUEUED_FRAMES),
    {
        self.frame_queue.len() < MAX_QUEUED_FRAMES
    }

    /// Takes a decoded picture. There has to be room for it.
    pub fn push_frame(&mut self, frame: Vec<u8>)
        requires
            old(self).frame_queue@.len() < MAX_QUEUED_FRAMES,
        ensures
            *final(self) == (WatchScene { frame_queue: final(self).frame_queue, ..*old(self) }),
            final(self).frame_queue@ == old(self).frame_queue@.push(frame),
            final(self).frame_queue@.len() <= MAX_QUEUED_FRAMES,
    {
        self.frame_queue.push_back(frame);
    }

    /// The position and the length of the recording in minutes and seconds.
    pub fn time_string(&self) -> (line: String)
        ensures
            line@ == clock(self.current_frame_number as int) + " / "@ + clock(self.duration as int),
    {
        let mut line: String = String::new();
        push_clock(&mut line, self.current_frame_number);
        line.append(" / ");
        push_clock(&mut line, self.duration);
        assert(line@ =~= clock(self.current_frame_number as int) + " / "@ + clock(
            self.duration as int,
        ));
        line
    }

    /// Moves the recording by some seconds, but not beyond its beginning or its
    /// end. The length has to be more than -30 frames.
    pub fn seek_recording(&mut self, delta: i32) -> (actions: Vec<PlayerAction>)
        requires
            old(self).duration > -30,
            i32::MIN <= quotient(old(self).current_frame_number as int, 30) + delta <= i32::MAX,
        ensures
            ({
                let target = seek_target(
                    old(self).current_frame_number as int,
                    old(self).duration as int,
                    delta as int,
                );
                &&& player_views(actions@) == seek_actions(target as i32)
                &&& final(self).current_frame_number == target * 30
                &&& i32::MIN <= target <= i32::MAX
            }),
            final(self).frame_queue@ == Seq::<Vec<u8>>::empty(),
            *final(self) == (WatchScene {
                current_frame_number: final(self).current_frame_number,
                frame_queue: final(self).frame_queue,
                ..*old(self)
            }),
    {
        let mut actions: Vec<PlayerAction> = Vec::new();
        actions.push(PlayerAction::Send { packet: Packet::SeekInit });
        actions.push(PlayerAction::StopPlayer);
        self.frame_queue = VecDeque::new();
        let end: i32 = divide(self.duration, 30);
        let wanted: i64 = divide(self.current_frame_number, 30) as i64 + delta as i64;
        let time_seconds: i32 = if wanted < 0 {
            0
        } else if wanted > end as i64 {
            end
        } else {
            wanted as i32
        };
        assert(end * 30 <= i32::MAX && end >= 0) by {
            if self.duration < 0 {
                assert((-self.duration) / 30 == 0);
            }
        }
        assert(time_seconds == seek_target(
            old(self).current_frame_number as int,
            old(self).duration as int,
            delta as int,
        ));
        self.current_frame_number = time_seconds * 30;
        actions.push(PlayerAction::Send { packet: Packet::SeekTo { time_seconds } });
        actions.push(PlayerAction::StartPlayer);
        assert(player_views(actions@) =~= seek_actions(time_seconds));
        actions
    }

    /// Leaves the scene.
    pub fn exit(&self) -> (frame: WatchFrame)
        ensures
            player_views(frame.actions@) == exit_actions(),
            frame.change@ == (scene::SceneChangeView::Menu {
                username: self.username@,
                status_message: Seq::empty(),
            }),
    {
        let mut actions: Vec<PlayerAction> = Vec::new();
        actions.push(PlayerAction::Send { packet: Packet::SessionExit });
        actions.push(PlayerAction::StopPlayer);
        assert(player_views(actions@) =~= exit_actions());
        let change: SceneChange = SceneChange::Menu {
            username: self.username.clone(),
            status_message: String::new(),
        };
        assert(change@ == (scene::SceneChangeView::Menu {
            username: self.username@,
            status_message: Seq::empty(),
        }));
        WatchFrame { actions, change }
    }

    /// The actions with which the client ends, before it closes the channel.
    pub fn on_exit(&self) -> (actions: Vec<PlayerAction>)
        ensures
            player_views(actions@) == exit_actions() + last_actions(),
    {
        let mut actions: Vec<PlayerAction> = self.exit().actions;
        let ghost left = player_views(actions@);
        actions.push(PlayerAction::ReceiveRecordings);
        actions.push(PlayerAction::Send { packet: Packet::SignOut });
        actions.push(PlayerAction::Send { packet: Packet::Shutdown });
        assert(player_views(actions@) =~= left + last_actions());
        actions
    }

    /// Shows the next picture, if it is time and the recording is not paused.
    fn advance(&mut self, frame_due: bool)
        requires
            (frame_due && !old(self).is_paused && old(self).frame_queue@.len() > 0)
                ==> old(self).current_frame_number < i32::MAX,
        ensures
            ({
                let shown = frame_due && !old(self).is_paused && old(self).frame_queue@.len() > 0;
                &&& final(self).current_frame == if shown {
                    old(self).frame_queue@[0]
                } else {
                    old(self).current_frame
                }
                &&& final(self).frame_queue@ == if shown {
                    old(self).frame_queue@.skip(1)
                } else {
                    old(self).frame_queue@
                }
                &&& final(self).current_frame_number == if shown {
                    old(self).current_frame_number + 1
                } else {
                    old(self).current_frame_number as int
                }
            }),
            final(self).username == old(self).username,
            final(self).duration == old(self).duration,
            final(self).is_paused == old(self).is_paused,
    {
        if frame_due && !self.is_paused {
            if let Some(frame) = self.frame_queue.pop_front() {
                assert(self.frame_queue@ =~= old(self).frame_queue@.skip(1));
                self.current_frame = frame;
                self.current_frame_number = self.current_frame_number + 1;
            }
        }
    }

    /// Works on a frame. Moving the recording by the buttons asks for a length
    /// of more than -30 frames.
    pub fn update(&mut self, input: WatchInput) -> (frame: WatchFrame)
        requires
            (input.frame_due && !old(self).is_paused && old(self).frame_queue@.len() > 0)
                ==> old(self).current_frame_number < i32::MAX,
            input.backward || input.forward ==> old(self).duration > -30,
        ensures
            ({
                let shown = input.frame_due && !old(self).is_paused
                    && old(self).frame_queue@.len() > 0;
                let number = if shown {
                    old(self).current_frame_number + 1
                } else {
                    old(self).current_frame_number as int
                };
                let duration = old(self).duration as int;
                &&& final(self).current_frame == if shown {
                    old(self).frame_queue@[0]
                } else {
                    old(self).current_frame
                }
                &&& final(self).frame_queue@ == if input.backward || input.forward {
                    Seq::<Vec<u8>>::empty()
                } else if shown {
                    old(self).frame_queue@.skip(1)
                } else {
                    old(self).frame_queue@
                }
                &&& final(self).current_frame_number == position_after(number, duration, input)
                &&& player_views(frame.actions@) == button_actions(number, duration, input)
            }),
            frame.change@ == if input.exit {
                scene::SceneChangeView::Menu {
                    username: old(self).username@,
                    status_message: Seq::empty(),
                }
            } else {
                scene::SceneChangeView::Stay
            },
            final(self).is_paused == (old(self).is_paused != input.toggle_pause),
            final(self).username == old(self).username,
            final(self).duration == old(self).duration,
    {
        self.advance(input.frame_due);
        let ghost number = self.current_frame_number as int;
        let ghost duration = self.duration as int;
        if input.toggle_pause {
            self.is_paused = !self.is_paused;
        }
        let mut actions: Vec<PlayerAction> = Vec::new();
        assert(player_views(actions@) =~= Seq::empty());
        if input.backward {
            let mut more: Vec<PlayerAction> = self.seek_recording(-5);
            append(&mut actions, &mut more);
        }
        if input.forward {
            let mut more: Vec<PlayerAction> = self.seek_recording(5);
            append(&mut actions, &mut more);
        }
        let mut change: SceneChange = SceneChange::Stay;
        if input.exit {
            let mut left: WatchFrame = self.exit();
            append(&mut actions, &mut left.actions);
            change = left.change;
        }
        assert(player_views(actions@) =~= button_actions(number, duration, input));
        WatchFrame { actions, change }
    }
}

/// Appends a list of actions to another.
fn append(actions: &mut Vec<PlayerAction>, more: &mut Vec<PlayerAction>)
    ensures
        player_views(final(actions)@) == player_views(old(actions)@) + player_views(old(more)@),
{
    let ghost added = player_views(more@);
    actions.append(more);
    assert(player_views(actions@) =~= player_views(old(actions)@) + added);
}

/// Wherever a recording is moved, it goes on between its beginning and its
/// end.
pub proof fn law_seek_stays_inside(frame: int, duration: int, delta: int)
    requires
        duration >= 0,
    ensures
        0 <= seek_target(frame, duration, delta) * 30 <= duration,
{
}

/// Going back and forth by the same time returns to the second where it
/// started, away from the beginning.
pub proof fn law_seek_back_and_forth(frame: int, duration: int, delta: int)
    requires
        0 <= delta,
        30 * delta <= frame <= duration,
    ensures
        ({
            let back = seek_target(frame, duration, -delta);
            seek_target(back * 30, duration, delta) == quotient(frame, 30)
        }),
{
}

/// The packets with which a recording is moved to one second after another.
pub open spec fn seek_packets(times: Seq<i32>) -> Seq<protocol::PacketView> {
    Seq::new(
        2 * times.len(),
        |i: int|
            if i % 2 == 0 {
                protocol::PacketView::SeekInit
            } else {
                protocol::PacketView::SeekTo { time_seconds: times[i / 2] }
            },
    )
}

/// However often a recording is moved, there is a playback on the server
/// whenever a packet asks to stop it, and there is one at the end: whoever
/// watches can always move the recording again, or leave.
pub proof fn law_watching_never_gets_stuck(times: Seq<i32>)
    ensures
        ({
            let packets = seek_packets(times);
            &&& forall|i: int|
                0 <= i < packets.len() && watch::stops(#[trigger] packets[i])
                    ==> watch::playing_after_all(true, packets.take(i))
            &&& watch::playing_after_all(true, packets)
        }),
{
    let packets = seek_packets(times);
    assert forall|i: int|
        0 <= i < packets.len() && watch::stops(#[trigger] packets[i]) implies watch::playing_after_all(
        true,
        packets.take(i),
    ) by {
        lemma_playing_between_seeks(times, i / 2);
        assert(i == 2 * (i / 2));
    }
    lemma_playing_between_seeks(times, times.len() as int);
    assert(packets.take(2 * (times.len() as int)) =~= packets);
}

/// There is a playback after each move.
proof fn lemma_playing_between_seeks(times: Seq<i32>, n: int)
    requires
        0 <= n <= times.len(),
    ensures
        watch::playing_after_all(true, seek_packets(times).take(2 * n)),
    decreases n,
{
    let packets = seek_packets(times);
    reveal_with_fuel(watch::playing_after_all, 3);
    if n > 0 {
        lemma_playing_between_seeks(times, n - 1);
        assert(packets.take(2 * n).drop_last().drop_last() =~= packets.take(2 * (n - 1)));
        assert(packets.take(2 * n).last() == packets[2 * n - 1]);
        assert((2 * n - 1) % 2 == 1);
    } else {
        assert(packets.take(0) =~= Seq::empty());
    }
}

/// A recording is moved by just the time that was asked for, as long as that
/// stays inside; beyond the beginning it goes on at the beginning, beyond the
/// end at the last full second.
pub proof fn law_seek_moves_by_the_time(frame: int, duration: int, delta: int)
    requires
        frame >= 0,
        duration >= 0,
    ensures
        ({
            let second = frame / 30;
            let end = duration / 30;
            let target = seek_target(frame, duration, delta);
            &&& 0 <= second + delta <= end ==> target == second + delta
            &&& second + delta < 0 ==> target == 0
            &&& second + delta > end && second + delta >= 0 ==> target == end
        }),
{
}

/// A button to move the recording moves it by five seconds: the server is asked
/// to stop and to go on at the second where the scene goes on, with a new
/// player. Without a button the position stays and nothing is asked for.
pub proof fn law_buttons_move_the_recording(frame: int, duration: int, input: WatchInput)
    requires
        0 <= frame <= i32::MAX,
        0 <= duration <= i32::MAX,
        !input.exit,
        !(input.backward && input.forward),
    ensures
        ({
            let after = position_after(frame, duration, input);
            let actions = button_actions(frame, duration, input);
            &&& !input.backward && !input.forward ==> after == frame && actions.len() == 0
            &&& input.backward ==> after == 30 * (if frame / 30 - 5 < 0 {
                0
            } else if frame / 30 - 5 > duration / 30 {
                duration / 30
            } else {
                frame / 30 - 5
            })
            &&& input.forward ==> after == 30 * (if frame / 30 + 5 > duration / 30 {
                duration / 30
            } else {
                frame / 30 + 5
            })
            &&& input.backward || input.forward ==> actions == seq![
                PlayerActionView::Send { packet: protocol::PacketView::SeekInit },
                PlayerActionView::StopPlayer,
                PlayerActionView::Send {
                    packet: protocol::PacketView::SeekTo { time_seconds: (after / 30) as i32 },
                },
                PlayerActionView::StartPlayer,
            ]
        }),
{
    let actions = button_actions(frame, duration, input);
    let after = position_after(frame, duration, input);
    if input.backward || input.forward {
        assert(actions =~= seek_actions((after / 30) as i32));
    }
}

/// Who leaves says so last, whatever else was clicked.
pub proof fn law_exit_comes_last(frame: int, duration: int, input: WatchInput)
    ensures
        ({
            let actions = button_actions(frame, duration, input);
            let n = actions.len();
            &&& input.exit ==> n >= 2 && actions[n - 2] == (PlayerActionView::Send {
                packet: protocol::PacketView::SessionExit,
            }) && actions[n - 1] == PlayerActionView::StopPlayer
            &&& !input.exit ==> !actions.contains(
                PlayerActionView::Send { packet: protocol::PacketView::SessionExit },
            )
        }),
{
}

/// The clock shows whole minutes and the seconds that are left, with two digits
/// each: what it shows adds up to the position in seconds.
pub proof fn law_clock_adds_up(frames: int)
    requires
        0 <= frames < 180_000,
    ensures
        ({
            let shown = clock(frames);
            &&& shown.len() == 5
            &&& shown[2] == ':'
            &&& (shown[0] as int - '0' as int) * 600 + (shown[1] as int - '0' as int) * 60 + (
            shown[3] as int - '0' as int) * 10 + (shown[4] as int - '0' as int) == frames / 30
            &&& '0' <= shown[3] <= '5'
        }),
{
    reveal_strlit(":");
    let minutes = quotient(frames, 1800);
    let seconds = quotient(remainder(frames, 1800), 30);
    assert(0 <= minutes < 100);
    assert(0 <= seconds < 60);
    lemma_two_digits(minutes);
    lemma_two_digits(seconds);
    assert(minutes * 60 + seconds == frames / 30);
}

/// A number below a hundred is written with two digits.
proof fn lemma_two_digits(n: int)
    requires
        0 <= n < 100,
    ensures
        text::two_digits(n).len() == 2,
        text::two_digits(n)[0] as int == '0' as int + n / 10,
        text::two_digits(n)[1] as int == '0' as int + n % 10,
{
    reveal_with_fuel(text::decimal, 3);
}

/// The video of a packet goes to the decoder as it is, as long as its input is
/// open; the end of the video closes it, and only the two packets with which
/// the server stops end the reception.
pub proof fn law_events_of_a_player(event: PlayerEvent, packet: protocol::PacketView, open: bool)
    requires
        is_player_event(event, packet, open),
    ensures
        packet matches protocol::PacketView::Screen { bytes } ==> if open {
            event is Decode && event->bytes@ == bytes
        } else {
            event is Nothing
        },
        event is Decode ==> packet is Screen && open,
        event is CloseVideo <==> packet is Empty,
        event is Stop <==> packet is SeekInit || packet is SessionExit,
{
}

/// A quotient is rounded toward zero: what is left over is smaller than the
/// divisor and has the sign of what was divided.
pub proof fn law_rounding_toward_zero(a: int, b: int)
    requires
        b > 0,
    ensures
        a == b * quotient(a, b) + remainder(a, b),
        a >= 0 ==> 0 <= remainder(a, b) < b,
        a <= 0 ==> -b < remainder(a, b) <= 0,
{
    vstd::arithmetic::div_mod::lemma_fundamental_div_mod(a, b);
    vstd::arithmetic::div_mod::lemma_fundamental_div_mod(-a, b);
    vstd::arithmetic::div_mod::lemma_mod_bound(a, b);
    vstd::arithmetic::div_mod::lemma_mod_bound(-a, b);
    if a < 0 {
        let q = (-a) / b;
        assert(b * (-q) == -(b * q)) by (nonlinear_arith);
    }
}

/// The clock shows minutes and seconds at 30 frames a second, with two digits
/// each or more, and tells times before the beginning by a minus sign.
pub proof fn law_clock(frames: int)
    requires
        frames >= 0,
    ensures
        clock(frames) == text::two_digits(frames / 1800) + seq![':'] + text::two_digits(
            frames % 1800 / 30,
        ),
        clock(-frames) == text::two_digits(-(frames / 1800)) + seq![':'] + text::two_digits(
            -(frames % 1800 / 30),
        ),
{
    reveal_strlit(":");
    assert(":"@ =~= seq![':']);
}

/// If both buttons are clicked, the recording is moved back first and then
/// forward from where it went on; leaving moves nothing, and neither does a
/// pause.
pub proof fn law_buttons_work_one_after_another(frame: int, duration: int, input: WatchInput)
    ensures
        ({
            let back = WatchInput { forward: false, exit: false, ..input };
            let forth = WatchInput { backward: false, exit: false, ..input };
            let stay = WatchInput { exit: false, ..input };
            let middle = position_after(frame, duration, back);
            &&& position_after(frame, duration, input) == position_after(middle, duration, forth)
            &&& button_actions(frame, duration, stay) == button_actions(frame, duration, back)
                + button_actions(middle, duration, forth)
            &&& input.exit ==> button_actions(frame, duration, input) == button_actions(
                frame,
                duration,
                stay,
            ).push(
                PlayerActionView::Send { packet: protocol::PacketView::SessionExit },
            ).push(PlayerActionView::StopPlayer)
        }),
{
    let back = WatchInput { forward: false, exit: false, ..input };
    let forth = WatchInput { backward: false, exit: false, ..input };
    let stay = WatchInput { exit: false, ..input };
    let middle = position_after(frame, duration, back);
    assert(button_actions(frame, duration, stay) =~= button_actions(frame, duration, back)
        + button_actions(middle, duration, forth));
    if input.exit {
        assert(button_actions(frame, duration, input) =~= button_actions(
            frame,
            duration,
            stay,
        ).push(PlayerActionView::Send { packet: protocol::PacketView::SessionExit }).push(
            PlayerActionView::StopPlayer,
        ));
    }
}

/// Wherever a recording is moved to, the server is asked to stop, the player is
/// stopped, the server is asked for that second, and a new player starts.
pub proof fn law_moving_a_recording(time_seconds: i32)
    ensures
        seek_actions(time_seconds) == seq![
            PlayerActionView::Send { packet: protocol::PacketView::SeekInit },
            PlayerActionView::StopPlayer,
            PlayerActionView::Send { packet: protocol::PacketView::SeekTo { time_seconds } },
            PlayerActionView::StartPlayer,
        ],
{
}

/// A client that ends while it watches leaves the recording, takes the list of
/// recordings, signs out and shuts down.
pub proof fn law_end_of_watching()
    ensures
        exit_actions() + last_actions() == seq![
            PlayerActionView::Send { packet: protocol::PacketView::SessionExit },
            PlayerActionView::StopPlayer,
            PlayerActionView::ReceiveRecordings,
            PlayerActionView::Send { packet: protocol::PacketView::SignOut },
            PlayerActionView::Send { packet: protocol::PacketView::Shutdown },
        ],
{
    assert(exit_actions() + last_actions() =~= seq![
        PlayerActionView::Send { packet: protocol::PacketView::SessionExit },
        PlayerActionView::StopPlayer,
        PlayerActionView::ReceiveRecordings,
        PlayerActionView::Send { packet: protocol::PacketView::SignOut },
        PlayerActionView::Send { packet: protocol::PacketView::Shutdown },
    ]);
}

} // verus!
