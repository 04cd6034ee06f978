//! The menu: hosting and joining sessions, watching recordings.

use crate::names;
use crate::protocol;
use crate::protocol::{Packet, ResultPacket};
use crate::scenes::login_scene;
use crate::scenes::scene;
use crate::scenes::scene::SceneChange;
use crate::server::client;
use crate::text;
use crate::text::{parse_i32, parse_u32, text_less};
use chrono::{DateTime, FixedOffset};
use std::collections::HashMap;
use vstd::prelude::*;
use vstd::std_specs::iter::IteratorSpec;
use vstd::utf8::*;

verus! {

broadcast use vstd::std_specs::hash::group_hash_axioms;

/// Recordings: their numbers and their names.
pub type Listed = Seq<(i32, Seq<char>)>;

/// The content of a list of recordings.
pub open spec fn listed(recordings: Seq<(i32, String)>) -> Listed {
    recordings.map_values(|r: (i32, String)| (r.0, r.1@))
}

/// Recordings that are known: their names under their numbers.
pub type Known = Map<i32, Seq<char>>;

/// The recordings that are known after a packet of the server.
pub open spec fn known_after(recordings: Known, packet: protocol::PacketView) -> Known {
    match packet {
        protocol::PacketView::RecordingName { id, name } => recordings.insert(id, name),
        _ => recordings,
    }
}

/// The recordings that are known after a row of packets.
pub open spec fn collected(packets: Seq<protocol::PacketView>) -> Known
    decreases packets.len(),
{
    if packets.len() == 0 {
        Map::empty()
    } else {
        known_after(collected(packets.drop_last()), packets.last())
    }
}

/// Whether a list holds each of the known recordings once and nothing else.
pub open spec fn holds_exactly(recordings: Listed, known: Known) -> bool {
    &&& recordings.no_duplicates()
    &&& forall|recording: (i32, Seq<char>)| #[trigger]
        recordings.contains(recording) <==> known.contains_pair(recording.0, recording.1)
}

/// Whether a name comes before another in the order of their bytes.
pub open spec fn name_less(a: Seq<char>, b: Seq<char>) -> bool {
    text::bytes_less(encode_utf8(a), encode_utf8(b))
}

/// Whether the largest name comes first. Names are times, so the newest
/// recording comes first.
pub open spec fn newest_first(recordings: Listed) -> bool {
    forall|i: int, j: int|
        0 <= i < j < recordings.len() ==> !name_less(
            (#[trigger] recordings[i]).1,
            (#[trigger] recordings[j]).1,
        )
}

/// The recordings of a user while the server lists them.
pub struct RecordingList {
    entries: HashMap<i32, String>,
}

impl View for RecordingList {
    type V = Known;

    closed spec fn view(&self) -> Known {
        self.entries@.map_values(|name: String| name@)
    }
}

impl RecordingList {
    /// No recordings.
    pub fn new() -> (list: RecordingList)
        ensures
            list@ == Map::<i32, Seq<char>>::empty(),
    {
        let list: RecordingList = RecordingList { entries: HashMap::new() };
        assert(list@ =~= Map::empty());
        list
    }

    /// Takes a packet of the server; returns whether it ends the list.
    pub fn receive(&mut self, packet: Packet) -> (ended: bool)
        ensures
            ended == (packet@ is Empty),
            final(self)@ == known_after(old(self)@, packet@),
    {
        match packet {
            Packet::Empty => true,
            Packet::RecordingName { id, name } => {
                let ghost added = name@;
                self.entries.insert(id, name);
                assert(self@ =~= old(self)@.insert(id, added));
                false
            },
            _ => false,
        }
    }

    /// The recordings, the newest first.
    pub fn sorted(self) -> (recordings: Vec<(i32, String)>)
        ensures
            newest_first(listed(recordings@)),
            holds_exactly(listed(recordings@), self@),
    {
        let keys = self.entries.keys();
        let ghost ids = IteratorSpec::remaining(&keys).unref();
        assert(ids.no_duplicates());
        assert(ids.to_set() == self@.dom());
        let mut recordings: Vec<(i32, String)> = Vec::new();
        for id in iter: keys
            invariant
                ids == iter.seq().unref(),
                ids.no_duplicates(),
                ids.to_set() == self@.dom(),
                newest_first(listed(recordings@)),
                listed(recordings@).no_duplicates(),
                forall|recording: (i32, Seq<char>)| #[trigger]
                    listed(recordings@).contains(recording) <==> (self@.contains_pair(
                        recording.0,
                        recording.1,
                    ) && ids.take(iter.index() as int).contains(recording.0)),
        {
            let ghost i = iter.index() as int;
            let ghost done = listed(recordings@);
            assert(ids[i] == *id);
            assert(ids.to_set().contains(*id));
            if let Some(name) = self.entries.get(id) {
                let ghost item = (*id, name@);
                assert(self@.contains_pair(item.0, item.1));
                let p: usize = insert_by_name(&mut recordings, (*id, name.clone()));
                proof {
                    assert(!ids.take(i).contains(*id)) by {
                        if ids.take(i).contains(*id) {
                            let j = ids.take(i).index_of(*id);
                            assert(ids[j] == ids[i]);
                        }
                    }
                    assert(!done.contains(item));
                    lemma_insert_contains(done, p as int, item);
                    assert(ids.take(i + 1) =~= ids.take(i).push(*id));
                    assert forall|recording: (i32, Seq<char>)| #[trigger]
                        listed(recordings@).contains(recording) <==> (self@.contains_pair(
                            recording.0,
                            recording.1,
                        ) && ids.take(i + 1).contains(recording.0)) by {
                        lemma_push_contains(ids.take(i), *id, recording.0);
                    }
                }
            }
        }
        proof {
            assert(ids.take(ids.len() as int) =~= ids);
            assert forall|recording: (i32, Seq<char>)| #[trigger]
                listed(recordings@).contains(recording) <==> self@.contains_pair(
                    recording.0,
                    recording.1,
                ) by {
                assert(ids.to_set().contains(recording.0) == ids.contains(recording.0));
            }
        }
        recordings
    }
}

/// What a list holds with one more item.
proof fn lemma_push_contains<A>(list: Seq<A>, item: A, other: A)
    ensures
        list.push(item).contains(other) == (list.contains(other) || other == item),
{
    let longer = list.push(item);
    if list.contains(other) {
        assert(longer[list.index_of(other)] == other);
    }
    if other == item {
        assert(longer[list.len() as int] == other);
    }
}

/// A list into which a new item is inserted holds the item and what it held
/// before, still without duplicates.
proof fn lemma_insert_contains<A>(list: Seq<A>, p: int, item: A)
    requires
        0 <= p <= list.len(),
        list.no_duplicates(),
        !list.contains(item),
    ensures
        list.insert(p, item).no_duplicates(),
        forall|other: A| #[trigger]
            list.insert(p, item).contains(other) <==> (list.contains(other) || other == item),
{
    let longer = list.insert(p, item);
    assert forall|other: A| #[trigger] longer.contains(other) <==> (list.contains(other) || other
        == item) by {
        if longer.contains(other) {
            let i = longer.index_of(other);
            if i < p {
                assert(list[i] == other);
            } else if i > p {
                assert(list[i - 1] == other);
            }
        }
        if list.contains(other) {
            let i = list.index_of(other);
            if i < p {
                assert(longer[i] == other);
            } else {
                assert(longer[i + 1] == other);
            }
        }
        if other == item {
            assert(longer[p] == item);
        }
    }
    assert forall|i: int, j: int|
        0 <= i < longer.len() && 0 <= j < longer.len() && i != j implies longer[i] != longer[j] by {
        if i == p {
            assert(longer[j] == list[if j < p { j } else { j - 1 }]);
        } else if j == p {
            assert(longer[i] == list[if i < p { i } else { i - 1 }]);
        }
    }
}

/// The time that `DateTime::<FixedOffset>::from_str` reads from a text, in
/// seconds since the start of 1970 in universal time; nothing if it refuses the
/// text.
pub uninterp spec fn time_seconds(text: Seq<char>) -> Option<i64>;

/// The text that `DateTime::format` makes of a time that a text tells, in the
/// zone that is a number of seconds ahead of universal time.
pub uninterp spec fn time_label(text: Seq<char>, offset: i32) -> Seq<char>;

/// Whether the name of every recording is a time.
pub open spec fn names_are_times(recordings: Listed) -> bool {
    forall|i: int|
        0 <= i < recordings.len() ==> time_seconds((#[trigger] recordings[i]).1) is Some
}

/// Calls `DateTime::<FixedOffset>::from_str` and takes the time's number of
/// seconds. Whether the text is a time, and which, is a function of the text.
#[verifier::external_body]
fn parse_time(text: &str) -> (seconds: Option<i64>)
    ensures
        seconds == time_seconds(text@),
{
    text.parse::<DateTime<FixedOffset>>().ok().map(|time| time.timestamp())
}

/// Calls `DateTime::<FixedOffset>::from_str`, and `DateTime::format` in the zone
/// that is `offset` seconds ahead of universal time, less than a day. It
/// succeeds exactly if the text is a time; the label is a function of the
/// arguments.
#[verifier::external_body]
fn format_time(text: &str, offset: i32) -> (label: Option<String>)
    requires
        -86_400 < offset < 86_400,
    ensures
        label is Some <==> time_seconds(text@) is Some,
        label matches Some(label) ==> label@ == time_label(text@, offset),
{
    let time = text.parse::<DateTime<FixedOffset>>().ok()?;
    let zone = FixedOffset::east_opt(offset)?;
    Some(time.with_timezone(&zone).format("%B %-d, %Y | %T").to_string())
}

/// Appends a packet to a list.
fn push_packet(packets: &mut Vec<Packet>, packet: Packet)
    ensures
        client::packet_views(final(packets)@) == client::packet_views(old(packets)@) + seq![packet@],
{
    packets.push(packet);
    assert(client::packet_views(packets@) =~= client::packet_views(old(packets)@) + seq![packet@]);
}

/// Not coming before is transitive.
proof fn lemma_not_less_transitive(a: Seq<char>, b: Seq<char>, c: Seq<char>)
    requires
        !name_less(a, b),
        !name_less(b, c),
    ensures
        !name_less(a, c),
{
    let (x, y, z) = (encode_utf8(a), encode_utf8(b), encode_utf8(c));
    text::law_bytes_order(x, y);
    text::law_bytes_order(y, z);
    text::law_bytes_order(x, z);
    if text::bytes_less(x, z) {
        if x != y {
            text::law_bytes_order_transitive(y, x, z);
        }
    }
}

/// Inserts a recording where its name belongs; returns the place.
fn insert_by_name(recordings: &mut Vec<(i32, String)>, entry: (i32, String)) -> (p: usize)
    requires
        newest_first(listed(old(recordings)@)),
    ensures
        newest_first(listed(final(recordings)@)),
        p <= old(recordings)@.len(),
        listed(final(recordings)@) == listed(old(recordings)@).insert(
            p as int,
            (entry.0, entry.1@),
        ),
{
    let ghost before = listed(recordings@);
    let ghost item = (entry.0, entry.1@);
    let n: usize = recordings.len();
    let mut p: usize = 0;
    while p < n && !text_less(recordings[p].1.as_str(), entry.1.as_str())
        invariant
            p <= n,
            n == recordings@.len(),
            before == listed(recordings@),
            item == (entry.0, entry.1@),
            forall|i: int| 0 <= i < p ==> !name_less((#[trigger] before[i]).1, item.1),
        decreases n - p,
    {
        assert(before[p as int].1 == recordings@[p as int].1@);
        p += 1;
    }
    if p < n {
        assert(before[p as int].1 == recordings@[p as int].1@);
        assert(name_less(before[p as int].1, item.1));
    }
    recordings.insert(p, entry);
    let ghost after = listed(recordings@);
    proof {
        assert(after =~= before.insert(p as int, item));
        assert forall|i: int, j: int| 0 <= i < j < after.len() implies !name_less(
            (#[trigger] after[i]).1,
            (#[trigger] after[j]).1,
        ) by {
            if j < p {
                assert(after[i] == before[i] && after[j] == before[j]);
            } else if i > p {
                assert(after[i] == before[i - 1] && after[j] == before[j - 1]);
            } else if i < p && j > p {
                assert(after[i] == before[i] && after[j] == before[j - 1]);
            } else if i < p {
                assert(after[i] == before[i]);
            } else {
                let k = j - 1;
                assert(after[j] == before[k]);
                text::law_bytes_order(encode_utf8(before[p as int].1), encode_utf8(item.1));
                if k > p {
                    lemma_not_less_transitive(item.1, before[p as int].1, before[k].1);
                }
            }
        }
    }
    p
}

/// What was clicked in a frame.
pub struct MenuInput {
    /// "Sign out".
    pub sign_out: bool,
    /// The recordings, in their order.
    pub watch: Vec<bool>,
    /// "Join".
    pub join: bool,
    /// "Host".
    pub host: bool,
}

/// What a frame brings.
pub struct MenuFrame {
    /// The packets to send, in order.
    pub packets: Vec<Packet>,
    /// The scene that comes next.
    pub change: SceneChange,
}

/// The menu of a user.
pub struct MenuScene {
    /// The code that is being typed.
    pub session_code: String,
    /// A message for the user.
    pub status_message: String,
    /// Whether the message tells of an error.
    pub is_error: bool,
    /// The name of the user.
    pub username: String,
    /// The recordings of the user.
    pub recordings: Vec<(i32, String)>,
    /// Whether nothing can be clicked, as the user waits for a host.
    pub is_disabled: bool,
}

/// The content of a [`MenuScene`].
#[verifier::ext_equal]
pub struct MenuView {
    pub session_code: Seq<char>,
    pub status_message: Seq<char>,
    pub is_error: bool,
    pub username: Seq<char>,
    pub recordings: Listed,
    pub is_disabled: bool,
}

impl View for MenuScene {
    type V = MenuView;

    open spec fn view(&self) -> MenuView {
        MenuView {
            session_code: self.session_code@,
            status_message: self.status_message@,
            is_error: self.is_error,
            username: self.username@,
            recordings: listed(self.recordings@),
            is_disabled: self.is_disabled,
        }
    }
}

/// The code that was typed.
pub open spec fn typed_code(scene: MenuView) -> Option<nat> {
    text::parsed_unsigned(scene.session_code, u32::MAX as nat)
}

/// Whether "Join" can be clicked: the code is one that a session can have, a
/// number of six digits.
pub open spec fn joinable(scene: MenuView) -> bool {
    typed_code(scene) matches Some(code) && 100_000 <= code <= 999_999
}

/// A menu with a message that tells of an error.
pub open spec fn with_error(scene: MenuView, message: Seq<char>) -> MenuView {
    MenuView { is_error: true, status_message: message, ..scene }
}

/// The decision of a host: whether the user may join, and a message.
pub open spec fn decision_view(decision: Option<(bool, String)>) -> Option<(bool, Seq<char>)> {
    match decision {
        Some((allowed, message)) => Some((allowed, message@)),
        None => None,
    }
}

/// The menu after the decision of a host, if there is one.
pub open spec fn after_decision(scene: MenuView, decision: Option<(bool, Seq<char>)>) -> MenuView {
    match decision {
        Some((true, _)) => MenuView { is_disabled: false, ..scene },
        Some((false, message)) => MenuView {
            is_disabled: false,
            is_error: true,
            status_message: message,
            ..scene
        },
        None => scene,
    }
}

/// The packets for the recordings that were clicked.
pub open spec fn watch_packets(recordings: Listed, clicks: Seq<bool>) -> Seq<protocol::PacketView>
    decreases clicks.len(),
{
    if clicks.len() == 0 {
        Seq::empty()
    } else {
        watch_packets(recordings, clicks.drop_last()) + if clicks.last() {
            seq![
                protocol::PacketView::WatchRecording { id: recordings[clicks.len() - 1].0 },
            ]
        } else {
            Seq::empty()
        }
    }
}

/// The packets for what was clicked. Nothing can be clicked while the user
/// waits, and "Join" and "Host" only if they make sense.
pub open spec fn menu_packets(scene: MenuView, input: MenuInput) -> Seq<protocol::PacketView> {
    if scene.is_disabled {
        Seq::empty()
    } else {
        (if input.sign_out {
            seq![protocol::PacketView::SignOut]
        } else {
            Seq::empty()
        }) + watch_packets(scene.recordings, input.watch@) + (if input.join && joinable(scene) {
            seq![
                protocol::PacketView::Join {
                    code: typed_code(scene)->Some_0 as u32,
                    username: scene.username,
                },
            ]
        } else {
            Seq::empty()
        }) + (if input.host && scene.username.len() > 0 {
            seq![protocol::PacketView::Host]
        } else {
            Seq::empty()
        })
    }
}

/// The scene that comes next after a frame: who was let in takes part in the
/// session, who signs out goes to the login.
pub open spec fn change_after(
    scene: MenuView,
    decision: Option<(bool, Seq<char>)>,
    input: MenuInput,
) -> scene::SceneChangeView {
    if input.sign_out && !after_decision(scene, decision).is_disabled {
        scene::SceneChangeView::Login
    } else if decision matches Some((true, _)) {
        scene::SceneChangeView::Participant { username: scene.username }
    } else {
        scene::SceneChangeView::Stay
    }
}

/// The menu after the answer to a request to join.
pub open spec fn after_join_reply(scene: MenuView, result: protocol::ResultView) -> MenuView {
    match result {
        protocol::ResultView::Failure(message) => with_error(scene, message),
        protocol::ResultView::Success(_) => MenuView {
            is_disabled: true,
            is_error: false,
            status_message: "Waiting for the host to approve..."@,
            ..scene
        },
    }
}

/// Whether an answer to a request to watch can be understood: the length of
/// the recording is a number.
pub open spec fn is_watch_reply(result: protocol::ResultView) -> bool {
    result matches protocol::ResultView::Success(duration) ==> text::parsed_i32(duration) is Some
}

/// The scene that comes next after the answer to a request to watch.
pub open spec fn change_after_watch_reply(
    scene: MenuView,
    result: protocol::ResultView,
) -> scene::SceneChangeView {
    match result {
        protocol::ResultView::Failure(_) => scene::SceneChangeView::Stay,
        protocol::ResultView::Success(duration) => scene::SceneChangeView::Watch {
            username: scene.username,
            duration: text::parsed_i32(duration)->Some_0 as i32,
        },
    }
}

/// The menu after the answer to a request to watch.
pub open spec fn after_watch_reply(scene: MenuView, result: protocol::ResultView) -> MenuView {
    match result {
        protocol::ResultView::Failure(message) => with_error(scene, message),
        protocol::ResultView::Success(_) => scene,
    }
}

impl MenuScene {
    /// The menu of a user with a message to show.
    pub fn new(username: String, recordings: Vec<(i32, String)>, status_message: String) -> (scene:
        MenuScene)
        ensures
            scene@ == (MenuView {
                session_code: Seq::empty(),
                status_message: status_message@,
                is_error: false,
                username: username@,
                recordings: listed(recordings@),
                is_disabled: false,
            }),
    {
        MenuScene {
            session_code: String::new(),
            status_message,
            is_error: false,
            username,
            recordings,
            is_disabled: false,
        }
    }

    /// Whether "Join" can be clicked.
    pub fn can_join(&self) -> (can_join: bool)
        ensures
            can_join == joinable(self@),
    {
        match parse_u32(self.session_code.as_str()) {
            Some(code) => code >= 100_000 && code < 1_000_000,
            None => false,
        }
    }

    /// The user asks to join the session whose code was typed.
    ///
    /// There is no packet, and the reason is shown, if no number was typed.
    pub fn join_button(&mut self) -> (packet: Option<Packet>)
        ensures
            match typed_code(old(self)@) {
                Some(code) => {
                    &&& login_scene::packet_view(packet) == Some(
                        protocol::PacketView::Join {
                            code: code as u32,
                            username: old(self)@.username,
                        },
                    )
                    &&& final(self)@ == old(self)@
                },
                None => {
                    &&& packet is None
                    &&& final(self)@ == with_error(
                        old(self)@,
                        "Invalid session code. Please enter a 6 digit code."@,
                    )
                },
            },
    {
        match parse_u32(self.session_code.as_str()) {
            Some(code) => Some(Packet::Join { code, username: self.username.clone() }),
            None => {
                self.is_error = true;
                self.status_message =
                "Invalid session code. Please enter a 6 digit code.".to_owned();
                None
            },
        }
    }

    /// Takes the answer to a request to join.
    pub fn join_reply(&mut self, result: ResultPacket)
        ensures
            final(self)@ == after_join_reply(old(self)@, result@),
    {
        match result {
            ResultPacket::Failure(message) => {
                self.is_error = true;
                self.status_message = message;
            },
            ResultPacket::Success(_) => {
                self.is_disabled = true;
                self.is_error = false;
                self.status_message = "Waiting for the host to approve...".to_owned();
            },
        }
    }

    /// Takes the answer to a request to host, which has to be a success.
    pub fn host_button(&self, result: ResultPacket) -> (change: SceneChange)
        requires
            result@ is Success,
        ensures
            change@ == (scene::SceneChangeView::Host {
                code: result@->Success_0,
                username: self@.username,
            }),
    {
        match result {
            ResultPacket::Success(code) => SceneChange::Host {
                code,
                username: self.username.clone(),
            },
            ResultPacket::Failure(_) => SceneChange::Stay,
        }
    }

    /// Takes the answer to a request to watch a recording.
    pub fn watch_reply(&mut self, result: ResultPacket) -> (change: SceneChange)
        requires
            is_watch_reply(result@),
        ensures
            change@ == change_after_watch_reply(old(self)@, result@),
            final(self)@ == after_watch_reply(old(self)@, result@),
    {
        match result {
            ResultPacket::Failure(message) => {
                self.is_error = true;
                self.status_message = message;
                SceneChange::Stay
            },
            ResultPacket::Success(duration) => match parse_i32(duration.as_str()) {
                Some(duration) => SceneChange::Watch { username: self.username.clone(), duration },
                None => SceneChange::Stay,
            },
        }
    }

    /// Works on a frame: the decision of a host, if it came, and the clicks.
    ///
    /// The packets are sent one after another. The answers to those that ask
    /// to watch, join and host are taken by [`MenuScene::watch_reply`],
    /// [`MenuScene::join_reply`] and [`MenuScene::host_button`] before the next
    /// one is sent.
    pub fn update(&mut self, decision: Option<(bool, String)>, input: &MenuInput) -> (frame:
        MenuFrame)
        requires
            input.watch@.len() == old(self).recordings@.len(),
        ensures
            ({
                let scene = after_decision(old(self)@, decision_view(decision));
                &&& final(self)@ == scene
                &&& client::packet_views(frame.packets@) == menu_packets(scene, *input)
                &&& frame.change@ == change_after(old(self)@, decision_view(decision), *input)
            }),
    {
        let mut change: SceneChange = SceneChange::Stay;
        match decision {
            Some((allowed, message)) => {
                self.is_disabled = false;
                if allowed {
                    change = SceneChange::Participant { username: self.username.clone() };
                } else {
                    self.is_error = true;
                    self.status_message = message;
                }
            },
            None => {},
        }
        assert(self@ =~= after_decision(old(self)@, decision_view(decision)));
        let mut packets: Vec<Packet> = Vec::new();
        assert(client::packet_views(packets@) =~= Seq::empty());
        if !self.is_disabled {
            if input.sign_out {
                push_packet(&mut packets, Packet::SignOut);
                change = SceneChange::Login;
            }
            self.push_watch_packets(&input.watch, &mut packets);
            if input.join && self.can_join() {
                if let Some(packet) = self.join_button() {
                    push_packet(&mut packets, packet);
                }
            }
            if input.host && !self.username.as_str().is_empty() {
                push_packet(&mut packets, Packet::Host);
            }
            assert(client::packet_views(packets@) =~= menu_packets(self@, *input));
        }
        MenuFrame { packets, change }
    }

    /// Appends the packets for the recordings that were clicked.
    fn push_watch_packets(&self, clicks: &Vec<bool>, packets: &mut Vec<Packet>)
        requires
            clicks@.len() == self.recordings@.len(),
        ensures
            client::packet_views(final(packets)@) == client::packet_views(old(packets)@)
                + watch_packets(self@.recordings, clicks@),
    {
        let ghost before = client::packet_views(packets@);
        let n: usize = clicks.len();
        assert(clicks@.take(0) =~= Seq::empty());
        assert(before + Seq::empty() =~= before);
        for i in 0..n
            invariant
                n == clicks@.len(),
                n == self.recordings@.len(),
                client::packet_views(packets@) == before + watch_packets(
                    self@.recordings,
                    clicks@.take(i as int),
                ),
        {
            assert(clicks@.take(i + 1).drop_last() =~= clicks@.take(i as int));
            assert(self@.recordings[i as int].0 == self.recordings@[i as int].0);
            if clicks[i] {
                push_packet(packets, Packet::WatchRecording { id: self.recordings[i].0 });
            }
            assert(client::packet_views(packets@) =~= before + watch_packets(
                self@.recordings,
                clicks@.take(i + 1),
            ));
        }
        assert(clicks@.take(n as int) =~= clicks@);
    }

    /// The times of the recordings, in seconds since the start of 1970 in
    /// universal time; nothing if the name of one is no time.
    pub fn recording_times(&self) -> (times: Option<Vec<i64>>)
        ensures
            match times {
                Some(times) => {
                    &&& times@.len() == self@.recordings.len()
                    &&& forall|i: int|
                        0 <= i < times@.len() ==> time_seconds(self@.recordings[i].1) == Some(
                            #[trigger] times@[i],
                        )
                },
                None => !names_are_times(self@.recordings),
            },
    {
        let mut times: Vec<i64> = Vec::new();
        let n: usize = self.recordings.len();
        for i in 0..n
            invariant
                n == self.recordings@.len(),
                times@.len() == i,
                forall|j: int|
                    0 <= j < i ==> time_seconds(self@.recordings[j].1) == Some(#[trigger] times@[j]),
        {
            assert(self@.recordings[i as int].1 == self.recordings@[i as int].1@);
            match parse_time(self.recordings[i].1.as_str()) {
                Some(time) => {
                    times.push(time);
                },
                None => {
                    return None;
                },
            }
        }
        Some(times)
    }

    /// The texts on the buttons of the recordings, each in the zone that is a
    /// number of seconds ahead of universal time; nothing if the name of a
    /// recording is no time.
    pub fn recording_labels(&self, offsets: &Vec<i32>) -> (labels: Option<Vec<String>>)
        requires
            offsets@.len() == self.recordings@.len(),
            forall|i: int| 0 <= i < offsets@.len() ==> -86_400 < #[trigger] offsets@[i] < 86_400,
        ensures
            match labels {
                Some(labels) => {
                    &&& names_are_times(self@.recordings)
                    &&& labels@.len() == self@.recordings.len()
                    &&& forall|i: int|
                        0 <= i < labels@.len() ==> (#[trigger] labels@[i])@ == time_label(
                            self@.recordings[i].1,
                            offsets@[i],
                        )
                },
                None => !names_are_times(self@.recordings),
            },
    {
        let mut labels: Vec<String> = Vec::new();
        let n: usize = self.recordings.len();
        for i in 0..n
            invariant
                n == self.recordings@.len(),
                n == offsets@.len(),
                forall|i: int|
                    0 <= i < offsets@.len() ==> -86_400 < #[trigger] offsets@[i] < 86_400,
                labels@.len() == i,
                forall|j: int|
                    0 <= j < i ==> time_seconds((#[trigger] self@.recordings[j]).1) is Some,
                forall|j: int|
                    0 <= j < i ==> (#[trigger] labels@[j])@ == time_label(
                        self@.recordings[j].1,
                        offsets@[j],
                    ),
        {
            assert(self@.recordings[i as int].1 == self.recordings@[i as int].1@);
            match format_time(self.recordings[i].1.as_str(), offsets[i]) {
                Some(label) => {
                    labels.push(label);
                },
                None => {
                    return None;
                },
            }
        }
        Some(labels)
    }

    /// The packets with which the client says goodbye, before it closes the
    /// channel.
    pub fn on_exit(&self) -> (packets: Vec<Packet>)
        ensures
            client::packet_views(packets@) == scene::goodbye(),
    {
        scene::goodbye_packets()
    }
}

/// The client knows the recordings that the server lists, in whatever order it
/// lists them.
pub proof fn law_recordings_arrive(
    recordings: client::Recordings,
    packets: Seq<protocol::PacketView>,
)
    requires
        client::is_listing(recordings, packets),
    ensures
        collected(packets) == recordings.map_values(|r: (Seq<char>, Seq<char>)| r.1),
{
    let ids = choose|ids: Seq<i32>| #[trigger]
        client::numbers_of(recordings, ids) && packets == client::listing(recordings, ids);
    lemma_collected_prefix(recordings, ids, ids.len() as int);
    assert(packets.drop_last() =~= packets.take(ids.len() as int));
    assert(collected(packets) == collected(packets.drop_last()));
    assert(ids.take(ids.len() as int) =~= ids);
    let shown = recordings.map_values(|r: (Seq<char>, Seq<char>)| r.1);
    assert forall|id: i32| collected(packets).contains_key(id) == shown.contains_key(id) by {
        assert(ids.to_set().contains(id) == ids.contains(id));
    }
    assert(collected(packets) =~= shown);
}

/// The client knows the recordings that the server has listed so far.
proof fn lemma_collected_prefix(recordings: client::Recordings, ids: Seq<i32>, n: int)
    requires
        0 <= n <= ids.len(),
    ensures
        ({
            let known = collected(client::listing(recordings, ids).take(n));
            &&& forall|id: i32| #[trigger] known.contains_key(id) == ids.take(n).contains(id)
            &&& forall|id: i32| #[trigger] known.contains_key(id) ==> known[id] == recordings[id].1
        }),
    decreases n,
{
    let packets = client::listing(recordings, ids);
    if n > 0 {
        lemma_collected_prefix(recordings, ids, n - 1);
        assert(packets.take(n).drop_last() =~= packets.take(n - 1));
        assert(packets.take(n).last() == protocol::PacketView::RecordingName {
            id: ids[n - 1],
            name: recordings[ids[n - 1]].1,
        });
        assert(collected(packets.take(n)) == collected(packets.take(n - 1)).insert(
            ids[n - 1],
            recordings[ids[n - 1]].1,
        ));
        assert(ids.take(n) =~= ids.take(n - 1).push(ids[n - 1]));
        assert forall|id: i32| #[trigger]
            collected(packets.take(n)).contains_key(id) == ids.take(n).contains(id) by {
            lemma_push_contains(ids.take(n - 1), ids[n - 1], id);
        }
    } else {
        assert(packets.take(0) =~= Seq::empty());
        assert(ids.take(0) =~= Seq::empty());
    }
}

/// Where a client is, on the server, after a row of packets that it sent from
/// the menu or while not signed in.
pub open spec fn phase_after(phase: client::PhaseView, packets: Seq<protocol::PacketView>) -> client::PhaseView
    decreases packets.len(),
{
    if packets.len() == 0 {
        phase
    } else {
        match phase_after(phase, packets.drop_last()) {
            client::PhaseView::Login => client::phase_after_login_packet(packets.last()),
            client::PhaseView::Menu => client::phase_after_menu_packet(packets.last()),
            other => other,
        }
    }
}

/// The goodbye from the menu ends the visit on the server, whatever it may
/// have ignored in the menu before.
pub proof fn law_goodbye_ends_the_visit(ignored: Seq<protocol::PacketView>)
    requires
        forall|i: int| 0 <= i < ignored.len() ==> !(#[trigger] ignored[i] is SignOut),
    ensures
        phase_after(client::PhaseView::Menu, ignored + scene::goodbye())
            == client::PhaseView::Closed,
{
    lemma_menu_stays(ignored);
    let all = ignored + scene::goodbye();
    assert(all.drop_last().drop_last() =~= ignored);
    reveal_with_fuel(phase_after, 3);
}

/// Only signing out leaves the menu.
proof fn lemma_menu_stays(ignored: Seq<protocol::PacketView>)
    requires
        forall|i: int| 0 <= i < ignored.len() ==> !(#[trigger] ignored[i] is SignOut),
    ensures
        phase_after(client::PhaseView::Menu, ignored) == client::PhaseView::Menu,
    decreases ignored.len(),
{
    if ignored.len() > 0 {
        assert forall|i: int| 0 <= i < ignored.drop_last().len() implies !(
        #[trigger] ignored.drop_last()[i] is SignOut) by {
            assert(ignored.drop_last()[i] == ignored[i]);
        }
        lemma_menu_stays(ignored.drop_last());
        assert(!(ignored[ignored.len() - 1] is SignOut));
    }
}

/// Who watches a recording learns its length as the server knows it.
pub proof fn law_duration_arrives(scene: MenuView, frames: i32)
    ensures
        ({
            let reply = protocol::ResultView::Success(text::signed_decimal(frames as int));
            &&& is_watch_reply(reply)
            &&& change_after_watch_reply(scene, reply) == (scene::SceneChangeView::Watch {
                username: scene.username,
                duration: frames,
            })
        }),
{
    text::law_i32_text_round_trip(frames);
}

/// Every code that a session can have can be typed, as the host is shown it, to
/// ask for the session.
pub proof fn law_code_can_be_typed(scene: MenuView, input: MenuInput, code: u32)
    requires
        100_000 <= code < 1_000_000,
        scene.session_code == text::decimal(code as nat),
        !scene.is_disabled,
        input.join,
    ensures
        joinable(scene),
        menu_packets(scene, input).contains(
            protocol::PacketView::Join { code, username: scene.username },
        ),
{
    text::law_u32_text_round_trip(code);
    let at = (if input.sign_out {
        1int
    } else {
        0int
    }) + watch_packets(scene.recordings, input.watch@).len();
    assert(menu_packets(scene, input)[at] == protocol::PacketView::Join {
        code,
        username: scene.username,
    });
}

/// Exactly the recordings are asked for whose buttons were clicked.
pub proof fn law_clicked_recordings_are_watched(
    recordings: Listed,
    clicks: Seq<bool>,
    packet: protocol::PacketView,
)
    requires
        clicks.len() <= recordings.len(),
    ensures
        watch_packets(recordings, clicks).contains(packet) <==> exists|i: int|
            0 <= i < clicks.len() && #[trigger] clicks[i] && packet
                == (protocol::PacketView::WatchRecording { id: recordings[i].0 }),
    decreases clicks.len(),
{
    if clicks.len() > 0 {
        let n = clicks.len() - 1;
        let earlier = watch_packets(recordings, clicks.drop_last());
        law_clicked_recordings_are_watched(recordings, clicks.drop_last(), packet);
        let last = if clicks.last() {
            seq![protocol::PacketView::WatchRecording { id: recordings[n].0 }]
        } else {
            Seq::empty()
        };
        assert(watch_packets(recordings, clicks) == earlier + last);
        vstd::seq_lib::lemma_seq_concat_contains_all_elements(earlier, last, packet);
        if earlier.contains(packet) {
            let i = choose|i: int|
                0 <= i < n && #[trigger] clicks.drop_last()[i] && packet
                    == (protocol::PacketView::WatchRecording { id: recordings[i].0 });
            assert(clicks[i]);
        }
        if clicks.last() {
            assert(clicks[n]);
            assert(last[0] == protocol::PacketView::WatchRecording { id: recordings[n].0 });
        }
        if exists|i: int|
            0 <= i < clicks.len() && #[trigger] clicks[i] && packet
                == (protocol::PacketView::WatchRecording { id: recordings[i].0 }) {
            let i = choose|i: int|
                0 <= i < clicks.len() && #[trigger] clicks[i] && packet
                    == (protocol::PacketView::WatchRecording { id: recordings[i].0 });
            if i < n {
                assert(clicks.drop_last()[i]);
            }
        }
    }
}

/// If just the button of one recording is clicked, the number of that recording
/// is asked for, once; without a click nothing is.
pub proof fn law_clicked_recording_is_watched(recordings: Listed, clicks: Seq<bool>, i: int)
    requires
        clicks.len() <= recordings.len(),
        0 <= i < clicks.len(),
        forall|j: int| 0 <= j < clicks.len() && j != i ==> !#[trigger] clicks[j],
    ensures
        clicks[i] ==> watch_packets(recordings, clicks) == seq![
            protocol::PacketView::WatchRecording { id: recordings[i].0 },
        ],
        !clicks[i] ==> watch_packets(recordings, clicks).len() == 0,
    decreases clicks.len(),
{
    let n = clicks.len() - 1;
    let earlier = watch_packets(recordings, clicks.drop_last());
    assert forall|j: int| 0 <= j < n implies clicks.drop_last()[j] == #[trigger] clicks[j] by {}
    if i < n {
        assert(!clicks[n]);
        assert forall|j: int| 0 <= j < n && j != i implies !#[trigger] clicks.drop_last()[j] by {
            assert(!clicks[j]);
        }
        law_clicked_recording_is_watched(recordings, clicks.drop_last(), i);
        assert(watch_packets(recordings, clicks) =~= earlier);
    } else {
        assert(earlier =~= Seq::empty()) by {
            if earlier.len() > 0 {
                law_clicked_recordings_are_watched(recordings, clicks.drop_last(), earlier[0]);
                assert(earlier.contains(earlier[0]));
                let j = choose|j: int|
                    0 <= j < n && #[trigger] clicks.drop_last()[j] && earlier[0]
                        == (protocol::PacketView::WatchRecording { id: recordings[j].0 });
                assert(clicks[j]);
            }
        }
        if clicks[i] {
            assert(watch_packets(recordings, clicks) =~= seq![
                protocol::PacketView::WatchRecording { id: recordings[i].0 },
            ]);
        }
    }
}

/// What a frame of the menu sends: signing out, the recordings that were
/// clicked, the request to join with the code that was typed, if it is one that
/// a session can have, and the request to host, each exactly if its button was
/// clicked; nothing while the user waits for a host.
pub proof fn law_menu_frame(scene: MenuView, input: MenuInput, packet: protocol::PacketView)
    ensures
        scene.is_disabled ==> menu_packets(scene, input).len() == 0,
        !scene.is_disabled ==> (menu_packets(scene, input).contains(packet) <==> {
            ||| input.sign_out && packet == protocol::PacketView::SignOut
            ||| watch_packets(scene.recordings, input.watch@).contains(packet)
            ||| input.host && scene.username.len() > 0 && packet == protocol::PacketView::Host
            ||| input.join && (packet matches protocol::PacketView::Join { code, username } && {
                &&& username == scene.username
                &&& 100_000 <= code <= 999_999
                &&& text::parsed_unsigned(scene.session_code, 0xffff_ffff) == Some(code as nat)
            })
        }),
{
    if !scene.is_disabled {
        let a = if input.sign_out {
            seq![protocol::PacketView::SignOut]
        } else {
            Seq::empty()
        };
        let b = watch_packets(scene.recordings, input.watch@);
        let c = if input.join && joinable(scene) {
            seq![
                protocol::PacketView::Join {
                    code: typed_code(scene)->Some_0 as u32,
                    username: scene.username,
                },
            ]
        } else {
            Seq::empty()
        };
        let d = if input.host && scene.username.len() > 0 {
            seq![protocol::PacketView::Host]
        } else {
            Seq::empty()
        };
        assert(menu_packets(scene, input) == a + b + c + d);
        vstd::seq_lib::lemma_seq_concat_contains_all_elements(a + b + c, d, packet);
        vstd::seq_lib::lemma_seq_concat_contains_all_elements(a + b, c, packet);
        vstd::seq_lib::lemma_seq_concat_contains_all_elements(a, b, packet);
        if a.len() == 1 {
            assert(a.contains(a[0]));
        }
        if c.len() == 1 {
            assert(c.contains(c[0]));
        }
        if d.len() == 1 {
            assert(d.contains(d[0]));
        }
    }
}

/// Who signs out goes to the login, who was let in takes part in the session,
/// and everybody else stays; nobody can sign out while waiting for a host.
pub proof fn law_leaving_the_menu(
    scene: MenuView,
    decision: Option<(bool, Seq<char>)>,
    input: MenuInput,
)
    ensures
        ({
            let change = change_after(scene, decision, input);
            let waits = scene.is_disabled && decision is None;
            &&& change == scene::SceneChangeView::Login <==> (input.sign_out && !waits)
            &&& change == (scene::SceneChangeView::Participant { username: scene.username }) <==> (
            decision is Some && decision->Some_0.0 && !input.sign_out)
            &&& change is Stay <==> (!(decision is Some && decision->Some_0.0) && (waits
                || !input.sign_out))
        }),
{
}

/// The decision of a host ends the waiting; a refusal is shown as an error, and
/// nothing else changes.
pub proof fn law_decision_of_a_host(scene: MenuView, allowed: bool, message: Seq<char>)
    ensures
        ({
            let after = after_decision(scene, Some((allowed, message)));
            &&& !after.is_disabled
            &&& allowed ==> after.is_error == scene.is_error && after.status_message
                == scene.status_message
            &&& !allowed ==> after.is_error && after.status_message == message
            &&& after.username == scene.username
            &&& after.session_code == scene.session_code
            &&& after.recordings == scene.recordings
        }),
        after_decision(scene, None) == scene,
{
}

/// A request to join that succeeds makes the user wait, one that fails is shown
/// as an error; a request to watch that fails is shown as an error, and nothing
/// else changes.
pub proof fn law_answers_in_the_menu(scene: MenuView, message: Seq<char>)
    ensures
        ({
            let waiting = after_join_reply(scene, protocol::ResultView::Success(message));
            &&& waiting.is_disabled
            &&& !waiting.is_error
            &&& waiting.status_message == "Waiting for the host to approve..."@
            &&& waiting.username == scene.username
            &&& waiting.session_code == scene.session_code
            &&& waiting.recordings == scene.recordings
        }),
        ({
            let refused = after_join_reply(scene, protocol::ResultView::Failure(message));
            &&& refused.is_error
            &&& refused.status_message == message
            &&& refused.is_disabled == scene.is_disabled
            &&& refused.username == scene.username
            &&& refused.session_code == scene.session_code
            &&& refused.recordings == scene.recordings
            &&& after_watch_reply(scene, protocol::ResultView::Failure(message)) == refused
        }),
        after_watch_reply(scene, protocol::ResultView::Success(message)) == scene,
        change_after_watch_reply(scene, protocol::ResultView::Failure(message)) is Stay,
{
}

/// A list that holds exactly the known recordings has each of them, under its
/// own name, in one row.
pub proof fn law_every_recording_has_one_row(recordings: Listed, known: Known, id: i32)
    requires
        holds_exactly(recordings, known),
    ensures
        known.contains_key(id) ==> recordings.contains((id, known[id])),
        forall|i: int|
            0 <= i < recordings.len() ==> known.contains_key((#[trigger] recordings[i]).0)
                && known[recordings[i].0] == recordings[i].1,
        names::distinct(recordings),
{
    assert forall|i: int| 0 <= i < recordings.len() implies known.contains_key(
        (#[trigger] recordings[i]).0,
    ) && known[recordings[i].0] == recordings[i].1 by {
        assert(recordings.contains(recordings[i]));
    }
    if known.contains_key(id) {
        assert(known.contains_pair(id, known[id]));
        let recording = (id, known[id]);
        assert(recordings.contains(recording));
    }
    assert forall|i: int, j: int| 0 <= i < j < recordings.len() implies (#[trigger] recordings[i]).0
        != (#[trigger] recordings[j]).0 by {
        assert(recordings[i] != recordings[j]);
    }
}

/// The recordings are asked for in the order of their rows: the clicks in the
/// first rows give what comes first, and those in the other rows the rest.
pub proof fn law_rows_one_after_another(recordings: Listed, a: Seq<bool>, b: Seq<bool>)
    requires
        a.len() + b.len() <= recordings.len(),
    ensures
        watch_packets(recordings, a + b) == watch_packets(recordings, a) + watch_packets(
            recordings.skip(a.len() as int),
            b,
        ),
    decreases b.len(),
{
    let others = recordings.skip(a.len() as int);
    if b.len() == 0 {
        assert(a + b =~= a);
        assert(watch_packets(recordings, a) + watch_packets(others, b) =~= watch_packets(
            recordings,
            a,
        ));
    } else {
        law_rows_one_after_another(recordings, a, b.drop_last());
        assert((a + b).drop_last() =~= a + b.drop_last());
        assert(others[b.len() - 1] == recordings[a.len() + b.len() - 1]);
        assert(watch_packets(recordings, a + b) =~= watch_packets(recordings, a) + watch_packets(
            others,
            b,
        ));
    }
}

/// In a frame signing out comes first, then the recordings, then the request to
/// join, and last the request to host, each once.
pub proof fn law_order_of_a_menu_frame(scene: MenuView, input: MenuInput)
    requires
        !scene.is_disabled,
    ensures
        ({
            let packets = menu_packets(scene, input);
            let s: int = if input.sign_out {
                1
            } else {
                0
            };
            let h: int = if input.host && scene.username.len() > 0 {
                1
            } else {
                0
            };
            let j: int = if input.join && joinable(scene) {
                1
            } else {
                0
            };
            let w = watch_packets(scene.recordings, input.watch@);
            &&& packets.len() == s + w.len() + j + h
            &&& packets.subrange(s, s + w.len()) == w
            &&& s == 1 ==> packets[0] == protocol::PacketView::SignOut
            &&& j == 1 ==> packets[s + w.len()] is Join
            &&& h == 1 ==> packets.last() == protocol::PacketView::Host
        }),
{
    let packets = menu_packets(scene, input);
    let s: int = if input.sign_out {
        1
    } else {
        0
    };
    let w = watch_packets(scene.recordings, input.watch@);
    assert(packets.subrange(s, s + w.len()) =~= w);
}

/// "Join" can be clicked exactly if a number of six digits was typed.
pub proof fn law_codes_that_can_be_joined(scene: MenuView)
    ensures
        joinable(scene) <==> (text::parsed_unsigned(scene.session_code, 0xffff_ffff) matches Some(
            code,
        ) && 100_000 <= code < 1_000_000),
        typed_code(scene) == text::parsed_unsigned(scene.session_code, 0xffff_ffff),
{
}

/// An error is shown as one, with its message, and changes nothing else.
pub proof fn law_errors_in_the_menu(scene: MenuView, message: Seq<char>)
    ensures
        ({
            let after = with_error(scene, message);
            &&& after.is_error
            &&& after.status_message == message
            &&& after.is_disabled == scene.is_disabled
            &&& after.username == scene.username
            &&& after.session_code == scene.session_code
            &&& after.recordings == scene.recordings
        }),
{
}

/// Whatever length the server tells, if it is a number, is the length with which
/// the recording is watched, under the name of the user.
pub proof fn law_length_is_taken_over(scene: MenuView, length: Seq<char>, frames: i32)
    requires
        text::parsed_i32(length) == Some(frames as int),
    ensures
        is_watch_reply(protocol::ResultView::Success(length)),
        change_after_watch_reply(scene, protocol::ResultView::Success(length))
            == (scene::SceneChangeView::Watch { username: scene.username, duration: frames }),
        is_watch_reply(protocol::ResultView::Failure(length)),
{
}

/// A packet that names a recording makes it known under its number and name,
/// and leaves the others as they are; no other packet makes anything known.
pub proof fn law_what_is_known(
    known: Known,
    packet: protocol::PacketView,
    id: i32,
    name: Seq<char>,
    other: i32,
)
    ensures
        ({
            let after = known_after(known, protocol::PacketView::RecordingName { id, name });
            &&& after.contains_key(id)
            &&& after[id] == name
            &&& other != id ==> after.contains_key(other) == known.contains_key(other)
                && after[other] == known[other]
        }),
        !(packet is RecordingName) ==> known_after(known, packet) == known,
        collected(Seq::empty()) == Map::<i32, Seq<char>>::empty(),
{
}

/// Of two recordings in a list whose newest comes first, the earlier one has no
/// smaller name, in the order of a dictionary.
pub proof fn law_larger_names_come_first(recordings: Listed, i: int, j: int)
    requires
        newest_first(recordings),
        0 <= i < j < recordings.len(),
    ensures
        !text::bytes_less(encode_utf8(recordings[i].1), encode_utf8(recordings[j].1)),
        recordings[i].1 == recordings[j].1 || text::bytes_less(
            encode_utf8(recordings[j].1),
            encode_utf8(recordings[i].1),
        ),
{
    let (a, b) = (encode_utf8(recordings[i].1), encode_utf8(recordings[j].1));
    assert(!name_less(recordings[i].1, recordings[j].1));
    text::law_bytes_order(a, b);
    if a == b {
        encode_utf8_decode_utf8(recordings[i].1);
        encode_utf8_decode_utf8(recordings[j].1);
    }
}

/// The rows of a list have the numbers and names of its recordings, and the
/// names are times exactly if each of them is one.
pub proof fn law_rows_of_a_list(recordings: Seq<(i32, String)>)
    ensures
        listed(recordings).len() == recordings.len(),
        forall|i: int|
            0 <= i < recordings.len() ==> (#[trigger] listed(recordings)[i]).0 == recordings[i].0
                && listed(recordings)[i].1 == recordings[i].1@,
        names_are_times(listed(recordings)) <==> forall|i: int|
            0 <= i < recordings.len() ==> time_seconds((#[trigger] recordings[i]).1@) is Some,
{
    assert forall|i: int| 0 <= i < recordings.len() implies (#[trigger] recordings[i]).1@ == listed(
        recordings,
    )[i].1 by {}
    if names_are_times(listed(recordings)) {
        assert forall|i: int| 0 <= i < recordings.len() implies time_seconds(
            (#[trigger] recordings[i]).1@,
        ) is Some by {
            assert(time_seconds(listed(recordings)[i].1) is Some);
        }
    }
    if forall|i: int|
        0 <= i < recordings.len() ==> time_seconds((#[trigger] recordings[i]).1@) is Some {
        assert forall|i: int| 0 <= i < listed(recordings).len() implies time_seconds(
            (#[trigger] listed(recordings)[i]).1,
        ) is Some by {
            assert(time_seconds(recordings[i].1@) is Some);
        }
    }
}

} // verus!
