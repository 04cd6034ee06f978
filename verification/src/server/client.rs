//! The course of a client's visit: signing in, the menu, and the sessions and
//! recordings that are reached from it.

use crate::names;
use crate::protocol;
use crate::protocol::{Packet, ResultPacket};
use crate::server::host;
use crate::server::login;
use crate::server::login::{
    login_or_register, reply_to_account, AccountOutcome, AccountRequest,
};
use crate::server::participant;
use crate::server::session;
use crate::server::session::{push, Action, Connection, Recording, Session};
use crate::text;
use crate::text::{i32_to_text, push_u32, u32_to_text};
use crate::user_type::UserType;
use rand::Rng;
use std::collections::HashMap;
use vstd::prelude::*;
use vstd::std_specs::iter::IteratorSpec;

verus! {

broadcast use vstd::std_specs::hash::group_hash_axioms;

/// Calls `rand::Rng::random_range` on the thread's generator. The number is
/// random; it lies in the range, the upper end excluded.
#[verifier::external_body]
fn random_u32(low: u32, high: u32) -> (number: u32)
    requires
        low < high,
    ensures
        low <= number < high,
{
    rand::rng().random_range(low..high)
}

/// Whether a session could have this code: it has six digits and is not in
/// use.
pub open spec fn is_free_code<V>(sessions: Map<u32, V>, code: u32) -> bool {
    100_000 <= code < 1_000_000 && !sessions.contains_key(code)
}

/// Picks a code for a new session at random among those that are free.
pub fn generate_session_code<V>(sessions: &HashMap<u32, V>) -> (code: u32)
    requires
        exists|code: u32| is_free_code(sessions@, code),
    ensures
        is_free_code(sessions@, code),
{
    let mut draws: u64 = u64::MAX;
    while draws > 0
        decreases draws,
    {
        let code: u32 = random_u32(100_000, 1_000_000);
        if !sessions.contains_key(&code) {
            return code;
        }
        draws -= 1;
    }
    // Unlucky beyond measure: the first free code will do.
    let mut code: u32 = 100_000;
    while sessions.contains_key(&code)
        invariant
            100_000 <= code < 1_000_000,
            exists|free: u32| is_free_code(sessions@, free),
            forall|c: u32| 100_000 <= c < code ==> !#[trigger] is_free_code(sessions@, c),
        decreases 1_000_000 - code,
    {
        proof {
            let free = choose|free: u32| is_free_code(sessions@, free);
            assert(!is_free_code(sessions@, code));
            assert(free > code);
        }
        code += 1;
    }
    code
}

/// Where a client is in its visit.
#[derive(PartialEq, Eq, Debug)]
pub enum Phase {
    /// Not signed in.
    Login,
    /// Signed in; the list of recordings is still to be sent.
    Arriving,
    /// In the menu.
    Menu,
    /// Hosting a session.
    Hosting { code: u32 },
    /// Waiting for the host of a session to decide.
    Waiting { code: u32, username: String },
    /// Taking part in a session.
    Participating { code: u32, username: String },
    /// Watching a recording.
    Watching { filename: String },
    /// Gone.
    Closed,
}

/// The content of a [`Phase`].
#[verifier::ext_equal]
pub enum PhaseView {
    Login,
    Arriving,
    Menu,
    Hosting { code: u32 },
    Waiting { code: u32, username: Seq<char> },
    Participating { code: u32, username: Seq<char> },
    Watching { filename: Seq<char> },
    Closed,
}

impl View for Phase {
    type V = PhaseView;

    open spec fn view(&self) -> PhaseView {
        match self {
            Phase::Login => PhaseView::Login,
            Phase::Arriving => PhaseView::Arriving,
            Phase::Menu => PhaseView::Menu,
            Phase::Hosting { code } => PhaseView::Hosting { code: *code },
            Phase::Waiting { code, username } => PhaseView::Waiting {
                code: *code,
                username: username@,
            },
            Phase::Participating { code, username } => PhaseView::Participating {
                code: *code,
                username: username@,
            },
            Phase::Watching { filename } => PhaseView::Watching { filename: filename@ },
            Phase::Closed => PhaseView::Closed,
        }
    }
}

/// What the server does with a packet from the menu.
#[derive(PartialEq, Eq, Debug)]
pub enum MenuRequest {
    /// The user signed out.
    SignedOut,
    /// Make a session.
    MakeSession,
    /// Look for the session with this code.
    FindSession { code: u32, username: String },
    /// Look whether the video file of a recording is there.
    FindVideo { filename: String },
    /// Answer that the request failed, and why.
    Refuse { reason: String },
    /// Do nothing.
    Ignore,
}

/// The content of a [`MenuRequest`].
#[verifier::ext_equal]
pub enum MenuRequestView {
    SignedOut,
    MakeSession,
    FindSession { code: u32, username: Seq<char> },
    FindVideo { filename: Seq<char> },
    Refuse { reason: Seq<char> },
    Ignore,
}

impl View for MenuRequest {
    type V = MenuRequestView;

    open spec fn view(&self) -> MenuRequestView {
        match self {
            MenuRequest::SignedOut => MenuRequestView::SignedOut,
            MenuRequest::MakeSession => MenuRequestView::MakeSession,
            MenuRequest::FindSession { code, username } => MenuRequestView::FindSession {
                code: *code,
                username: username@,
            },
            MenuRequest::FindVideo { filename } => MenuRequestView::FindVideo {
                filename: filename@,
            },
            MenuRequest::Refuse { reason } => MenuRequestView::Refuse { reason: reason@ },
            MenuRequest::Ignore => MenuRequestView::Ignore,
        }
    }
}

/// Recordings: the name of the file and the time, under the recording's number.
pub type Recordings = Map<i32, (Seq<char>, Seq<char>)>;

/// The content of the recordings of a user.
pub open spec fn recordings_view(recordings: Map<i32, Recording>) -> Recordings {
    recordings.map_values(|r: Recording| (r.filename@, r.time@))
}

/// Whether `ids` are the numbers of the recordings, each one once, in some
/// order.
pub open spec fn numbers_of(recordings: Recordings, ids: Seq<i32>) -> bool {
    ids.no_duplicates() && ids.to_set() == recordings.dom()
}

/// The packets that list recordings in a given order; the empty packet ends the
/// list.
pub open spec fn listing(recordings: Recordings, ids: Seq<i32>) -> Seq<protocol::PacketView> {
    ids.map_values(
        |id: i32| protocol::PacketView::RecordingName { id, name: recordings[id].1 },
    ).push(protocol::PacketView::Empty)
}

/// Whether packets list each recording once, in whatever order.
pub open spec fn is_listing(recordings: Recordings, packets: Seq<protocol::PacketView>) -> bool {
    exists|ids: Seq<i32>| #[trigger]
        numbers_of(recordings, ids) && packets == listing(recordings, ids)
}

/// The contents of a list of packets.
pub open spec fn packet_views(packets: Seq<Packet>) -> Seq<protocol::PacketView> {
    packets.map_values(|p: Packet| p@)
}

/// Where a client is after a packet that was sent while not signed in.
pub open spec fn phase_after_login_packet(packet: protocol::PacketView) -> PhaseView {
    if packet is Shutdown {
        PhaseView::Closed
    } else {
        PhaseView::Login
    }
}

/// What the server does with a packet from the menu.
pub open spec fn menu_request(
    packet: protocol::PacketView,
    recordings: Recordings,
) -> MenuRequestView {
    match packet {
        protocol::PacketView::SignOut => MenuRequestView::SignedOut,
        protocol::PacketView::Host => MenuRequestView::MakeSession,
        protocol::PacketView::Join { code, username } => MenuRequestView::FindSession {
            code,
            username,
        },
        protocol::PacketView::WatchRecording { id } => if recordings.contains_key(id) {
            MenuRequestView::FindVideo { filename: recordings[id].0 }
        } else {
            MenuRequestView::Refuse { reason: "No recording found."@ }
        },
        _ => MenuRequestView::Ignore,
    }
}

/// Where a client is after a packet from the menu.
pub open spec fn phase_after_menu_packet(packet: protocol::PacketView) -> PhaseView {
    if packet is SignOut {
        PhaseView::Login
    } else {
        PhaseView::Menu
    }
}

/// What the server does with a request to join a session.
pub open spec fn join_plan(
    session: Option<session::SessionView>,
    code: u32,
    username: Seq<char>,
    channel: u64,
) -> Seq<session::ActionView> {
    match session {
        None => seq![
            session::ActionView::Reply {
                channel,
                result: protocol::ResultView::Failure(
                    "No session found with code "@ + text::decimal(code as nat),
                ),
            },
        ],
        Some(session) => if names::holds(session.connections, username) {
            seq![
                session::ActionView::Reply {
                    channel,
                    result: protocol::ResultView::Failure(
                        "You are already connected to this session from elsewhere."@,
                    ),
                },
            ]
        } else {
            seq![
                session::ActionView::Reply {
                    channel,
                    result: protocol::ResultView::Success("Joining"@),
                },
                session::ActionView::Send {
                    channel: session::host_channel(session.connections),
                    packet: protocol::PacketView::Join { code, username },
                },
                session::ActionView::AddPending {
                    username,
                    connection: Connection { channel, user_type: UserType::Participant },
                },
            ]
        },
    }
}

/// The content of a session that may not be there.
pub open spec fn session_view(session: Option<&Session>) -> Option<session::SessionView> {
    match session {
        Some(session) => Some(session@),
        None => None,
    }
}

/// Whether a user waits for the host after asking to join.
pub open spec fn is_put_on_hold(session: Option<session::SessionView>, username: Seq<char>) -> bool {
    session is Some && !names::holds(session->Some_0.connections, username)
}

/// A client that is connected to the server.
pub struct Client {
    /// The number under which the server keeps the client's channel.
    pub channel: u64,
    /// Where the client is.
    pub phase: Phase,
    /// The name of the user who is signed in.
    pub username: String,
    /// The number of the user who is signed in.
    pub user_id: i32,
}

impl Client {
    /// A client that has just connected.
    pub fn new(channel: u64) -> (client: Client)
        ensures
            client.channel == channel,
            client.phase@ == PhaseView::Login,
            client.username@ == Seq::<char>::empty(),
            client.user_id == 0,
    {
        Client { channel, phase: Phase::Login, username: String::new(), user_id: 0 }
    }

    /// Takes a packet of a client that is not signed in.
    pub fn login_packet(&mut self, packet: &Packet) -> (request: AccountRequest)
        requires
            old(self).phase@ == PhaseView::Login,
        ensures
            request@ == login::account_request(packet@),
            final(self).phase@ == phase_after_login_packet(packet@),
            final(self).channel == old(self).channel,
            final(self).username@ == old(self).username@,
            final(self).user_id == old(self).user_id,
    {
        if let Packet::Shutdown = packet {
            self.phase = Phase::Closed;
        }
        login_or_register(packet)
    }

    /// Takes what came of a login or a registration; returns the answer.
    pub fn account_outcome(&mut self, username: String, outcome: AccountOutcome) -> (reply:
        ResultPacket)
        requires
            old(self).phase@ == PhaseView::Login,
        ensures
            reply@ == login::account_reply(outcome),
            final(self).channel == old(self).channel,
            match login::signed_in(outcome) {
                Some(user_id) => {
                    &&& final(self).phase@ == PhaseView::Arriving
                    &&& final(self).username@ == username@
                    &&& final(self).user_id == user_id
                },
                None => {
                    &&& final(self).phase@ == PhaseView::Login
                    &&& final(self).username@ == old(self).username@
                    &&& final(self).user_id == old(self).user_id
                },
            },
    {
        match outcome {
            AccountOutcome::Found { user_id } => {
                self.phase = Phase::Arriving;
                self.username = username;
                self.user_id = user_id;
            },
            AccountOutcome::Created { user_id } => {
                self.phase = Phase::Arriving;
                self.username = username;
                self.user_id = user_id;
            },
            _ => {},
        }
        reply_to_account(outcome)
    }

    /// The packets that list the user's recordings, with which the client
    /// enters the menu.
    pub fn list_recordings(&mut self, recordings: &HashMap<i32, Recording>) -> (packets: Vec<
        Packet,
    >)
        requires
            old(self).phase@ == PhaseView::Arriving,
        ensures
            is_listing(recordings_view(recordings@), packet_views(packets@)),
            final(self).phase@ == PhaseView::Menu,
            final(self).channel == old(self).channel,
            final(self).username@ == old(self).username@,
            final(self).user_id == old(self).user_id,
    {
        self.phase = Phase::Menu;
        let ghost all = recordings_view(recordings@);
        let keys = recordings.keys();
        let ghost ids = IteratorSpec::remaining(&keys).unref();
        assert(all.dom() =~= recordings@.dom());
        assert(numbers_of(all, ids));
        let mut packets: Vec<Packet> = Vec::new();
        assert(packet_views(packets@) =~= listing(all, ids).take(0));
        for id in iter: keys
            invariant
                all == recordings_view(recordings@),
                numbers_of(all, ids),
                ids == iter.seq().unref(),
                packet_views(packets@) == listing(all, ids).take(iter.index() as int),
        {
            let ghost before = packet_views(packets@);
            let ghost i = iter.index() as int;
            assert(ids[i] == *id);
            assert(ids.to_set().contains(*id));
            if let Some(recording) = recordings.get(id) {
                let packet: Packet = Packet::RecordingName {
                    id: *id,
                    name: recording.time.clone(),
                };
                packets.push(packet);
                assert(packet_views(packets@) =~= before.push(packet@));
                assert(listing(all, ids)[i] == packet@);
                assert(packet_views(packets@) =~= listing(all, ids).take(i + 1));
            }
        }
        let ghost before = packet_views(packets@);
        packets.push(Packet::Empty);
        assert(packet_views(packets@) =~= before.push(protocol::PacketView::Empty));
        assert(packet_views(packets@) =~= listing(all, ids));
        packets
    }

    /// Takes a packet from the menu.
    pub fn menu_packet(&mut self, packet: &Packet, recordings: &HashMap<i32, Recording>) -> (request:
        MenuRequest)
        requires
            old(self).phase@ == PhaseView::Menu,
        ensures
            request@ == menu_request(packet@, recordings_view(recordings@)),
            final(self).phase@ == phase_after_menu_packet(packet@),
            final(self).channel == old(self).channel,
            final(self).username@ == old(self).username@,
            final(self).user_id == old(self).user_id,
    {
        match packet {
            Packet::SignOut => {
                self.phase = Phase::Login;
                MenuRequest::SignedOut
            },
            Packet::Host => MenuRequest::MakeSession,
            Packet::Join { code, username } => MenuRequest::FindSession {
                code: *code,
                username: username.clone(),
            },
            Packet::WatchRecording { id } => match recordings.get(id) {
                Some(recording) => MenuRequest::FindVideo { filename: recording.filename.clone() },
                None => MenuRequest::Refuse { reason: "No recording found.".to_owned() },
            },
            _ => MenuRequest::Ignore,
        }
    }

    /// The client starts to host the session with this code: the session and
    /// the answer with the code.
    pub fn host_session(&mut self, code: u32) -> (made: (Session, ResultPacket))
        requires
            old(self).phase@ == PhaseView::Menu,
        ensures
            made.0@ == (session::SessionView {
                connections: seq![
                    (
                        old(self).username@,
                        Connection { channel: old(self).channel, user_type: UserType::Host },
                    ),
                ],
                pending_join: Seq::empty(),
            }),
            made.1@ == protocol::ResultView::Success(text::decimal(code as nat)),
            final(self).phase@ == (PhaseView::Hosting { code }),
            final(self).channel == old(self).channel,
            final(self).username@ == old(self).username@,
            final(self).user_id == old(self).user_id,
    {
        self.phase = Phase::Hosting { code };
        let connection: Connection = Connection {
            channel: self.channel,
            user_type: UserType::Host,
        };
        (
            Session::new(self.username.clone(), connection),
            ResultPacket::Success(u32_to_text(code)),
        )
    }

    /// The client asks to join a session, if there is one with the code.
    ///
    /// A session that another connection under the same name is not part of
    /// has to have a host, who is asked.
    pub fn join_session(&mut self, session: Option<&Session>, code: u32, username: &String) -> (actions:
        Vec<Action>)
        requires
            old(self).phase@ == PhaseView::Menu,
            is_put_on_hold(session_view(session), username@) ==> session::has_host(
                session_view(session)->Some_0.connections,
            ),
        ensures
            session::views(actions@) == join_plan(
                session_view(session),
                code,
                username@,
                old(self).channel,
            ),
            final(self).phase@ == if is_put_on_hold(session_view(session), username@) {
                PhaseView::Waiting { code, username: username@ }
            } else {
                PhaseView::Menu
            },
            final(self).channel == old(self).channel,
            final(self).username@ == old(self).username@,
            final(self).user_id == old(self).user_id,
    {
        let channel: u64 = self.channel;
        let mut actions: Vec<Action> = Vec::new();
        match session {
            None => {
                let mut reason: String = "No session found with code ".to_owned();
                push_u32(&mut reason, code);
                push(
                    &mut actions,
                    Action::Reply { channel, result: ResultPacket::Failure(reason) },
                );
            },
            Some(session) => {
                if session.connections.contains(username) {
                    push(
                        &mut actions,
                        Action::Reply {
                            channel,
                            result: ResultPacket::Failure(
                                "You are already connected to this session from elsewhere.".to_owned(),
                            ),
                        },
                    );
                } else {
                    push(
                        &mut actions,
                        Action::Reply {
                            channel,
                            result: ResultPacket::Success("Joining".to_owned()),
                        },
                    );
                    push(
                        &mut actions,
                        Action::Send {
                            channel: session.host(),
                            packet: Packet::Join { code, username: username.clone() },
                        },
                    );
                    push(
                        &mut actions,
                        Action::AddPending {
                            username: username.clone(),
                            connection: Connection { channel, user_type: UserType::Participant },
                        },
                    );
                    self.phase = Phase::Waiting { code, username: username.clone() };
                }
            },
        }
        assert(session::views(actions@) =~= join_plan(
            session_view(session),
            code,
            username@,
            channel,
        ));
        actions
    }

    /// The host has decided: a client that is let in takes part in the
    /// session, another one is back in the menu.
    pub fn join_decided(&mut self, allowed: bool)
        requires
            old(self).phase@ is Waiting,
        ensures
            final(self).phase@ == if allowed {
                PhaseView::Participating {
                    code: old(self).phase@->Waiting_code,
                    username: old(self).phase@->Waiting_username,
                }
            } else {
                PhaseView::Menu
            },
            final(self).channel == old(self).channel,
            final(self).username@ == old(self).username@,
            final(self).user_id == old(self).user_id,
    {
        if allowed {
            if let Phase::Waiting { code, username } = &self.phase {
                self.phase = Phase::Participating { code: *code, username: username.clone() };
            }
        } else {
            self.phase = Phase::Menu;
        }
    }

    /// The answer to a request to watch a recording, whose length in frames is
    /// known if its file is there.
    pub fn watch_video(&mut self, filename: &String, frames: Option<i32>) -> (reply: ResultPacket)
        requires
            old(self).phase@ == PhaseView::Menu,
        ensures
            reply@ == (match frames {
                Some(frames) => protocol::ResultView::Success(text::signed_decimal(frames as int)),
                None => protocol::ResultView::Failure("Video file does not exist on the server."@),
            }),
            final(self).phase@ == if frames is Some {
                PhaseView::Watching { filename: filename@ }
            } else {
                PhaseView::Menu
            },
            final(self).channel == old(self).channel,
            final(self).username@ == old(self).username@,
            final(self).user_id == old(self).user_id,
    {
        match frames {
            Some(frames) => {
                self.phase = Phase::Watching { filename: filename.clone() };
                ResultPacket::Success(i32_to_text(frames))
            },
            None => ResultPacket::Failure("Video file does not exist on the server.".to_owned()),
        }
    }

    /// The client comes back from a session or a recording: the list of
    /// recordings is sent again.
    pub fn come_back(&mut self)
        requires
            old(self).phase@ is Hosting || old(self).phase@ is Participating
                || old(self).phase@ is Watching,
        ensures
            final(self).phase@ == PhaseView::Arriving,
            final(self).channel == old(self).channel,
            final(self).username@ == old(self).username@,
            final(self).user_id == old(self).user_id,
    {
        self.phase = Phase::Arriving;
    }
}

/// A user who asks to join waits under that name, and nobody else is touched;
/// a request that is refused leaves the session as it is.
pub proof fn law_asking_to_join(
    session: session::SessionView,
    code: u32,
    username: Seq<char>,
    channel: u64,
)
    ensures
        session::run(session, join_plan(Some(session), code, username, channel))
            == if names::holds(session.connections, username) {
            session
        } else {
            session::SessionView {
                pending_join: names::put(
                    session.pending_join,
                    username,
                    Connection { channel, user_type: UserType::Participant },
                ),
                ..session
            }
        },
{
    let plan = join_plan(Some(session), code, username, channel);
    if names::holds(session.connections, username) {
        session::law_messages_change_nothing(session, plan);
    } else {
        let wait = plan.last();
        assert(plan =~= plan.drop_last() + seq![wait] + Seq::empty());
        host::lemma_run_change_among_messages(
            session,
            plan.drop_last(),
            wait,
            Seq::empty(),
        );
    }
}

/// Whom the host lets in after a request to join takes part with the channel
/// that asked, as a participant.
pub proof fn law_joining(
    session: session::SessionView,
    host_username: Seq<char>,
    code: u32,
    username: Seq<char>,
    channel: u64,
)
    requires
        session::well_formed(session),
        !names::holds(session.connections, username),
    ensures
        ({
            let asked = session::run(session, join_plan(Some(session), code, username, channel));
            let packet = protocol::PacketView::Join { code, username };
            let joined = session::run(
                asked,
                host::host_plan(asked, host_username, packet),
            );
            &&& names::lookup(joined.connections, username) == Some(
                Connection { channel, user_type: UserType::Participant },
            )
            &&& !names::holds(joined.pending_join, username)
        }),
{
    let connection = Connection { channel, user_type: UserType::Participant };
    law_asking_to_join(session, code, username, channel);
    names::law_put(session.pending_join, username, connection, username);
    let asked = session::SessionView {
        pending_join: names::put(session.pending_join, username, connection),
        ..session
    };
    assert(names::holds(asked.pending_join, username));
    host::law_admission(asked, host_username, code, username);
    names::law_put(asked.connections, username, connection, username);
    names::law_without(asked.pending_join, username, username);
}

/// Whether nobody both takes part in a session and waits to be let in.
pub open spec fn apart(session: session::SessionView) -> bool {
    forall|name: Seq<char>| #[trigger]
        names::holds(session.connections, name) ==> !names::holds(session.pending_join, name)
}

/// A key stands in a list after it was put there, and those that stood there
/// still do.
proof fn lemma_holds_after_put(
    list: session::Connections,
    key: Seq<char>,
    value: Connection,
    name: Seq<char>,
)
    requires
        names::distinct(list),
    ensures
        names::holds(names::put(list, key, value), name) == (name == key || names::holds(
            list,
            name,
        )),
{
    names::law_put(list, key, value, name);
}

/// A key is gone after it was removed, and the others are not.
proof fn lemma_holds_after_without(list: session::Connections, key: Seq<char>, name: Seq<char>)
    requires
        names::distinct(list),
    ensures
        names::holds(names::without(list, key), name) == (name != key && names::holds(list, name)),
{
    names::law_without(list, key, name);
}

/// Whatever the host, the participants and those who ask to join send, nobody
/// both takes part in a session and waits to be let in.
pub proof fn law_waiting_users_are_outside(
    session: session::SessionView,
    host_username: Seq<char>,
    username: Seq<char>,
    channel: u64,
    code: u32,
    packet: protocol::PacketView,
)
    requires
        session::well_formed(session),
        apart(session),
    ensures
        apart(
            session::run(
                session,
                host::host_plan(session, host_username, packet),
            ),
        ),
        apart(
            session::run(
                session,
                participant::participant_plan(session, username, channel, packet),
            ),
        ),
        apart(session::run(session, join_plan(Some(session), code, username, channel))),
{
    lemma_host_keeps_apart(session, host_username, packet);
    let after = session::run(
        session,
        participant::participant_plan(session, username, channel, packet),
    );
    if packet is SessionExit || packet is Empty {
        participant::law_leaving(session, username, channel, packet, username);
        assert forall|name: Seq<char>| #[trigger]
            names::holds(after.connections, name) implies !names::holds(after.pending_join, name) by {
            lemma_holds_after_without(session.connections, username, name);
        }
    } else {
        participant::law_participants_change_nothing_else(
            session,
            username,
            channel,
            packet,
        );
    }
    law_asking_to_join(session, code, username, channel);
    if !names::holds(session.connections, username) {
        let asked = session::run(session, join_plan(Some(session), code, username, channel));
        assert forall|name: Seq<char>| #[trigger]
            names::holds(asked.connections, name) implies !names::holds(asked.pending_join, name) by {
            lemma_holds_after_put(
                session.pending_join,
                username,
                Connection { channel, user_type: UserType::Participant },
                name,
            );
        }
    }
}

/// What the host sends keeps those who wait outside.
proof fn lemma_host_keeps_apart(
    session: session::SessionView,
    host_username: Seq<char>,
    packet: protocol::PacketView,
)
    requires
        session::well_formed(session),
        apart(session),
    ensures
        apart(
            session::run(
                session,
                host::host_plan(session, host_username, packet),
            ),
        ),
{
    let plan = host::host_plan(session, host_username, packet);
    let after = session::run(session, plan);
    match packet {
        protocol::PacketView::Join { code, username } => {
            if names::holds(session.pending_join, username) {
                let connection = names::lookup(session.pending_join, username)->Some_0;
                host::law_admission(session, host_username, code, username);
                assert forall|name: Seq<char>| #[trigger]
                    names::holds(after.connections, name) implies !names::holds(
                    after.pending_join,
                    name,
                ) by {
                    lemma_holds_after_put(session.connections, username, connection, name);
                    lemma_holds_after_without(session.pending_join, username, name);
                }
            } else {
                assert(plan.len() == 0);
            }
        },
        protocol::PacketView::DenyJoin { username } => {
            host::law_refusal(session, host_username, username);
            assert forall|name: Seq<char>| #[trigger]
                names::holds(after.connections, name) implies !names::holds(
                after.pending_join,
                name,
            ) by {
                lemma_holds_after_without(session.pending_join, username, name);
            }
        },
        protocol::PacketView::RequestControl { username } => {
            if names::holds(session.connections, username) {
                let connection = names::lookup(session.connections, username)->Some_0;
                let changed = Connection { user_type: UserType::Controller, ..connection };
                host::law_control(session, host_username, username);
                assert forall|name: Seq<char>| #[trigger]
                    names::holds(after.connections, name) implies !names::holds(
                    after.pending_join,
                    name,
                ) by {
                    lemma_holds_after_put(session.connections, username, changed, name);
                }
            } else {
                assert(plan.len() == 0);
            }
        },
        protocol::PacketView::DenyControl { username } => {
            if names::holds(session.connections, username) {
                let connection = names::lookup(session.connections, username)->Some_0;
                let changed = Connection { user_type: UserType::Participant, ..connection };
                host::law_control(session, host_username, username);
                assert forall|name: Seq<char>| #[trigger]
                    names::holds(after.connections, name) implies !names::holds(
                    after.pending_join,
                    name,
                ) by {
                    lemma_holds_after_put(session.connections, username, changed, name);
                }
            } else {
                assert(plan.len() == 0);
            }
        },
        _ => {
            assert forall|i: int| 0 <= i < plan.len() implies session::is_message(
                #[trigger] plan[i],
            ) by {}
            session::law_messages_change_nothing(session, plan);
        },
    }
}

/// A session can have just the codes of six digits that no other session has;
/// once it has one, the code is no longer free, and the others stay as they
/// are.
pub proof fn law_free_codes<V>(sessions: Map<u32, V>, code: u32, other: u32, session: V)
    ensures
        is_free_code(sessions, code) <==> 100_000 <= code <= 999_999 && !sessions.dom().contains(
            code,
        ),
        !is_free_code(sessions.insert(code, session), code),
        other != code ==> is_free_code(sessions.insert(code, session), other) == is_free_code(
            sessions,
            other,
        ),
        100_000 <= code <= 999_999 ==> is_free_code(sessions.remove(code), code),
{
}

/// Only signing out leads from the menu to the login, and only shutting down
/// from the login out of the server.
pub proof fn law_ways_out(packet: protocol::PacketView, recordings: Recordings)
    ensures
        phase_after_menu_packet(packet) == if packet is SignOut {
            PhaseView::Login
        } else {
            PhaseView::Menu
        },
        phase_after_login_packet(packet) == if packet is Shutdown {
            PhaseView::Closed
        } else {
            PhaseView::Login
        },
        menu_request(packet, recordings) is SignedOut <==> packet is SignOut,
        phase_after_login_packet(packet) == PhaseView::Closed <==> login::account_request(packet)
            == login::AccountRequestView::Close,
{
}

/// From the menu a user can host, ask for the session with a code under a name,
/// as sent, and watch the recordings that are the user's own: the file that
/// stands under the number, and a refusal if there is none.
pub proof fn law_requests_from_the_menu(
    packet: protocol::PacketView,
    recordings: Recordings,
    code: u32,
    username: Seq<char>,
    id: i32,
)
    ensures
        menu_request(packet, recordings) is MakeSession <==> packet is Host,
        menu_request(packet, recordings) is FindSession <==> packet is Join,
        menu_request(packet, recordings) == (MenuRequestView::FindSession { code, username })
            <==> packet == (protocol::PacketView::Join { code, username }),
        menu_request(packet, recordings) is Ignore <==> !(packet is SignOut || packet is Host
            || packet is Join || packet is WatchRecording),
        recordings.contains_key(id) ==> menu_request(
            protocol::PacketView::WatchRecording { id },
            recordings,
        ) == (MenuRequestView::FindVideo { filename: recordings[id].0 }),
        !recordings.contains_key(id) ==> menu_request(
            protocol::PacketView::WatchRecording { id },
            recordings,
        ) == (MenuRequestView::Refuse { reason: "No recording found."@ }),
{
}

/// The list has one packet for each recording of the user, with its number and
/// the time when the session started, no recording twice, and after them the
/// empty packet.
pub proof fn law_list_of_recordings(
    recordings: Recordings,
    packets: Seq<protocol::PacketView>,
    id: i32,
)
    requires
        is_listing(recordings, packets),
    ensures
        packets.len() > 0,
        packets.last() == protocol::PacketView::Empty,
        forall|i: int|
            0 <= i < packets.len() - 1 ==> {
                &&& #[trigger] packets[i] is RecordingName
                &&& recordings.contains_key(packets[i]->RecordingName_id)
                &&& packets[i]->RecordingName_name == recordings[packets[i]->RecordingName_id].1
            },
        recordings.contains_key(id) ==> packets.contains(
            protocol::PacketView::RecordingName { id, name: recordings[id].1 },
        ),
        forall|i: int, j: int|
            0 <= i < j < packets.len() - 1 ==> (#[trigger] packets[i])->RecordingName_id != (
            #[trigger] packets[j])->RecordingName_id,
{
    let ids = choose|ids: Seq<i32>| #[trigger]
        numbers_of(recordings, ids) && packets == listing(recordings, ids);
    assert forall|i: int| 0 <= i < packets.len() - 1 implies {
        &&& #[trigger] packets[i] is RecordingName
        &&& recordings.contains_key(packets[i]->RecordingName_id)
        &&& packets[i]->RecordingName_name == recordings[packets[i]->RecordingName_id].1
    } by {
        assert(ids.to_set().contains(ids[i]));
    }
    if recordings.contains_key(id) {
        assert(ids.to_set().contains(id));
        let i = ids.index_of(id);
        assert(packets[i] == (protocol::PacketView::RecordingName { id, name: recordings[id].1 }));
    }
    assert forall|i: int, j: int| 0 <= i < j < packets.len() - 1 implies (
    #[trigger] packets[i])->RecordingName_id != (#[trigger] packets[j])->RecordingName_id by {
        assert(ids[i] != ids[j]);
    }
}

/// Whoever asks to join gets exactly one answer, over the own channel: a
/// failure that names the code if there is no such session, a failure if a user
/// of the session has the name already, and else a success.
pub proof fn law_asking_is_answered(
    session: Option<session::SessionView>,
    code: u32,
    username: Seq<char>,
    channel: u64,
)
    ensures
        ({
            let plan = join_plan(session, code, username, channel);
            &&& plan.len() >= 1
            &&& plan[0] is Reply
            &&& plan[0]->Reply_channel == channel
            &&& forall|k: int| 1 <= k < plan.len() ==> !(#[trigger] plan[k] is Reply)
            &&& match session {
                None => plan.len() == 1 && plan[0]->result == protocol::ResultView::Failure(
                    "No session found with code "@ + text::decimal(code as nat),
                ),
                Some(found) => if names::holds(found.connections, username) {
                    plan.len() == 1 && plan[0]->result == protocol::ResultView::Failure(
                        "You are already connected to this session from elsewhere."@,
                    )
                } else {
                    plan[0]->result == protocol::ResultView::Success("Joining"@)
                },
            }
            &&& is_put_on_hold(session, username) <==> plan[0]->result is Success
        }),
{
}

/// Whoever waits has the host asked once, with the name and the code that were
/// given, and waits under that name with the own channel.
pub proof fn law_host_is_asked(
    session: session::SessionView,
    code: u32,
    username: Seq<char>,
    channel: u64,
    h: int,
)
    requires
        !names::holds(session.connections, username),
        0 <= h < session.connections.len(),
        session.connections[h].1.user_type == UserType::Host,
        forall|j: int|
            0 <= j < h ==> (#[trigger] session.connections[j]).1.user_type != UserType::Host,
    ensures
        ({
            let plan = join_plan(Some(session), code, username, channel);
            &&& plan.len() == 3
            &&& plan[1] == (session::ActionView::Send {
                channel: session.connections[h].1.channel,
                packet: protocol::PacketView::Join { code, username },
            })
            &&& plan[2] == (session::ActionView::AddPending {
                username,
                connection: Connection { channel, user_type: UserType::Participant },
            })
        }),
{
    session::law_channel_of_the_host(session.connections, h);
}

/// The recordings of a user are those that are kept, each with the name of its
/// file and its time.
pub proof fn law_recordings_as_they_are_kept(recordings: Map<i32, Recording>, id: i32)
    ensures
        recordings_view(recordings).contains_key(id) <==> recordings.contains_key(id),
        recordings.contains_key(id) ==> recordings_view(recordings)[id].0
            == recordings[id].filename@ && recordings_view(recordings)[id].1 == recordings[id].time@,
{
}

} // verus!
