//! A shared session and what the server does with it.
//!
//! What a packet asks for is worked out first, as a list of actions. The
//! caller carries them out in order and stops at the first one that fails, so
//! that a session is left as it was at that point.

use crate::names;
use crate::names::NameMap;
use crate::protocol;
use crate::protocol::{Packet, ResultPacket};
use crate::user_type::UserType;
use vstd::prelude::*;

verus! {

/// A recording of a session.
pub struct Recording {
    /// The name of the video file, without extension.
    pub filename: String,
    /// When the session started.
    pub time: String,
}

/// A user's connection: the channel to the client and the user's role.
#[derive(Clone, Copy, PartialEq, Eq, Structural, Debug)]
pub struct Connection {
    /// The number under which the server keeps the channel.
    pub channel: u64,
    /// The role of the user.
    pub user_type: UserType,
}

/// Users and their connections.
pub type Connections = Seq<(Seq<char>, Connection)>;

/// The users of a session and those who wait to be let in.
pub struct Session {
    pub connections: NameMap<Connection>,
    pub pending_join: NameMap<Connection>,
}

/// The content of a [`Session`].
#[verifier::ext_equal]
pub struct SessionView {
    pub connections: Connections,
    pub pending_join: Connections,
}

impl View for Session {
    type V = SessionView;

    open spec fn view(&self) -> SessionView {
        SessionView { connections: self.connections@, pending_join: self.pending_join@ }
    }
}

/// One step of what the server does for a packet.
#[derive(PartialEq, Eq, Debug)]
pub enum Action {
    /// Send a packet.
    Send { channel: u64, packet: Packet },
    /// Send the answer to a request.
    Reply { channel: u64, result: ResultPacket },
    /// Tell the thread of a waiting user what the host decided.
    NotifyJoin { username: String, allowed: bool },
    /// Write a piece of video to the recording.
    Record { bytes: Vec<u8> },
    /// Take a user off the list of those who wait.
    TakePending { username: String },
    /// Put a user on the list of those who wait.
    AddPending { username: String, connection: Connection },
    /// Let a user in.
    Admit { username: String, connection: Connection },
    /// Give a user another role.
    SetUserType { username: String, user_type: UserType },
    /// Take a user out of the session.
    Leave { username: String },
    /// Forget the session.
    CloseSession,
}

/// The content of an [`Action`].
#[verifier::ext_equal]
pub enum ActionView {
    Send { channel: u64, packet: protocol::PacketView },
    Reply { channel: u64, result: protocol::ResultView },
    NotifyJoin { username: Seq<char>, allowed: bool },
    Record { bytes: Seq<u8> },
    TakePending { username: Seq<char> },
    AddPending { username: Seq<char>, connection: Connection },
    Admit { username: Seq<char>, connection: Connection },
    SetUserType { username: Seq<char>, user_type: UserType },
    Leave { username: Seq<char> },
    CloseSession,
}

impl View for Action {
    type V = ActionView;

    open spec fn view(&self) -> ActionView {
        match self {
            Action::Send { channel, packet } => ActionView::Send {
                channel: *channel,
                packet: packet@,
            },
            Action::Reply { channel, result } => ActionView::Reply {
                channel: *channel,
                result: result@,
            },
            Action::NotifyJoin { username, allowed } => ActionView::NotifyJoin {
                username: username@,
                allowed: *allowed,
            },
            Action::Record { bytes } => ActionView::Record { bytes: bytes@ },
            Action::TakePending { username } => ActionView::TakePending { username: username@ },
            Action::AddPending { username, connection } => ActionView::AddPending {
                username: username@,
                connection: *connection,
            },
            Action::Admit { username, connection } => ActionView::Admit {
                username: username@,
                connection: *connection,
            },
            Action::SetUserType { username, user_type } => ActionView::SetUserType {
                username: username@,
                user_type: *user_type,
            },
            Action::Leave { username } => ActionView::Leave { username: username@ },
            Action::CloseSession => ActionView::CloseSession,
        }
    }
}

/// The contents of a list of actions.
pub open spec fn views(actions: Seq<Action>) -> Seq<ActionView> {
    actions.map_values(|a: Action| a@)
}

/// A session after one action.
pub open spec fn applied(session: SessionView, action: ActionView) -> SessionView {
    match action {
        ActionView::TakePending { username } => SessionView {
            pending_join: names::without(session.pending_join, username),
            ..session
        },
        ActionView::AddPending { username, connection } => SessionView {
            pending_join: names::put(session.pending_join, username, connection),
            ..session
        },
        ActionView::Admit { username, connection } => SessionView {
            connections: names::put(session.connections, username, connection),
            ..session
        },
        ActionView::SetUserType { username, user_type } => match names::lookup(
            session.connections,
            username,
        ) {
            Some(connection) => SessionView {
                connections: names::put(
                    session.connections,
                    username,
                    Connection { user_type, ..connection },
                ),
                ..session
            },
            None => session,
        },
        ActionView::Leave { username } => SessionView {
            connections: names::without(session.connections, username),
            ..session
        },
        _ => session,
    }
}

/// A session after a list of actions, carried out in order.
pub open spec fn run(session: SessionView, actions: Seq<ActionView>) -> SessionView
    decreases actions.len(),
{
    if actions.len() == 0 {
        session
    } else {
        applied(run(session, actions.drop_last()), actions.last())
    }
}

/// Whether no name stands twice among the users, or among those who wait.
pub open spec fn well_formed(session: SessionView) -> bool {
    names::distinct(session.connections) && names::distinct(session.pending_join)
}

/// The action that sends a packet to a user.
pub open spec fn to_user(
    user: (Seq<char>, Connection),
    packet: protocol::PacketView,
) -> ActionView {
    ActionView::Send { channel: user.1.channel, packet }
}

/// A packet for every user.
pub open spec fn to_all(connections: Connections, packet: protocol::PacketView) -> Seq<ActionView> {
    connections.map_values(|user: (Seq<char>, Connection)| to_user(user, packet))
}

/// Whether a user receives the host's screen.
pub open spec fn watches(user: (Seq<char>, Connection)) -> bool {
    user.1.user_type == UserType::Participant || user.1.user_type == UserType::Controller
}

/// A packet for every user who receives the host's screen.
pub open spec fn to_participants(
    connections: Connections,
    packet: protocol::PacketView,
) -> Seq<ActionView> {
    connections.filter(|user: (Seq<char>, Connection)| watches(user)).map_values(
        |user: (Seq<char>, Connection)| to_user(user, packet),
    )
}

/// The packet that tells of a user's role.
pub open spec fn update_of(
    username: Seq<char>,
    user_type: UserType,
    joined_before: bool,
) -> protocol::PacketView {
    protocol::PacketView::UserUpdate { user_type, joined_before, username }
}

/// Whether some user has the role of the host.
pub open spec fn has_host(connections: Connections) -> bool {
    exists|i: int|
        0 <= i < connections.len() && (#[trigger] connections[i]).1.user_type == UserType::Host
}

/// Whether `channel` is the channel of the first user with the role of the
/// host.
pub open spec fn is_host_channel(connections: Connections, channel: u64) -> bool {
    exists|i: int|
        {
            &&& 0 <= i < connections.len()
            &&& (#[trigger] connections[i]).1 == (Connection { channel, user_type: UserType::Host })
            &&& forall|j: int|
                0 <= j < i ==> (#[trigger] connections[j]).1.user_type != UserType::Host
        }
}

/// The channel of the first user with the role of the host.
pub open spec fn host_channel(connections: Connections) -> u64 {
    choose|channel: u64| is_host_channel(connections, channel)
}

/// The text of a chat message as it is shown: the sender, then what was said.
pub open spec fn signed_message(username: Seq<char>, message: Seq<char>) -> Seq<char> {
    username + ": "@ + message
}

/// There is one first host.
proof fn lemma_host_channel(connections: Connections, channel: u64)
    requires
        is_host_channel(connections, channel),
    ensures
        host_channel(connections) == channel,
{
    let other = host_channel(connections);
    assert(is_host_channel(connections, other));
    let i = choose|i: int|
        {
            &&& 0 <= i < connections.len()
            &&& (#[trigger] connections[i]).1 == (Connection { channel, user_type: UserType::Host })
            &&& forall|j: int|
                0 <= j < i ==> (#[trigger] connections[j]).1.user_type != UserType::Host
        };
    let k = choose|i: int|
        {
            &&& 0 <= i < connections.len()
            &&& (#[trigger] connections[i]).1 == (Connection {
                channel: other,
                user_type: UserType::Host,
            })
            &&& forall|j: int|
                0 <= j < i ==> (#[trigger] connections[j]).1.user_type != UserType::Host
        };
    if i < k {
        assert(connections[i].1.user_type != UserType::Host);
    } else if k < i {
        assert(connections[k].1.user_type != UserType::Host);
    }
}

/// Appends an action to a list.
pub(crate) fn push(actions: &mut Vec<Action>, action: Action)
    ensures
        views(final(actions)@) == views(old(actions)@).push(action@),
{
    actions.push(action);
    assert(views(actions@) =~= views(old(actions)@).push(action@));
}

/// Appends a list of actions to another.
pub(crate) fn extend(actions: &mut Vec<Action>, more: Vec<Action>)
    ensures
        views(final(actions)@) == views(old(actions)@) + views(more@),
{
    let mut more: Vec<Action> = more;
    let ghost added = views(more@);
    actions.append(&mut more);
    assert(views(actions@) =~= views(old(actions)@) + added);
}

/// The packet that tells of a user's role.
pub(crate) fn user_update(username: &String, user_type: UserType, joined_before: bool) -> (packet:
    Packet)
    ensures
        packet@ == update_of(username@, user_type, joined_before),
{
    Packet::UserUpdate { user_type, joined_before, username: username.clone() }
}

/// The text of a chat message as it is shown.
pub fn sign_message(username: &String, message: &String) -> (text: String)
    ensures
        text@ == signed_message(username@, message@),
{
    let mut text: String = username.clone();
    text.append(": ");
    text.append(message.as_str());
    text
}

impl Session {
    /// A new session with its host.
    pub fn new(host_username: String, host_conn: Connection) -> (session: Session)
        ensures
            session@ == (SessionView {
                connections: seq![(host_username@, host_conn)],
                pending_join: Seq::empty(),
            }),
    {
        let mut connections: NameMap<Connection> = NameMap::new();
        connections.insert(host_username, host_conn);
        assert(connections@ =~= seq![(host_username@, host_conn)]);
        Session { connections, pending_join: NameMap::new() }
    }

    /// Sends a packet to all connections.
    pub fn broadcast_all(&self, packet: &Packet) -> (actions: Vec<Action>)
        ensures
            views(actions@) == to_all(self@.connections, packet@),
    {
        let mut actions: Vec<Action> = Vec::new();
        let n: usize = self.connections.len();
        assert(views(actions@) =~= to_all(self@.connections.take(0), packet@));
        for i in 0..n
            invariant
                n == self@.connections.len(),
                views(actions@) == to_all(self@.connections.take(i as int), packet@),
        {
            push(
                &mut actions,
                Action::Send { channel: self.connections.value(i).channel, packet: packet.clone() },
            );
            assert(views(actions@) =~= to_all(self@.connections.take(i + 1), packet@));
        }
        assert(self@.connections.take(n as int) =~= self@.connections);
        actions
    }

    /// Sends a packet to all users who are not the host.
    pub fn broadcast_participants(&self, packet: &Packet) -> (actions: Vec<Action>)
        ensures
            views(actions@) == to_participants(self@.connections, packet@),
    {
        reveal(Seq::filter);
        let ghost all = self@.connections;
        let mut actions: Vec<Action> = Vec::new();
        let n: usize = self.connections.len();
        assert(views(actions@) =~= to_participants(all.take(0), packet@));
        for i in 0..n
            invariant
                n == all.len(),
                all == self@.connections,
                views(actions@) == to_participants(all.take(i as int), packet@),
        {
            reveal(Seq::filter);
            assert(all.take(i + 1).drop_last() =~= all.take(i as int));
            let connection: Connection = self.connections.value(i);
            if connection.user_type == UserType::Participant || connection.user_type
                == UserType::Controller {
                push(
                    &mut actions,
                    Action::Send { channel: connection.channel, packet: packet.clone() },
                );
            }
            assert(views(actions@) =~= to_participants(all.take(i + 1), packet@));
        }
        assert(all.take(n as int) =~= all);
        actions
    }

    /// Finds the channel of the host.
    pub fn host(&self) -> (channel: u64)
        requires
            has_host(self@.connections),
        ensures
            is_host_channel(self@.connections, channel),
            channel == host_channel(self@.connections),
    {
        let n: usize = self.connections.len();
        let mut i: usize = 0;
        while i < n
            invariant
                i <= n,
                n == self@.connections.len(),
                has_host(self@.connections),
                forall|j: int|
                    0 <= j < i ==> (#[trigger] self@.connections[j]).1.user_type != UserType::Host,
            decreases n - i,
        {
            let connection: Connection = self.connections.value(i);
            if connection.user_type == UserType::Host {
                proof {
                    assert(self@.connections[i as int].1 == (Connection {
                        channel: connection.channel,
                        user_type: UserType::Host,
                    }));
                    assert(is_host_channel(self@.connections, connection.channel));
                    lemma_host_channel(self@.connections, connection.channel);
                }
                return connection.channel;
            }
            i += 1;
        }
        0
    }

    /// Carries out what an action does to the session itself.
    pub fn apply(&mut self, action: &Action)
        ensures
            final(self)@ == applied(old(self)@, action@),
            well_formed(old(self)@),
            well_formed(final(self)@),
    {
        proof {
            use_type_invariant(&self.connections);
            use_type_invariant(&self.pending_join);
        }
        match action {
            Action::TakePending { username } => {
                self.pending_join.remove(username);
            },
            Action::AddPending { username, connection } => {
                self.pending_join.insert(username.clone(), *connection);
            },
            Action::Admit { username, connection } => {
                self.connections.insert(username.clone(), *connection);
            },
            Action::SetUserType { username, user_type } => {
                match self.connections.get(username) {
                    Some(connection) => {
                        self.connections.insert(
                            username.clone(),
                            Connection { channel: connection.channel, user_type: *user_type },
                        );
                    },
                    None => {},
                }
            },
            Action::Leave { username } => {
                self.connections.remove(username);
            },
            _ => {},
        }
    }
}

/// Actions that follow one another have the effect of the whole list.
pub proof fn law_run_concatenation(session: SessionView, a: Seq<ActionView>, b: Seq<ActionView>)
    ensures
        run(session, a + b) == run(run(session, a), b),
    decreases b.len(),
{
    if b.len() == 0 {
        assert(a + b =~= a);
    } else {
        assert((a + b).drop_last() =~= a + b.drop_last());
        law_run_concatenation(session, a, b.drop_last());
    }
}

/// Whether an action leaves the session as it is.
pub open spec fn is_message(action: ActionView) -> bool {
    match action {
        ActionView::Send { .. } => true,
        ActionView::Reply { .. } => true,
        ActionView::NotifyJoin { .. } => true,
        ActionView::Record { .. } => true,
        ActionView::CloseSession => true,
        _ => false,
    }
}

/// Messages leave the session as it is.
pub proof fn law_messages_change_nothing(session: SessionView, actions: Seq<ActionView>)
    requires
        forall|i: int| 0 <= i < actions.len() ==> is_message(#[trigger] actions[i]),
    ensures
        run(session, actions) == session,
    decreases actions.len(),
{
    if actions.len() > 0 {
        assert forall|i: int| 0 <= i < actions.drop_last().len() implies is_message(
            #[trigger] actions.drop_last()[i],
        ) by {
            assert(actions.drop_last()[i] == actions[i]);
        }
        law_messages_change_nothing(session, actions.drop_last());
        assert(is_message(actions[actions.len() - 1]));
    }
}

/// No action makes a name stand twice.
pub proof fn law_run_keeps_names_distinct(session: SessionView, actions: Seq<ActionView>)
    requires
        well_formed(session),
    ensures
        well_formed(run(session, actions)),
    decreases actions.len(),
{
    if actions.len() > 0 {
        law_run_keeps_names_distinct(session, actions.drop_last());
        let before = run(session, actions.drop_last());
        match actions.last() {
            ActionView::TakePending { username } => {
                names::law_without(before.pending_join, username, username);
            },
            ActionView::AddPending { username, connection } => {
                names::law_put(before.pending_join, username, connection, username);
            },
            ActionView::Admit { username, connection } => {
                names::law_put(before.connections, username, connection, username);
            },
            ActionView::SetUserType { username, user_type } => {
                if let Some(connection) = names::lookup(before.connections, username) {
                    names::law_put(
                        before.connections,
                        username,
                        Connection { user_type, ..connection },
                        username,
                    );
                }
            },
            ActionView::Leave { username } => {
                names::law_without(before.connections, username, username);
            },
            _ => {},
        }
    }
}

/// What is for everybody is sent once to each user of the session, over the
/// user's own channel and unchanged, in the order of the users.
pub proof fn law_everybody_is_told(connections: Connections, packet: protocol::PacketView)
    ensures
        to_all(connections, packet).len() == connections.len(),
        forall|i: int|
            0 <= i < connections.len() ==> #[trigger] to_all(connections, packet)[i]
                == (ActionView::Send { channel: connections[i].1.channel, packet }),
{
}

/// What is for those who watch is sent once to each participant and to the
/// controller, and skips the host and those who leave; the users who come later
/// are told later.
pub proof fn law_watchers_are_told(
    before: Connections,
    user: (Seq<char>, Connection),
    packet: protocol::PacketView,
)
    ensures
        to_participants(Seq::empty(), packet).len() == 0,
        user.1.user_type == UserType::Participant || user.1.user_type == UserType::Controller
            ==> to_participants(before.push(user), packet) == to_participants(before, packet).push(
            ActionView::Send { channel: user.1.channel, packet },
        ),
        user.1.user_type == UserType::Host || user.1.user_type == UserType::Leaving
            ==> to_participants(before.push(user), packet) == to_participants(before, packet),
{
    reveal(Seq::filter);
    assert(before.push(user).drop_last() =~= before);
    if user.1.user_type == UserType::Participant || user.1.user_type == UserType::Controller {
        assert(to_participants(before.push(user), packet) =~= to_participants(before, packet).push(
            ActionView::Send { channel: user.1.channel, packet },
        ));
    }
}

/// The news of a user carry the user's name and role, and whether the user was
/// there before.
pub proof fn law_news_of_a_user(username: Seq<char>, user_type: UserType, joined_before: bool)
    ensures
        ({
            let news = update_of(username, user_type, joined_before);
            &&& news is UserUpdate
            &&& news->UserUpdate_username == username
            &&& news->UserUpdate_user_type == user_type
            &&& news->UserUpdate_joined_before == joined_before
        }),
{
}

/// A chat message is shown as the name of the sender, a colon, a blank, and
/// what was said, to the letter.
pub proof fn law_signed_message(username: Seq<char>, message: Seq<char>)
    ensures
        ({
            let text = signed_message(username, message);
            let n = username.len() as int;
            &&& text.len() == n + 2 + message.len()
            &&& text.take(n) == username
            &&& text[n] == ':'
            &&& text[n + 1] == ' '
            &&& text.skip(n + 2) == message
        }),
{
    reveal_strlit(": ");
    let text = signed_message(username, message);
    let n = username.len() as int;
    assert(text.take(n) =~= username);
    assert(text.skip(n + 2) =~= message);
}

/// The channel of the host is the one of the user with that role; if there are
/// several, of the first.
pub proof fn law_channel_of_the_host(connections: Connections, i: int)
    requires
        0 <= i < connections.len(),
        connections[i].1.user_type == UserType::Host,
        forall|j: int| 0 <= j < i ==> (#[trigger] connections[j]).1.user_type != UserType::Host,
    ensures
        has_host(connections),
        host_channel(connections) == connections[i].1.channel,
{
    let channel = connections[i].1.channel;
    assert(connections[i].1 == (Connection { channel, user_type: UserType::Host }));
    assert(is_host_channel(connections, channel));
    lemma_host_channel(connections, channel);
}

/// Without a user with that role there is no host.
pub proof fn law_sessions_without_a_host(connections: Connections)
    requires
        forall|i: int|
            0 <= i < connections.len() ==> (#[trigger] connections[i]).1.user_type
                != UserType::Host,
    ensures
        !has_host(connections),
        forall|channel: u64| !#[trigger] is_host_channel(connections, channel),
{
}

/// Whoever is put on the list of those who wait waits there with the given
/// connection, whoever is taken off no longer does, and the others wait on; the
/// users of the session stay as they are.
pub proof fn law_waiting_list(
    session: SessionView,
    username: Seq<char>,
    connection: Connection,
    other: Seq<char>,
)
    requires
        well_formed(session),
    ensures
        ({
            let after = applied(session, ActionView::AddPending { username, connection });
            &&& after.connections == session.connections
            &&& names::lookup(after.pending_join, username) == Some(connection)
            &&& other != username ==> names::lookup(after.pending_join, other) == names::lookup(
                session.pending_join,
                other,
            )
        }),
        ({
            let after = applied(session, ActionView::TakePending { username });
            &&& after.connections == session.connections
            &&& names::lookup(after.pending_join, username) is None
            &&& other != username ==> names::lookup(after.pending_join, other) == names::lookup(
                session.pending_join,
                other,
            )
        }),
{
    names::law_put(session.pending_join, username, connection, other);
    names::law_without(session.pending_join, username, other);
}

/// Whoever is let in is a user with the given connection, whoever leaves no
/// longer is one, and who gets a role keeps the channel; the other users, and
/// those who wait, stay as they are.
pub proof fn law_users_of_a_session(
    session: SessionView,
    username: Seq<char>,
    connection: Connection,
    user_type: UserType,
    other: Seq<char>,
)
    requires
        well_formed(session),
    ensures
        ({
            let after = applied(session, ActionView::Admit { username, connection });
            &&& after.pending_join == session.pending_join
            &&& names::lookup(after.connections, username) == Some(connection)
            &&& other != username ==> names::lookup(after.connections, other) == names::lookup(
                session.connections,
                other,
            )
        }),
        ({
            let after = applied(session, ActionView::Leave { username });
            &&& after.pending_join == session.pending_join
            &&& names::lookup(after.connections, username) is None
            &&& other != username ==> names::lookup(after.connections, other) == names::lookup(
                session.connections,
                other,
            )
        }),
        ({
            let before = names::lookup(session.connections, username);
            let after = applied(session, ActionView::SetUserType { username, user_type });
            &&& after.pending_join == session.pending_join
            &&& before is None ==> after == session
            &&& before matches Some(old_connection) ==> names::lookup(after.connections, username)
                == Some(Connection { channel: old_connection.channel, user_type })
            &&& other != username ==> names::lookup(after.connections, other) == names::lookup(
                session.connections,
                other,
            )
        }),
{
    names::law_put(session.connections, username, connection, other);
    names::law_without(session.connections, username, other);
    if let Some(old_connection) = names::lookup(session.connections, username) {
        names::law_put(
            session.connections,
            username,
            Connection { user_type, ..old_connection },
            other,
        );
    }
}

/// Sending, answering and recording leave the session as it is, and so does the
/// end of it.
pub proof fn law_what_leaves_a_session_alone(session: SessionView, action: ActionView)
    requires
        action is Send || action is Reply || action is NotifyJoin || action is Record
            || action is CloseSession,
    ensures
        is_message(action),
        applied(session, action) == session,
{
}

} // verus!
