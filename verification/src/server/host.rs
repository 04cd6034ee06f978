//! What the server does with the packets of a session's host.

use crate::names;
use crate::protocol;
use crate::protocol::{Packet, ResultPacket};
use crate::server::session;
use crate::server::session::{
    extend, push, sign_message, user_update, Action, Connection, Recording, Session,
};
use crate::user_type::UserType;
use vstd::prelude::*;

verus! {

/// What the server does with one packet.
pub struct Step {
    /// The actions, in order.
    pub actions: Vec<Action>,
    /// Whether the sender has left, so that no further packet is read.
    pub ended: bool,
}

/// Whether a character is one of the sixteen digits of hexadecimal numbers, in
/// lower case.
pub open spec fn is_hex_digit(c: char) -> bool {
    '0' <= c <= '9' || 'a' <= c <= 'f'
}

/// Whether a text has the form of a random identifier: 32 hexadecimal digits in
/// groups of 8, 4, 4, 4 and 12, with hyphens between the groups. The first
/// digit of the third group is the version, 4, and that of the fourth group
/// tells the variant.
pub open spec fn is_random_name(name: Seq<char>) -> bool {
    &&& name.len() == 36
    &&& forall|i: int|
        0 <= i < 36 ==> if i == 8 || i == 13 || i == 18 || i == 23 {
            #[trigger] name[i] == '-'
        } else {
            is_hex_digit(name[i])
        }
    &&& name[14] == '4'
    &&& name[19] == '8' || name[19] == '9' || name[19] == 'a' || name[19] == 'b'
}

/// Calls `uuid::Uuid::new_v4` and takes the text form of the identifier. The
/// digits are random; the text has the form of an identifier of version 4.
#[verifier::external_body]
fn random_name() -> (name: String)
    ensures
        is_random_name(name@),
{
    uuid::Uuid::new_v4().to_string()
}

/// The recording of a session that starts at a time, under a new random name.
pub fn new_recording(time: String) -> (recording: Recording)
    ensures
        recording.time@ == time@,
        is_random_name(recording.filename@),
{
    Recording { filename: random_name(), time }
}

/// The packets that tell a newcomer who is in the session.
pub open spec fn introductions(
    connections: session::Connections,
    newcomer: u64,
) -> Seq<session::ActionView> {
    connections.map_values(
        |user: (Seq<char>, Connection)|
            session::ActionView::Send {
                channel: newcomer,
                packet: session::update_of(user.0, user.1.user_type, true),
            },
    )
}

/// The actions for a user whom the host lets in.
pub open spec fn admission(
    session: session::SessionView,
    username: Seq<char>,
    connection: Connection,
) -> Seq<session::ActionView> {
    seq![
        session::ActionView::TakePending { username },
        session::ActionView::Reply {
            channel: connection.channel,
            result: protocol::ResultView::Success("Joining"@),
        },
        session::ActionView::NotifyJoin { username, allowed: true },
    ] + introductions(session.connections, connection.channel) + seq![
        session::ActionView::Admit { username, connection },
    ] + session::to_all(
        names::put(session.connections, username, connection),
        session::update_of(username, UserType::Participant, false),
    )
}

/// The actions for a user whom the host turns away.
pub open spec fn refusal(session: session::SessionView, username: Seq<char>) -> Seq<
    session::ActionView,
> {
    (match names::lookup(session.pending_join, username) {
        Some(connection) => seq![
            session::ActionView::Reply {
                channel: connection.channel,
                result: protocol::ResultView::Failure("You were denied by the host."@),
            },
            session::ActionView::NotifyJoin { username, allowed: false },
        ],
        None => Seq::empty(),
    }).push(session::ActionView::TakePending { username })
}

/// The actions for a user to whom the host gives control.
pub open spec fn grant(
    session: session::SessionView,
    username: Seq<char>,
    connection: Connection,
) -> Seq<session::ActionView> {
    seq![
        session::ActionView::SetUserType { username, user_type: UserType::Controller },
        session::ActionView::Send {
            channel: connection.channel,
            packet: protocol::PacketView::RequestControl { username },
        },
    ] + session::to_all(
        session.connections,
        session::update_of(username, UserType::Controller, true),
    )
}

/// The actions for a user to whom the host denies control, or from whom it
/// takes it back. The others hear of it only if the user had control.
pub open spec fn denial(
    session: session::SessionView,
    username: Seq<char>,
    connection: Connection,
) -> Seq<session::ActionView> {
    seq![
        session::ActionView::SetUserType { username, user_type: UserType::Participant },
        session::ActionView::Send {
            channel: connection.channel,
            packet: protocol::PacketView::DenyControl { username },
        },
    ] + if connection.user_type == UserType::Controller {
        session::to_all(
            session.connections,
            session::update_of(username, UserType::Participant, true),
        )
    } else {
        Seq::empty()
    }
}

/// What the server does with a packet of the host.
pub open spec fn host_plan(
    session: session::SessionView,
    host_username: Seq<char>,
    packet: protocol::PacketView,
) -> Seq<session::ActionView> {
    match packet {
        protocol::PacketView::Join { username, .. } => match names::lookup(
            session.pending_join,
            username,
        ) {
            Some(connection) => admission(session, username, connection),
            None => Seq::empty(),
        },
        protocol::PacketView::DenyJoin { username } => refusal(session, username),
        protocol::PacketView::Screen { bytes } => seq![session::ActionView::Record { bytes }]
            + session::to_participants(session.connections, packet),
        protocol::PacketView::SessionExit | protocol::PacketView::Empty => session::to_all(
            session.connections,
            protocol::PacketView::SessionEnd,
        ).push(session::ActionView::CloseSession),
        protocol::PacketView::RequestControl { username } => match names::lookup(
            session.connections,
            username,
        ) {
            Some(connection) => grant(session, username, connection),
            None => Seq::empty(),
        },
        protocol::PacketView::DenyControl { username } => match names::lookup(
            session.connections,
            username,
        ) {
            Some(connection) => denial(session, username, connection),
            None => Seq::empty(),
        },
        protocol::PacketView::Chat { message } => session::to_all(
            session.connections,
            protocol::PacketView::Chat {
                message: session::signed_message(host_username, message),
            },
        ),
        _ => Seq::empty(),
    }
}

/// Whether a packet ends the sender's part in the session.
pub open spec fn leaves(packet: protocol::PacketView) -> bool {
    packet is SessionExit || packet is Empty
}

/// Works out what the server does with a packet of the host.
///
/// A packet that could not be received counts as [`Packet::Empty`].
pub fn handle_host(session: &Session, host_username: &String, packet: &Packet) -> (step: Step)
    ensures
        session::views(step.actions@) == host_plan(session@, host_username@, packet@),
        step.ended == leaves(packet@),
{
    let mut actions: Vec<Action> = Vec::new();
    assert(session::views(actions@) =~= Seq::empty());
    let mut ended: bool = false;
    match packet {
        Packet::Join { username, .. } => {
            if let Some(connection) = session.pending_join.get(username) {
                actions = let_in(session, username, connection);
            }
        },
        Packet::DenyJoin { username } => {
            if let Some(connection) = session.pending_join.get(username) {
                push(
                    &mut actions,
                    Action::Reply {
                        channel: connection.channel,
                        result: ResultPacket::Failure("You were denied by the host.".to_owned()),
                    },
                );
                push(
                    &mut actions,
                    Action::NotifyJoin { username: username.clone(), allowed: false },
                );
            }
            push(&mut actions, Action::TakePending { username: username.clone() });
            assert(session::views(actions@) =~= refusal(session@, username@));
        },
        Packet::Screen { .. } => {
            let copy: Packet = packet.clone();
            if let Packet::Screen { bytes } = copy {
                push(&mut actions, Action::Record { bytes });
            }
            extend(&mut actions, session.broadcast_participants(packet));
            assert(session::views(actions@) =~= host_plan(session@, host_username@, packet@));
        },
        Packet::SessionExit | Packet::Empty => {
            extend(&mut actions, session.broadcast_all(&Packet::SessionEnd));
            push(&mut actions, Action::CloseSession);
            ended = true;
            assert(session::views(actions@) =~= host_plan(session@, host_username@, packet@));
        },
        Packet::RequestControl { username } => {
            if let Some(connection) = session.connections.get(username) {
                push(
                    &mut actions,
                    Action::SetUserType {
                        username: username.clone(),
                        user_type: UserType::Controller,
                    },
                );
                push(
                    &mut actions,
                    Action::Send {
                        channel: connection.channel,
                        packet: Packet::RequestControl { username: username.clone() },
                    },
                );
                let update: Packet = user_update(username, UserType::Controller, true);
                extend(&mut actions, session.broadcast_all(&update));
                assert(session::views(actions@) =~= grant(session@, username@, connection));
            }
        },
        Packet::DenyControl { username } => {
            if let Some(connection) = session.connections.get(username) {
                push(
                    &mut actions,
                    Action::SetUserType {
                        username: username.clone(),
                        user_type: UserType::Participant,
                    },
                );
                push(
                    &mut actions,
                    Action::Send {
                        channel: connection.channel,
                        packet: Packet::DenyControl { username: username.clone() },
                    },
                );
                if connection.user_type == UserType::Controller {
                    let update: Packet = user_update(username, UserType::Participant, true);
                    extend(&mut actions, session.broadcast_all(&update));
                }
                assert(session::views(actions@) =~= denial(session@, username@, connection));
            }
        },
        Packet::Chat { message } => {
            let text: String = sign_message(host_username, message);
            actions = session.broadcast_all(&Packet::Chat { message: text });
        },
        _ => {},
    }
    Step { actions, ended }
}

/// The actions for a user whom the host lets in.
fn let_in(session: &Session, username: &String, connection: Connection) -> (actions: Vec<Action>)
    ensures
        session::views(actions@) == admission(session@, username@, connection),
{
    let mut actions: Vec<Action> = Vec::new();
    push(&mut actions, Action::TakePending { username: username.clone() });
    push(
        &mut actions,
        Action::Reply {
            channel: connection.channel,
            result: ResultPacket::Success("Joining".to_owned()),
        },
    );
    push(&mut actions, Action::NotifyJoin { username: username.clone(), allowed: true });
    let ghost opening = session::views(actions@);
    let ghost all = session@.connections;
    let n: usize = session.connections.len();
    assert(introductions(all.take(0), connection.channel) =~= Seq::empty());
    assert(session::views(actions@) =~= opening + introductions(all.take(0), connection.channel));
    for i in 0..n
        invariant
            n == all.len(),
            all == session@.connections,
            session::views(actions@) == opening + introductions(
                all.take(i as int),
                connection.channel,
            ),
    {
        push(
            &mut actions,
            Action::Send {
                channel: connection.channel,
                packet: user_update(
                    session.connections.name(i),
                    session.connections.value(i).user_type,
                    true,
                ),
            },
        );
        assert(session::views(actions@) =~= opening + introductions(
            all.take(i + 1),
            connection.channel,
        ));
    }
    assert(all.take(n as int) =~= all);
    push(&mut actions, Action::Admit { username: username.clone(), connection });
    let update: Packet = user_update(username, UserType::Participant, false);
    extend(&mut actions, announce(session, username, connection, &update));
    assert(session::views(actions@) =~= admission(session@, username@, connection));
    actions
}

/// Sends a packet to all users, and to the one who is about to be let in.
fn announce(session: &Session, username: &String, connection: Connection, packet: &Packet) -> (actions:
    Vec<Action>)
    ensures
        session::views(actions@) == session::to_all(
            names::put(session@.connections, username@, connection),
            packet@,
        ),
{
    let ghost after = names::put(session@.connections, username@, connection);
    let mut actions: Vec<Action> = Vec::new();
    let known: Option<usize> = session.connections.index_of(username);
    let n: usize = session.connections.len();
    assert(session::views(actions@) =~= session::to_all(after.take(0), packet@));
    for i in 0..n
        invariant
            n == session@.connections.len(),
            after == names::put(session@.connections, username@, connection),
            match known {
                Some(k) => k < n && names::holds(session@.connections, username@)
                    && names::position(session@.connections, username@) == k,
                None => !names::holds(session@.connections, username@),
            },
            session::views(actions@) == session::to_all(after.take(i as int), packet@),
    {
        let channel: u64 = match known {
            Some(k) => if k == i {
                connection.channel
            } else {
                session.connections.value(i).channel
            },
            None => session.connections.value(i).channel,
        };
        push(&mut actions, Action::Send { channel, packet: packet.clone() });
        assert(session::views(actions@) =~= session::to_all(after.take(i + 1), packet@));
    }
    if known.is_none() {
        push(&mut actions, Action::Send { channel: connection.channel, packet: packet.clone() });
    }
    assert(session::views(actions@) =~= session::to_all(after, packet@));
    actions
}

/// One action on its own.
proof fn lemma_run_one(session: session::SessionView, action: session::ActionView)
    ensures
        session::run(session, seq![action]) == session::applied(session, action),
{
    reveal_with_fuel(session::run, 2);
    assert(seq![action].drop_last() =~= Seq::empty());
}

/// A change with messages before and after it has the effect of the change.
pub(crate) proof fn lemma_run_change_among_messages(
    session: session::SessionView,
    before: Seq<session::ActionView>,
    change: session::ActionView,
    after: Seq<session::ActionView>,
)
    requires
        forall|i: int| 0 <= i < before.len() ==> session::is_message(#[trigger] before[i]),
        forall|i: int| 0 <= i < after.len() ==> session::is_message(#[trigger] after[i]),
    ensures
        session::run(session, before + seq![change] + after) == session::applied(session, change),
{
    session::law_run_concatenation(session, before + seq![change], after);
    session::law_run_concatenation(session, before, seq![change]);
    session::law_messages_change_nothing(session, before);
    lemma_run_one(session, change);
    session::law_messages_change_nothing(session::applied(session, change), after);
}

/// Letting a waiting user in takes the name off the list of those who wait and
/// makes the waiting connection part of the session; nobody else is touched.
pub proof fn law_admission(
    session: session::SessionView,
    host_username: Seq<char>,
    code: u32,
    username: Seq<char>,
)
    requires
        names::holds(session.pending_join, username),
    ensures
        ({
            let connection = names::lookup(session.pending_join, username)->Some_0;
            let packet = protocol::PacketView::Join { code, username };
            session::run(session, host_plan(session, host_username, packet)) == session::SessionView {
                connections: names::put(session.connections, username, connection),
                pending_join: names::without(session.pending_join, username),
            }
        }),
{
    let connection = names::lookup(session.pending_join, username)->Some_0;
    let plan = admission(session, username, connection);
    let take = session::ActionView::TakePending { username };
    let enter = session::ActionView::Admit { username, connection };
    let talk = seq![
        session::ActionView::Reply {
            channel: connection.channel,
            result: protocol::ResultView::Success("Joining"@),
        },
        session::ActionView::NotifyJoin { username, allowed: true },
    ] + introductions(session.connections, connection.channel);
    let news = session::to_all(
        names::put(session.connections, username, connection),
        session::update_of(username, UserType::Participant, false),
    );
    assert(plan =~= seq![take] + (talk + seq![enter] + news));
    session::law_run_concatenation(session, seq![take], talk + seq![enter] + news);
    lemma_run_one(session, take);
    let taken = session::applied(session, take);
    lemma_run_change_among_messages(taken, talk, enter, news);
}

/// Whoever waits and is let in is told of every user of the session, and every
/// user, the newcomer included, is told of the newcomer.
pub proof fn law_newcomer_is_introduced(
    session: session::SessionView,
    host_username: Seq<char>,
    code: u32,
    username: Seq<char>,
    i: int,
)
    requires
        names::holds(session.pending_join, username),
        0 <= i < session.connections.len(),
    ensures
        ({
            let connection = names::lookup(session.pending_join, username)->Some_0;
            let packet = protocol::PacketView::Join { code, username };
            let plan = host_plan(session, host_username, packet);
            let user = session.connections[i];
            let news = session::update_of(username, UserType::Participant, false);
            &&& plan.contains(
                session::ActionView::Send {
                    channel: connection.channel,
                    packet: session::update_of(user.0, user.1.user_type, true),
                },
            )
            &&& user.0 != username ==> plan.contains(session::to_user(user, news))
            &&& plan.contains(session::to_user((username, connection), news))
        }),
{
    let connection = names::lookup(session.pending_join, username)->Some_0;
    let plan = admission(session, username, connection);
    let n = session.connections.len();
    let user = session.connections[i];
    let after = names::put(session.connections, username, connection);
    assert(plan[3 + i] == session::ActionView::Send {
        channel: connection.channel,
        packet: session::update_of(user.0, user.1.user_type, true),
    });
    let news = session::update_of(username, UserType::Participant, false);
    let tail = session::to_all(after, news);
    assert forall|k: int| 0 <= k < tail.len() implies plan[4 + n + k] == #[trigger] tail[k] by {}
    let p = if names::holds(session.connections, username) {
        names::position(session.connections, username)
    } else {
        n as int
    };
    assert(after[p] == (username, connection));
    assert(tail[p] == session::to_user((username, connection), news));
    assert(plan[4 + n + p] == tail[p]);
    if user.0 != username {
        assert(after[i] == user);
        assert(tail[i] == session::to_user(user, news));
        assert(plan[4 + n + i] == tail[i]);
    }
}

/// Turning a waiting user away takes the name off the list of those who wait,
/// and changes nothing else.
pub proof fn law_refusal(
    session: session::SessionView,
    host_username: Seq<char>,
    username: Seq<char>,
)
    ensures
        ({
            let packet = protocol::PacketView::DenyJoin { username };
            session::run(session, host_plan(session, host_username, packet)) == session::SessionView {
                pending_join: names::without(session.pending_join, username),
                ..session
            }
        }),
{
    let plan = refusal(session, username);
    let take = session::ActionView::TakePending { username };
    assert(plan =~= plan.drop_last() + seq![take] + Seq::empty());
    lemma_run_change_among_messages(session, plan.drop_last(), take, Seq::empty());
}

/// Giving control to a user of the session makes that user the controller, and
/// denying or taking it back makes the user a participant; the channel stays,
/// and nobody else is touched.
pub proof fn law_control(
    session: session::SessionView,
    host_username: Seq<char>,
    username: Seq<char>,
)
    requires
        names::holds(session.connections, username),
    ensures
        ({
            let connection = names::lookup(session.connections, username)->Some_0;
            let given = protocol::PacketView::RequestControl { username };
            let denied = protocol::PacketView::DenyControl { username };
            &&& session::run(session, host_plan(session, host_username, given))
                == session::SessionView {
                connections: names::put(
                    session.connections,
                    username,
                    Connection { user_type: UserType::Controller, ..connection },
                ),
                ..session
            }
            &&& session::run(session, host_plan(session, host_username, denied))
                == session::SessionView {
                connections: names::put(
                    session.connections,
                    username,
                    Connection { user_type: UserType::Participant, ..connection },
                ),
                ..session
            }
        }),
{
    let connection = names::lookup(session.connections, username)->Some_0;
    let give = session::ActionView::SetUserType { username, user_type: UserType::Controller };
    let deny = session::ActionView::SetUserType { username, user_type: UserType::Participant };
    let granted = grant(session, username, connection);
    assert(granted =~= Seq::empty() + seq![give] + granted.skip(1));
    lemma_run_change_among_messages(session, Seq::empty(), give, granted.skip(1));
    let denied = denial(session, username, connection);
    assert(denied =~= Seq::empty() + seq![deny] + denied.skip(1));
    lemma_run_change_among_messages(session, Seq::empty(), deny, denied.skip(1));
}

/// The users to whom a packet of the host does something.
pub open spec fn is_about(packet: protocol::PacketView, username: Seq<char>) -> bool {
    match packet {
        protocol::PacketView::Join { username: name, .. } => name == username,
        protocol::PacketView::RequestControl { username: name } => name == username,
        protocol::PacketView::DenyControl { username: name } => name == username,
        _ => false,
    }
}

/// A packet of the host leaves every user alone whom it does not name; the
/// host, above all, stays the host.
pub proof fn law_others_are_left_alone(
    session: session::SessionView,
    host_username: Seq<char>,
    packet: protocol::PacketView,
    username: Seq<char>,
)
    requires
        session::well_formed(session),
        !is_about(packet, username),
    ensures
        names::lookup(
            session::run(session, host_plan(session, host_username, packet)).connections,
            username,
        ) == names::lookup(session.connections, username),
{
    let plan = host_plan(session, host_username, packet);
    match packet {
        protocol::PacketView::Join { code, username: name } => {
            if names::holds(session.pending_join, name) {
                let connection = names::lookup(session.pending_join, name)->Some_0;
                law_admission(session, host_username, code, name);
                names::law_put(session.connections, name, connection, username);
            } else {
                assert(session::run(session, plan) == session);
            }
        },
        protocol::PacketView::DenyJoin { username: name } => {
            law_refusal(session, host_username, name);
        },
        protocol::PacketView::RequestControl { username: name } => {
            lemma_control_leaves_others(session, host_username, name, username);
        },
        protocol::PacketView::DenyControl { username: name } => {
            lemma_control_leaves_others(session, host_username, name, username);
        },
        _ => {
            assert forall|i: int| 0 <= i < plan.len() implies session::is_message(
                #[trigger] plan[i],
            ) by {}
            session::law_messages_change_nothing(session, plan);
        },
    }
}

/// Giving or denying control leaves the others alone.
proof fn lemma_control_leaves_others(
    session: session::SessionView,
    host_username: Seq<char>,
    name: Seq<char>,
    other: Seq<char>,
)
    requires
        session::well_formed(session),
        name != other,
    ensures
        ({
            let given = protocol::PacketView::RequestControl { username: name };
            let denied = protocol::PacketView::DenyControl { username: name };
            &&& names::lookup(
                session::run(session, host_plan(session, host_username, given)).connections,
                other,
            ) == names::lookup(session.connections, other)
            &&& names::lookup(
                session::run(session, host_plan(session, host_username, denied)).connections,
                other,
            ) == names::lookup(session.connections, other)
        }),
{
    if names::holds(session.connections, name) {
        let connection = names::lookup(session.connections, name)->Some_0;
        law_control(session, host_username, name);
        names::law_put(
            session.connections,
            name,
            Connection { user_type: UserType::Controller, ..connection },
            other,
        );
        names::law_put(
            session.connections,
            name,
            Connection { user_type: UserType::Participant, ..connection },
            other,
        );
    } else {
        let given = protocol::PacketView::RequestControl { username: name };
        let denied = protocol::PacketView::DenyControl { username: name };
        assert(host_plan(session, host_username, given).len() == 0);
        assert(host_plan(session, host_username, denied).len() == 0);
    }
}

/// Whether an action sends a packet to a user who receives the host's screen.
pub open spec fn goes_to_watcher(
    connections: session::Connections,
    action: session::ActionView,
    packet: protocol::PacketView,
) -> bool {
    exists|i: int|
        {
            &&& 0 <= i < connections.len()
            &&& session::watches(#[trigger] connections[i])
            &&& action == session::to_user(connections[i], packet)
        }
}

/// The host's screen goes to every user who is a participant or the
/// controller, and is sent to nobody else.
pub proof fn law_screen_goes_to_watchers(
    session: session::SessionView,
    host_username: Seq<char>,
    bytes: Seq<u8>,
)
    ensures
        ({
            let packet = protocol::PacketView::Screen { bytes };
            let plan = host_plan(session, host_username, packet);
            &&& forall|i: int|
                0 <= i < session.connections.len() && session::watches(
                    #[trigger] session.connections[i],
                ) ==> plan.contains(session::to_user(session.connections[i], packet))
            &&& forall|k: int|
                1 <= k < plan.len() ==> goes_to_watcher(
                    session.connections,
                    #[trigger] plan[k],
                    packet,
                )
        }),
{
    let packet = protocol::PacketView::Screen { bytes };
    let plan = host_plan(session, host_username, packet);
    let all = session.connections;
    let chosen = |user: (Seq<char>, Connection)| session::watches(user);
    let watchers = all.filter(chosen);
    assert forall|i: int|
        0 <= i < all.len() && session::watches(#[trigger] all[i]) implies plan.contains(
        session::to_user(all[i], packet),
    ) by {
        all.lemma_filter_contains(chosen, i);
        let k = watchers.index_of(all[i]);
        assert(plan[1 + k] == session::to_user(watchers[k], packet));
    }
    assert forall|k: int| 1 <= k < plan.len() implies goes_to_watcher(all, #[trigger] plan[k], packet) by {
        assert(plan[k] == session::to_user(watchers[k - 1], packet));
        all.lemma_filter_pred(chosen, k - 1);
        assert(watchers.contains(watchers[k - 1]));
        all.lemma_filter_contains_rev(chosen, watchers[k - 1]);
        let i = all.index_of(watchers[k - 1]);
        assert(session::watches(all[i]));
    }
}

/// Every piece of the host's screen is recorded exactly once, before anything
/// else is done with it and with all of its bytes, whoever is in the session;
/// the rest of what is done is to send it on.
pub proof fn law_screen_is_recorded(
    session: session::SessionView,
    host_username: Seq<char>,
    bytes: Seq<u8>,
)
    ensures
        ({
            let plan = host_plan(session, host_username, protocol::PacketView::Screen { bytes });
            &&& plan.len() >= 1
            &&& plan[0] == (session::ActionView::Record { bytes })
            &&& forall|k: int|
                1 <= k < plan.len() ==> (#[trigger] plan[k]) is Send && plan[k]->Send_packet
                    == (protocol::PacketView::Screen { bytes })
            &&& plan.filter(|action: session::ActionView| action is Record)
                == seq![session::ActionView::Record { bytes }]
        }),
{
    let packet = protocol::PacketView::Screen { bytes };
    let plan = host_plan(session, host_username, packet);
    assert forall|k: int| 1 <= k < plan.len() implies (#[trigger] plan[k]) is Send
        && plan[k]->Send_packet == packet by {}
    lemma_one_record(plan, bytes);
}

/// A list that starts with a piece of video and goes on with packets has that
/// piece alone to record.
proof fn lemma_one_record(plan: Seq<session::ActionView>, bytes: Seq<u8>)
    requires
        plan.len() >= 1,
        plan[0] == (session::ActionView::Record { bytes }),
        forall|k: int| 1 <= k < plan.len() ==> (#[trigger] plan[k]) is Send,
    ensures
        plan.filter(|action: session::ActionView| action is Record) == seq![
            session::ActionView::Record { bytes },
        ],
    decreases plan.len(),
{
    reveal(Seq::filter);
    let chosen = |action: session::ActionView| action is Record;
    if plan.len() == 1 {
        assert(plan.drop_last() =~= Seq::empty());
        assert(plan.drop_last().filter(chosen) =~= Seq::empty());
        assert(plan.filter(chosen) =~= seq![session::ActionView::Record { bytes }]);
    } else {
        lemma_one_record(plan.drop_last(), bytes);
        assert(plan[plan.len() - 1] is Send);
    }
}

/// Only the host's screen is recorded, and only the host who leaves, or is lost,
/// ends the session.
pub proof fn law_what_records_and_what_ends(
    session: session::SessionView,
    host_username: Seq<char>,
    packet: protocol::PacketView,
    k: int,
)
    requires
        0 <= k < host_plan(session, host_username, packet).len(),
    ensures
        host_plan(session, host_username, packet)[k] is Record ==> packet is Screen,
        host_plan(session, host_username, packet)[k] is CloseSession ==> packet is SessionExit
            || packet is Empty,
        leaves(packet) <==> packet is SessionExit || packet is Empty,
{
}

/// When the host leaves, or is lost, every user is told once that the session
/// is over, and then it is forgotten.
pub proof fn law_end_of_a_session(
    session: session::SessionView,
    host_username: Seq<char>,
    packet: protocol::PacketView,
)
    requires
        packet is SessionExit || packet is Empty,
    ensures
        ({
            let plan = host_plan(session, host_username, packet);
            let n = session.connections.len() as int;
            &&& plan.len() == n + 1
            &&& forall|i: int|
                0 <= i < n ==> #[trigger] plan[i] == (session::ActionView::Send {
                    channel: session.connections[i].1.channel,
                    packet: protocol::PacketView::SessionEnd,
                })
            &&& plan[n] == session::ActionView::CloseSession
        }),
{
}

/// What the host says is shown to every user once, under the host's name.
pub proof fn law_host_is_heard(
    session: session::SessionView,
    host_username: Seq<char>,
    message: Seq<char>,
)
    ensures
        ({
            let plan = host_plan(session, host_username, protocol::PacketView::Chat { message });
            &&& plan.len() == session.connections.len()
            &&& forall|i: int|
                0 <= i < plan.len() ==> #[trigger] plan[i] == (session::ActionView::Send {
                    channel: session.connections[i].1.channel,
                    packet: protocol::PacketView::Chat { message: host_username + ": "@ + message },
                })
        }),
{
}

/// Whoever waits and is turned away gets one answer, over the channel on which
/// the user waits, that says so, and the user's thread hears of it; if nobody
/// waits under the name, nobody is told anything.
pub proof fn law_refused_user_is_told(
    session: session::SessionView,
    host_username: Seq<char>,
    username: Seq<char>,
)
    ensures
        ({
            let plan = host_plan(session, host_username, protocol::PacketView::DenyJoin { username });
            match names::lookup(session.pending_join, username) {
                Some(connection) => {
                    &&& plan.len() == 3
                    &&& plan[0] == (session::ActionView::Reply {
                        channel: connection.channel,
                        result: protocol::ResultView::Failure("You were denied by the host."@),
                    })
                    &&& plan[1] == (session::ActionView::NotifyJoin { username, allowed: false })
                    &&& plan[2] == (session::ActionView::TakePending { username })
                },
                None => plan.len() == 1 && !(plan[0] is Reply) && !(plan[0] is NotifyJoin)
                    && !(plan[0] is Send),
            }
        }),
{
}

/// Whoever waits and is let in is answered first, over the channel on which the
/// user waits; then come the users of the session, one after another, each told
/// of with the user's own role; then the user is part of the session, and then
/// everybody hears of the new participant.
pub proof fn law_admitted_user_is_told(
    session: session::SessionView,
    host_username: Seq<char>,
    code: u32,
    username: Seq<char>,
    connection: Connection,
)
    requires
        names::lookup(session.pending_join, username) == Some(connection),
    ensures
        ({
            let plan = host_plan(
                session,
                host_username,
                protocol::PacketView::Join { code, username },
            );
            let n = session.connections.len() as int;
            let news = protocol::PacketView::UserUpdate {
                user_type: UserType::Participant,
                joined_before: false,
                username,
            };
            &&& plan[0] == (session::ActionView::TakePending { username })
            &&& plan[1] == (session::ActionView::Reply {
                channel: connection.channel,
                result: protocol::ResultView::Success("Joining"@),
            })
            &&& plan[2] == (session::ActionView::NotifyJoin { username, allowed: true })
            &&& forall|i: int|
                0 <= i < n ==> plan[3 + i] == (session::ActionView::Send {
                    channel: connection.channel,
                    packet: protocol::PacketView::UserUpdate {
                        user_type: (#[trigger] session.connections[i]).1.user_type,
                        joined_before: true,
                        username: session.connections[i].0,
                    },
                })
            &&& plan[3 + n] == (session::ActionView::Admit { username, connection })
            &&& forall|i: int|
                0 <= i < n && (#[trigger] session.connections[i]).0 != username ==> plan[4 + n + i]
                    == (session::ActionView::Send {
                    channel: session.connections[i].1.channel,
                    packet: news,
                })
            &&& !names::holds(session.connections, username) ==> {
                &&& plan.len() == 2 * n + 5
                &&& plan[2 * n + 4] == (session::ActionView::Send {
                    channel: connection.channel,
                    packet: news,
                })
            }
            &&& names::holds(session.connections, username) ==> plan.len() == 2 * n + 4
        }),
{
    let plan = admission(session, username, connection);
    let n = session.connections.len() as int;
    let after = names::put(session.connections, username, connection);
    let news = session::update_of(username, UserType::Participant, false);
    let tail = session::to_all(after, news);
    assert forall|i: int| 0 <= i < n implies plan[3 + i] == (session::ActionView::Send {
        channel: connection.channel,
        packet: protocol::PacketView::UserUpdate {
            user_type: (#[trigger] session.connections[i]).1.user_type,
            joined_before: true,
            username: session.connections[i].0,
        },
    }) by {
        assert(plan[3 + i] == introductions(session.connections, connection.channel)[i]);
    }
    assert forall|i: int|
        0 <= i < n && (#[trigger] session.connections[i]).0 != username implies plan[4 + n + i]
        == (session::ActionView::Send { channel: session.connections[i].1.channel, packet: news }) by {
        assert(plan[4 + n + i] == tail[i]);
        assert(after[i] == session.connections[i]);
    }
}

/// Whoever gets control is told so, over the user's own channel, and every user
/// hears once who the controller is.
pub proof fn law_control_is_announced(
    session: session::SessionView,
    host_username: Seq<char>,
    username: Seq<char>,
    connection: Connection,
)
    requires
        names::lookup(session.connections, username) == Some(connection),
    ensures
        ({
            let plan = host_plan(
                session,
                host_username,
                protocol::PacketView::RequestControl { username },
            );
            &&& plan.len() == 2 + session.connections.len()
            &&& plan[0] == (session::ActionView::SetUserType {
                username,
                user_type: UserType::Controller,
            })
            &&& plan[1] == (session::ActionView::Send {
                channel: connection.channel,
                packet: protocol::PacketView::RequestControl { username },
            })
            &&& forall|i: int|
                0 <= i < session.connections.len() ==> plan[2 + i] == (session::ActionView::Send {
                    channel: (#[trigger] session.connections[i]).1.channel,
                    packet: protocol::PacketView::UserUpdate {
                        user_type: UserType::Controller,
                        joined_before: true,
                        username,
                    },
                })
        }),
{
}

/// Whoever does not get control, or loses it, is told so, over the user's own
/// channel; every user hears once that the user is a participant again, if the
/// user had control, and nobody hears anything if not.
pub proof fn law_denial_is_announced(
    session: session::SessionView,
    host_username: Seq<char>,
    username: Seq<char>,
    connection: Connection,
)
    requires
        names::lookup(session.connections, username) == Some(connection),
    ensures
        ({
            let plan = host_plan(
                session,
                host_username,
                protocol::PacketView::DenyControl { username },
            );
            &&& plan.len() == if connection.user_type == UserType::Controller {
                2 + session.connections.len()
            } else {
                2
            }
            &&& plan[0] == (session::ActionView::SetUserType {
                username,
                user_type: UserType::Participant,
            })
            &&& plan[1] == (session::ActionView::Send {
                channel: connection.channel,
                packet: protocol::PacketView::DenyControl { username },
            })
            &&& connection.user_type == UserType::Controller ==> forall|i: int|
                0 <= i < session.connections.len() ==> plan[2 + i] == (session::ActionView::Send {
                    channel: (#[trigger] session.connections[i]).1.channel,
                    packet: protocol::PacketView::UserUpdate {
                        user_type: UserType::Participant,
                        joined_before: true,
                        username,
                    },
                })
        }),
{
}

/// Nothing is done for users who are not there, nor for packets that are not
/// for a host to send.
pub proof fn law_what_a_host_cannot_do(
    session: session::SessionView,
    host_username: Seq<char>,
    packet: protocol::PacketView,
)
    requires
        match packet {
            protocol::PacketView::Join { username, .. } => !names::holds(
                session.pending_join,
                username,
            ),
            protocol::PacketView::RequestControl { username } => !names::holds(
                session.connections,
                username,
            ),
            protocol::PacketView::DenyControl { username } => !names::holds(
                session.connections,
                username,
            ),
            _ => !(packet is DenyJoin || packet is Screen || packet is SessionExit || packet is Empty
                || packet is Chat),
        },
    ensures
        host_plan(session, host_username, packet).len() == 0,
{
}

/// A random name has 36 characters, four of them hyphens, which part groups of
/// hexadecimal digits in lower case; it is of version 4.
pub proof fn law_random_names(name: Seq<char>, i: int)
    requires
        is_random_name(name),
        0 <= i < name.len(),
    ensures
        name.len() == 36,
        name[i] == '-' <==> i == 8 || i == 13 || i == 18 || i == 23,
        name[i] != '-' ==> '0' <= name[i] <= '9' || 'a' <= name[i] <= 'f',
        name[14] == '4',
        name[19] == '8' || name[19] == '9' || name[19] == 'a' || name[19] == 'b',
{
    assert(name[i] == name[i]);
}

/// Every text of that form is one that a recording can be named by.
pub proof fn law_forms_of_random_names(name: Seq<char>)
    requires
        name.len() == 36,
        forall|i: int|
            0 <= i < 36 ==> if i == 8 || i == 13 || i == 18 || i == 23 {
                #[trigger] name[i] == '-'
            } else {
                '0' <= name[i] <= '9' || 'a' <= name[i] <= 'f'
            },
        name[14] == '4',
        name[19] == '8' || name[19] == '9' || name[19] == 'a' || name[19] == 'b',
    ensures
        is_random_name(name),
{
}

} // verus!
