//! What the server does with the packets of a session's participants.

use crate::names;
use crate::protocol;
use crate::protocol::Packet;
use crate::server::host;
use crate::server::host::Step;
use crate::server::session;
use crate::server::session::{extend, push, sign_message, user_update, Action, Session};
use crate::user_type::UserType;
use vstd::prelude::*;

verus! {

/// The role of a user of the session.
pub open spec fn role(session: session::SessionView, username: Seq<char>) -> UserType {
    names::lookup(session.connections, username)->Some_0.user_type
}

/// Whether the server can work on a packet: who sends input or asks for
/// control is in the session, and if the packet is for the host, there is one.
pub open spec fn can_handle(
    session: session::SessionView,
    username: Seq<char>,
    packet: protocol::PacketView,
) -> bool {
    match packet {
        protocol::PacketView::Control { .. } => {
            &&& names::holds(session.connections, username)
            &&& role(session, username) == UserType::Controller ==> session::has_host(
                session.connections,
            )
        },
        protocol::PacketView::RequestControl { .. } => {
            &&& names::holds(session.connections, username)
            &&& role(session, username) == UserType::Participant ==> session::has_host(
                session.connections,
            )
        },
        _ => true,
    }
}

/// What the server does with a packet of a participant.
pub open spec fn participant_plan(
    session: session::SessionView,
    username: Seq<char>,
    channel: u64,
    packet: protocol::PacketView,
) -> Seq<session::ActionView> {
    match packet {
        protocol::PacketView::Control { .. } => if role(session, username)
            == UserType::Controller {
            seq![
                session::ActionView::Send {
                    channel: session::host_channel(session.connections),
                    packet,
                },
            ]
        } else {
            Seq::empty()
        },
        protocol::PacketView::RequestControl { .. } => if role(session, username)
            == UserType::Participant {
            seq![
                session::ActionView::Send {
                    channel: session::host_channel(session.connections),
                    packet,
                },
            ]
        } else {
            seq![
                session::ActionView::Send {
                    channel,
                    packet: protocol::PacketView::DenyControl { username },
                },
            ]
        },
        protocol::PacketView::SessionExit | protocol::PacketView::Empty => seq![
            session::ActionView::Leave { username },
        ] + session::to_all(
            names::without(session.connections, username),
            session::update_of(username, UserType::Leaving, false),
        ) + seq![
            session::ActionView::Send { channel, packet: protocol::PacketView::SessionExit },
        ],
        protocol::PacketView::Chat { message } => session::to_all(
            session.connections,
            protocol::PacketView::Chat { message: session::signed_message(username, message) },
        ),
        _ => Seq::empty(),
    }
}

/// Whether a packet ends the sender's part in the session.
pub open spec fn leaves(packet: protocol::PacketView) -> bool {
    packet is SessionExit || packet is Empty || packet is SessionEnd
}

/// Works out what the server does with a packet of a participant who is
/// connected over `channel`.
///
/// A packet that could not be received counts as [`Packet::Empty`].
pub fn handle_participant(session: &Session, username: &String, channel: u64, packet: &Packet) -> (step:
    Step)
    requires
        can_handle(session@, username@, packet@),
    ensures
        session::views(step.actions@) == participant_plan(session@, username@, channel, packet@),
        step.ended == leaves(packet@),
{
    let mut actions: Vec<Action> = Vec::new();
    assert(session::views(actions@) =~= Seq::empty());
    let mut ended: bool = false;
    match packet {
        Packet::Control { .. } => {
            if let Some(connection) = session.connections.get(username) {
                if connection.user_type == UserType::Controller {
                    push(
                        &mut actions,
                        Action::Send { channel: session.host(), packet: packet.clone() },
                    );
                }
            }
        },
        Packet::RequestControl { .. } => {
            if let Some(connection) = session.connections.get(username) {
                if connection.user_type == UserType::Participant {
                    push(
                        &mut actions,
                        Action::Send { channel: session.host(), packet: packet.clone() },
                    );
                } else {
                    push(
                        &mut actions,
                        Action::Send {
                            channel,
                            packet: Packet::DenyControl { username: username.clone() },
                        },
                    );
                }
            }
        },
        Packet::SessionExit | Packet::Empty => {
            push(&mut actions, Action::Leave { username: username.clone() });
            extend(&mut actions, farewell(session, username));
            push(&mut actions, Action::Send { channel, packet: Packet::SessionExit });
            ended = true;
        },
        Packet::Chat { message } => {
            let text: String = sign_message(username, message);
            actions = session.broadcast_all(&Packet::Chat { message: text });
        },
        Packet::SessionEnd => {
            ended = true;
        },
        _ => {},
    }
    assert(session::views(actions@) =~= participant_plan(session@, username@, channel, packet@));
    Step { actions, ended }
}

/// Tells those who stay that a user leaves.
fn farewell(session: &Session, username: &String) -> (actions: Vec<Action>)
    ensures
        session::views(actions@) == session::to_all(
            names::without(session@.connections, username@),
            session::update_of(username@, UserType::Leaving, false),
        ),
{
    let ghost before = session@.connections;
    let ghost after = names::without(before, username@);
    let ghost news = session::update_of(username@, UserType::Leaving, false);
    let mut actions: Vec<Action> = Vec::new();
    let leaver: Option<usize> = session.connections.index_of(username);
    let n: usize = session.connections.len();
    assert(session::views(actions@) =~= session::to_all(after.take(0), news));
    for i in 0..n
        invariant
            before == session@.connections,
            n == before.len(),
            after == names::without(before, username@),
            news == session::update_of(username@, UserType::Leaving, false),
            match leaver {
                Some(k) => k < n && names::holds(before, username@) && names::position(
                    before,
                    username@,
                ) == k,
                None => !names::holds(before, username@),
            },
            session::views(actions@) == session::to_all(
                after.take(
                    if leaver is Some && leaver->Some_0 < i {
                        i - 1
                    } else {
                        i as int
                    },
                ),
                news,
            ),
    {
        let stays: bool = match leaver {
            Some(k) => k != i,
            None => true,
        };
        if stays {
            push(
                &mut actions,
                Action::Send {
                    channel: session.connections.value(i).channel,
                    packet: user_update(username, UserType::Leaving, false),
                },
            );
        }
        assert(session::views(actions@) =~= session::to_all(
            after.take(
                if leaver is Some && leaver->Some_0 < i + 1 {
                    i as int
                } else {
                    i + 1
                },
            ),
            news,
        ));
    }
    assert(session::views(actions@) =~= session::to_all(after, news));
    actions
}

/// A participant who leaves is out of the session; the others stay as they
/// are, are told of it, and the one who leaves gets only the farewell.
pub proof fn law_leaving(
    session: session::SessionView,
    username: Seq<char>,
    channel: u64,
    packet: protocol::PacketView,
    other: Seq<char>,
)
    requires
        session::well_formed(session),
        packet is SessionExit || packet is Empty,
    ensures
        ({
            let plan = participant_plan(session, username, channel, packet);
            let after = session::run(session, plan);
            &&& after == session::SessionView {
                connections: names::without(session.connections, username),
                ..session
            }
            &&& !names::holds(after.connections, username)
            &&& other != username ==> names::lookup(after.connections, other) == names::lookup(
                session.connections,
                other,
            )
            &&& plan.skip(1) == session::to_all(
                after.connections,
                session::update_of(username, UserType::Leaving, false),
            ).push(
                session::ActionView::Send { channel, packet: protocol::PacketView::SessionExit },
            )
        }),
{
    let plan = participant_plan(session, username, channel, packet);
    let leave = session::ActionView::Leave { username };
    assert(plan =~= Seq::empty() + seq![leave] + plan.skip(1));
    assert forall|i: int| 0 <= i < plan.skip(1).len() implies session::is_message(
        #[trigger] plan.skip(1)[i],
    ) by {}
    host::lemma_run_change_among_messages(session, Seq::empty(), leave, plan.skip(1));
    names::law_without(session.connections, username, other);
    assert(plan.skip(1) =~= session::to_all(
        names::without(session.connections, username),
        session::update_of(username, UserType::Leaving, false),
    ).push(session::ActionView::Send { channel, packet: protocol::PacketView::SessionExit }));
}

/// Only leaving changes the session: a participant can change nobody's role
/// and let nobody in.
pub proof fn law_participants_change_nothing_else(
    session: session::SessionView,
    username: Seq<char>,
    channel: u64,
    packet: protocol::PacketView,
)
    requires
        !(packet is SessionExit || packet is Empty),
    ensures
        session::run(session, participant_plan(session, username, channel, packet)) == session,
{
    let plan = participant_plan(session, username, channel, packet);
    assert forall|i: int| 0 <= i < plan.len() implies session::is_message(#[trigger] plan[i]) by {}
    session::law_messages_change_nothing(session, plan);
}

/// Input reaches the host's desktop only from the controller.
pub proof fn law_only_the_controller_controls(
    session: session::SessionView,
    username: Seq<char>,
    channel: u64,
    payload: protocol::ControlPayload,
)
    requires
        role(session, username) != UserType::Controller,
    ensures
        participant_plan(
            session,
            username,
            channel,
            protocol::PacketView::Control { payload },
        ).len() == 0,
{
}

/// While the host is in the session, under the role of the host, every packet
/// of another user of the session can be handled.
pub proof fn law_host_makes_packets_possible(
    session: session::SessionView,
    host_username: Seq<char>,
    username: Seq<char>,
    packet: protocol::PacketView,
)
    requires
        names::holds(session.connections, username),
        names::holds(session.connections, host_username),
        role(session, host_username) == UserType::Host,
    ensures
        can_handle(session, username, packet),
{
    let i = names::position(session.connections, host_username);
    assert(session.connections[i].1.user_type == UserType::Host);
}

/// Input of the controller reaches the host, unchanged and once, and goes
/// nowhere else.
pub proof fn law_controller_reaches_the_host(
    session: session::SessionView,
    username: Seq<char>,
    channel: u64,
    payload: protocol::ControlPayload,
    h: int,
)
    requires
        names::lookup(session.connections, username) matches Some(connection)
            && connection.user_type == UserType::Controller,
        0 <= h < session.connections.len(),
        session.connections[h].1.user_type == UserType::Host,
        forall|j: int|
            0 <= j < h ==> (#[trigger] session.connections[j]).1.user_type != UserType::Host,
    ensures
        participant_plan(session, username, channel, protocol::PacketView::Control { payload })
            == seq![
            session::ActionView::Send {
                channel: session.connections[h].1.channel,
                packet: protocol::PacketView::Control { payload },
            },
        ],
{
    session::law_channel_of_the_host(session.connections, h);
}

/// Input of anybody else goes nowhere.
pub proof fn law_input_without_control(
    session: session::SessionView,
    username: Seq<char>,
    channel: u64,
    payload: protocol::ControlPayload,
)
    requires
        names::lookup(session.connections, username) matches Some(connection)
            && connection.user_type != UserType::Controller,
    ensures
        participant_plan(
            session,
            username,
            channel,
            protocol::PacketView::Control { payload },
        ).len() == 0,
{
}

/// A participant who asks for control has the host asked, once and with the
/// request as it is; anybody else is refused at once, under the own name and
/// over the own channel, and the host hears nothing of it.
pub proof fn law_asking_for_control(
    session: session::SessionView,
    username: Seq<char>,
    channel: u64,
    asked: Seq<char>,
    h: int,
)
    requires
        names::holds(session.connections, username),
        0 <= h < session.connections.len(),
        session.connections[h].1.user_type == UserType::Host,
        forall|j: int|
            0 <= j < h ==> (#[trigger] session.connections[j]).1.user_type != UserType::Host,
    ensures
        ({
            let packet = protocol::PacketView::RequestControl { username: asked };
            let plan = participant_plan(session, username, channel, packet);
            let connection = names::lookup(session.connections, username)->Some_0;
            &&& connection.user_type == UserType::Participant ==> plan == seq![
                session::ActionView::Send { channel: session.connections[h].1.channel, packet },
            ]
            &&& connection.user_type != UserType::Participant ==> plan == seq![
                session::ActionView::Send {
                    channel,
                    packet: protocol::PacketView::DenyControl { username },
                },
            ]
        }),
{
    session::law_channel_of_the_host(session.connections, h);
}

/// What a participant says is shown to every user once, under the participant's
/// name.
pub proof fn law_participant_is_heard(
    session: session::SessionView,
    username: Seq<char>,
    channel: u64,
    message: Seq<char>,
)
    ensures
        ({
            let plan = participant_plan(
                session,
                username,
                channel,
                protocol::PacketView::Chat { message },
            );
            &&& plan.len() == session.connections.len()
            &&& forall|i: int|
                0 <= i < plan.len() ==> #[trigger] plan[i] == (session::ActionView::Send {
                    channel: session.connections[i].1.channel,
                    packet: protocol::PacketView::Chat { message: username + ": "@ + message },
                })
        }),
{
}

/// When a participant leaves, or is lost, everybody who stays hears once who
/// left, and the one who leaves gets a farewell as the last packet.
pub proof fn law_leaving_is_announced(
    session: session::SessionView,
    username: Seq<char>,
    channel: u64,
    packet: protocol::PacketView,
    i: int,
)
    requires
        names::distinct(session.connections),
        packet is SessionExit || packet is Empty,
        0 <= i < session.connections.len(),
    ensures
        ({
            let plan = participant_plan(session, username, channel, packet);
            let n = session.connections.len() as int;
            let user = session.connections[i];
            let p = names::position(session.connections, username);
            let news = protocol::PacketView::UserUpdate {
                user_type: UserType::Leaving,
                joined_before: false,
                username,
            };
            &&& plan.len() == if names::holds(session.connections, username) {
                n + 1
            } else {
                n + 2
            }
            &&& plan[0] == (session::ActionView::Leave { username })
            &&& user.0 != username ==> plan[if names::holds(session.connections, username) && p < i {
                i
            } else {
                i + 1
            }] == (session::ActionView::Send { channel: user.1.channel, packet: news })
            &&& plan.last() == (session::ActionView::Send {
                channel,
                packet: protocol::PacketView::SessionExit,
            })
        }),
{
    let plan = participant_plan(session, username, channel, packet);
    let after = names::without(session.connections, username);
    let news = session::update_of(username, UserType::Leaving, false);
    let told = session::to_all(after, news);
    assert forall|k: int| 0 <= k < told.len() implies plan[1 + k] == #[trigger] told[k] by {}
    if session.connections[i].0 != username {
        if names::holds(session.connections, username) {
            let p = names::position(session.connections, username);
            if p < i {
                assert(after[i - 1] == session.connections[i]);
                assert(plan[1 + (i - 1)] == told[i - 1]);
            } else {
                assert(i != p);
                assert(after[i] == session.connections[i]);
                assert(plan[1 + i] == told[i]);
            }
        } else {
            assert(plan[1 + i] == told[i]);
        }
    }
}

/// No other packet of a participant has anything done; the part in the session
/// ends with leaving, with the loss of the participant, or with the session.
pub proof fn law_what_a_participant_cannot_do(
    session: session::SessionView,
    username: Seq<char>,
    channel: u64,
    packet: protocol::PacketView,
)
    ensures
        !(packet is Control || packet is RequestControl || packet is SessionExit || packet is Empty
            || packet is Chat) ==> participant_plan(session, username, channel, packet).len() == 0,
        leaves(packet) <==> packet is SessionExit || packet is Empty || packet is SessionEnd,
{
}

/// Chatting and leaving are possible for everybody; input and the wish for
/// control ask for a user of the session, and for a host where one has to hear
/// of them.
pub proof fn law_what_can_be_handled(
    session: session::SessionView,
    username: Seq<char>,
    packet: protocol::PacketView,
)
    ensures
        !(packet is Control || packet is RequestControl) ==> can_handle(session, username, packet),
        packet is Control && names::holds(session.connections, username) && names::lookup(
            session.connections,
            username,
        )->Some_0.user_type != UserType::Controller ==> can_handle(session, username, packet),
        packet is RequestControl && names::holds(session.connections, username) && names::lookup(
            session.connections,
            username,
        )->Some_0.user_type != UserType::Participant ==> can_handle(session, username, packet),
{
}

} // verus!
