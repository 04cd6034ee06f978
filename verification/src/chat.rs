//! The chat of a session: sending messages and showing the log.

use crate::names;
use crate::names::NameMap;
use crate::protocol;
use crate::protocol::Packet;
use crate::server::session;
use crate::text;
use crate::text::{push_text, split_once};
use crate::user_type;
use crate::user_type::UserType;
use vstd::prelude::*;

verus! {

/// The color of a piece of text.
#[derive(Clone, Copy, PartialEq, Eq, Structural, Debug)]
pub enum TextColor {
    White,
    Red,
    Green,
    Blue,
    LightBlue,
}

/// A piece of text in one color.
#[derive(PartialEq, Eq, Debug)]
pub struct Span {
    pub text: String,
    pub color: TextColor,
}

/// The content of a [`Span`].
#[verifier::ext_equal]
pub struct SpanView {
    pub text: Seq<char>,
    pub color: TextColor,
}

impl View for Span {
    type V = SpanView;

    open spec fn view(&self) -> SpanView {
        SpanView { text: self.text@, color: self.color }
    }
}

/// The contents of a row of spans.
pub open spec fn span_views(spans: Seq<Span>) -> Seq<SpanView> {
    spans.map_values(|s: Span| s@)
}

/// The contents of rows of spans.
pub open spec fn line_views(lines: Seq<Vec<Span>>) -> Seq<Seq<SpanView>> {
    lines.map_values(|l: Vec<Span>| span_views(l@))
}

/// Whether a message starts with a color directive: `#` and another character.
pub open spec fn has_directive(message: Seq<char>) -> bool {
    message.len() > 1 && message[0] == '#'
}

/// The color that a directive asks for.
pub open spec fn directive_color(directive: char) -> TextColor {
    if directive == 'r' {
        TextColor::Red
    } else if directive == 'g' {
        TextColor::Green
    } else if directive == 'b' {
        TextColor::Blue
    } else {
        TextColor::White
    }
}

/// The color of a message.
pub open spec fn message_color(message: Seq<char>) -> TextColor {
    if has_directive(message) {
        directive_color(message[1])
    } else {
        TextColor::White
    }
}

/// The color of the name in `Username: Message`: that of the message, but never
/// white, so that the name stands out from what was said.
pub open spec fn name_color(color: TextColor) -> TextColor {
    if color == TextColor::White {
        TextColor::LightBlue
    } else {
        color
    }
}

/// A message without its color directive.
pub open spec fn message_text(message: Seq<char>) -> Seq<char> {
    if has_directive(message) {
        message.skip(2)
    } else {
        message
    }
}

/// Whether a message can be shown: a directive is two bytes long, so the
/// character behind `#` has to be an ASCII character.
pub open spec fn is_showable(message: Seq<char>) -> bool {
    has_directive(message) ==> (message[1] as u32) < 0x80
}

/// How a message is shown. In `Username: Message` the name has a color of its
/// own and the rest is white.
pub open spec fn message_spans(message: Seq<char>) -> Seq<SpanView> {
    let color = message_color(message);
    match text::split_message(message_text(message)) {
        Some((username, content)) => seq![
            SpanView { text: username + ": "@, color: name_color(color) },
            SpanView { text: content, color: TextColor::White },
        ],
        None => seq![SpanView { text: message_text(message), color }],
    }
}

/// How a message is shown.
pub fn show_message(message: &String) -> (spans: Vec<Span>)
    requires
        is_showable(message@),
    ensures
        span_views(spans@) == message_spans(message@),
{
    let all: &str = message.as_str();
    let n: usize = all.unicode_len();
    let mut color: TextColor = TextColor::White;
    let mut start: usize = 0;
    if n > 1 && all.get_char(0) == '#' {
        let directive: char = all.get_char(1);
        color = if directive == 'r' {
            TextColor::Red
        } else if directive == 'g' {
            TextColor::Green
        } else if directive == 'b' {
            TextColor::Blue
        } else {
            TextColor::White
        };
        start = 2;
    }
    let shown: &str = all.substring_char(start, n);
    assert(shown@ =~= message_text(message@));
    let mut spans: Vec<Span> = Vec::new();
    match split_once(shown) {
        Some((username, content)) => {
            let mut name: String = username.to_owned();
            name.append(": ");
            if color == TextColor::White {
                color = TextColor::LightBlue;
            }
            spans.push(Span { text: name, color });
            spans.push(Span { text: content.to_owned(), color: TextColor::White });
        },
        None => {
            spans.push(Span { text: shown.to_owned(), color });
        },
    }
    assert(span_views(spans@) =~= message_spans(message@));
    spans
}

/// The log as it is shown, from the bottom up: the newest message first.
pub open spec fn log_lines(log: Seq<Seq<char>>) -> Seq<Seq<SpanView>> {
    log.reverse().map_values(|message: Seq<char>| message_spans(message))
}

/// The log as it is shown, from the bottom up: the newest message first.
pub fn chat_ui(log: &Vec<String>) -> (lines: Vec<Vec<Span>>)
    requires
        forall|i: int| 0 <= i < log@.len() ==> is_showable(#[trigger] log@[i]@),
    ensures
        line_views(lines@) == log_lines(text::texts(log@)),
{
    let ghost shown = log_lines(text::texts(log@));
    let mut lines: Vec<Vec<Span>> = Vec::new();
    let mut i: usize = log.len();
    assert(line_views(lines@) =~= shown.take(0));
    while i > 0
        invariant
            i <= log@.len(),
            shown == log_lines(text::texts(log@)),
            forall|i: int| 0 <= i < log@.len() ==> is_showable(#[trigger] log@[i]@),
            line_views(lines@) == shown.take(log@.len() - i),
        decreases i,
    {
        i -= 1;
        let ghost before = line_views(lines@);
        let line: Vec<Span> = show_message(&log[i]);
        lines.push(line);
        assert(line_views(lines@) =~= before.push(span_views(line@)));
        assert(shown[log@.len() - 1 - i] == message_spans(log@[i as int]@));
        assert(line_views(lines@) =~= shown.take(log@.len() - i));
    }
    assert(shown.take(log@.len() as int) =~= shown);
    lines
}

/// Takes the message that was typed, if the button was clicked and there is
/// one; what was typed is then cleared.
pub fn send_message(message: &mut String, clicked: bool) -> (packet: Option<Packet>)
    ensures
        if clicked && old(message)@.len() > 0 {
            &&& packet is Some
            &&& packet->Some_0@ == (protocol::PacketView::Chat { message: old(message)@ })
            &&& final(message)@ == Seq::<char>::empty()
        } else {
            &&& packet is None
            &&& final(message)@ == old(message)@
        },
{
    if clicked && !message.as_str().is_empty() {
        let text: String = message.clone();
        *message = String::new();
        Some(Packet::Chat { message: text })
    } else {
        None
    }
}

/// The line with which the log tells of a user.
pub open spec fn update_line(
    users: Seq<(Seq<char>, UserType)>,
    username: Seq<char>,
    role: UserType,
    quiet: bool,
) -> Option<Seq<char>> {
    if role == UserType::Leaving {
        Some("#r"@ + username + " has disconnected."@)
    } else if names::holds(users, username) {
        Some("#b"@ + username + " is now a "@ + user_type::user_type_name(role) + "."@)
    } else if !quiet {
        Some("#g"@ + username + " has joined the session."@)
    } else {
        None
    }
}

/// The users after an update.
pub open spec fn updated_users(
    users: Seq<(Seq<char>, UserType)>,
    username: Seq<char>,
    role: UserType,
) -> Seq<(Seq<char>, UserType)> {
    if role == UserType::Leaving {
        names::without(users, username)
    } else {
        names::put(users, username, role)
    }
}

/// A log with one more line, if there is one.
pub open spec fn with_line(log: Seq<Seq<char>>, line: Option<Seq<char>>) -> Seq<Seq<char>> {
    match line {
        Some(line) => log.push(line),
        None => log,
    }
}

/// Takes over a user's role and notes it in the log. A newcomer is not noted
/// if `quiet`.
pub fn update_user(
    users: &mut NameMap<UserType>,
    log: &mut Vec<String>,
    username: &String,
    role: UserType,
    quiet: bool,
)
    ensures
        final(users)@ == updated_users(old(users)@, username@, role),
        text::texts(final(log)@) == with_line(
            text::texts(old(log)@),
            update_line(old(users)@, username@, role, quiet),
        ),
{
    if role == UserType::Leaving {
        users.remove(username);
        let mut line: String = "#r".to_owned();
        line.append(username.as_str());
        line.append(" has disconnected.");
        push_text(log, line);
    } else {
        if users.contains(username) {
            let mut line: String = "#b".to_owned();
            line.append(username.as_str());
            line.append(" is now a ");
            line.append(role.to_text().as_str());
            line.append(".");
            push_text(log, line);
        } else if !quiet {
            let mut line: String = "#g".to_owned();
            line.append(username.as_str());
            line.append(" has joined the session.");
            push_text(log, line);
        }
        users.insert(username.clone(), role);
    }
}

/// The lines with which the log tells of users can be shown.
pub proof fn law_update_lines_are_showable(
    users: Seq<(Seq<char>, UserType)>,
    username: Seq<char>,
    role: UserType,
    quiet: bool,
)
    ensures
        update_line(users, username, role, quiet) matches Some(line) ==> {
            &&& is_showable(line)
            &&& message_color(line) == if role == UserType::Leaving {
                TextColor::Red
            } else if names::holds(users, username) {
                TextColor::Blue
            } else {
                TextColor::Green
            }
        },
{
    reveal_strlit("#r");
    reveal_strlit("#g");
    reveal_strlit("#b");
}

/// In every message of the form `Username: Message` the name has another color
/// than what was said.
pub proof fn law_names_stand_out(message: Seq<char>)
    requires
        text::split_message(message_text(message)) is Some,
    ensures
        message_spans(message).len() == 2,
        message_spans(message)[0].color != message_spans(message)[1].color,
{
}

/// A message of a user whose name has neither a colon nor a `#` is shown with
/// the name apart from what was said.
pub proof fn law_message_is_shown_with_its_sender(username: Seq<char>, message: Seq<char>)
    requires
        username.len() > 0,
        forall|i: int|
            0 <= i < username.len() ==> #[trigger] username[i] != ':' && username[i] != '#',
    ensures
        ({
            let said = session::signed_message(username, message);
            &&& is_showable(said)
            &&& message_spans(said) == seq![
                SpanView { text: username + ": "@, color: TextColor::LightBlue },
                SpanView { text: message, color: TextColor::White },
            ]
        }),
{
    reveal_strlit(": ");
    let said = session::signed_message(username, message);
    let i = username.len() as int;
    assert(said[0] == username[0]);
    assert forall|j: int| 0 <= j < i implies !text::separator_at(said, j) by {
        assert(said[j] == username[j]);
    }
    assert(text::is_first_separator(said, i));
    text::lemma_first_separator(said, i);
    assert(said.take(i) =~= username);
    assert(said.skip(i + 2) =~= message);
    assert(message_text(said) =~= said);
}

/// After an update a user has exactly the role that it tells, whatever the role
/// was before, and a user who leaves is no longer listed; everybody else keeps
/// the role.
pub proof fn law_update_takes_the_role(
    users: Seq<(Seq<char>, UserType)>,
    username: Seq<char>,
    role: UserType,
    other: Seq<char>,
)
    requires
        names::distinct(users),
    ensures
        ({
            let after = updated_users(users, username, role);
            &&& names::distinct(after)
            &&& role != UserType::Leaving ==> names::lookup(after, username) == Some(role)
            &&& role == UserType::Leaving ==> names::lookup(after, username) is None
            &&& other != username ==> names::lookup(after, other) == names::lookup(users, other)
        }),
{
    if role == UserType::Leaving {
        names::law_without(users, username, other);
    } else {
        names::law_put(users, username, role, other);
    }
}

/// The log tells of every user who leaves or gets another role, and of every
/// newcomer unless it is to be quiet; the line names the user, behind the
/// directive, and says what happened.
pub proof fn law_log_tells_of_users(
    users: Seq<(Seq<char>, UserType)>,
    username: Seq<char>,
    role: UserType,
    quiet: bool,
)
    ensures
        ({
            let line = update_line(users, username, role, quiet);
            let known = names::holds(users, username);
            &&& line is None <==> (role != UserType::Leaving && !known && quiet)
            &&& line matches Some(line) ==> {
                &&& line.len() > username.len() + 2
                &&& line.subrange(2, 2 + username.len() as int) == username
                &&& line.skip(2 + username.len() as int) == if role == UserType::Leaving {
                    " has disconnected."@
                } else if known {
                    " is now a "@ + user_type::user_type_name(role) + "."@
                } else {
                    " has joined the session."@
                }
            }
        }),
{
    reveal_strlit("#r");
    reveal_strlit("#g");
    reveal_strlit("#b");
    reveal_strlit(" has disconnected.");
    reveal_strlit(" has joined the session.");
    reveal_strlit(" is now a ");
    reveal_strlit(".");
    let n = 2 + username.len() as int;
    if let Some(line) = update_line(users, username, role, quiet) {
        assert(line.subrange(2, n) =~= username);
        if role == UserType::Leaving {
            assert(line.skip(n) =~= " has disconnected."@);
        } else if names::holds(users, username) {
            assert(line.skip(n) =~= " is now a "@ + user_type::user_type_name(role) + "."@);
        } else {
            assert(line.skip(n) =~= " has joined the session."@);
        }
    }
}

/// Nothing of a message is lost when it is shown: its pieces, one after
/// another, are the message without its directive. A directive is a `#` with
/// one character behind it, and gives the first piece its color; what was said
/// is white.
pub proof fn law_message_is_shown_whole(message: Seq<char>)
    ensures
        ({
            let spans = message_spans(message);
            let directive = message.len() > 1 && message[0] == '#';
            let text = message_text(message);
            &&& text == if directive {
                message.skip(2)
            } else {
                message
            }
            &&& spans.len() == 1 || spans.len() == 2
            &&& spans.len() == 1 ==> spans[0].text == text
            &&& spans.len() == 2 ==> spans[0].text + spans[1].text == text && spans[1].color
                == TextColor::White
            &&& spans.len() == 2 <==> exists|i: int|
                0 <= i && i + 1 < text.len() && #[trigger] text[i] == ':' && text[i + 1] == ' '
            &&& directive && message[1] == 'r' ==> spans[0].color == TextColor::Red
            &&& directive && message[1] == 'g' ==> spans[0].color == TextColor::Green
            &&& directive && message[1] == 'b' ==> spans[0].color == TextColor::Blue
            &&& spans.len() == 1 && (!directive || (message[1] != 'r' && message[1] != 'g'
                && message[1] != 'b')) ==> spans[0].color == TextColor::White
        }),
{
    reveal_strlit(": ");
    let text = message_text(message);
    text::law_split_message(text);
    assert(": "@ =~= seq![':', ' ']);
    if let Some((name, content)) = text::split_message(text) {
        assert(name + ": "@ + content =~= text);
        let i = name.len() as int;
        assert(text[i] == ':' && text[i + 1] == ' ');
    }
}

/// The log is shown from the newest message to the oldest, each as it is shown
/// alone.
pub proof fn law_newest_message_first(log: Seq<Seq<char>>, i: int)
    requires
        0 <= i < log.len(),
    ensures
        log_lines(log).len() == log.len(),
        log_lines(log)[log.len() - 1 - i] == message_spans(log[i]),
{
}

/// The name in front of what was said is light blue, unless a directive gives it
/// another color; a message can be shown unless the character behind its `#` is
/// no ASCII character.
pub proof fn law_names_are_light_blue(message: Seq<char>)
    ensures
        message_spans(message).len() == 2 && !(message.len() > 1 && message[0] == '#' && (message[1]
            == 'r' || message[1] == 'g' || message[1] == 'b')) ==> message_spans(message)[0].color
            == TextColor::LightBlue,
        is_showable(message) <==> !(message.len() > 1 && message[0] == '#' && message[1] as u32
            >= 128),
{
}

/// A line is noted behind all others; if there is none, the log stays.
pub proof fn law_log_grows(log: Seq<Seq<char>>, line: Seq<char>)
    ensures
        with_line(log, None) == log,
        with_line(log, Some(line)).len() == log.len() + 1,
        with_line(log, Some(line)).last() == line,
        with_line(log, Some(line)).drop_last() == log,
{
    assert(log.push(line).drop_last() =~= log);
}

} // verus!
