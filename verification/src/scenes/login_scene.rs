//! The scene in which users log in and register.

use crate::protocol;
use crate::protocol::{Packet, ResultPacket};
use crate::scenes::scene;
use crate::scenes::scene::SceneChange;
use crate::server::login;
use crate::server::login::check_name;
use vstd::prelude::*;
use vstd::utf8::*;

verus! {

/// The MD5 digest of bytes in lower case hexadecimal digits, as
/// `md5::compute` and its `LowerHex` write it.
pub uninterp spec fn md5_hex(bytes: Seq<u8>) -> Seq<char>;

/// Calls `md5::compute` and writes the digest with `{:x}`. The text is a
/// function of the bytes; it has 32 characters.
#[verifier::external_body]
fn md5_text(bytes: &[u8]) -> (digest: String)
    ensures
        digest@ == md5_hex(bytes@),
        digest@.len() == 32,
{
    format!("{:x}", md5::compute(bytes))
}

/// The form in which a password is sent.
pub open spec fn password_digest(password: Seq<char>) -> Seq<char> {
    md5_hex(encode_utf8(password))
}

/// What became of the attempt to connect, as far as is known.
#[derive(Clone, Copy, PartialEq, Eq, Structural, Debug)]
pub enum ConnectionNews {
    /// The client is connected.
    Connected,
    /// The client could not connect.
    Failed,
    /// There are no news.
    Pending,
}

/// What the user does in a frame.
#[derive(Clone, Copy, PartialEq, Eq, Structural, Debug)]
pub struct LoginInput {
    /// "Login" was selected.
    pub select_login: bool,
    /// "Register" was selected.
    pub select_register: bool,
    /// The button of the form was clicked.
    pub submit: bool,
}

/// The scene in which users log in and register.
pub struct LoginScene {
    pub login_username: String,
    pub login_password: String,
    pub register_username: String,
    pub register_password: String,
    pub register_confirm_password: String,
    /// Whether the client is connected to the server.
    pub connected_to_server: bool,
    /// Whether the client could not connect.
    pub failed_to_connect: bool,
    /// Why the login failed.
    pub error_message_login: String,
    /// Why the registration failed.
    pub error_message_register: String,
    /// Whether the form for the login is shown, or that for the registration.
    pub is_login: bool,
}

/// The content of a [`LoginScene`].
#[verifier::ext_equal]
pub struct LoginView {
    pub login_username: Seq<char>,
    pub login_password: Seq<char>,
    pub register_username: Seq<char>,
    pub register_password: Seq<char>,
    pub register_confirm_password: Seq<char>,
    pub connected_to_server: bool,
    pub failed_to_connect: bool,
    pub error_message_login: Seq<char>,
    pub error_message_register: Seq<char>,
    pub is_login: bool,
}

impl View for LoginScene {
    type V = LoginView;

    open spec fn view(&self) -> LoginView {
        LoginView {
            login_username: self.login_username@,
            login_password: self.login_password@,
            register_username: self.register_username@,
            register_password: self.register_password@,
            register_confirm_password: self.register_confirm_password@,
            connected_to_server: self.connected_to_server,
            failed_to_connect: self.failed_to_connect,
            error_message_login: self.error_message_login@,
            error_message_register: self.error_message_register@,
            is_login: self.is_login,
        }
    }
}

/// Why a login is not even tried; nothing if it is.
pub open spec fn login_error(scene: LoginView) -> Option<Seq<char>> {
    if encode_utf8(scene.login_username).len() > 20 {
        Some("Username cannot be longer than 20 characters."@)
    } else {
        None
    }
}

/// Why a registration is not even tried; nothing if it is.
pub open spec fn register_error(scene: LoginView) -> Option<Seq<char>> {
    if scene.register_password != scene.register_confirm_password {
        Some("Passwords do not match."@)
    } else if login::name_error(scene.register_username) is Some {
        login::name_error(scene.register_username)
    } else if scene.register_password.len() == 0 {
        Some("Password cannot be empty."@)
    } else {
        None
    }
}

/// The packet of a login, given how the password is sent.
pub open spec fn login_packet(scene: LoginView, digest: Seq<char>) -> Option<protocol::PacketView> {
    if login_error(scene) is None {
        Some(protocol::PacketView::Login { username: scene.login_username, password: digest })
    } else {
        None
    }
}

/// The packet of a registration, given how the password is sent.
pub open spec fn register_packet(scene: LoginView, digest: Seq<char>) -> Option<
    protocol::PacketView,
> {
    if register_error(scene) is None {
        Some(protocol::PacketView::Register { username: scene.register_username, password: digest })
    } else {
        None
    }
}

/// The scene after a login was asked for.
pub open spec fn after_login(scene: LoginView) -> LoginView {
    match login_error(scene) {
        Some(reason) => LoginView { error_message_login: reason, ..scene },
        None => scene,
    }
}

/// The scene after a registration was asked for.
pub open spec fn after_register(scene: LoginView) -> LoginView {
    match register_error(scene) {
        Some(reason) => LoginView { error_message_register: reason, ..scene },
        None => scene,
    }
}

/// The content of a packet that may not be there.
pub open spec fn packet_view(packet: Option<Packet>) -> Option<protocol::PacketView> {
    match packet {
        Some(packet) => Some(packet@),
        None => None,
    }
}

/// The scene after the news of the connection and the choice of a form. While
/// the client is not connected nothing can be clicked.
pub open spec fn after_choice(scene: LoginView, news: ConnectionNews, input: LoginInput) -> LoginView {
    let connected = scene.connected_to_server || news == ConnectionNews::Connected;
    LoginView {
        connected_to_server: connected,
        failed_to_connect: scene.failed_to_connect || (!scene.connected_to_server && news
            == ConnectionNews::Failed),
        is_login: if connected && input.select_register {
            false
        } else if connected && input.select_login {
            true
        } else {
            scene.is_login
        },
        ..scene
    }
}

/// The scene after the answer of the server.
pub open spec fn after_reply(scene: LoginView, result: protocol::ResultView) -> LoginView {
    match result {
        protocol::ResultView::Failure(reason) => if scene.is_login {
            LoginView { error_message_login: reason, ..scene }
        } else {
            LoginView { error_message_register: reason, ..scene }
        },
        protocol::ResultView::Success(_) => scene,
    }
}

/// The scene that comes next after the answer of the server.
pub open spec fn change_after_reply(
    scene: LoginView,
    result: protocol::ResultView,
) -> scene::SceneChangeView {
    match result {
        protocol::ResultView::Failure(_) => scene::SceneChangeView::Stay,
        protocol::ResultView::Success(_) => scene::SceneChangeView::Menu {
            username: if scene.is_login {
                scene.login_username
            } else {
                scene.register_username
            },
            status_message: Seq::empty(),
        },
    }
}

/// The line that tells how the client is connected.
pub open spec fn connection_text(scene: LoginView) -> Seq<char> {
    if scene.failed_to_connect {
        "Failed to connect to server."@
    } else if scene.connected_to_server {
        "Connected to server!"@
    } else {
        "Connecting to server..."@
    }
}

impl LoginScene {
    /// An empty form for the login.
    pub fn new(connected_to_server: bool) -> (scene: LoginScene)
        ensures
            scene@ == (LoginView {
                login_username: Seq::empty(),
                login_password: Seq::empty(),
                register_username: Seq::empty(),
                register_password: Seq::empty(),
                register_confirm_password: Seq::empty(),
                connected_to_server,
                failed_to_connect: false,
                error_message_login: Seq::empty(),
                error_message_register: Seq::empty(),
                is_login: true,
            }),
    {
        LoginScene {
            login_username: String::new(),
            login_password: String::new(),
            register_username: String::new(),
            register_password: String::new(),
            register_confirm_password: String::new(),
            connected_to_server,
            failed_to_connect: false,
            error_message_login: String::new(),
            error_message_register: String::new(),
            is_login: true,
        }
    }

    /// The packet of a login with a password in the form in which it is sent.
    ///
    /// There is none, and the reason is shown, if the name is too long.
    pub fn login_with(&mut self, digest: String) -> (packet: Option<Packet>)
        ensures
            packet_view(packet) == login_packet(old(self)@, digest@),
            final(self)@ == after_login(old(self)@),
    {
        if self.login_username.as_str().as_bytes().len() > 20 {
            self.error_message_login = "Username cannot be longer than 20 characters.".to_owned();
            return None;
        }
        Some(Packet::Login { username: self.login_username.clone(), password: digest })
    }

    /// The packet of a registration with a password in the form in which it is
    /// sent.
    ///
    /// There is none, and the reason is shown, if what was entered is not
    /// acceptable.
    pub fn register_with(&mut self, digest: String) -> (packet: Option<Packet>)
        ensures
            packet_view(packet) == register_packet(old(self)@, digest@),
            final(self)@ == after_register(old(self)@),
    {
        if self.register_password != self.register_confirm_password {
            self.error_message_register = "Passwords do not match.".to_owned();
            return None;
        }
        if let Some(reason) = check_name(&self.register_username) {
            self.error_message_register = reason;
            return None;
        }
        if self.register_password.as_str().is_empty() {
            self.error_message_register = "Password cannot be empty.".to_owned();
            return None;
        }
        Some(Packet::Register { username: self.register_username.clone(), password: digest })
    }

    /// The user asks to be logged in.
    pub fn login(&mut self) -> (packet: Option<Packet>)
        ensures
            packet_view(packet) == login_packet(
                old(self)@,
                password_digest(old(self)@.login_password),
            ),
            final(self)@ == after_login(old(self)@),
    {
        let digest: String = md5_text(self.login_password.as_str().as_bytes());
        self.login_with(digest)
    }

    /// The user asks to be registered.
    pub fn register(&mut self) -> (packet: Option<Packet>)
        ensures
            packet_view(packet) == register_packet(
                old(self)@,
                password_digest(old(self)@.register_password),
            ),
            final(self)@ == after_register(old(self)@),
    {
        let digest: String = md5_text(self.register_password.as_str().as_bytes());
        self.register_with(digest)
    }

    /// Works on a frame; returns the packet to send, whose answer
    /// [`LoginScene::reply`] takes.
    pub fn update(&mut self, news: ConnectionNews, input: LoginInput) -> (packet: Option<Packet>)
        ensures
            ({
                let chosen = after_choice(old(self)@, news, input);
                if chosen.connected_to_server && input.submit {
                    if chosen.is_login {
                        &&& packet_view(packet) == login_packet(
                            chosen,
                            password_digest(chosen.login_password),
                        )
                        &&& final(self)@ == after_login(chosen)
                    } else {
                        &&& packet_view(packet) == register_packet(
                            chosen,
                            password_digest(chosen.register_password),
                        )
                        &&& final(self)@ == after_register(chosen)
                    }
                } else {
                    packet is None && final(self)@ == chosen
                }
            }),
    {
        if !self.connected_to_server {
            match news {
                ConnectionNews::Connected => {
                    self.connected_to_server = true;
                },
                ConnectionNews::Failed => {
                    self.failed_to_connect = true;
                },
                ConnectionNews::Pending => {},
            }
        }
        if !self.connected_to_server {
            assert(self@ =~= after_choice(old(self)@, news, input));
            return None;
        }
        if input.select_login {
            self.is_login = true;
        }
        if input.select_register {
            self.is_login = false;
        }
        assert(self@ =~= after_choice(old(self)@, news, input));
        if !input.submit {
            return None;
        }
        if self.is_login {
            self.login()
        } else {
            self.register()
        }
    }

    /// Takes the server's answer to the form that is shown.
    pub fn reply(&mut self, result: ResultPacket) -> (change: SceneChange)
        ensures
            change@ == change_after_reply(old(self)@, result@),
            final(self)@ == after_reply(old(self)@, result@),
    {
        match result {
            ResultPacket::Failure(reason) => {
                if self.is_login {
                    self.error_message_login = reason;
                } else {
                    self.error_message_register = reason;
                }
                SceneChange::Stay
            },
            ResultPacket::Success(_) => {
                let username: String = if self.is_login {
                    self.login_username.clone()
                } else {
                    self.register_username.clone()
                };
                let change: SceneChange = SceneChange::Menu {
                    username,
                    status_message: String::new(),
                };
                assert(change@ == change_after_reply(old(self)@, result@));
                change
            },
        }
    }

    /// The line that tells how the client is connected.
    pub fn connection_status(&self) -> (text: String)
        ensures
            text@ == connection_text(self@),
    {
        if self.failed_to_connect {
            "Failed to connect to server.".to_owned()
        } else if self.connected_to_server {
            "Connected to server!".to_owned()
        } else {
            "Connecting to server...".to_owned()
        }
    }

    /// The packet with which the client says goodbye, before it closes the
    /// channel.
    pub fn on_exit(&self) -> (packet: Packet)
        ensures
            packet@ == protocol::PacketView::Shutdown,
    {
        Packet::Shutdown
    }
}

/// A registration that the client sends is never refused for its name: the
/// server then tries to make the user.
pub proof fn law_registration_is_not_refused(scene: LoginView, digest: Seq<char>)
    requires
        register_packet(scene, digest) is Some,
    ensures
        login::account_request(register_packet(scene, digest)->Some_0)
            == (login::AccountRequestView::Create {
            username: scene.register_username,
            password: digest,
        }),
{
}

/// A user who registered can log in: the login sends the name and the
/// password in the form in which the registration sent them.
pub proof fn law_login_matches_registration(registering: LoginView, logging_in: LoginView)
    requires
        register_error(registering) is None,
        logging_in.login_username == registering.register_username,
        logging_in.login_password == registering.register_password,
    ensures
        ({
            let sent = register_packet(
                registering,
                password_digest(registering.register_password),
            );
            let again = login_packet(logging_in, password_digest(logging_in.login_password));
            &&& sent is Some
            &&& again is Some
            &&& login::account_request(sent->Some_0) matches login::AccountRequestView::Create {
                username,
                password,
            } && login::account_request(again->Some_0) == (login::AccountRequestView::Find {
                username,
                password,
            })
        }),
{
}

/// A login is sent unless the name has more than 20 bytes, and a registration
/// exactly if the passwords agree and are not empty and the name can be taken;
/// each carries the name that was entered for it, and what stands for the
/// password.
pub proof fn law_forms_are_sent(scene: LoginView, digest: Seq<char>)
    ensures
        login_packet(scene, digest) is Some <==> encode_utf8(scene.login_username).len() <= 20,
        login_packet(scene, digest) matches Some(packet) ==> packet
            == (protocol::PacketView::Login { username: scene.login_username, password: digest }),
        register_packet(scene, digest) is Some <==> {
            &&& scene.register_password == scene.register_confirm_password
            &&& scene.register_password.len() > 0
            &&& 1 <= scene.register_username.len() <= 20
            &&& forall|i: int|
                0 <= i < scene.register_username.len() ==> login::is_name_char(
                    #[trigger] scene.register_username[i],
                )
        },
        register_packet(scene, digest) matches Some(packet) ==> packet
            == (protocol::PacketView::Register {
            username: scene.register_username,
            password: digest,
        }),
{
    login::law_names(scene.register_username);
}

/// What is not sent is explained where it was entered, and nothing else
/// changes; what is sent changes nothing.
pub proof fn law_refused_forms_are_explained(scene: LoginView, digest: Seq<char>)
    ensures
        login_packet(scene, digest) is Some ==> after_login(scene) == scene,
        login_packet(scene, digest) is None ==> after_login(scene) == (LoginView {
            error_message_login: "Username cannot be longer than 20 characters."@,
            ..scene
        }),
        register_packet(scene, digest) is Some ==> after_register(scene) == scene,
        register_packet(scene, digest) is None ==> after_register(scene) == (LoginView {
            error_message_register: after_register(scene).error_message_register,
            ..scene
        }),
        scene.register_password != scene.register_confirm_password ==> after_register(
            scene,
        ).error_message_register == "Passwords do not match."@,
        scene.register_password == scene.register_confirm_password && login::name_error(
            scene.register_username,
        ) is Some ==> after_register(scene).error_message_register == login::name_error(
            scene.register_username,
        )->Some_0,
        scene.register_password == scene.register_confirm_password && login::name_error(
            scene.register_username,
        ) is None && scene.register_password.len() == 0 ==> after_register(
            scene,
        ).error_message_register == "Password cannot be empty."@,
{
}

/// Once connected the client stays connected, and only a failure without a
/// connection counts as one; the form is the one that was selected, and nothing
/// can be selected before the client is connected. What was entered stays.
pub proof fn law_choice_of_a_form(scene: LoginView, news: ConnectionNews, input: LoginInput)
    ensures
        ({
            let after = after_choice(scene, news, input);
            &&& after.connected_to_server <==> (scene.connected_to_server || news
                == ConnectionNews::Connected)
            &&& after.failed_to_connect <==> (scene.failed_to_connect || (news
                == ConnectionNews::Failed && !scene.connected_to_server))
            &&& !after.connected_to_server ==> after.is_login == scene.is_login
            &&& after.connected_to_server && input.select_register ==> !after.is_login
            &&& after.connected_to_server && input.select_login && !input.select_register
                ==> after.is_login
            &&& !input.select_login && !input.select_register ==> after.is_login == scene.is_login
            &&& after.login_username == scene.login_username
            &&& after.login_password == scene.login_password
            &&& after.register_username == scene.register_username
            &&& after.register_password == scene.register_password
            &&& after.register_confirm_password == scene.register_confirm_password
            &&& after.error_message_login == scene.error_message_login
            &&& after.error_message_register == scene.error_message_register
        }),
{
}

/// Whoever is signed in goes to the menu under the name in the form that was
/// sent; a refusal is shown at that form, and the other form stays as it is.
pub proof fn law_answer_to_a_form(scene: LoginView, message: Seq<char>)
    ensures
        change_after_reply(scene, protocol::ResultView::Success(message))
            == (scene::SceneChangeView::Menu {
            username: if scene.is_login {
                scene.login_username
            } else {
                scene.register_username
            },
            status_message: Seq::empty(),
        }),
        change_after_reply(scene, protocol::ResultView::Failure(message)) is Stay,
        after_reply(scene, protocol::ResultView::Success(message)) == scene,
        scene.is_login ==> after_reply(scene, protocol::ResultView::Failure(message)) == (LoginView {
            error_message_login: message,
            ..scene
        }),
        !scene.is_login ==> after_reply(scene, protocol::ResultView::Failure(message))
            == (LoginView { error_message_register: message, ..scene }),
{
}

/// The line about the connection tells of a failure if there was one, and else
/// whether the client is connected.
pub proof fn law_connection_is_told(scene: LoginView)
    ensures
        scene.failed_to_connect ==> connection_text(scene) == "Failed to connect to server."@,
        !scene.failed_to_connect && scene.connected_to_server ==> connection_text(scene)
            == "Connected to server!"@,
        !scene.failed_to_connect && !scene.connected_to_server ==> connection_text(scene)
            == "Connecting to server..."@,
{
}

/// The errors of a form are what keeps it from being sent, and say why.
pub proof fn law_errors_of_forms(scene: LoginView, digest: Seq<char>)
    ensures
        login_error(scene) is None <==> login_packet(scene, digest) is Some,
        login_error(scene) is Some ==> login_error(scene) == Some(
            "Username cannot be longer than 20 characters."@,
        ),
        register_error(scene) is None <==> register_packet(scene, digest) is Some,
{
}

} // verus!
