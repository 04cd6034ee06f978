//! The list of users as it is shown.

use crate::names;
use crate::names::NameMap;
use crate::text;
use crate::text::push_text;
use crate::user_type::UserType;
use vstd::prelude::*;

verus! {

/// Users and their roles.
pub type Users = Seq<(Seq<char>, UserType)>;

/// The names of the users with a role.
pub open spec fn names_with(users: Users, role: UserType) -> Seq<Seq<char>> {
    users.filter(|user: (Seq<char>, UserType)| user.1 == role).map_values(
        |user: (Seq<char>, UserType)| user.0,
    )
}

/// How a name is shown to the user `me`.
pub open spec fn label(name: Seq<char>, me: Seq<char>) -> Seq<char> {
    if name == me {
        name + " (You)"@
    } else {
        name
    }
}

/// How names are shown to the user `me`.
pub open spec fn labels(names: Seq<Seq<char>>, me: Seq<char>) -> Seq<Seq<char>> {
    names.map_values(|name: Seq<char>| label(name, me))
}

/// The first controller.
pub open spec fn first_controller(users: Users) -> Option<Seq<char>> {
    let controllers = names_with(users, UserType::Controller);
    if controllers.len() > 0 {
        Some(controllers[0])
    } else {
        None
    }
}

/// The last of the names whose button was clicked.
pub open spec fn last_clicked(names: Seq<Seq<char>>, clicks: Seq<bool>) -> Option<Seq<char>>
    decreases clicks.len(),
{
    if clicks.len() == 0 {
        None
    } else if clicks.last() {
        Some(names[clicks.len() - 1])
    } else {
        last_clicked(names, clicks.drop_last())
    }
}

/// The names of the users with a role.
pub fn users_with(users: &NameMap<UserType>, role: UserType) -> (found: Vec<String>)
    ensures
        text::texts(found@) == names_with(users@, role),
{
    reveal(Seq::filter);
    let mut found: Vec<String> = Vec::new();
    let n: usize = users.len();
    assert(text::texts(found@) =~= names_with(users@.take(0), role));
    for i in 0..n
        invariant
            n == users@.len(),
            text::texts(found@) == names_with(users@.take(i as int), role),
    {
        reveal(Seq::filter);
        assert(users@.take(i + 1).drop_last() =~= users@.take(i as int));
        if users.value(i) == role {
            push_text(&mut found, users.name(i).clone());
        }
        assert(text::texts(found@) =~= names_with(users@.take(i + 1), role));
    }
    assert(users@.take(n as int) =~= users@);
    found
}

/// How names are shown to the user `me`.
fn label_all(names: &Vec<String>, me: &String) -> (shown: Vec<String>)
    ensures
        text::texts(shown@) == labels(text::texts(names@), me@),
{
    let ghost all = labels(text::texts(names@), me@);
    let mut shown: Vec<String> = Vec::new();
    let n: usize = names.len();
    assert(text::texts(shown@) =~= all.take(0));
    for i in 0..n
        invariant
            n == names@.len(),
            all == labels(text::texts(names@), me@),
            text::texts(shown@) == all.take(i as int),
    {
        let mut name: String = names[i].clone();
        if names[i] == *me {
            name.append(" (You)");
        }
        push_text(&mut shown, name);
        assert(all[i as int] == label(names@[i as int]@, me@));
        assert(text::texts(shown@) =~= all.take(i + 1));
    }
    assert(all.take(n as int) =~= all);
    shown
}

/// The users as they are shown: first the host, then the controller, then the
/// participants. Users who leave are not shown.
pub struct UsersList {
    pub hosts: Vec<String>,
    pub controllers: Vec<String>,
    pub participants: Vec<String>,
}

/// The users as they are shown to the user `username`.
pub fn users_list(users: &NameMap<UserType>, username: &String) -> (list: UsersList)
    ensures
        text::texts(list.hosts@) == labels(names_with(users@, UserType::Host), username@),
        text::texts(list.controllers@) == labels(
            names_with(users@, UserType::Controller),
            username@,
        ),
        text::texts(list.participants@) == labels(
            names_with(users@, UserType::Participant),
            username@,
        ),
{
    UsersList {
        hosts: label_all(&users_with(users, UserType::Host), username),
        controllers: label_all(&users_with(users, UserType::Controller), username),
        participants: label_all(&users_with(users, UserType::Participant), username),
    }
}

/// The controller whose button "Revoke Control" was clicked; there is one
/// button for each controller that is shown.
pub fn revoke_clicked(users: &NameMap<UserType>, clicks: &Vec<bool>) -> (controller: Option<String>)
    requires
        clicks@.len() == names_with(users@, UserType::Controller).len(),
    ensures
        match controller {
            Some(name) => last_clicked(names_with(users@, UserType::Controller), clicks@) == Some(
                name@,
            ),
            None => last_clicked(names_with(users@, UserType::Controller), clicks@) is None,
        },
{
    let controllers: Vec<String> = users_with(users, UserType::Controller);
    let ghost names = names_with(users@, UserType::Controller);
    assert(text::texts(controllers@).len() == controllers@.len());
    let mut i: usize = clicks.len();
    assert(clicks@.take(i as int) =~= clicks@);
    while i > 0
        invariant
            i <= clicks@.len(),
            names == names_with(users@, UserType::Controller),
            clicks@.len() == names.len(),
            controllers@.len() == names.len(),
            text::texts(controllers@) == names,
            last_clicked(names, clicks@) == last_clicked(names, clicks@.take(i as int)),
        decreases i,
    {
        i -= 1;
        assert(clicks@.take(i + 1).drop_last() =~= clicks@.take(i as int));
        if clicks[i] {
            assert(names[i as int] == controllers@[i as int]@);
            return Some(controllers[i].clone());
        }
    }
    None
}

/// The first controller.
pub fn find_controller(users: &NameMap<UserType>) -> (controller: Option<String>)
    ensures
        match controller {
            Some(name) => first_controller(users@) == Some(name@),
            None => first_controller(users@) is None,
        },
{
    let controllers: Vec<String> = users_with(users, UserType::Controller);
    assert(text::texts(controllers@).len() == controllers@.len());
    if controllers.len() > 0 {
        assert(text::texts(controllers@)[0] == controllers@[0]@);
        Some(controllers[0].clone())
    } else {
        None
    }
}

/// A list of names shows a user under the role that the user has, and under no
/// other; nobody is shown twice, and the order is that of the users.
pub proof fn law_users_are_listed_under_their_role(users: Users, role: UserType)
    ensures
        forall|name: Seq<char>| #[trigger]
            names_with(users, role).contains(name) <==> exists|k: int|
                0 <= k < users.len() && #[trigger] users[k] == (name, role),
        names::distinct(users) ==> names_with(users, role).no_duplicates(),
        names_with(users, role).len() <= users.len(),
    decreases users.len(),
{
    reveal(Seq::filter);
    if users.len() > 0 {
        let fewer = users.drop_last();
        let last = users.last();
        law_users_are_listed_under_their_role(fewer, role);
        let before = names_with(fewer, role);
        let all = names_with(users, role);
        if last.1 == role {
            assert(all =~= before.push(last.0));
        } else {
            assert(all =~= before);
        }
        assert forall|name: Seq<char>| #[trigger] all.contains(name) <==> exists|k: int|
            0 <= k < users.len() && #[trigger] users[k] == (name, role) by {
            if all.contains(name) {
                let i = all.index_of(name);
                if i < before.len() {
                    assert(before[i] == name);
                    assert(before.contains(name));
                    let k = choose|k: int|
                        0 <= k < fewer.len() && #[trigger] fewer[k] == (name, role);
                    assert(users[k] == (name, role));
                } else {
                    assert(users[users.len() - 1] == (name, role));
                }
            }
            if exists|k: int| 0 <= k < users.len() && #[trigger] users[k] == (name, role) {
                let k = choose|k: int| 0 <= k < users.len() && #[trigger] users[k] == (name, role);
                if k < fewer.len() {
                    assert(fewer[k] == (name, role));
                    assert(before.contains(name));
                    assert(all[before.index_of(name)] == name);
                } else {
                    assert(all[before.len() as int] == name);
                }
            }
        }
        if names::distinct(users) {
            assert(names::distinct(fewer)) by {
                assert forall|i: int, j: int| 0 <= i < j < fewer.len() implies (
                #[trigger] fewer[i]).0 != (#[trigger] fewer[j]).0 by {
                    assert(users[i].0 != users[j].0);
                }
            }
            if last.1 == role && before.contains(last.0) {
                let k = choose|k: int| 0 <= k < fewer.len() && #[trigger] fewer[k] == (last.0, role);
                assert(users[k].0 != users[users.len() - 1].0);
            }
        }
    }
}

/// Each name in a list is shown as it is, but for one's own, which is marked.
pub proof fn law_own_name_is_marked(names: Seq<Seq<char>>, me: Seq<char>, i: int)
    requires
        0 <= i < names.len(),
    ensures
        labels(names, me).len() == names.len(),
        names[i] != me ==> labels(names, me)[i] == names[i],
        names[i] == me ==> labels(names, me)[i] == me + " (You)"@,
{
}

/// There is a controller to find exactly if some user has that role, and the
/// one that is found has it; no controller stands before it.
pub proof fn law_first_controller(users: Users)
    ensures
        first_controller(users) is Some <==> exists|k: int|
            0 <= k < users.len() && (#[trigger] users[k]).1 == UserType::Controller,
        first_controller(users) matches Some(name) ==> exists|k: int|
            {
                &&& 0 <= k < users.len()
                &&& #[trigger] users[k] == (name, UserType::Controller)
                &&& forall|j: int|
                    0 <= j < k ==> (#[trigger] users[j]).1 != UserType::Controller
            },
    decreases users.len(),
{
    reveal(Seq::filter);
    if users.len() > 0 {
        let fewer = users.drop_last();
        law_first_controller(fewer);
        let n = users.len() - 1;
        if first_controller(fewer) is Some {
            let k = choose|k: int|
                {
                    &&& 0 <= k < fewer.len()
                    &&& #[trigger] fewer[k] == (
                        first_controller(fewer)->Some_0,
                        UserType::Controller,
                    )
                    &&& forall|j: int|
                        0 <= j < k ==> (#[trigger] fewer[j]).1 != UserType::Controller
                };
            assert(users[k] == fewer[k]);
            assert forall|j: int| 0 <= j < k implies (#[trigger] users[j]).1
                != UserType::Controller by {
                assert(fewer[j] == users[j]);
            }
        } else {
            assert forall|j: int| 0 <= j < n implies (#[trigger] users[j]).1
                != UserType::Controller by {
                assert(fewer[j] == users[j]);
            }
            if users[n].1 == UserType::Controller {
                assert(first_controller(users) == Some(users[n].0));
                assert(users[n] == (users[n].0, UserType::Controller));
            }
        }
    }
}

/// The name that counts is that of the last button that was clicked; without a
/// click none counts.
pub proof fn law_clicked_name(names: Seq<Seq<char>>, clicks: Seq<bool>)
    requires
        clicks.len() <= names.len(),
    ensures
        (forall|i: int| 0 <= i < clicks.len() ==> !#[trigger] clicks[i]) ==> last_clicked(
            names,
            clicks,
        ) is None,
        forall|i: int|
            0 <= i < clicks.len() && #[trigger] clicks[i] && (forall|j: int|
                i < j < clicks.len() ==> !#[trigger] clicks[j]) ==> last_clicked(names, clicks)
                == Some(names[i]),
    decreases clicks.len(),
{
    if clicks.len() > 0 && !clicks.last() {
        let fewer = clicks.drop_last();
        law_clicked_name(names, fewer);
        assert forall|i: int| 0 <= i < fewer.len() implies fewer[i] == #[trigger] clicks[i] by {}
        assert forall|i: int|
            0 <= i < clicks.len() && #[trigger] clicks[i] && (forall|j: int|
                i < j < clicks.len() ==> !#[trigger] clicks[j]) implies last_clicked(names, clicks)
            == Some(names[i]) by {
            assert(i < fewer.len());
            assert(fewer[i]);
            assert forall|j: int| i < j < fewer.len() implies !#[trigger] fewer[j] by {
                assert(!clicks[j]);
            }
        }
        if forall|i: int| 0 <= i < clicks.len() ==> !#[trigger] clicks[i] {
            assert forall|i: int| 0 <= i < fewer.len() implies !#[trigger] fewer[i] by {
                assert(!clicks[i]);
            }
        }
    }
}

/// A list of names has the order of the users: a user who comes last is shown
/// last, under the user's role.
pub proof fn law_names_keep_their_order(users: Users, user: (Seq<char>, UserType), role: UserType)
    ensures
        names_with(Seq::empty(), role).len() == 0,
        user.1 == role ==> names_with(users.push(user), role) == names_with(users, role).push(user.0),
        user.1 != role ==> names_with(users.push(user), role) == names_with(users, role),
{
    reveal(Seq::filter);
    assert(users.push(user).drop_last() =~= users);
    if user.1 == role {
        assert(names_with(users.push(user), role) =~= names_with(users, role).push(user.0));
    }
}

} // verus!
