//! The laws the service obeys, stated over the model's transitions and
//! proved once for every store, credential, and token value.

use crate::model::StoreView;
use crate::model::TodoRowView;
use crate::model::TodoView;
use crate::model::add_spec;
use crate::model::delete_spec;
use crate::model::has_user;
use crate::model::keeps_row;
use crate::model::lemma_login_not_found;
use crate::model::list_spec;
use crate::model::login_spec;
use crate::model::register_spec;
use crate::model::remove_rows_spec;
use crate::model::token_wf;
use crate::model::update_spec;
use vstd::prelude::*;

verus! {

/// Registering fresh credentials and then logging in with them returns
/// exactly the token stored at registration, which is non-empty; logging
/// in with the same username but any other password still returns the
/// empty token, and so does any username no row carries.
pub proof fn lemma_register_then_login(
    s: StoreView,
    username: Seq<char>,
    password: Seq<char>,
    token: Seq<char>,
)
    requires
        s.wf(),
        !has_user(s.users, username),
        token_wf(token),
    ensures
        login_spec(register_spec(s, username, password, token).users, username, password)
            == token,
        login_spec(register_spec(s, username, password, token).users, username, password).len()
            != 0,
        forall|other: Seq<char>|
            other != password ==> login_spec(
                register_spec(s, username, password, token).users,
                username,
                other,
            ).len() == 0,
        forall|name2: Seq<char>, pass2: Seq<char>|
            name2 != username && !has_user(s.users, name2) ==> login_spec(
                register_spec(s, username, password, token).users,
                name2,
                pass2,
            ).len() == 0,
{
    let users2 = register_spec(s, username, password, token).users;
    assert(users2.last().username == username && users2.last().password == password);
    assert(login_spec(users2, username, password) == token);
    assert forall|other: Seq<char>| other != password implies login_spec(
        users2,
        username,
        other,
    ).len() == 0 by {
        assert forall|i: int| 0 <= i < users2.len() implies !(#[trigger] users2[i].username
            == username && users2[i].password == other) by {
            if i < s.users.len() {
                assert(users2[i] == s.users[i]);
            }
        }
        lemma_login_not_found(users2, username, other);
    }
    assert forall|name2: Seq<char>, pass2: Seq<char>|
        name2 != username && !has_user(s.users, name2) implies login_spec(
        users2,
        name2,
        pass2,
    ).len() == 0 by {
        assert forall|i: int| 0 <= i < users2.len() implies !(#[trigger] users2[i].username
            == name2 && users2[i].password == pass2) by {
            if i < s.users.len() {
                assert(users2[i] == s.users[i]);
            }
        }
        lemma_login_not_found(users2, name2, pass2);
    }
}

/// After a successful registration, the username is taken: a second
/// registration of it finds `has_user` true and is rejected, and the new
/// table is still well-formed, so no duplicate row survives.
pub proof fn lemma_register_twice(
    s: StoreView,
    username: Seq<char>,
    password: Seq<char>,
    token: Seq<char>,
)
    requires
        s.wf(),
        !has_user(s.users, username),
    ensures
        has_user(register_spec(s, username, password, token).users, username),
        register_spec(s, username, password, token).wf(),
{
    let users2 = register_spec(s, username, password, token).users;
    assert(users2[s.users.len() as int].username == username);
    assert forall|i: int, j: int| 0 <= i < j < users2.len() implies users2[i].username
        != users2[j].username by {
        if j < s.users.len() {
            assert(users2[i] == s.users[i] && users2[j] == s.users[j]);
        } else {
            assert(users2[i] == s.users[i]);
            assert(users2[j].username == username);
        }
    }
}

/// Tenant isolation for add and list: a newly added item appears at the
/// end of its owner's listing with the assigned id and the given title,
/// and the listing under any other token is exactly as before.
pub proof fn lemma_add_isolation(s: StoreView, title: Seq<char>, token: Seq<char>)
    requires
        s.wf(),
    ensures
        list_spec(add_spec(s, title, token).todos, token) == list_spec(s.todos, token).push(
            TodoView { id: s.next_id, title: title },
        ),
        forall|other: Seq<char>|
            other != token ==> list_spec(add_spec(s, title, token).todos, other) == list_spec(
                s.todos,
                other,
            ),
{
    let todos2 = add_spec(s, title, token).todos;
    assert(todos2.drop_last() =~= s.todos);
    assert forall|other: Seq<char>| other != token implies list_spec(todos2, other) == list_spec(
        s.todos,
        other,
    ) by {
        assert(todos2.last().token != other);
    }
}

/// A delete statement that matches no row keeps every row: when each row
/// either carries another id or belongs to another token, the table is
/// unchanged.
pub proof fn lemma_remove_none(todos: Seq<TodoRowView>, id: int, token: Seq<char>)
    requires
        forall|j: int| 0 <= j < todos.len() ==> keeps_row(#[trigger] todos[j], id, token),
    ensures
        remove_rows_spec(todos, id, token) == todos,
    decreases todos.len(),
{
    if todos.len() == 0 {
        assert(remove_rows_spec(todos, id, token) =~= todos);
    } else {
        let prefix = todos.drop_last();
        assert forall|j: int| 0 <= j < prefix.len() implies keeps_row(
            #[trigger] prefix[j],
            id,
            token,
        ) by {
            assert(prefix[j] == todos[j]);
        }
        lemma_remove_none(prefix, id, token);
        assert(keeps_row(todos.last(), id, token));
        assert(remove_rows_spec(todos, id, token) =~= todos);
    }
}

/// Cross-tenant update and delete are no-ops: when the row carrying the
/// target id belongs to a different token, the whole store — that row
/// included — is exactly as before, so the row is still present.
pub proof fn lemma_cross_tenant_noop(
    s: StoreView,
    j0: int,
    title: Seq<char>,
    token: Seq<char>,
)
    requires
        s.wf(),
        0 <= j0 < s.todos.len(),
        s.todos[j0].token != token,
    ensures
        update_spec(s, s.todos[j0].id, title, token) == s,
        delete_spec(s, s.todos[j0].id, token) == s,
{
    let id = s.todos[j0].id;
    assert forall|j: int| 0 <= j < s.todos.len() implies keeps_row(
        #[trigger] s.todos[j],
        id,
        token,
    ) by {
        if j != j0 {
            assert(s.todos[j].id != s.todos[j0].id);
        }
    }
    assert(update_spec(s, id, title, token).todos =~= s.todos);
    assert(update_spec(s, id, title, token) =~= s);
    lemma_remove_none(s.todos, id, token);
    assert(delete_spec(s, id, token) =~= s);
}

/// Round trip on one item: adding shows it at the end of the owner's
/// listing with the assigned id and the given title; updating that id
/// under the owner's token rewrites exactly that entry's title; deleting
/// it under the owner's token leaves the table as it was before the add.
pub proof fn lemma_round_trip(
    s: StoreView,
    title: Seq<char>,
    title2: Seq<char>,
    token: Seq<char>,
)
    requires
        s.wf(),
    ensures
        ({
            let s1 = add_spec(s, title, token);
            let s2 = update_spec(s1, s.next_id, title2, token);
            let s3 = delete_spec(s2, s.next_id, token);
            &&& list_spec(s1.todos, token) == list_spec(s.todos, token).push(
                TodoView { id: s.next_id, title: title },
            )
            &&& list_spec(s2.todos, token) == list_spec(s.todos, token).push(
                TodoView { id: s.next_id, title: title2 },
            )
            &&& s3.todos == s.todos
        }),
{
    lemma_add_isolation(s, title, token);
    let s1 = add_spec(s, title, token);
    let s2 = update_spec(s1, s.next_id, title2, token);
    let row2 = TodoRowView { id: s.next_id, title: title2, token: token };
    assert forall|k: int| 0 <= k < s.todos.len() implies s1.todos[k].id != s.next_id by {
        assert(s1.todos[k] == s.todos[k]);
    }
    assert(s2.todos =~= s.todos.push(row2));
    assert(s.todos.push(row2).drop_last() =~= s.todos);
    assert(list_spec(s2.todos, token) == list_spec(s.todos, token).push(
        TodoView { id: s.next_id, title: title2 },
    ));
    assert forall|j: int| 0 <= j < s.todos.len() implies keeps_row(
        #[trigger] s.todos[j],
        s.next_id,
        token,
    ) by {}
    lemma_remove_none(s.todos, s.next_id, token);
    assert(remove_rows_spec(s2.todos, s.next_id, token) == remove_rows_spec(
        s.todos.push(row2),
        s.next_id,
        token,
    ));
    assert(!keeps_row(s.todos.push(row2).last(), s.next_id, token));
    assert(remove_rows_spec(s.todos.push(row2), s.next_id, token) == s.todos);
}

} // verus!
