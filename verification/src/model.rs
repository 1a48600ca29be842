//! The mathematical model of the service: abstract views of the two tables,
//! their well-formedness, and the effect of each operation on them.

use vstd::prelude::*;

verus! {

/// Abstract view of one user row: the username is the primary key, the
/// password is stored as given, and the token is the bearer credential
/// issued at registration.
#[verifier::ext_equal]
pub struct UserView {
    pub username: Seq<char>,
    pub password: Seq<char>,
    pub token: Seq<char>,
}

/// Abstract view of one stored to-do row: its id, title, and the token of
/// the session that created it.
#[verifier::ext_equal]
pub struct TodoRowView {
    pub id: int,
    pub title: Seq<char>,
    pub token: Seq<char>,
}

/// Abstract view of one listed item: what a caller sees of a row it owns.
#[verifier::ext_equal]
pub struct TodoView {
    pub id: int,
    pub title: Seq<char>,
}

/// Abstract view of the whole store: the `user` table, the `todo` table,
/// and the id that the next inserted to-do row will receive.
#[verifier::ext_equal]
pub struct StoreView {
    pub users: Seq<UserView>,
    pub todos: Seq<TodoRowView>,
    pub next_id: int,
}

impl StoreView {
    /// Well-formedness: usernames are pairwise distinct (the primary key),
    /// to-do ids are pairwise distinct and below the auto-increment counter,
    /// and ids start at 1.
    pub open spec fn wf(self) -> bool {
        &&& 1 <= self.next_id
        &&& forall|i: int, j: int|
            0 <= i < j < self.users.len() ==> self.users[i].username != self.users[j].username
        &&& forall|i: int, j: int|
            0 <= i < j < self.todos.len() ==> self.todos[i].id != self.todos[j].id
        &&& forall|i: int| 0 <= i < self.todos.len() ==> 1 <= #[trigger] self.todos[i].id < self.next_id
    }
}

/// Whether some user row carries this username.
pub open spec fn has_user(users: Seq<UserView>, username: Seq<char>) -> bool {
    exists|i: int| 0 <= i < users.len() && #[trigger] users[i].username == username
}

/// Whether some user row matches this exact username and password pair.
pub open spec fn has_credentials(users: Seq<UserView>, username: Seq<char>, password: Seq<char>) -> bool {
    exists|i: int|
        0 <= i < users.len() && #[trigger] users[i].username == username && users[i].password
            == password
}

/// What a login lookup returns: the token of the last row matching both
/// username and password, or the empty string when none matches.
pub open spec fn login_spec(users: Seq<UserView>, username: Seq<char>, password: Seq<char>) -> Seq<
    char,
>
    decreases users.len(),
{
    if users.len() == 0 {
        Seq::empty()
    } else if users.last().username == username && users.last().password == password {
        users.last().token
    } else {
        login_spec(users.drop_last(), username, password)
    }
}

/// What listing returns: the rows whose token matches, in table order,
/// projected to id and title.
pub open spec fn list_spec(todos: Seq<TodoRowView>, token: Seq<char>) -> Seq<TodoView>
    decreases todos.len(),
{
    if todos.len() == 0 {
        Seq::empty()
    } else {
        let rest = list_spec(todos.drop_last(), token);
        if todos.last().token == token {
            rest.push(TodoView { id: todos.last().id, title: todos.last().title })
        } else {
            rest
        }
    }
}

/// How an update statement rewrites one row: the title changes exactly when
/// both the id and the token match.
pub open spec fn updated_row(
    row: TodoRowView,
    id: int,
    title: Seq<char>,
    token: Seq<char>,
) -> TodoRowView {
    if row.id == id && row.token == token {
        TodoRowView { id: row.id, title: title, token: row.token }
    } else {
        row
    }
}

/// Whether a delete statement keeps this row: it is removed exactly when
/// both the id and the token match.
pub open spec fn keeps_row(row: TodoRowView, id: int, token: Seq<char>) -> bool {
    !(row.id == id && row.token == token)
}

/// The `todo` table after a delete statement: the kept rows, in table order.
pub open spec fn remove_rows_spec(todos: Seq<TodoRowView>, id: int, token: Seq<char>) -> Seq<
    TodoRowView,
>
    decreases todos.len(),
{
    if todos.len() == 0 {
        Seq::empty()
    } else {
        let rest = remove_rows_spec(todos.drop_last(), id, token);
        if keeps_row(todos.last(), id, token) {
            rest.push(todos.last())
        } else {
            rest
        }
    }
}

/// The store after a successful registration: one user row appended,
/// everything else unchanged.
pub open spec fn register_spec(
    s: StoreView,
    username: Seq<char>,
    password: Seq<char>,
    token: Seq<char>,
) -> StoreView {
    StoreView {
        users: s.users.push(UserView { username: username, password: password, token: token }),
        todos: s.todos,
        next_id: s.next_id,
    }
}

/// The store after adding a to-do: one row appended with the next id, and
/// the counter advanced.
pub open spec fn add_spec(s: StoreView, title: Seq<char>, token: Seq<char>) -> StoreView {
    StoreView {
        users: s.users,
        todos: s.todos.push(TodoRowView { id: s.next_id, title: title, token: token }),
        next_id: s.next_id + 1,
    }
}

/// The store after an update statement: each row rewritten by `updated_row`.
pub open spec fn update_spec(s: StoreView, id: int, title: Seq<char>, token: Seq<char>) -> StoreView {
    StoreView {
        users: s.users,
        todos: s.todos.map_values(|row: TodoRowView| updated_row(row, id, title, token)),
        next_id: s.next_id,
    }
}

/// The store after a delete statement: the kept rows only.
pub open spec fn delete_spec(s: StoreView, id: int, token: Seq<char>) -> StoreView {
    StoreView {
        users: s.users,
        todos: remove_rows_spec(s.todos, id, token),
        next_id: s.next_id,
    }
}

/// Whether a sequence of to-do rows is table-shaped: ids pairwise distinct
/// and within the range the counter has handed out.
pub open spec fn rows_ok(todos: Seq<TodoRowView>, next_id: int) -> bool {
    &&& forall|i: int, j: int| 0 <= i < j < todos.len() ==> todos[i].id != todos[j].id
    &&& forall|i: int| 0 <= i < todos.len() ==> 1 <= #[trigger] todos[i].id < next_id
}

/// A login lookup returns the stored token of the matching row: with
/// usernames pairwise distinct, any row carrying the given username and
/// password is the row whose token comes back.
pub proof fn lemma_login_found(
    users: Seq<UserView>,
    username: Seq<char>,
    password: Seq<char>,
    i: int,
)
    requires
        forall|a: int, b: int|
            0 <= a < b < users.len() ==> users[a].username != users[b].username,
        0 <= i < users.len(),
        users[i].username == username,
        users[i].password == password,
    ensures
        login_spec(users, username, password) == users[i].token,
    decreases users.len(),
{
    if i == users.len() - 1 {
    } else {
        assert(users[users.len() - 1].username != users[i].username);
        assert(users.drop_last()[i] == users[i]);
        lemma_login_found(users.drop_last(), username, password, i);
    }
}

/// A login lookup with credentials no row carries returns the empty token.
pub proof fn lemma_login_not_found(users: Seq<UserView>, username: Seq<char>, password: Seq<char>)
    requires
        !has_credentials(users, username, password),
    ensures
        login_spec(users, username, password).len() == 0,
    decreases users.len(),
{
    if users.len() == 0 {
    } else {
        assert(!(users.last().username == username && users.last().password == password));
        assert forall|i: int|
            0 <= i < users.drop_last().len() implies !(#[trigger] users.drop_last()[i].username
            == username && users.drop_last()[i].password == password) by {
            assert(users.drop_last()[i] == users[i]);
        }
        lemma_login_not_found(users.drop_last(), username, password);
    }
}

/// A delete statement keeps the table table-shaped: the kept rows all come
/// from the original table, their ids stay pairwise distinct, and none
/// escapes the counter's range.
pub proof fn lemma_remove_rows_ok(todos: Seq<TodoRowView>, id: int, token: Seq<char>, next_id: int)
    requires
        rows_ok(todos, next_id),
    ensures
        rows_ok(remove_rows_spec(todos, id, token), next_id),
        forall|k: int|
            0 <= k < remove_rows_spec(todos, id, token).len() ==> todos.contains(
                #[trigger] remove_rows_spec(todos, id, token)[k],
            ),
    decreases todos.len(),
{
    if todos.len() == 0 {
    } else {
        let prefix = todos.drop_last();
        let rest = remove_rows_spec(prefix, id, token);
        let result = remove_rows_spec(todos, id, token);
        assert forall|a: int, b: int| 0 <= a < b < prefix.len() implies prefix[a].id
            != prefix[b].id by {
            assert(prefix[a] == todos[a] && prefix[b] == todos[b]);
        }
        assert forall|a: int| 0 <= a < prefix.len() implies 1 <= #[trigger] prefix[a].id
            < next_id by {
            assert(prefix[a] == todos[a]);
        }
        lemma_remove_rows_ok(prefix, id, token, next_id);
        assert forall|k: int| 0 <= k < result.len() implies todos.contains(
            #[trigger] result[k],
        ) by {
            if k < rest.len() {
                let j = choose|j: int| 0 <= j < prefix.len() && prefix[j] == rest[k];
                assert(prefix[j] == todos[j]);
                assert(todos[j] == result[k]);
            } else {
                assert(result[k] == todos.last());
                assert(todos[todos.len() - 1] == todos.last());
            }
        }
        assert forall|a: int, b: int| 0 <= a < b < result.len() implies result[a].id
            != result[b].id by {
            if b == rest.len() {
                let j = choose|j: int| 0 <= j < prefix.len() && prefix[j] == rest[a];
                assert(todos[j].id != todos[todos.len() - 1].id);
            }
        }
        assert forall|a: int| 0 <= a < result.len() implies 1 <= #[trigger] result[a].id
            < next_id by {
            let j = choose|j: int| 0 <= j < todos.len() && todos[j] == result[a];
            assert(1 <= todos[j].id < next_id);
        }
    }
}

/// Whether this character may occur in a generated token: an ASCII letter
/// or digit.
pub open spec fn is_token_char(c: char) -> bool {
    (('A' as u32) <= (c as u32) && (c as u32) <= ('Z' as u32)) || (('a' as u32) <= (c as u32) && (
    c as u32) <= ('z' as u32)) || (('0' as u32) <= (c as u32) && (c as u32) <= ('9' as u32))
}

/// Whether this string has the shape of a generated token: exactly 30
/// alphanumeric characters.
pub open spec fn token_wf(t: Seq<char>) -> bool {
    t.len() == 30 && forall|i: int| 0 <= i < t.len() ==> is_token_char(#[trigger] t[i])
}

} // verus!
