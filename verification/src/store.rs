//! The store and its operations: registration, login, and the four to-do
//! statements, each verified against the transitions in `model`.

use crate::model::StoreView;
use crate::model::TodoRowView;
use crate::model::TodoView;
use crate::model::UserView;
use crate::model::add_spec;
use crate::model::delete_spec;
use crate::model::has_credentials;
use crate::model::has_user;
use crate::model::lemma_login_found;
use crate::model::lemma_login_not_found;
use crate::model::lemma_remove_rows_ok;
use crate::model::list_spec;
use crate::model::login_spec;
use crate::model::register_spec;
use crate::model::remove_rows_spec;
use crate::model::token_wf;
use crate::model::update_spec;
use crate::model::updated_row;
use crate::token::Token;
use crate::token::get_hash;
use vstd::prelude::*;

verus! {

/// One stored user row.
pub struct User {
    pub username: String,
    pub password: String,
    pub token: String,
}

impl View for User {
    type V = UserView;

    open spec fn view(&self) -> UserView {
        UserView { username: self.username@, password: self.password@, token: self.token@ }
    }
}

/// A registration or login request body: the credentials as given.
pub struct UserAdd {
    pub username: String,
    pub password: String,
}

/// One stored to-do row.
pub struct TodoRow {
    pub id: i32,
    pub title: String,
    pub token: String,
}

impl View for TodoRow {
    type V = TodoRowView;

    open spec fn view(&self) -> TodoRowView {
        TodoRowView { id: self.id as int, title: self.title@, token: self.token@ }
    }
}

/// One listed to-do item: its assigned id and title.
pub struct Todo {
    pub id: i32,
    pub title: String,
}

impl View for Todo {
    type V = TodoView;

    open spec fn view(&self) -> TodoView {
        TodoView { id: self.id as int, title: self.title@ }
    }
}

/// A request body carrying a to-do title.
pub struct TodoAdd {
    pub title: String,
}

/// The abstract view of a listing: each returned item's view, in order.
pub open spec fn items_view(items: Seq<Todo>) -> Seq<TodoView> {
    Seq::new(items.len(), |i: int| items[i]@)
}

/// The abstract view of a sequence of user rows, in order.
pub open spec fn users_view(rows: Seq<User>) -> Seq<UserView> {
    Seq::new(rows.len(), |i: int| rows[i]@)
}

/// The abstract view of a sequence of stored rows, in order.
pub open spec fn rows_view(rows: Seq<TodoRow>) -> Seq<TodoRowView> {
    Seq::new(rows.len(), |i: int| rows[i]@)
}

/// What a store operation can reject: inserting a username that exists.
#[derive(Debug, PartialEq, Eq, Structural)]
pub enum ServiceError {
    DuplicateUser,
}

/// The two tables and the auto-increment counter for to-do ids.
pub struct Store {
    users: Vec<User>,
    todos: Vec<TodoRow>,
    next_id: i32,
}

impl View for Store {
    type V = StoreView;

    closed spec fn view(&self) -> StoreView {
        StoreView {
            users: Seq::new(self.users@.len(), |i: int| self.users@[i]@),
            todos: Seq::new(self.todos@.len(), |i: int| self.todos@[i]@),
            next_id: self.next_id as int,
        }
    }
}

impl Store {
    /// A fresh store: both tables empty, ids starting at 1.
    pub fn new() -> (s: Store)
        ensures
            s@.wf(),
            s@.users.len() == 0,
            s@.todos.len() == 0,
            s@.next_id == 1,
    {
        Store { users: Vec::new(), todos: Vec::new(), next_id: 1 }
    }

    /// Inserts a user row with the given token. Rejects a username that is
    /// already taken, leaving the store unchanged; otherwise appends exactly
    /// one row holding the given credentials and token.
    pub fn register_with_token(&mut self, user: UserAdd, token: String) -> (r: Result<
        (),
        ServiceError,
    >)
        requires
            old(self)@.wf(),
        ensures
            final(self)@.wf(),
            has_user(old(self)@.users, user.username@) ==> (r matches Err(e) && e
                is DuplicateUser && final(self)@ == old(self)@),
            !has_user(old(self)@.users, user.username@) ==> r is Ok && final(self)@ == register_spec(
                old(self)@,
                user.username@,
                user.password@,
                token@,
            ),
    {
        let n: usize = self.users.len();
        let mut i: usize = 0;
        while i < n
            invariant
                i <= n,
                n == self.users.len(),
                self@.wf(),
                self@ == old(self)@,
                forall|k: int| 0 <= k < i ==> self@.users[k].username != user.username@,
            decreases n - i,
        {
            if self.users[i].username == user.username {
                assert(self@.users[i as int].username == user.username@);
                return Err(ServiceError::DuplicateUser);
            }
            i += 1;
        }
        assert(!has_user(self@.users, user.username@));
        self.users.push(
            User { username: user.username, password: user.password, token: token },
        );
        proof {
            assert(self@ =~= register_spec(old(self)@, user.username@, user.password@, token@));
        }
        Ok(())
    }

    /// Registers a new user: generates a fresh 30-character alphanumeric
    /// token and inserts the row holding the given credentials and that
    /// token. Rejects a username that is already taken, leaving the store
    /// unchanged. The generated token is not returned: the caller must log
    /// in afterwards to obtain it.
    pub fn register(&mut self, user: UserAdd) -> (r: Result<(), ServiceError>)
        requires
            old(self)@.wf(),
        ensures
            final(self)@.wf(),
            has_user(old(self)@.users, user.username@) ==> (r matches Err(e) && e
                is DuplicateUser && final(self)@ == old(self)@),
            !has_user(old(self)@.users, user.username@) ==> r is Ok && (exists|t: Seq<char>|
                token_wf(t) && final(self)@ == register_spec(
                    old(self)@,
                    user.username@,
                    user.password@,
                    t,
                )),
    {
        let token = get_hash();
        let ghost t = token@;
        let r = self.register_with_token(user, token);
        proof {
            if !has_user(old(self)@.users, user.username@) {
                assert(token_wf(t) && self@ == register_spec(
                    old(self)@,
                    user.username@,
                    user.password@,
                    t,
                ));
            }
        }
        r
    }

    /// Looks up the row matching the exact username and password and
    /// returns its stored token as the login response. When no row
    /// matches, the response carries the empty token rather than an error.
    pub fn login(&self, user: UserAdd) -> (t: Token)
        requires
            self@.wf(),
        ensures
            t.token@ == login_spec(self@.users, user.username@, user.password@),
            forall|i: int|
                0 <= i < self@.users.len() && #[trigger] self@.users[i].username
                    == user.username@ && self@.users[i].password == user.password@ ==> t.token@
                    == self@.users[i].token,
            !has_credentials(self@.users, user.username@, user.password@) ==> t.token@.len() == 0,
    {
        let mut token = Token::default();
        let n: usize = self.users.len();
        let mut i: usize = 0;
        while i < n
            invariant
                i <= n,
                n == self.users.len(),
                n == self@.users.len(),
                token.token@ == login_spec(
                    self@.users.take(i as int),
                    user.username@,
                    user.password@,
                ),
            decreases n - i,
        {
            let matched = self.users[i].username == user.username && self.users[i].password
                == user.password;
            if matched {
                token = Token { token: self.users[i].token.clone() };
            }
            proof {
                let s = self@.users;
                let k = i as int;
                assert(s.take(k + 1).drop_last() =~= s.take(k));
                assert(s.take(k + 1).last() == s[k]);
            }
            i += 1;
        }
        proof {
            assert(self@.users.take(n as int) =~= self@.users);
            if !has_credentials(self@.users, user.username@, user.password@) {
                lemma_login_not_found(self@.users, user.username@, user.password@);
            }
            assert forall|i: int|
                0 <= i < self@.users.len() && #[trigger] self@.users[i].username
                    == user.username@ && self@.users[i].password
                    == user.password@ implies token.token@ == self@.users[i].token by {
                lemma_login_found(self@.users, user.username@, user.password@, i);
            }
        }
        token
    }

    /// Returns every to-do row whose token equals the caller's, in table
    /// order, projected to id and title.
    pub fn list_all(&self, token: &Token) -> (r: Vec<Todo>)
        ensures
            items_view(r@) == list_spec(self@.todos, token.token@),
    {
        let mut result: Vec<Todo> = Vec::new();
        let n: usize = self.todos.len();
        let mut i: usize = 0;
        while i < n
            invariant
                i <= n,
                n == self.todos.len(),
                n == self@.todos.len(),
                items_view(result@) == list_spec(self@.todos.take(i as int), token.token@),
            decreases n - i,
        {
            let ghost prev = result@;
            if self.todos[i].token == token.token {
                result.push(Todo { id: self.todos[i].id, title: self.todos[i].title.clone() });
                proof {
                    assert(items_view(result@) =~= items_view(prev).push(
                        TodoView { id: self@.todos[i as int].id, title: self@.todos[i as int].title },
                    ));
                }
            }
            proof {
                let s = self@.todos;
                let k = i as int;
                assert(s.take(k + 1).drop_last() =~= s.take(k));
                assert(s.take(k + 1).last() == s[k]);
            }
            i += 1;
        }
        proof {
            assert(self@.todos.take(n as int) =~= self@.todos);
        }
        result
    }

    /// Appends a to-do row with the given title, owned by the caller's
    /// token; the id is assigned from the auto-increment counter.
    pub fn add_todo(&mut self, todo: TodoAdd, token: &Token)
        requires
            old(self)@.wf(),
            old(self)@.next_id < i32::MAX,
        ensures
            final(self)@.wf(),
            final(self)@ == add_spec(old(self)@, todo.title@, token.token@),
    {
        let id: i32 = self.next_id;
        self.todos.push(TodoRow { id: id, title: todo.title, token: token.token.clone() });
        self.next_id = id + 1;
        proof {
            assert(self@ =~= add_spec(old(self)@, todo.title@, token.token@));
        }
    }

    /// Rewrites the title of the row matching both the given id and the
    /// caller's token. When no row matches both — the id is unused, or the
    /// row belongs to another token — every row is left as it was.
    pub fn update_todo(&mut self, todo: TodoAdd, id: i32, token: &Token)
        requires
            old(self)@.wf(),
        ensures
            final(self)@.wf(),
            final(self)@ == update_spec(old(self)@, id as int, todo.title@, token.token@),
    {
        let n: usize = self.todos.len();
        let mut rows: Vec<TodoRow> = Vec::new();
        let mut i: usize = 0;
        while i < n
            invariant
                i <= n,
                n == self.todos.len(),
                n == self@.todos.len(),
                self@.wf(),
                self@ == old(self)@,
                rows@.len() == i,
                forall|k: int|
                    0 <= k < i ==> #[trigger] rows@[k]@ == updated_row(
                        self@.todos[k],
                        id as int,
                        todo.title@,
                        token.token@,
                    ),
            decreases n - i,
        {
            let row = &self.todos[i];
            if row.id == id && row.token == token.token {
                rows.push(TodoRow { id: row.id, title: todo.title.clone(), token: row.token.clone() });
            } else {
                rows.push(TodoRow { id: row.id, title: row.title.clone(), token: row.token.clone() });
            }
            i += 1;
        }
        self.todos = rows;
        proof {
            assert(self@ =~= update_spec(old(self)@, id as int, todo.title@, token.token@));
        }
    }

    /// Deletes the row matching both the given id and the caller's token.
    /// When no row matches both, every row is kept.
    pub fn delete_todo(&mut self, id: i32, token: &Token)
        requires
            old(self)@.wf(),
        ensures
            final(self)@.wf(),
            final(self)@ == delete_spec(old(self)@, id as int, token.token@),
    {
        let n: usize = self.todos.len();
        let mut rows: Vec<TodoRow> = Vec::new();
        let mut i: usize = 0;
        while i < n
            invariant
                i <= n,
                n == self.todos.len(),
                n == self@.todos.len(),
                self@.wf(),
                self@ == old(self)@,
                rows_view(rows@) == remove_rows_spec(
                    self@.todos.take(i as int),
                    id as int,
                    token.token@,
                ),
            decreases n - i,
        {
            let ghost prev = rows@;
            let row = &self.todos[i];
            let keep = !(row.id == id && row.token == token.token);
            if keep {
                rows.push(TodoRow { id: row.id, title: row.title.clone(), token: row.token.clone() });
                proof {
                    assert(rows_view(rows@) =~= rows_view(prev).push(self@.todos[i as int]));
                }
            }
            proof {
                let s = self@.todos;
                let k = i as int;
                assert(s.take(k + 1).drop_last() =~= s.take(k));
                assert(s.take(k + 1).last() == s[k]);
            }
            i += 1;
        }
        self.todos = rows;
        proof {
            assert(old(self)@.todos.take(n as int) =~= old(self)@.todos);
            assert(self@ =~= delete_spec(old(self)@, id as int, token.token@));
            lemma_remove_rows_ok(
                old(self)@.todos,
                id as int,
                token.token@,
                old(self)@.next_id,
            );
        }
    }

    /// Every stored user row, in table order, for persisting.
    pub fn users(&self) -> (r: Vec<User>)
        ensures
            users_view(r@) == self@.users,
    {
        let mut out: Vec<User> = Vec::new();
        let n: usize = self.users.len();
        let mut i: usize = 0;
        while i < n
            invariant
                i <= n,
                n == self.users.len(),
                n == self@.users.len(),
                users_view(out@) == self@.users.take(i as int),
            decreases n - i,
        {
            let ghost prev = out@;
            let row = &self.users[i];
            out.push(
                User {
                    username: row.username.clone(),
                    password: row.password.clone(),
                    token: row.token.clone(),
                },
            );
            proof {
                assert(users_view(out@) =~= users_view(prev).push(self@.users[i as int]));
                assert(self@.users.take(i as int + 1) =~= self@.users.take(i as int).push(
                    self@.users[i as int],
                ));
            }
            i += 1;
        }
        proof {
            assert(self@.users.take(n as int) =~= self@.users);
        }
        out
    }

    /// Every stored to-do row, in table order, for persisting.
    pub fn todos(&self) -> (r: Vec<TodoRow>)
        ensures
            rows_view(r@) == self@.todos,
    {
        let mut out: Vec<TodoRow> = Vec::new();
        let n: usize = self.todos.len();
        let mut i: usize = 0;
        while i < n
            invariant
                i <= n,
                n == self.todos.len(),
                n == self@.todos.len(),
                rows_view(out@) == self@.todos.take(i as int),
            decreases n - i,
        {
            let ghost prev = out@;
            let row = &self.todos[i];
            out.push(
                TodoRow { id: row.id, title: row.title.clone(), token: row.token.clone() },
            );
            proof {
                assert(rows_view(out@) =~= rows_view(prev).push(self@.todos[i as int]));
                assert(self@.todos.take(i as int + 1) =~= self@.todos.take(i as int).push(
                    self@.todos[i as int],
                ));
            }
            i += 1;
        }
        proof {
            assert(self@.todos.take(n as int) =~= self@.todos);
        }
        out
    }

    /// The id the next added to-do row will receive.
    pub fn next_todo_id(&self) -> (r: i32)
        ensures
            r as int == self@.next_id,
    {
        self.next_id
    }

    /// Rebuilds a store from rows read back from the durable tables.
    /// Accepts them exactly when they are table-shaped — usernames pairwise
    /// distinct, ids pairwise distinct and between 1 and the counter — and
    /// the accepted store holds exactly the given rows in the given order.
    #[verifier::loop_isolation(false)]
    pub fn load(users: Vec<User>, todos: Vec<TodoRow>, next_id: i32) -> (r: Option<Store>)
        ensures
            ({
                let v = StoreView {
                    users: users_view(users@),
                    todos: rows_view(todos@),
                    next_id: next_id as int,
                };
                &&& (r matches Some(s) ==> s@ == v && v.wf())
                &&& (r is None ==> !v.wf())
            }),
    {
        let ghost v = StoreView {
            users: users_view(users@),
            todos: rows_view(todos@),
            next_id: next_id as int,
        };
        if next_id < 1 {
            return None;
        }
        let nu: usize = users.len();
        let mut i: usize = 0;
        while i < nu
            invariant
                i <= nu,
                nu == users.len(),
                forall|a: int, b: int|
                    0 <= a < b < nu && a < i ==> users_view(users@)[a].username != users_view(
                        users@,
                    )[b].username,
            decreases nu - i,
        {
            let mut j: usize = i + 1;
            while j < nu
                invariant
                    i < nu,
                    i < j <= nu,
                    nu == users.len(),
                    forall|b: int|
                        i < b < j ==> users_view(users@)[i as int].username != users_view(
                            users@,
                        )[b].username,
                decreases nu - j,
            {
                if users[i].username == users[j].username {
                    proof {
                        assert(v.users[i as int].username == v.users[j as int].username);
                        assert(!v.wf());
                    }
                    return None;
                }
                j += 1;
            }
            i += 1;
        }
        let nt: usize = todos.len();
        let mut i: usize = 0;
        while i < nt
            invariant
                i <= nt,
                nt == todos.len(),
                1 <= next_id,
                forall|a: int| 0 <= a < i ==> 1 <= #[trigger] rows_view(todos@)[a].id < next_id as int,
                forall|a: int, b: int|
                    0 <= a < b < nt && a < i ==> rows_view(todos@)[a].id != rows_view(todos@)[b].id,
            decreases nt - i,
        {
            let row_id: i32 = todos[i].id;
            if row_id < 1 || row_id >= next_id {
                proof {
                    assert(!(1 <= v.todos[i as int].id < v.next_id));
                    assert(!v.wf());
                }
                return None;
            }
            let mut j: usize = i + 1;
            while j < nt
                invariant
                    i < nt,
                    i < j <= nt,
                    nt == todos.len(),
                    row_id as int == rows_view(todos@)[i as int].id,
                    forall|b: int|
                        i < b < j ==> rows_view(todos@)[i as int].id != rows_view(todos@)[b].id,
                decreases nt - j,
            {
                if row_id == todos[j].id {
                    proof {
                        assert(v.todos[i as int].id == v.todos[j as int].id);
                        assert(!v.wf());
                    }
                    return None;
                }
                j += 1;
            }
            i += 1;
        }
        let s = Store { users: users, todos: todos, next_id: next_id };
        proof {
            assert(s@ =~= v);
        }
        Some(s)
    }
}

} // verus!
