use todo_service::ApiTokenError;
use todo_service::ServiceError;
use todo_service::Store;
use todo_service::Todo;
use todo_service::TodoAdd;
use todo_service::TodoRow;
use todo_service::Token;
use todo_service::User;
use todo_service::UserAdd;
use todo_service::rocket;

fn creds(username: &str, password: &str) -> UserAdd {
    UserAdd { username: username.to_string(), password: password.to_string() }
}

fn title(text: &str) -> TodoAdd {
    TodoAdd { title: text.to_string() }
}

fn bearer(token: &str) -> Token {
    Token { token: token.to_string() }
}

fn titles(items: &[Todo]) -> Vec<(i32, String)> {
    items.iter().map(|t| (t.id, t.title.clone())).collect()
}

const TOKEN_A: &str = "AAAAAAAAAAAAAAAAAAAAAAAAAAAAAA";
const TOKEN_B: &str = "BBBBBBBBBBBBBBBBBBBBBBBBBBBBBB";

#[test]
fn register_then_login_returns_generated_token() {
    let mut store = rocket();
    store.register(creds("alice", "pw1")).unwrap();
    let token = store.login(creds("alice", "pw1")).token;
    assert_eq!(token.len(), 30);
    assert!(token.chars().all(|c| c.is_ascii_alphanumeric()));
}

#[test]
fn login_with_wrong_password_returns_empty_token() {
    let mut store = rocket();
    store.register(creds("alice", "pw1")).unwrap();
    assert_eq!(store.login(creds("alice", "wrong")).token, "");
}

#[test]
fn login_with_unknown_username_returns_empty_token() {
    let mut store = rocket();
    store.register(creds("alice", "pw1")).unwrap();
    assert_eq!(store.login(creds("bob", "pw1")).token, "");
}

#[test]
fn login_on_empty_store_returns_empty_token() {
    let store = rocket();
    assert_eq!(store.login(creds("anyone", "anything")).token, "");
}

#[test]
fn registering_same_username_twice_is_rejected() {
    let mut store = rocket();
    store.register(creds("alice", "pw1")).unwrap();
    let second = store.register(creds("alice", "pw2"));
    assert!(matches!(second, Err(ServiceError::DuplicateUser)));
    // The first row survived untouched and no second row was inserted.
    assert_ne!(store.login(creds("alice", "pw1")).token, "");
    assert_eq!(store.login(creds("alice", "pw2")).token, "");
}

#[test]
fn duplicate_username_rejected_with_fixed_token_too() {
    let mut store = rocket();
    store.register_with_token(creds("alice", "pw1"), TOKEN_A.to_string()).unwrap();
    let second = store.register_with_token(creds("alice", "pw1"), TOKEN_B.to_string());
    assert!(matches!(second, Err(ServiceError::DuplicateUser)));
    assert_eq!(store.login(creds("alice", "pw1")).token, TOKEN_A);
}

#[test]
fn added_todo_is_listed_only_under_its_own_token() {
    let mut store = rocket();
    store.add_todo(title("buy milk"), &bearer(TOKEN_A));
    assert_eq!(titles(&store.list_all(&bearer(TOKEN_A))), vec![(1, "buy milk".to_string())]);
    assert!(store.list_all(&bearer(TOKEN_B)).is_empty());
}

#[test]
fn update_with_foreign_token_is_a_no_op() {
    let mut store = rocket();
    store.add_todo(title("buy milk"), &bearer(TOKEN_A));
    store.update_todo(title("stolen"), 1, &bearer(TOKEN_B));
    assert_eq!(titles(&store.list_all(&bearer(TOKEN_A))), vec![(1, "buy milk".to_string())]);
    assert!(store.list_all(&bearer(TOKEN_B)).is_empty());
}

#[test]
fn delete_with_foreign_token_is_a_no_op() {
    let mut store = rocket();
    store.add_todo(title("buy milk"), &bearer(TOKEN_A));
    store.delete_todo(1, &bearer(TOKEN_B));
    assert_eq!(titles(&store.list_all(&bearer(TOKEN_A))), vec![(1, "buy milk".to_string())]);
}

#[test]
fn update_with_unused_id_is_a_no_op() {
    let mut store = rocket();
    store.add_todo(title("buy milk"), &bearer(TOKEN_A));
    store.update_todo(title("nothing"), 99, &bearer(TOKEN_A));
    assert_eq!(titles(&store.list_all(&bearer(TOKEN_A))), vec![(1, "buy milk".to_string())]);
}

#[test]
fn ids_are_assigned_in_insertion_order() {
    let mut store = rocket();
    store.add_todo(title("first"), &bearer(TOKEN_A));
    store.add_todo(title("second"), &bearer(TOKEN_B));
    store.add_todo(title("third"), &bearer(TOKEN_A));
    assert_eq!(
        titles(&store.list_all(&bearer(TOKEN_A))),
        vec![(1, "first".to_string()), (3, "third".to_string())]
    );
    assert_eq!(titles(&store.list_all(&bearer(TOKEN_B))), vec![(2, "second".to_string())]);
}

#[test]
fn add_update_delete_round_trip() {
    let mut store = rocket();
    store.add_todo(title("buy milk"), &bearer(TOKEN_A));
    assert_eq!(titles(&store.list_all(&bearer(TOKEN_A))), vec![(1, "buy milk".to_string())]);
    store.update_todo(title("buy oat milk"), 1, &bearer(TOKEN_A));
    assert_eq!(titles(&store.list_all(&bearer(TOKEN_A))), vec![(1, "buy oat milk".to_string())]);
    store.delete_todo(1, &bearer(TOKEN_A));
    assert!(store.list_all(&bearer(TOKEN_A)).is_empty());
}

#[test]
fn full_scenario_register_login_and_manage_one_item() {
    let mut store = rocket();
    store.register_with_token(creds("alice", "pw1"), TOKEN_A.to_string()).unwrap();
    let token = store.login(creds("alice", "pw1")).token;
    assert_eq!(token, TOKEN_A);
    assert_eq!(token.len(), 30);
    assert!(token.chars().all(|c| c.is_ascii_alphanumeric()));
    let session = Token { token };
    store.add_todo(title("buy milk"), &session);
    assert_eq!(titles(&store.list_all(&session)), vec![(1, "buy milk".to_string())]);
    store.update_todo(title("buy oat milk"), 1, &session);
    assert_eq!(titles(&store.list_all(&session)), vec![(1, "buy oat milk".to_string())]);
    store.delete_todo(1, &session);
    assert!(store.list_all(&session).is_empty());
}

#[test]
fn missing_token_header_is_unauthorized() {
    let refused = Token::from_request(None);
    assert!(matches!(refused, Err(ApiTokenError::Missing)));
}

#[test]
fn present_token_header_is_accepted_verbatim() {
    let accepted = Token::from_request(Some("raw-header-value".to_string()));
    match accepted {
        Ok(token) => assert_eq!(token.token, "raw-header-value"),
        Err(_) => panic!("a present header must be accepted"),
    }
}

#[test]
fn default_token_is_empty() {
    let token: Token = Default::default();
    assert_eq!(token.token, "");
}

#[test]
fn operations_on_empty_store_do_nothing() {
    let mut store = rocket();
    store.update_todo(title("nothing"), 1, &bearer(TOKEN_A));
    store.delete_todo(1, &bearer(TOKEN_A));
    assert!(store.list_all(&bearer(TOKEN_A)).is_empty());
}

#[test]
fn dump_and_load_round_trip() {
    let mut store = rocket();
    store.register_with_token(creds("alice", "pw1"), TOKEN_A.to_string()).unwrap();
    store.add_todo(title("buy milk"), &bearer(TOKEN_A));
    store.add_todo(title("call home"), &bearer(TOKEN_A));
    store.delete_todo(1, &bearer(TOKEN_A));
    let mut reloaded =
        Store::load(store.users(), store.todos(), store.next_todo_id()).unwrap();
    assert_eq!(reloaded.login(creds("alice", "pw1")).token, TOKEN_A);
    assert_eq!(titles(&reloaded.list_all(&bearer(TOKEN_A))), vec![(2, "call home".to_string())]);
    // The counter carried over: the next add does not reuse the freed id 1.
    reloaded.add_todo(title("water plants"), &bearer(TOKEN_A));
    assert_eq!(
        titles(&reloaded.list_all(&bearer(TOKEN_A))),
        vec![(2, "call home".to_string()), (3, "water plants".to_string())]
    );
}

fn user_row(username: &str, token: &str) -> User {
    User { username: username.to_string(), password: "pw".to_string(), token: token.to_string() }
}

fn todo_row(id: i32, token: &str) -> TodoRow {
    TodoRow { id, title: "t".to_string(), token: token.to_string() }
}

#[test]
fn load_rejects_duplicate_usernames() {
    let users = vec![user_row("alice", TOKEN_A), user_row("alice", TOKEN_B)];
    assert!(Store::load(users, Vec::new(), 1).is_none());
}

#[test]
fn load_rejects_duplicate_todo_ids() {
    let todos = vec![todo_row(1, TOKEN_A), todo_row(1, TOKEN_B)];
    assert!(Store::load(Vec::new(), todos, 5).is_none());
}

#[test]
fn load_rejects_ids_outside_the_counter_range() {
    assert!(Store::load(Vec::new(), vec![todo_row(0, TOKEN_A)], 5).is_none());
    assert!(Store::load(Vec::new(), vec![todo_row(5, TOKEN_A)], 5).is_none());
    assert!(Store::load(Vec::new(), Vec::new(), 0).is_none());
    assert!(Store::load(Vec::new(), vec![todo_row(4, TOKEN_A)], 5).is_some());
}

#[test]
fn two_users_tokens_differ_in_listing_scope() {
    let mut store = rocket();
    store.register_with_token(creds("alice", "pw1"), TOKEN_A.to_string()).unwrap();
    store.register_with_token(creds("bob", "pw2"), TOKEN_B.to_string()).unwrap();
    let alice = Token { token: store.login(creds("alice", "pw1")).token };
    let bob = Token { token: store.login(creds("bob", "pw2")).token };
    store.add_todo(title("alice's errand"), &alice);
    store.add_todo(title("bob's errand"), &bob);
    assert_eq!(titles(&store.list_all(&alice)), vec![(1, "alice's errand".to_string())]);
    assert_eq!(titles(&store.list_all(&bob)), vec![(2, "bob's errand".to_string())]);
}
