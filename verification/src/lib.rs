//! A minimal multi-user to-do service: users register with a username and
//! password, log in to receive a bearer token, and manage personal to-do
//! items scoped to that token. The store is modelled as two in-memory
//! tables; every operation's effect on them is stated and verified.

use vstd::prelude::*;

pub mod laws;
pub mod model;
pub mod store;
pub mod token;

pub use model::StoreView;
pub use store::ServiceError;
pub use store::Store;
pub use store::Todo;
pub use store::TodoAdd;
pub use store::TodoRow;
pub use store::User;
pub use store::UserAdd;
pub use token::ApiTokenError;
pub use token::Token;

verus! {

/// Builds the state the service launches with: both tables exist and are
/// empty, and to-do ids start at 1.
pub fn rocket() -> (s: Store)
    ensures
        s@.wf(),
        s@.users.len() == 0,
        s@.todos.len() == 0,
        s@.next_id == 1,
{
    Store::new()
}

} // verus!
