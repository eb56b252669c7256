use vstd::prelude::*;

use crate::error::{Error, Result};
use crate::reference::ReferenceDb;
use crate::table::Keyed;

verus! {

/// A user, as far as the rules look at one.
#[derive(Debug, PartialEq, Eq)]
pub struct User {
    pub id: String,
    /// Whether this is a bot
    pub bot: bool,
}

impl Clone for User {
    fn clone(&self) -> (copy: Self)
        ensures
            copy == *self,
    {
        User { id: self.id.clone(), bot: self.bot }
    }
}

impl Keyed for User {
    open spec fn id(&self) -> Seq<char> {
        self.id@
    }

    fn key(&self) -> (key: &str) {
        self.id.as_str()
    }
}

/// Users, by their ids.
pub type Users = Map<Seq<char>, User>;

/// Where users are kept.
pub trait AbstractUsers {
    /// Whether every user is found by their own id.
    spec fn users_valid(&self) -> bool;

    /// Whether no operation on users fails.
    spec fn users_reliable(&self) -> bool;

    /// The users, by their ids.
    spec fn users(&self) -> Users;

    /// Whether an operation on users may end with an error.
    spec fn users_may_answer(error: Error) -> bool;

    /// Fetch a user.
    fn fetch_user(&self, id: &str) -> (result: Result<User>)
        requires
            self.users_valid(),
        ensures
            result matches Ok(user) ==> self.users().contains_pair(id@, user),
            result matches Err(error) ==> Self::users_may_answer(error),
            self.users_reliable() ==> match result {
                Ok(_) => self.users().contains_key(id@),
                Err(error) => error == Error::NotFound && !self.users().contains_key(id@),
            },
    ;
}

impl AbstractUsers for ReferenceDb {
    open spec fn users_valid(&self) -> bool {
        self.users.wf()
    }

    open spec fn users_reliable(&self) -> bool {
        true
    }

    open spec fn users(&self) -> Users {
        self.users@
    }

    open spec fn users_may_answer(error: Error) -> bool {
        error == Error::NotFound
    }

    fn fetch_user(&self, id: &str) -> (result: Result<User>) {
        match self.users.get(id) {
            Some(user) => Ok(user.clone()),
            None => Err(Error::NotFound),
        }
    }
}

} // verus!
