use vstd::prelude::*;
use crate::models::copy_opt_text;
use crate::models::opt_text;

verus! {

/// A stored account.
#[derive(Debug, PartialEq, Eq)]
pub struct User {
    pub id: i32,
    pub username: String,
    pub email: String,
    pub bio: Option<String>,
    pub image: Option<String>,
    /// Password hash in PHC text form; never shown to the outside.
    pub hash: String,
}

/// What a [`User`] holds, as mathematical values.
pub struct UserView {
    pub id: int,
    pub username: Seq<char>,
    pub email: Seq<char>,
    pub bio: Option<Seq<char>>,
    pub image: Option<Seq<char>>,
    pub hash: Seq<char>,
}

impl View for User {
    type V = UserView;

    open spec fn view(&self) -> UserView {
        UserView {
            id: self.id as int,
            username: self.username@,
            email: self.email@,
            bio: opt_text(self.bio),
            image: opt_text(self.image),
            hash: self.hash@,
        }
    }
}

impl Clone for User {
    fn clone(&self) -> (r: User)
        ensures
            r@ == self@,
    {
        User {
            id: self.id,
            username: self.username.clone(),
            email: self.email.clone(),
            bio: copy_opt_text(&self.bio),
            image: copy_opt_text(&self.image),
            hash: self.hash.clone(),
        }
    }
}

/// What each of a list of stored users holds, in order.
pub open spec fn user_views(list: Seq<User>) -> Seq<UserView> {
    list.map_values(|r: User| r@)
}

} // verus!
