//! A user of the chat service.

use vstd::prelude::*;
use crate::api::channel::clone_optional_text;

verus! {

/// A user, as the service describes one.
#[derive(Debug)]
pub struct User {
    pub id: String,
    pub username: String,
    pub global_name: Option<String>,
}

/// A `User` as a mathematical value.
pub ghost struct UserView {
    pub id: Seq<char>,
    pub username: Seq<char>,
    pub global_name: Option<Seq<char>>,
}

impl View for User {
    type V = UserView;

    open spec fn view(&self) -> UserView {
        UserView {
            id: self.id@,
            username: self.username@,
            global_name: self.global_name.deep_view(),
        }
    }
}

impl DeepView for User {
    type V = UserView;

    open spec fn deep_view(&self) -> UserView {
        self@
    }
}

impl Clone for User {
    fn clone(&self) -> (res: Self)
        ensures
            res@ == self@,
    {
        User {
            id: self.id.clone(),
            username: self.username.clone(),
            global_name: clone_optional_text(&self.global_name),
        }
    }
}

} // verus!
