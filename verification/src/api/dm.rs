//! A direct-message channel.

use vstd::prelude::*;
use vstd::string::*;
use crate::api::user::{User, UserView};

verus! {

/// A channel between the acting user and the `recipients`.
#[derive(Debug)]
pub struct DM {
    pub id: String,
    pub channel_type: u8,
    pub recipients: Vec<User>,
}

/// A `DM` as a mathematical value.
pub ghost struct DMView {
    pub id: Seq<char>,
    pub channel_type: u8,
    pub recipients: Seq<UserView>,
}

impl View for DM {
    type V = DMView;

    open spec fn view(&self) -> DMView {
        DMView {
            id: self.id@,
            channel_type: self.channel_type,
            recipients: self.recipients.deep_view(),
        }
    }
}

impl DeepView for DM {
    type V = DMView;

    open spec fn deep_view(&self) -> DMView {
        self@
    }
}

impl Clone for DM {
    fn clone(&self) -> (res: Self)
        ensures
            res@ == self@,
    {
        let res = DM {
            id: self.id.clone(),
            channel_type: self.channel_type,
            recipients: self.recipients.clone(),
        };
        assert(res.recipients.deep_view() =~= self.recipients.deep_view());
        res
    }
}

/// What stands between two names of a list.
pub open spec fn name_separator() -> Seq<char> {
    seq![',', ' ']
}

/// The user names of `users` in their order, with a comma and a space
/// between each two.
pub open spec fn joined_usernames(users: Seq<UserView>) -> Seq<char>
    decreases users.len(),
{
    if users.len() == 0 {
        Seq::empty()
    } else if users.len() == 1 {
        users[0].username
    } else {
        joined_usernames(users.drop_last()) + name_separator() + users.last().username
    }
}

impl DM {
    /// The name under which the channel is shown: the user names of its
    /// recipients. A channel without recipients has the empty name.
    pub fn get_name(&self) -> (name: String)
        ensures
            name@ == joined_usernames(self@.recipients),
    {
        let ghost users = self@.recipients;
        let mut name = String::new();
        let count = self.recipients.len();
        if count == 0 {
            return name;
        }
        name.append(self.recipients[0].username.as_str());
        assert(name@ =~= users[0].username);
        let mut i: usize = 1;
        while i < count
            invariant
                1 <= i <= count,
                count == self.recipients.len(),
                users == self@.recipients,
                name@ == joined_usernames(users.take(i as int)),
            decreases count - i,
        {
            proof {
                reveal_strlit(", ");
                assert(", "@ =~= name_separator());
                assert(users.take(i + 1).drop_last() =~= users.take(i as int));
            }
            name.append(", ");
            name.append(self.recipients[i].username.as_str());
            i += 1;
        }
        assert(users.take(count as int) =~= users);
        name
    }
}

} // verus!
