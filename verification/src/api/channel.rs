//! Roles, permission overwrites and channels, with their mathematical views.

use vstd::prelude::*;

verus! {

/// `Channel::channel_type` of a category: a channel that only groups others.
pub const CATEGORY_CHANNEL_TYPE: u8 = 4;

/// `Overwrite::kind` of an overwrite that targets a role.
pub const ROLE_OVERWRITE: u8 = 0;

/// `Overwrite::kind` of an overwrite that targets a single member.
pub const MEMBER_OVERWRITE: u8 = 1;

/// A guild role. `permissions` is a bitmask written as text.
#[derive(Debug)]
pub struct Role {
    pub id: String,
    pub name: String,
    pub permissions: String,
}

/// A `Role` as a mathematical value.
pub ghost struct RoleView {
    pub id: Seq<char>,
    pub name: Seq<char>,
    pub permissions: Seq<char>,
}

impl View for Role {
    type V = RoleView;

    open spec fn view(&self) -> RoleView {
        RoleView { id: self.id@, name: self.name@, permissions: self.permissions@ }
    }
}

impl DeepView for Role {
    type V = RoleView;

    open spec fn deep_view(&self) -> RoleView {
        self@
    }
}

impl Clone for Role {
    fn clone(&self) -> (res: Self)
        ensures
            res@ == self@,
    {
        Role { id: self.id.clone(), name: self.name.clone(), permissions: self.permissions.clone() }
    }
}

/// Everything needed to resolve the permissions of one member: who they are,
/// the roles they hold, all roles of the guild, and which of those roles is
/// the one every member holds.
#[derive(Debug)]
pub struct PermissionContext {
    pub user_id: String,
    pub user_role_ids: Vec<String>,
    pub all_guild_roles: Vec<Role>,
    pub everyone_role_id: String,
}

/// A `PermissionContext` as a mathematical value.
pub ghost struct PermissionContextView {
    pub user_id: Seq<char>,
    pub user_role_ids: Seq<Seq<char>>,
    pub all_guild_roles: Seq<RoleView>,
    pub everyone_role_id: Seq<char>,
}

impl View for PermissionContext {
    type V = PermissionContextView;

    open spec fn view(&self) -> PermissionContextView {
        PermissionContextView {
            user_id: self.user_id@,
            user_role_ids: self.user_role_ids.deep_view(),
            all_guild_roles: self.all_guild_roles.deep_view(),
            everyone_role_id: self.everyone_role_id@,
        }
    }
}

impl Clone for PermissionContext {
    fn clone(&self) -> (res: Self)
        ensures
            res@ == self@,
    {
        let res = PermissionContext {
            user_id: self.user_id.clone(),
            user_role_ids: self.user_role_ids.clone(),
            all_guild_roles: self.all_guild_roles.clone(),
            everyone_role_id: self.everyone_role_id.clone(),
        };
        assert(res.user_role_ids.deep_view() =~= self.user_role_ids.deep_view());
        assert(res.all_guild_roles.deep_view() =~= self.all_guild_roles.deep_view());
        res
    }
}

/// A channel-scoped pair of allow and deny bitmasks for one role or one
/// member. `kind` is `ROLE_OVERWRITE` or `MEMBER_OVERWRITE`; `id` names the
/// role or the member.
#[derive(Debug)]
pub struct Overwrite {
    pub id: String,
    pub kind: u8,
    pub allow: String,
    pub deny: String,
}

/// An `Overwrite` as a mathematical value.
pub ghost struct OverwriteView {
    pub id: Seq<char>,
    pub kind: u8,
    pub allow: Seq<char>,
    pub deny: Seq<char>,
}

impl View for Overwrite {
    type V = OverwriteView;

    open spec fn view(&self) -> OverwriteView {
        OverwriteView { id: self.id@, kind: self.kind, allow: self.allow@, deny: self.deny@ }
    }
}

impl DeepView for Overwrite {
    type V = OverwriteView;

    open spec fn deep_view(&self) -> OverwriteView {
        self@
    }
}

impl Clone for Overwrite {
    fn clone(&self) -> (res: Self)
        ensures
            res@ == self@,
    {
        Overwrite {
            id: self.id.clone(),
            kind: self.kind,
            allow: self.allow.clone(),
            deny: self.deny.clone(),
        }
    }
}

/// A channel of a guild. `parent_id` names the category it belongs to, if
/// any. `children` is filled only on the category nodes of a channel tree.
#[derive(Debug)]
pub struct Channel {
    pub id: String,
    pub name: String,
    pub channel_type: u8,
    pub guild_id: Option<String>,
    pub parent_id: Option<String>,
    pub permission_overwrites: Vec<Overwrite>,
    pub children: Option<Vec<Channel>>,
}

/// A `Channel` as a mathematical value.
pub ghost struct ChannelView {
    pub id: Seq<char>,
    pub name: Seq<char>,
    pub channel_type: u8,
    pub guild_id: Option<Seq<char>>,
    pub parent_id: Option<Seq<char>>,
    pub permission_overwrites: Seq<OverwriteView>,
    pub children: Option<Seq<ChannelView>>,
}

/// The view of one channel, its children included.
pub open spec fn channel_view(channel: Channel) -> ChannelView
    decreases channel, 1nat,
{
    ChannelView {
        id: channel.id@,
        name: channel.name@,
        channel_type: channel.channel_type,
        guild_id: channel.guild_id.deep_view(),
        parent_id: channel.parent_id.deep_view(),
        permission_overwrites: channel.permission_overwrites.deep_view(),
        children: match channel.children {
            Some(list) => Some(channel_views(list@)),
            None => None,
        },
    }
}

/// The views of a list of channels, in the order of the list.
pub open spec fn channel_views(channels: Seq<Channel>) -> Seq<ChannelView>
    decreases channels, 0nat,
{
    Seq::new(
        channels.len(),
        |i: int|
            if 0 <= i < channels.len() {
                channel_view(channels[i])
            } else {
                arbitrary()
            },
    )
}

impl View for Channel {
    type V = ChannelView;

    open spec fn view(&self) -> ChannelView {
        channel_view(*self)
    }
}

/// A copy of a text that may be absent.
pub(crate) fn clone_optional_text(text: &Option<String>) -> (res: Option<String>)
    ensures
        res.deep_view() == text.deep_view(),
{
    match text {
        Some(s) => Some(s.clone()),
        None => None,
    }
}

impl Clone for Channel {
    fn clone(&self) -> (res: Self)
        ensures
            res@ == self@,
        decreases self,
    {
        let children = match &self.children {
            Some(list) => {
                let mut copies: Vec<Channel> = Vec::new();
                let mut i: usize = 0;
                while i < list.len()
                    invariant
                        self.children == Some(*list),
                        i <= list.len(),
                        copies.len() == i,
                        forall|j: int| 0 <= j < i ==> copies[j]@ == list[j]@,
                    decreases list.len() - i,
                {
                    assert(decreases_to!(self.children => self.children->0));
                    let copy = list[i].clone();
                    copies.push(copy);
                    i += 1;
                }
                assert(channel_views(copies@) =~= channel_views(list@));
                Some(copies)
            },
            None => None,
        };
        let res = Channel {
            id: self.id.clone(),
            name: self.name.clone(),
            channel_type: self.channel_type,
            guild_id: clone_optional_text(&self.guild_id),
            parent_id: clone_optional_text(&self.parent_id),
            permission_overwrites: self.permission_overwrites.clone(),
            children,
        };
        assert(res.permission_overwrites.deep_view() =~= self.permission_overwrites.deep_view());
        res
    }
}

} // verus!
