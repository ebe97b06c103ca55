//! The permissions a member holds in a channel.
//!
//! A permission bitmask is a `u64` in which every bit grants one capability.
//! The bitmask of a member in a channel is built up in a fixed order: the role
//! that every member holds, the other roles of the member, the channel's
//! overwrite for the role that every member holds, the channel's overwrites
//! for the other roles of the member, and last the channel's overwrite for the
//! member.

use vstd::prelude::*;
use vstd::seq_lib::{commutative_foldl, lemma_fold_left_permutation};
use crate::api::channel::{
    Channel, ChannelView, Overwrite, OverwriteView, PermissionContext, PermissionContextView, Role,
    RoleView, MEMBER_OVERWRITE, ROLE_OVERWRITE,
};
use crate::api::number::{parse_unsigned, unsigned_value};

verus! {

/// The bit that grants the capability to view a channel.
pub const VIEW_CHANNEL_PERMISSION: u64 = 1024;

/// How the overwrite of the acting member is looked up in a channel.
#[derive(Debug, Clone, Copy, PartialEq, Eq, Structural)]
pub enum MemberLookup {
    /// By the id of the acting member.
    UserId,
    /// By the first entry of the member's list of role ids, or by the empty
    /// id if the list is empty. Some callers keep the member's own id in that
    /// place.
    FirstRoleId,
}

/// The bitmask that a text stands for: its decimal value if it is a decimal
/// numeral, else its hexadecimal value if it is a hexadecimal numeral, else
/// no bit at all.
pub open spec fn permission_bits(text: Seq<char>) -> u64 {
    match unsigned_value(text, 10) {
        Some(bits) => bits,
        None => match unsigned_value(text, 16) {
            Some(bits) => bits,
            None => 0,
        },
    }
}

/// The first item of `items` that is `wanted`.
pub open spec fn first_match<T>(items: Seq<T>, wanted: spec_fn(T) -> bool) -> Option<T>
    decreases items.len(),
{
    if items.len() == 0 {
        None
    } else if wanted(items.first()) {
        Some(items.first())
    } else {
        first_match(items.drop_first(), wanted)
    }
}

/// The first role of `roles` with the given id.
pub open spec fn find_role(roles: Seq<RoleView>, id: Seq<char>) -> Option<RoleView> {
    first_match(roles, |role: RoleView| role.id == id)
}

/// The first overwrite of `overwrites` of the given kind for the given id.
pub open spec fn find_overwrite(overwrites: Seq<OverwriteView>, kind: u8, id: Seq<char>) -> Option<
    OverwriteView,
> {
    first_match(overwrites, |overwrite: OverwriteView| overwrite.kind == kind && overwrite.id == id)
}

/// What role `id` grants in the guild: nothing if the guild has no such role.
pub open spec fn role_permissions(roles: Seq<RoleView>, id: Seq<char>) -> u64 {
    match find_role(roles, id) {
        Some(role) => permission_bits(role.permissions),
        None => 0,
    }
}

/// The role overwrite that counts for role `id` of the member: the first one
/// that the channel has for it. The role that every member holds has its own
/// step, so no overwrite counts for it here.
pub open spec fn role_overwrite(
    overwrites: Seq<OverwriteView>,
    context: PermissionContextView,
    id: Seq<char>,
) -> Option<OverwriteView> {
    if id == context.everyone_role_id {
        None
    } else {
        find_overwrite(overwrites, ROLE_OVERWRITE, id)
    }
}

/// `bits` joined with what role `id` of the member grants in the guild. The
/// role that every member holds adds nothing here, nor does an id that names
/// no role of the guild.
pub open spec fn with_role(bits: u64, context: PermissionContextView, id: Seq<char>) -> u64 {
    if id == context.everyone_role_id {
        bits
    } else {
        match find_role(context.all_guild_roles, id) {
            Some(role) => bits | permission_bits(role.permissions),
            None => bits,
        }
    }
}

/// What the roles `ids` grant in the guild, on top of the role that every
/// member holds.
pub open spec fn granted_by(ids: Seq<Seq<char>>, context: PermissionContextView) -> u64 {
    ids.fold_left(
        role_permissions(context.all_guild_roles, context.everyone_role_id),
        |bits: u64, id: Seq<char>| with_role(bits, context, id),
    )
}

/// What the member's roles grant in the guild.
pub open spec fn granted_by_roles(context: PermissionContextView) -> u64 {
    granted_by(context.user_role_ids, context)
}

/// The bits that the channel's overwrites for the roles `ids` deny, all joined.
pub open spec fn denied_for(
    ids: Seq<Seq<char>>,
    overwrites: Seq<OverwriteView>,
    context: PermissionContextView,
) -> u64 {
    ids.fold_left(
        0u64,
        |bits: u64, id: Seq<char>|
            match role_overwrite(overwrites, context, id) {
                Some(overwrite) => bits | permission_bits(overwrite.deny),
                None => bits,
            },
    )
}

/// The bits that the channel's overwrites for the roles `ids` allow, all
/// joined.
pub open spec fn allowed_for(
    ids: Seq<Seq<char>>,
    overwrites: Seq<OverwriteView>,
    context: PermissionContextView,
) -> u64 {
    ids.fold_left(
        0u64,
        |bits: u64, id: Seq<char>|
            match role_overwrite(overwrites, context, id) {
                Some(overwrite) => bits | permission_bits(overwrite.allow),
                None => bits,
            },
    )
}

/// The bits that the channel's overwrites for the member's roles deny.
pub open spec fn denied_by_role_overwrites(
    overwrites: Seq<OverwriteView>,
    context: PermissionContextView,
) -> u64 {
    denied_for(context.user_role_ids, overwrites, context)
}

/// The bits that the channel's overwrites for the member's roles allow.
pub open spec fn allowed_by_role_overwrites(
    overwrites: Seq<OverwriteView>,
    context: PermissionContextView,
) -> u64 {
    allowed_for(context.user_role_ids, overwrites, context)
}

/// A bitmask after an overwrite: the denied bits leave, then the allowed bits
/// enter, so a bit that is both denied and allowed is set.
pub open spec fn overwritten(bits: u64, allow: u64, deny: u64) -> u64 {
    (bits & !deny) | allow
}

/// A bitmask after an overwrite that the channel may or may not have.
pub open spec fn with_overwrite(bits: u64, overwrite: Option<OverwriteView>) -> u64 {
    match overwrite {
        Some(o) => overwritten(bits, permission_bits(o.allow), permission_bits(o.deny)),
        None => bits,
    }
}

/// The id under which the member's own overwrite is looked up.
pub open spec fn member_key(context: PermissionContextView, lookup: MemberLookup) -> Seq<char> {
    match lookup {
        MemberLookup::UserId => context.user_id,
        MemberLookup::FirstRoleId => if context.user_role_ids.len() > 0 {
            context.user_role_ids[0]
        } else {
            Seq::empty()
        },
    }
}

/// The bitmask of the member in the channel, with the member's own overwrite
/// looked up as `lookup` says.
pub open spec fn effective_permissions_with(
    channel: ChannelView,
    context: PermissionContextView,
    lookup: MemberLookup,
) -> u64 {
    let overwrites = channel.permission_overwrites;
    let in_guild = granted_by_roles(context);
    let for_everyone = with_overwrite(
        in_guild,
        find_overwrite(overwrites, ROLE_OVERWRITE, context.everyone_role_id),
    );
    let for_roles = overwritten(
        for_everyone,
        allowed_by_role_overwrites(overwrites, context),
        denied_by_role_overwrites(overwrites, context),
    );
    with_overwrite(
        for_roles,
        find_overwrite(overwrites, MEMBER_OVERWRITE, member_key(context, lookup)),
    )
}

/// The bitmask of the member in the channel.
pub open spec fn effective_permissions(
    channel: ChannelView,
    context: PermissionContextView,
) -> u64 {
    effective_permissions_with(channel, context, MemberLookup::UserId)
}

/// Whether a bitmask grants the capability to view a channel.
pub open spec fn grants_view(bits: u64) -> bool {
    bits & VIEW_CHANNEL_PERMISSION != 0
}

/// Reads a bitmask written as text. Text that is no numeral grants nothing.
pub fn parse_permission_string(text: &str) -> (bits: u64)
    ensures
        bits == permission_bits(text@),
{
    match parse_unsigned(text, 10) {
        Some(bits) => bits,
        None => match parse_unsigned(text, 16) {
            Some(bits) => bits,
            None => 0,
        },
    }
}

/// A search from the front may skip what it has already turned down.
proof fn lemma_first_match_step<T>(items: Seq<T>, wanted: spec_fn(T) -> bool, i: int)
    requires
        0 <= i < items.len(),
    ensures
        first_match(items.skip(i), wanted) == if wanted(items[i]) {
            Some(items[i])
        } else {
            first_match(items.skip(i + 1), wanted)
        },
{
    assert(items.skip(i).drop_first() =~= items.skip(i + 1));
}

/// The first role of `roles` with the given id.
fn lookup_role<'a>(roles: &'a Vec<Role>, id: &String) -> (found: Option<&'a Role>)
    ensures
        found.deep_view() == find_role(roles.deep_view(), id@),
{
    let ghost all = roles.deep_view();
    let ghost wanted = |role: RoleView| role.id == id@;
    let mut i: usize = 0;
    assert(all.skip(0) =~= all);
    while i < roles.len()
        invariant
            i <= roles.len(),
            all == roles.deep_view(),
            wanted == (|role: RoleView| role.id == id@),
            find_role(all, id@) == first_match(all.skip(i as int), wanted),
        decreases roles.len() - i,
    {
        proof {
            lemma_first_match_step(all, wanted, i as int);
        }
        if roles[i].id == *id {
            return Some(&roles[i]);
        }
        i += 1;
    }
    None
}

/// The first overwrite of `overwrites` of the given kind for the given id.
fn lookup_overwrite<'a>(overwrites: &'a Vec<Overwrite>, kind: u8, id: &String) -> (found: Option<
    &'a Overwrite,
>)
    ensures
        found.deep_view() == find_overwrite(overwrites.deep_view(), kind, id@),
{
    let ghost all = overwrites.deep_view();
    let ghost wanted = |overwrite: OverwriteView| overwrite.kind == kind && overwrite.id == id@;
    let mut i: usize = 0;
    assert(all.skip(0) =~= all);
    while i < overwrites.len()
        invariant
            i <= overwrites.len(),
            all == overwrites.deep_view(),
            wanted == (|overwrite: OverwriteView| overwrite.kind == kind && overwrite.id == id@),
            find_overwrite(all, kind, id@) == first_match(all.skip(i as int), wanted),
        decreases overwrites.len() - i,
    {
        proof {
            lemma_first_match_step(all, wanted, i as int);
        }
        if overwrites[i].kind == kind && overwrites[i].id == *id {
            return Some(&overwrites[i]);
        }
        i += 1;
    }
    None
}

/// A bitmask after an overwrite that the channel may or may not have.
fn apply_overwrite(bits: u64, overwrite: Option<&Overwrite>) -> (res: u64)
    ensures
        res == with_overwrite(bits, overwrite.deep_view()),
{
    match overwrite {
        Some(o) => {
            let deny = parse_permission_string(o.deny.as_str());
            let allow = parse_permission_string(o.allow.as_str());
            (bits & !deny) | allow
        },
        None => bits,
    }
}

impl Channel {
    /// The bitmask of the member in this channel, with the member's own
    /// overwrite looked up as `lookup` says.
    pub fn calculate_permissions_with(
        &self,
        context: &PermissionContext,
        lookup: MemberLookup,
    ) -> (bits: u64)
        ensures
            bits == effective_permissions_with(self@, context@, lookup),
    {
        let ghost ids = context@.user_role_ids;
        let ghost overwrites = self@.permission_overwrites;
        let count = context.user_role_ids.len();

        let everyone = lookup_role(&context.all_guild_roles, &context.everyone_role_id);
        let mut permissions = match everyone {
            Some(role) => parse_permission_string(role.permissions.as_str()),
            None => 0,
        };
        let mut i: usize = 0;
        while i < count
            invariant
                i <= count,
                count == context.user_role_ids.len(),
                ids == context@.user_role_ids,
                permissions == granted_by(ids.take(i as int), context@),
            decreases count - i,
        {
            let id = &context.user_role_ids[i];
            assert(ids.take(i + 1).drop_last() =~= ids.take(i as int));
            if *id != context.everyone_role_id {
                if let Some(role) = lookup_role(&context.all_guild_roles, id) {
                    permissions |= parse_permission_string(role.permissions.as_str());
                }
            }
            i += 1;
        }
        assert(ids.take(count as int) =~= ids);

        let for_everyone = lookup_overwrite(
            &self.permission_overwrites,
            ROLE_OVERWRITE,
            &context.everyone_role_id,
        );
        permissions = apply_overwrite(permissions, for_everyone);

        let mut role_denies: u64 = 0;
        let mut role_allows: u64 = 0;
        let mut i: usize = 0;
        while i < count
            invariant
                i <= count,
                count == context.user_role_ids.len(),
                ids == context@.user_role_ids,
                overwrites == self@.permission_overwrites,
                role_denies == denied_for(ids.take(i as int), overwrites, context@),
                role_allows == allowed_for(ids.take(i as int), overwrites, context@),
            decreases count - i,
        {
            let id = &context.user_role_ids[i];
            assert(ids.take(i + 1).drop_last() =~= ids.take(i as int));
            if *id != context.everyone_role_id {
                if let Some(overwrite) = lookup_overwrite(
                    &self.permission_overwrites,
                    ROLE_OVERWRITE,
                    id,
                ) {
                    role_denies |= parse_permission_string(overwrite.deny.as_str());
                    role_allows |= parse_permission_string(overwrite.allow.as_str());
                }
            }
            i += 1;
        }
        assert(ids.take(count as int) =~= ids);
        permissions = (permissions & !role_denies) | role_allows;

        let nobody = String::new();
        let key: &String = match lookup {
            MemberLookup::UserId => &context.user_id,
            MemberLookup::FirstRoleId => if count > 0 {
                &context.user_role_ids[0]
            } else {
                &nobody
            },
        };
        apply_overwrite(
            permissions,
            lookup_overwrite(&self.permission_overwrites, MEMBER_OVERWRITE, key),
        )
    }

    /// The bitmask of the member in this channel.
    pub fn calculate_permissions(&self, context: &PermissionContext) -> (bits: u64)
        ensures
            bits == effective_permissions(self@, context@),
    {
        self.calculate_permissions_with(context, MemberLookup::UserId)
    }

    /// Whether the member can view this channel, with the member's own
    /// overwrite looked up as `lookup` says.
    pub fn is_readable_with(
        &self,
        context: &PermissionContext,
        lookup: MemberLookup,
    ) -> (readable: bool)
        ensures
            readable == grants_view(effective_permissions_with(self@, context@, lookup)),
    {
        let permissions = self.calculate_permissions_with(context, lookup);
        (permissions & VIEW_CHANNEL_PERMISSION) != 0
    }

    /// Whether the member can view this channel.
    pub fn is_readable(&self, context: &PermissionContext) -> (readable: bool)
        ensures
            readable == grants_view(effective_permissions(self@, context@)),
    {
        let permissions = self.calculate_permissions(context);
        (permissions & VIEW_CHANNEL_PERMISSION) != 0
    }
}

/// How single bits fare under an overwrite.
proof fn lemma_overwritten_bits(bits: u64, allow: u64, deny: u64)
    by (bit_vector)
    ensures
        ((bits & !deny) | allow) & allow == allow,
        ((bits & !deny) | allow) & (deny & !allow) == 0,
        ((bits & !deny) | allow) & !(allow | deny) == bits & !(allow | deny),
        allow & 1024 != 0 ==> ((bits & !deny) | allow) & 1024 != 0,
        allow & 1024 == 0 && deny & 1024 != 0 ==> ((bits & !deny) | allow) & 1024 == 0,
        allow & 1024 == 0 && bits & 1024 == 0 ==> ((bits & !deny) | allow) & 1024 == 0,
        deny & 1024 == 0 && bits & 1024 != 0 ==> ((bits & !deny) | allow) & 1024 != 0,
        (bits & !0u64) | 0u64 == bits,
{
}

/// How single bits fare when two bitmasks are joined.
proof fn lemma_joined_bits(bits: u64, more: u64, part: u64)
    by (bit_vector)
    ensures
        (bits | more) & more == more,
        bits & part == part ==> (bits | more) & part == part,
        bits & 1024 == 0 && more & 1024 == 0 ==> (bits | more) & 1024 == 0,
        part & 1024 != 0 && bits & part == part ==> bits & 1024 != 0,
        0u64 & 1024 == 0,
        (bits | more) | part == (bits | part) | more,
{
}

/// Every bit that a role overwrite of the member allows is among the bits
/// that the member's role overwrites allow.
proof fn lemma_allowed_for_includes(
    ids: Seq<Seq<char>>,
    overwrites: Seq<OverwriteView>,
    context: PermissionContextView,
    k: int,
)
    requires
        0 <= k < ids.len(),
        role_overwrite(overwrites, context, ids[k]) is Some,
    ensures
        ({
            let allow = permission_bits(role_overwrite(overwrites, context, ids[k]).unwrap().allow);
            allowed_for(ids, overwrites, context) & allow == allow
        }),
    decreases ids.len(),
{
    let allow = permission_bits(role_overwrite(overwrites, context, ids[k]).unwrap().allow);
    let before = allowed_for(ids.drop_last(), overwrites, context);
    if k < ids.len() - 1 {
        lemma_allowed_for_includes(ids.drop_last(), overwrites, context, k);
    }
    match role_overwrite(overwrites, context, ids.last()) {
        Some(last) => {
            lemma_joined_bits(before, permission_bits(last.allow), allow);
        },
        None => {},
    }
}

/// Where no role overwrite of the member allows the view, the member's role
/// overwrites together do not allow it.
proof fn lemma_allowed_for_lacks_view(
    ids: Seq<Seq<char>>,
    overwrites: Seq<OverwriteView>,
    context: PermissionContextView,
)
    requires
        forall|k: int|
            0 <= k < ids.len() ==> (#[trigger] role_overwrite(
                overwrites,
                context,
                ids[k],
            ) matches Some(o) ==> !grants_view(permission_bits(o.allow))),
    ensures
        !grants_view(allowed_for(ids, overwrites, context)),
    decreases ids.len(),
{
    if ids.len() == 0 {
        lemma_joined_bits(0, 0, 0);
    } else {
        let before = allowed_for(ids.drop_last(), overwrites, context);
        assert forall|k: int| 0 <= k < ids.drop_last().len() implies (#[trigger] role_overwrite(
            overwrites,
            context,
            ids.drop_last()[k],
        ) matches Some(o) ==> !grants_view(permission_bits(o.allow))) by {
            assert(ids.drop_last()[k] == ids[k]);
        }
        lemma_allowed_for_lacks_view(ids.drop_last(), overwrites, context);
        match role_overwrite(overwrites, context, ids.last()) {
            Some(last) => {
                assert(ids.last() == ids[ids.len() - 1]);
                lemma_joined_bits(before, permission_bits(last.allow), 0);
            },
            None => {},
        }
    }
}

/// Where no role overwrite of the member denies the view, the member's role
/// overwrites together do not deny it.
proof fn lemma_denied_for_lacks_view(
    ids: Seq<Seq<char>>,
    overwrites: Seq<OverwriteView>,
    context: PermissionContextView,
)
    requires
        forall|k: int|
            0 <= k < ids.len() ==> (#[trigger] role_overwrite(
                overwrites,
                context,
                ids[k],
            ) matches Some(o) ==> !grants_view(permission_bits(o.deny))),
    ensures
        !grants_view(denied_for(ids, overwrites, context)),
    decreases ids.len(),
{
    if ids.len() == 0 {
        lemma_joined_bits(0, 0, 0);
    } else {
        let before = denied_for(ids.drop_last(), overwrites, context);
        assert forall|k: int| 0 <= k < ids.drop_last().len() implies (#[trigger] role_overwrite(
            overwrites,
            context,
            ids.drop_last()[k],
        ) matches Some(o) ==> !grants_view(permission_bits(o.deny))) by {
            assert(ids.drop_last()[k] == ids[k]);
        }
        lemma_denied_for_lacks_view(ids.drop_last(), overwrites, context);
        match role_overwrite(overwrites, context, ids.last()) {
            Some(last) => {
                assert(ids.last() == ids[ids.len() - 1]);
                lemma_joined_bits(before, permission_bits(last.deny), 0);
            },
            None => {},
        }
    }
}

/// Where the channel has no overwrite for any role of the member, the role
/// overwrites neither allow nor deny a bit.
proof fn lemma_no_role_overwrites(
    ids: Seq<Seq<char>>,
    overwrites: Seq<OverwriteView>,
    context: PermissionContextView,
)
    requires
        forall|k: int|
            0 <= k < ids.len() ==> #[trigger] role_overwrite(overwrites, context, ids[k]) is None,
    ensures
        allowed_for(ids, overwrites, context) == 0,
        denied_for(ids, overwrites, context) == 0,
    decreases ids.len(),
{
    if ids.len() > 0 {
        assert forall|k: int| 0 <= k < ids.drop_last().len() implies #[trigger] role_overwrite(
            overwrites,
            context,
            ids.drop_last()[k],
        ) is None by {
            assert(ids.drop_last()[k] == ids[k]);
        }
        lemma_no_role_overwrites(ids.drop_last(), overwrites, context);
        assert(ids.last() == ids[ids.len() - 1]);
    }
}

/// Roles that are the one every member holds add nothing to it.
proof fn lemma_granted_by_everyone_only(ids: Seq<Seq<char>>, context: PermissionContextView)
    requires
        forall|k: int| 0 <= k < ids.len() ==> #[trigger] ids[k] == context.everyone_role_id,
    ensures
        granted_by(ids, context) == role_permissions(
            context.all_guild_roles,
            context.everyone_role_id,
        ),
    decreases ids.len(),
{
    if ids.len() > 0 {
        assert forall|k: int| 0 <= k < ids.drop_last().len() implies #[trigger] ids.drop_last()[k]
            == context.everyone_role_id by {
            assert(ids.drop_last()[k] == ids[k]);
        }
        lemma_granted_by_everyone_only(ids.drop_last(), context);
        assert(ids.last() == ids[ids.len() - 1]);
    }
}

/// A text that is a decimal numeral is read as one, also where it would be a
/// hexadecimal numeral too.
pub proof fn lemma_decimal_reading_wins(text: Seq<char>)
    requires
        unsigned_value(text, 10) is Some,
    ensures
        permission_bits(text) == unsigned_value(text, 10).unwrap(),
{
}

/// The member's own overwrite has the last word. Whatever the roles and the
/// other overwrites say, every bit that it allows is set, every bit that it
/// denies and does not allow is clear, and the other bits stay as the roles
/// and their overwrites left them.
pub proof fn lemma_member_overwrite_has_final_say(
    channel: ChannelView,
    context: PermissionContextView,
    lookup: MemberLookup,
)
    requires
        find_overwrite(
            channel.permission_overwrites,
            MEMBER_OVERWRITE,
            member_key(context, lookup),
        ) is Some,
    ensures
        ({
            let own = find_overwrite(
                channel.permission_overwrites,
                MEMBER_OVERWRITE,
                member_key(context, lookup),
            ).unwrap();
            let allow = permission_bits(own.allow);
            let deny = permission_bits(own.deny);
            let bits = effective_permissions_with(channel, context, lookup);
            &&& bits & allow == allow
            &&& bits & (deny & !allow) == 0
            &&& grants_view(allow) ==> grants_view(bits)
            &&& grants_view(deny) && !grants_view(allow) ==> !grants_view(bits)
        }),
{
    let overwrites = channel.permission_overwrites;
    let own = find_overwrite(overwrites, MEMBER_OVERWRITE, member_key(context, lookup)).unwrap();
    let for_everyone = with_overwrite(
        granted_by_roles(context),
        find_overwrite(overwrites, ROLE_OVERWRITE, context.everyone_role_id),
    );
    let for_roles = overwritten(
        for_everyone,
        allowed_by_role_overwrites(overwrites, context),
        denied_by_role_overwrites(overwrites, context),
    );
    lemma_overwritten_bits(for_roles, permission_bits(own.allow), permission_bits(own.deny));
}

/// A role overwrite that allows the view shows the channel to a member who
/// holds that role, whatever the overwrite for the role that every member
/// holds denies. The member's own overwrite, which has the last word, must
/// not take the view away again.
pub proof fn lemma_role_allow_shows_channel(
    channel: ChannelView,
    context: PermissionContextView,
    lookup: MemberLookup,
    role_id: Seq<char>,
)
    requires
        context.user_role_ids.contains(role_id),
        role_id != context.everyone_role_id,
        find_overwrite(channel.permission_overwrites, ROLE_OVERWRITE, role_id) matches Some(o)
            && grants_view(permission_bits(o.allow)),
        find_overwrite(
            channel.permission_overwrites,
            MEMBER_OVERWRITE,
            member_key(context, lookup),
        ) matches Some(own) ==> grants_view(permission_bits(own.allow)) || !grants_view(
            permission_bits(own.deny),
        ),
    ensures
        grants_view(effective_permissions_with(channel, context, lookup)),
{
    let overwrites = channel.permission_overwrites;
    let ids = context.user_role_ids;
    let k = choose|k: int| 0 <= k < ids.len() && ids[k] == role_id;
    let allow = permission_bits(find_overwrite(overwrites, ROLE_OVERWRITE, role_id).unwrap().allow);
    let allowed = allowed_by_role_overwrites(overwrites, context);
    let denied = denied_by_role_overwrites(overwrites, context);
    let for_everyone = with_overwrite(
        granted_by_roles(context),
        find_overwrite(overwrites, ROLE_OVERWRITE, context.everyone_role_id),
    );
    lemma_allowed_for_includes(ids, overwrites, context, k);
    lemma_joined_bits(allowed, 0, allow);
    lemma_overwritten_bits(for_everyone, allowed, denied);
    let for_roles = overwritten(for_everyone, allowed, denied);
    match find_overwrite(overwrites, MEMBER_OVERWRITE, member_key(context, lookup)) {
        Some(own) => {
            let (allow, deny) = (permission_bits(own.allow), permission_bits(own.deny));
            lemma_overwritten_bits(for_roles, allow, deny);
        },
        None => {},
    }
}

/// Where the overwrite for the role that every member holds denies the view,
/// the channel is hidden from a member unless an overwrite for one of the
/// member's roles, or the member's own, allows it.
pub proof fn lemma_everyone_deny_hides_channel(
    channel: ChannelView,
    context: PermissionContextView,
    lookup: MemberLookup,
)
    requires
        find_overwrite(
            channel.permission_overwrites,
            ROLE_OVERWRITE,
            context.everyone_role_id,
        ) matches Some(e) && grants_view(permission_bits(e.deny)) && !grants_view(
            permission_bits(e.allow),
        ),
        forall|k: int|
            0 <= k < context.user_role_ids.len() ==> (#[trigger] role_overwrite(
                channel.permission_overwrites,
                context,
                context.user_role_ids[k],
            ) matches Some(o) ==> !grants_view(permission_bits(o.allow))),
        find_overwrite(
            channel.permission_overwrites,
            MEMBER_OVERWRITE,
            member_key(context, lookup),
        ) matches Some(own) ==> !grants_view(permission_bits(own.allow)),
    ensures
        !grants_view(effective_permissions_with(channel, context, lookup)),
{
    let overwrites = channel.permission_overwrites;
    let everyone = find_overwrite(overwrites, ROLE_OVERWRITE, context.everyone_role_id).unwrap();
    let allowed = allowed_by_role_overwrites(overwrites, context);
    let denied = denied_by_role_overwrites(overwrites, context);
    let in_guild = granted_by_roles(context);
    let (allow, deny) = (permission_bits(everyone.allow), permission_bits(everyone.deny));
    lemma_overwritten_bits(in_guild, allow, deny);
    let for_everyone = with_overwrite(in_guild, Some(everyone));
    lemma_allowed_for_lacks_view(context.user_role_ids, overwrites, context);
    lemma_overwritten_bits(for_everyone, allowed, denied);
    let for_roles = overwritten(for_everyone, allowed, denied);
    match find_overwrite(overwrites, MEMBER_OVERWRITE, member_key(context, lookup)) {
        Some(own) => {
            let (allow, deny) = (permission_bits(own.allow), permission_bits(own.deny));
            lemma_overwritten_bits(for_roles, allow, deny);
        },
        None => {},
    }
}

/// Where the overwrite for the role that every member holds allows the view,
/// the channel is shown to a member unless an overwrite for one of the
/// member's roles, or the member's own, denies it. So it is shown to every
/// member who holds no other role and has no overwrite of their own.
pub proof fn lemma_everyone_allow_shows_channel(
    channel: ChannelView,
    context: PermissionContextView,
    lookup: MemberLookup,
)
    requires
        find_overwrite(
            channel.permission_overwrites,
            ROLE_OVERWRITE,
            context.everyone_role_id,
        ) matches Some(e) && grants_view(permission_bits(e.allow)),
        forall|k: int|
            0 <= k < context.user_role_ids.len() ==> (#[trigger] role_overwrite(
                channel.permission_overwrites,
                context,
                context.user_role_ids[k],
            ) matches Some(o) ==> !grants_view(permission_bits(o.deny))),
        find_overwrite(
            channel.permission_overwrites,
            MEMBER_OVERWRITE,
            member_key(context, lookup),
        ) matches Some(own) ==> grants_view(permission_bits(own.allow)) || !grants_view(
            permission_bits(own.deny),
        ),
    ensures
        grants_view(effective_permissions_with(channel, context, lookup)),
{
    let overwrites = channel.permission_overwrites;
    let everyone = find_overwrite(overwrites, ROLE_OVERWRITE, context.everyone_role_id).unwrap();
    let allowed = allowed_by_role_overwrites(overwrites, context);
    let denied = denied_by_role_overwrites(overwrites, context);
    let in_guild = granted_by_roles(context);
    let (allow, deny) = (permission_bits(everyone.allow), permission_bits(everyone.deny));
    lemma_overwritten_bits(in_guild, allow, deny);
    let for_everyone = with_overwrite(in_guild, Some(everyone));
    lemma_denied_for_lacks_view(context.user_role_ids, overwrites, context);
    lemma_overwritten_bits(for_everyone, allowed, denied);
    let for_roles = overwritten(for_everyone, allowed, denied);
    match find_overwrite(overwrites, MEMBER_OVERWRITE, member_key(context, lookup)) {
        Some(own) => {
            let (allow, deny) = (permission_bits(own.allow), permission_bits(own.deny));
            lemma_overwritten_bits(for_roles, allow, deny);
        },
        None => {},
    }
}

/// In a channel without overwrites a member holds what their roles grant in
/// the guild.
pub proof fn lemma_channel_without_overwrites(
    channel: ChannelView,
    context: PermissionContextView,
    lookup: MemberLookup,
)
    requires
        channel.permission_overwrites.len() == 0,
    ensures
        effective_permissions_with(channel, context, lookup) == granted_by_roles(context),
{
    lemma_no_role_overwrites(context.user_role_ids, channel.permission_overwrites, context);
    lemma_overwritten_bits(granted_by_roles(context), 0, 0);
}

/// A member who holds no role but the one that every member holds has the
/// bits of that role, changed by the channel's overwrite for that role and
/// then by the member's own.
pub proof fn lemma_member_without_roles(
    channel: ChannelView,
    context: PermissionContextView,
    lookup: MemberLookup,
)
    requires
        forall|k: int|
            0 <= k < context.user_role_ids.len() ==> #[trigger] context.user_role_ids[k]
                == context.everyone_role_id,
    ensures
        effective_permissions_with(channel, context, lookup) == with_overwrite(
            with_overwrite(
                role_permissions(context.all_guild_roles, context.everyone_role_id),
                find_overwrite(
                    channel.permission_overwrites,
                    ROLE_OVERWRITE,
                    context.everyone_role_id,
                ),
            ),
            find_overwrite(
                channel.permission_overwrites,
                MEMBER_OVERWRITE,
                member_key(context, lookup),
            ),
        ),
{
    let overwrites = channel.permission_overwrites;
    lemma_granted_by_everyone_only(context.user_role_ids, context);
    assert forall|k: int| 0 <= k < context.user_role_ids.len() implies #[trigger] role_overwrite(
        overwrites,
        context,
        context.user_role_ids[k],
    ) is None by {}
    lemma_no_role_overwrites(context.user_role_ids, overwrites, context);
    let for_everyone = with_overwrite(
        granted_by_roles(context),
        find_overwrite(overwrites, ROLE_OVERWRITE, context.everyone_role_id),
    );
    lemma_overwritten_bits(for_everyone, 0, 0);
}

/// The order in which the member's roles are listed does not matter: roles
/// are joined, not ranked. The member's own overwrite must be looked up under
/// the same id in either order.
pub proof fn lemma_role_order_does_not_matter(
    channel: ChannelView,
    context: PermissionContextView,
    reordered: Seq<Seq<char>>,
    lookup: MemberLookup,
)
    requires
        reordered.to_multiset() == context.user_role_ids.to_multiset(),
        member_key(PermissionContextView { user_role_ids: reordered, ..context }, lookup)
            == member_key(context, lookup),
    ensures
        effective_permissions_with(
            channel,
            PermissionContextView { user_role_ids: reordered, ..context },
            lookup,
        ) == effective_permissions_with(channel, context, lookup),
{
    let other = PermissionContextView { user_role_ids: reordered, ..context };
    let overwrites = channel.permission_overwrites;
    let ids = context.user_role_ids;
    let base = role_permissions(context.all_guild_roles, context.everyone_role_id);

    let join = |bits: u64, id: Seq<char>| with_role(bits, context, id);
    let join_other = |bits: u64, id: Seq<char>| with_role(bits, other, id);
    assert(join =~= join_other);
    assert forall|x: Seq<char>, y: Seq<char>, v: u64| #[trigger]
        join(join(v, x), y) == join(join(v, y), x) by {
        let a = role_permissions(context.all_guild_roles, x);
        let b = role_permissions(context.all_guild_roles, y);
        lemma_joined_bits(v, a, b);
    }
    assert(commutative_foldl(join));
    lemma_fold_left_permutation(reordered, ids, join, base);
    assert(granted_by_roles(other) == granted_by_roles(context));

    let deny = |bits: u64, id: Seq<char>|
        match role_overwrite(overwrites, context, id) {
            Some(overwrite) => bits | permission_bits(overwrite.deny),
            None => bits,
        };
    let deny_other = |bits: u64, id: Seq<char>|
        match role_overwrite(overwrites, other, id) {
            Some(overwrite) => bits | permission_bits(overwrite.deny),
            None => bits,
        };
    assert(deny =~= deny_other);
    assert forall|x: Seq<char>, y: Seq<char>, v: u64| #[trigger]
        deny(deny(v, x), y) == deny(deny(v, y), x) by {
        let a = match role_overwrite(overwrites, context, x) {
            Some(overwrite) => permission_bits(overwrite.deny),
            None => 0,
        };
        let b = match role_overwrite(overwrites, context, y) {
            Some(overwrite) => permission_bits(overwrite.deny),
            None => 0,
        };
        lemma_joined_bits(v, a, b);
    }
    assert(commutative_foldl(deny));
    lemma_fold_left_permutation(reordered, ids, deny, 0u64);
    assert(denied_by_role_overwrites(overwrites, other) == denied_by_role_overwrites(
        overwrites,
        context,
    ));

    let allow = |bits: u64, id: Seq<char>|
        match role_overwrite(overwrites, context, id) {
            Some(overwrite) => bits | permission_bits(overwrite.allow),
            None => bits,
        };
    let allow_other = |bits: u64, id: Seq<char>|
        match role_overwrite(overwrites, other, id) {
            Some(overwrite) => bits | permission_bits(overwrite.allow),
            None => bits,
        };
    assert(allow =~= allow_other);
    assert forall|x: Seq<char>, y: Seq<char>, v: u64| #[trigger]
        allow(allow(v, x), y) == allow(allow(v, y), x) by {
        let a = match role_overwrite(overwrites, context, x) {
            Some(overwrite) => permission_bits(overwrite.allow),
            None => 0,
        };
        let b = match role_overwrite(overwrites, context, y) {
            Some(overwrite) => permission_bits(overwrite.allow),
            None => 0,
        };
        lemma_joined_bits(v, a, b);
    }
    assert(commutative_foldl(allow));
    lemma_fold_left_permutation(reordered, ids, allow, 0u64);
    assert(allowed_by_role_overwrites(overwrites, other) == allowed_by_role_overwrites(
        overwrites,
        context,
    ));
}

} // verus!
