//! The category tree of a flat list of channels.
//!
//! A category is a channel that only groups others; a channel names its
//! category in `parent_id`. The tree lists every category with its channels
//! under it, in the order of the list, and after the categories the channels
//! that name no category. A channel that names a category which the list does
//! not hold has no place in the tree.

use vstd::prelude::*;
use crate::api::channel::{
    channel_views, clone_optional_text, Channel, ChannelView, CATEGORY_CHANNEL_TYPE,
};

verus! {

/// A channel list was empty where at least one channel is needed.
#[derive(Debug, Clone, Copy, PartialEq, Eq, Structural)]
pub struct EmptyInputError;

impl EmptyInputError {
    /// The error in words.
    pub fn message(&self) -> (text: String)
        ensures
            text@ == "Error: channels must not be empty."@,
    {
        "Error: channels must not be empty.".to_string()
    }
}

/// Whether a channel is a category.
pub open spec fn is_category(channel: ChannelView) -> bool {
    channel.channel_type == CATEGORY_CHANNEL_TYPE
}

/// The channels that name `category_id` as their category, in the order of
/// the list.
pub open spec fn children_of(channels: Seq<ChannelView>, category_id: Seq<char>) -> Seq<
    ChannelView,
> {
    channels.filter(|channel: ChannelView| channel.parent_id == Some(category_id))
}

/// The node of a category in the tree of `channels`: the category itself,
/// naming no category of its own, with its channels under it.
pub open spec fn category_node(channels: Seq<ChannelView>, category: ChannelView) -> ChannelView {
    ChannelView {
        channel_type: CATEGORY_CHANNEL_TYPE,
        parent_id: None,
        children: Some(children_of(channels, category.id)),
        ..category
    }
}

/// The nodes of the categories among `listed`, each with its channels from
/// `channels` under it, in the order of `listed`.
pub open spec fn category_nodes_among(channels: Seq<ChannelView>, listed: Seq<ChannelView>) -> Seq<
    ChannelView,
> {
    listed.filter(|channel: ChannelView| is_category(channel)).map_values(
        |category: ChannelView| category_node(channels, category),
    )
}

/// The nodes of all categories of `channels`.
pub open spec fn category_nodes(channels: Seq<ChannelView>) -> Seq<ChannelView> {
    category_nodes_among(channels, channels)
}

/// The channels that are no category and name none, in the order of the list.
pub open spec fn uncategorized(channels: Seq<ChannelView>) -> Seq<ChannelView> {
    channels.filter(|channel: ChannelView| !is_category(channel) && channel.parent_id is None)
}

/// The tree of `channels`: the category nodes, then the channels without a
/// category.
pub open spec fn channel_tree(channels: Seq<ChannelView>) -> Seq<ChannelView> {
    category_nodes(channels) + uncategorized(channels)
}

/// Viewing a list with one more channel adds that channel's view.
proof fn lemma_channel_views_push(channels: Seq<Channel>, channel: Channel)
    ensures
        channel_views(channels.push(channel)) == channel_views(channels).push(channel@),
{
    assert(channel_views(channels.push(channel)) =~= channel_views(channels).push(channel@));
}

/// The views of the first channels of a list, one more at a time.
proof fn lemma_channel_views_take(channels: Seq<Channel>, i: int)
    requires
        0 <= i < channels.len(),
    ensures
        channel_views(channels).take(i + 1) == channel_views(channels).take(i).push(channels[i]@),
{
    assert(channel_views(channels).take(i + 1) =~= channel_views(channels).take(i).push(
        channels[i]@,
    ));
}

/// Whether a channel names `category_id` as its category.
fn names_category(channel: &Channel, category_id: &String) -> (named: bool)
    ensures
        named == (channel@.parent_id == Some(category_id@)),
{
    match &channel.parent_id {
        Some(parent) => *parent == *category_id,
        None => false,
    }
}

/// Copies of the channels that name `category_id` as their category.
fn collect_children(channels: &Vec<Channel>, category_id: &String) -> (children: Vec<Channel>)
    ensures
        channel_views(children@) == children_of(channel_views(channels@), category_id@),
{
    let ghost all = channel_views(channels@);
    let mut children: Vec<Channel> = Vec::new();
    let mut i: usize = 0;
    proof {
        reveal(Seq::filter);
        assert(all.take(0) =~= Seq::<ChannelView>::empty());
        assert(channel_views(children@) =~= Seq::<ChannelView>::empty());
    }
    while i < channels.len()
        invariant
            i <= channels.len(),
            all == channel_views(channels@),
            channel_views(children@) == children_of(all.take(i as int), category_id@),
        decreases channels.len() - i,
    {
        proof {
            lemma_channel_views_take(channels@, i as int);
            all.take(i as int).lemma_filter_push(
                channels[i as int]@,
                |channel: ChannelView| channel.parent_id == Some(category_id@),
            );
        }
        if names_category(&channels[i], category_id) {
            let child = channels[i].clone();
            proof {
                lemma_channel_views_push(children@, child);
            }
            children.push(child);
        }
        i += 1;
    }
    assert(all.take(channels.len() as int) =~= all);
    children
}

impl Channel {
    /// Arranges a flat list of channels into its category tree. The list must
    /// hold at least one channel.
    pub fn filter_channels_by_categories(channels: Vec<Channel>) -> (result: Result<
        Vec<Channel>,
        EmptyInputError,
    >)
        ensures
            match result {
                Ok(tree) => channels.len() > 0 && channel_views(tree@) == channel_tree(
                    channel_views(channels@),
                ),
                Err(_) => channels.len() == 0,
            },
    {
        if channels.len() == 0 {
            return Err(EmptyInputError);
        }
        let ghost all = channel_views(channels@);
        let mut tree: Vec<Channel> = Vec::new();
        proof {
            reveal(Seq::filter);
            assert(all.take(0) =~= Seq::<ChannelView>::empty());
            assert(channel_views(tree@) =~= category_nodes_among(all, all.take(0)));
        }

        let mut i: usize = 0;
        while i < channels.len()
            invariant
                i <= channels.len(),
                all == channel_views(channels@),
                channel_views(tree@) == category_nodes_among(all, all.take(i as int)),
            decreases channels.len() - i,
        {
            let category = &channels[i];
            proof {
                lemma_channel_views_take(channels@, i as int);
                all.take(i as int).lemma_filter_push(
                    category@,
                    |channel: ChannelView| is_category(channel),
                );
            }
            if category.channel_type == CATEGORY_CHANNEL_TYPE {
                let children = collect_children(&channels, &category.id);
                let node = Channel {
                    id: category.id.clone(),
                    name: category.name.clone(),
                    channel_type: CATEGORY_CHANNEL_TYPE,
                    guild_id: clone_optional_text(&category.guild_id),
                    parent_id: None,
                    permission_overwrites: category.permission_overwrites.clone(),
                    children: Some(children),
                };
                proof {
                    assert(node.permission_overwrites.deep_view()
                        =~= category.permission_overwrites.deep_view());
                    assert(node@ == category_node(all, category@));
                    lemma_channel_views_push(tree@, node);
                    assert(category_nodes_among(all, all.take(i + 1)) =~= category_nodes_among(
                        all,
                        all.take(i as int),
                    ).push(node@));
                }
                tree.push(node);
            }
            i += 1;
        }
        assert(all.take(channels.len() as int) =~= all);

        let mut i: usize = 0;
        proof {
            assert(channel_views(tree@) =~= category_nodes(all) + uncategorized(all.take(0)));
        }
        while i < channels.len()
            invariant
                i <= channels.len(),
                all == channel_views(channels@),
                channel_views(tree@) == category_nodes(all) + uncategorized(all.take(i as int)),
            decreases channels.len() - i,
        {
            let channel = &channels[i];
            proof {
                lemma_channel_views_take(channels@, i as int);
                all.take(i as int).lemma_filter_push(
                    channel@,
                    |channel: ChannelView| !is_category(channel) && channel.parent_id is None,
                );
            }
            if channel.channel_type != CATEGORY_CHANNEL_TYPE && channel.parent_id.is_none() {
                let copy = channel.clone();
                proof {
                    lemma_channel_views_push(tree@, copy);
                    assert(category_nodes(all) + uncategorized(all.take(i + 1)) =~= (category_nodes(
                        all,
                    ) + uncategorized(all.take(i as int))).push(copy@));
                }
                tree.push(copy);
            }
            i += 1;
        }
        assert(all.take(channels.len() as int) =~= all);
        Ok(tree)
    }
}

/// What stands in the tree: each entry at the top names no category, each
/// category node stands for a category of the list, and each channel under a
/// node is a channel of the list that names the node's category.
pub proof fn lemma_tree_entries(channels: Seq<ChannelView>)
    ensures
        forall|k: int|
            0 <= k < channel_tree(channels).len() ==> (#[trigger] channel_tree(
                channels,
            )[k]).parent_id is None,
        forall|k: int|
            0 <= k < category_nodes(channels).len() ==> exists|i: int|
                0 <= i < channels.len() && is_category(channels[i]) && #[trigger] category_nodes(
                    channels,
                )[k] == category_node(channels, channels[i]),
        forall|k: int, c: int|
            0 <= k < category_nodes(channels).len() && 0 <= c < category_nodes(
                channels,
            )[k].children.unwrap().len() ==> {
                let child = #[trigger] category_nodes(channels)[k].children.unwrap()[c];
                channels.contains(child) && child.parent_id == Some(category_nodes(channels)[k].id)
            },
{
    let categories = channels.filter(|channel: ChannelView| is_category(channel));
    let nodes = category_nodes(channels);
    assert forall|k: int| 0 <= k < nodes.len() implies exists|i: int|
        0 <= i < channels.len() && is_category(channels[i]) && #[trigger] nodes[k] == category_node(
            channels,
            channels[i],
        ) by {
        channels.lemma_filter_pred(|channel: ChannelView| is_category(channel), k);
        assert(categories.contains(categories[k]));
        channels.lemma_filter_contains_rev(
            |channel: ChannelView| is_category(channel),
            categories[k],
        );
        let i = channels.index_of(categories[k]);
        assert(nodes[k] == category_node(channels, channels[i]));
    }
    assert forall|k: int| 0 <= k < channel_tree(channels).len() implies (#[trigger] channel_tree(
        channels,
    )[k]).parent_id is None by {
        if k >= nodes.len() {
            channels.lemma_filter_pred(
                |channel: ChannelView| !is_category(channel) && channel.parent_id is None,
                k - nodes.len(),
            );
        }
    }
    assert forall|k: int, c: int|
        0 <= k < nodes.len() && 0 <= c < nodes[k].children.unwrap().len() implies {
        let child = #[trigger] nodes[k].children.unwrap()[c];
        channels.contains(child) && child.parent_id == Some(nodes[k].id)
    } by {
        let id = categories[k].id;
        let under = children_of(channels, id);
        channels.lemma_filter_pred(|channel: ChannelView| channel.parent_id == Some(id), c);
        assert(under.contains(under[c]));
        channels.lemma_filter_contains_rev(
            |channel: ChannelView| channel.parent_id == Some(id),
            under[c],
        );
    }
}

/// Every category of the list has its node in the tree.
pub proof fn lemma_category_has_node(channels: Seq<ChannelView>, i: int)
    requires
        0 <= i < channels.len(),
        is_category(channels[i]),
    ensures
        channel_tree(channels).contains(category_node(channels, channels[i])),
{
    let categories = channels.filter(|channel: ChannelView| is_category(channel));
    channels.lemma_filter_contains(|channel: ChannelView| is_category(channel), i);
    let k = categories.index_of(channels[i]);
    assert(channel_tree(channels)[k] == category_node(channels, channels[i]));
}

/// A category that no channel of the list names still has its node in the
/// tree, with no channel under it.
pub proof fn lemma_childless_category_is_kept(channels: Seq<ChannelView>, i: int)
    requires
        0 <= i < channels.len(),
        is_category(channels[i]),
        forall|j: int|
            0 <= j < channels.len() ==> (#[trigger] channels[j]).parent_id != Some(
                channels[i].id,
            ),
    ensures
        channel_tree(channels).contains(
            ChannelView { parent_id: None, children: Some(Seq::empty()), ..channels[i] },
        ),
{
    let id = channels[i].id;
    let under = children_of(channels, id);
    if under.len() > 0 {
        channels.lemma_filter_pred(|channel: ChannelView| channel.parent_id == Some(id), 0);
        assert(under.contains(under[0]));
        channels.lemma_filter_contains_rev(
            |channel: ChannelView| channel.parent_id == Some(id),
            under[0],
        );
        let j = channels.index_of(under[0]);
        assert(channels[j].parent_id == Some(id));
    }
    assert(under =~= Seq::<ChannelView>::empty());
    lemma_category_has_node(channels, i);
}

/// A channel that names a category which the list does not hold has no place
/// in the tree: it stands neither at the top nor under any category node.
pub proof fn lemma_dangling_parent_is_dropped(channels: Seq<ChannelView>, channel: ChannelView)
    requires
        channel.parent_id is Some,
        forall|j: int|
            0 <= j < channels.len() && is_category(#[trigger] channels[j]) ==> Some(channels[j].id)
                != channel.parent_id,
    ensures
        !uncategorized(channels).contains(channel),
        !channel_tree(channels).contains(channel),
        forall|k: int|
            0 <= k < category_nodes(channels).len() ==> !(#[trigger] category_nodes(
                channels,
            )[k]).children.unwrap().contains(channel),
{
    lemma_tree_entries(channels);
    let nodes = category_nodes(channels);
    let loose = uncategorized(channels);
    if channel_tree(channels).contains(channel) {
        let k = channel_tree(channels).index_of(channel);
        assert(channel_tree(channels)[k].parent_id is None);
    }
    if loose.contains(channel) {
        let k = loose.index_of(channel);
        assert(channel_tree(channels)[nodes.len() + k] == channel);
    }
    assert forall|k: int| 0 <= k < nodes.len() implies !(
    #[trigger] nodes[k]).children.unwrap().contains(channel) by {
        let under = nodes[k].children.unwrap();
        if under.contains(channel) {
            let c = under.index_of(channel);
            assert(under[c].parent_id == Some(nodes[k].id));
            let i = choose|i: int|
                0 <= i < channels.len() && is_category(channels[i]) && nodes[k] == category_node(
                    channels,
                    channels[i],
                );
            assert(is_category(channels[i]));
        }
    }
}

/// The tree has one level below its top: where no listed channel has
/// channels under it, neither has a channel under a category node, nor a
/// channel without a category.
pub proof fn lemma_tree_has_one_level(channels: Seq<ChannelView>)
    requires
        forall|i: int| 0 <= i < channels.len() ==> (#[trigger] channels[i]).children is None,
    ensures
        forall|k: int, c: int|
            0 <= k < category_nodes(channels).len() && 0 <= c < category_nodes(
                channels,
            )[k].children.unwrap().len() ==> (#[trigger] category_nodes(
                channels,
            )[k].children.unwrap()[c]).children is None,
        forall|k: int|
            0 <= k < uncategorized(channels).len() ==> (#[trigger] uncategorized(
                channels,
            )[k]).children is None,
{
    lemma_tree_entries(channels);
    let nodes = category_nodes(channels);
    let loose = uncategorized(channels);
    assert forall|k: int, c: int|
        0 <= k < nodes.len() && 0 <= c < nodes[k].children.unwrap().len() implies (
    #[trigger] nodes[k].children.unwrap()[c]).children is None by {
        let child = nodes[k].children.unwrap()[c];
        let i = channels.index_of(child);
        assert(channels[i] == child);
    }
    assert forall|k: int| 0 <= k < loose.len() implies (#[trigger] loose[k]).children is None by {
        assert(loose.contains(loose[k]));
        channels.lemma_filter_contains_rev(
            |channel: ChannelView| !is_category(channel) && channel.parent_id is None,
            loose[k],
        );
        let i = channels.index_of(loose[k]);
        assert(channels[i] == loose[k]);
    }
}

} // verus!
