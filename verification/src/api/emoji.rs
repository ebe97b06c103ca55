//! A custom emoji of a guild.

use vstd::prelude::*;

verus! {

/// An emoji, as the service describes one. `animated` is absent where the
/// service does not say.
#[derive(Debug)]
pub struct Emoji {
    pub id: String,
    pub name: String,
    pub animated: Option<bool>,
}

/// An `Emoji` as a mathematical value.
pub ghost struct EmojiView {
    pub id: Seq<char>,
    pub name: Seq<char>,
    pub animated: Option<bool>,
}

impl View for Emoji {
    type V = EmojiView;

    open spec fn view(&self) -> EmojiView {
        EmojiView { id: self.id@, name: self.name@, animated: self.animated }
    }
}

impl DeepView for Emoji {
    type V = EmojiView;

    open spec fn deep_view(&self) -> EmojiView {
        self@
    }
}

impl Clone for Emoji {
    fn clone(&self) -> (res: Self)
        ensures
            res@ == self@,
    {
        Emoji { id: self.id.clone(), name: self.name.clone(), animated: self.animated }
    }
}

} // verus!
