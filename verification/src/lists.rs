//! Lists: where each item of a list stands in it.

use vstd::prelude::*;

verus! {

/// A list of items, with or without dividers between them.
#[derive(Clone, Copy, Debug, Default, PartialEq, Eq, Structural)]
pub struct Lists {
    pub divider: bool,
}

/// Where an item stands in its list.
#[derive(Clone, Copy, Debug, PartialEq, Eq, Structural)]
pub enum EdgePosition {
    Frist,
    Last,
    /// Neither the first nor the last.
    Middle,
}

/// What the style of an item is told of its list.
#[derive(Clone, Copy, Debug, PartialEq, Eq, Structural)]
pub struct ListItemStyle {
    pub divider: bool,
    pub edge: EdgePosition,
}

/// The first line of an item.
#[derive(Debug, PartialEq, Eq)]
pub struct HeadlineText(pub String);

impl HeadlineText {
    pub fn new(v: &str) -> (text: HeadlineText)
        ensures
            text.0@ == v@,
    {
        HeadlineText(String::from_str(v))
    }
}

/// The line below the first line of an item.
#[derive(Debug, PartialEq, Eq)]
pub struct SupportingText(pub String);

impl SupportingText {
    pub fn new(v: &str) -> (text: SupportingText)
        ensures
            text.0@ == v@,
    {
        SupportingText(String::from_str(v))
    }
}

/// An item of a list.
#[derive(Clone, Copy, Debug, Default, PartialEq, Eq, Structural)]
pub struct ListItem;

/// Where the item `idx` stands in a list whose last item is `last_idx`: the
/// only item of a list is its first.
pub open spec fn edge_at(idx: int, last_idx: int) -> EdgePosition {
    if idx == 0 {
        EdgePosition::Frist
    } else if idx == last_idx {
        EdgePosition::Last
    } else {
        EdgePosition::Middle
    }
}

impl Lists {
    /// The styles of the items of a list of `count` items, one for each:
    /// every item is told whether the list has dividers, and where it
    /// stands.
    pub fn item_styles(&self, count: usize) -> (styles: Vec<ListItemStyle>)
        requires
            count > 0,
        ensures
            styles@.len() == count,
            forall|idx: int|
                0 <= idx < count ==> #[trigger] styles@[idx] == (ListItemStyle {
                    divider: self.divider,
                    edge: edge_at(idx, count - 1),
                }),
    {
        let last_idx = count - 1;
        let mut styles: Vec<ListItemStyle> = Vec::new();
        let mut idx: usize = 0;
        while idx < count
            invariant
                idx <= count,
                last_idx == count - 1,
                styles@.len() == idx,
                forall|k: int|
                    0 <= k < idx ==> #[trigger] styles@[k] == (ListItemStyle {
                        divider: self.divider,
                        edge: edge_at(k, count - 1),
                    }),
            decreases count - idx,
        {
            let edge = if idx == 0 {
                EdgePosition::Frist
            } else if idx == last_idx {
                EdgePosition::Last
            } else {
                EdgePosition::Middle
            };
            styles.push(ListItemStyle { divider: self.divider, edge });
            idx += 1;
        }
        styles
    }
}

} // verus!
