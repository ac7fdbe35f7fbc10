//! Focus: which nodes can take the keyboard focus, and who hears of it.

use vstd::prelude::*;
use crate::registry::CallbackId;

verus! {

/// What happens to the focus of a node.
#[derive(Clone, Copy, Debug, PartialEq, Eq, Structural)]
pub enum FocusEventType {
    /// The node has received focus. Does not bubble.
    Focus,
    /// The node has lost focus. Does not bubble.
    Blur,
    /// The node is about to receive focus. Bubbles.
    FocusIn,
    /// The node is about to lose focus. Bubbles.
    FocusOut,
}

/// One listener to the focus events of a node.
#[derive(Clone, Copy, Debug, PartialEq, Eq, Structural)]
pub struct FocusHandler {
    pub event_type: FocusEventType,
    pub callback: CallbackId,
}

/// What makes a node focusable.
#[derive(Debug, PartialEq, Eq)]
pub struct FocusAttr {
    /// Where the node stands in the order of keyboard navigation. A negative
    /// index keeps it out of that order; nodes of index zero come behind
    /// those of a positive index; nodes of a positive index come in the
    /// order of their indices.
    pub tab_index: i16,
    /// Whether the node takes the focus when the window loads.
    pub auto_focus: bool,
    /// Those who listen to the focus events of the node.
    pub handlers: Vec<FocusHandler>,
}

/// A widget that can take the focus.
#[derive(Debug, PartialEq, Eq)]
pub struct FocusListener<W> {
    pub widget: W,
    pub attr: FocusAttr,
}

/// What focus can be attached to: a widget, or one that is focusable
/// already.
#[derive(Debug, PartialEq, Eq)]
pub enum Attach<W> {
    Widget(W),
    Focusable(FocusListener<W>),
}

/// The callbacks of the handlers of `handlers` for events of the type
/// `event_type`, in their order.
pub open spec fn called(handlers: Seq<FocusHandler>, event_type: FocusEventType) -> Seq<CallbackId>
    decreases handlers.len(),
{
    if handlers.len() == 0 {
        Seq::empty()
    } else if handlers.last().event_type == event_type {
        called(handlers.drop_last(), event_type).push(handlers.last().callback)
    } else {
        called(handlers.drop_last(), event_type)
    }
}

impl FocusAttr {
    /// The listeners, in the order in which they were registered.
    pub open spec fn handlers(&self) -> Seq<FocusHandler> {
        self.handlers@
    }

    /// The attribute of a node that nobody listens to yet. The index is 0
    /// and the node does not take the focus by itself, unless told
    /// otherwise.
    pub fn new(auto_focus: Option<bool>, tab_index: Option<i16>) -> (attr: FocusAttr)
        ensures
            attr.tab_index == match tab_index {
                Some(i) => i,
                None => 0i16,
            },
            attr.auto_focus == match auto_focus {
                Some(b) => b,
                None => false,
            },
            attr.handlers() == Seq::<FocusHandler>::empty(),
    {
        FocusAttr {
            tab_index: match tab_index {
                Some(i) => i,
                None => 0,
            },
            auto_focus: match auto_focus {
                Some(b) => b,
                None => false,
            },
            handlers: Vec::new(),
        }
    }

    /// The callbacks to call for an event of the type `event_type`: those
    /// registered for that type, in the order of their registration.
    pub fn dispatch(&self, event_type: FocusEventType) -> (calls: Vec<CallbackId>)
        ensures
            calls@ == called(self.handlers(), event_type),
    {
        let mut calls: Vec<CallbackId> = Vec::new();
        let mut i: usize = 0;
        while i < self.handlers.len()
            invariant
                i <= self.handlers.len(),
                calls@ == called(self.handlers@.take(i as int), event_type),
            decreases self.handlers.len() - i,
        {
            proof {
                assert(self.handlers@.take(i + 1).drop_last() =~= self.handlers@.take(i as int));
            }
            let h = self.handlers[i];
            if h.event_type == event_type {
                calls.push(h.callback);
            }
            i += 1;
        }
        assert(self.handlers@.take(i as int) =~= self.handlers@);
        calls
    }
}

impl<W> FocusListener<W> {
    /// Makes `widget` focusable. A widget that is focusable already stays as
    /// it is: neither its index nor its listeners change.
    pub fn from_widget(widget: Attach<W>, auto_focus: Option<bool>, tab_index: Option<i16>) -> (me:
        FocusListener<W>)
        ensures
            match widget {
                Attach::Focusable(had) => me == had,
                Attach::Widget(w) => {
                    &&& me.widget == w
                    &&& me.attr.tab_index == match tab_index {
                        Some(i) => i,
                        None => 0i16,
                    }
                    &&& me.attr.auto_focus == match auto_focus {
                        Some(b) => b,
                        None => false,
                    }
                    &&& me.attr.handlers() == Seq::<FocusHandler>::empty()
                },
            },
    {
        match widget {
            Attach::Focusable(had) => had,
            Attach::Widget(w) => FocusListener { widget: w, attr: FocusAttr::new(auto_focus, tab_index) },
        }
    }

    /// Makes `base` focusable and registers `handler` for its events of the
    /// type `event_type`, behind the listeners that it has.
    pub fn listen_on(base: Attach<W>, event_type: FocusEventType, handler: CallbackId) -> (me:
        FocusListener<W>)
        ensures
            match base {
                Attach::Focusable(had) => {
                    &&& me.widget == had.widget
                    &&& me.attr.tab_index == had.attr.tab_index
                    &&& me.attr.auto_focus == had.attr.auto_focus
                    &&& me.attr.handlers() == had.attr.handlers().push(
                        FocusHandler { event_type, callback: handler },
                    )
                },
                Attach::Widget(w) => {
                    &&& me.widget == w
                    &&& me.attr.tab_index == 0
                    &&& !me.attr.auto_focus
                    &&& me.attr.handlers() == seq![FocusHandler { event_type, callback: handler }]
                },
            },
    {
        let mut me = Self::from_widget(base, None, None);
        me.attr.handlers.push(FocusHandler { event_type, callback: handler });
        proof {
            assert(Seq::<FocusHandler>::empty().push(FocusHandler { event_type, callback: handler })
                =~= seq![FocusHandler { event_type, callback: handler }]);
        }
        me
    }

    /// The listeners to the focus events of the widget.
    pub fn focus_event_observable(&self) -> (handlers: &Vec<FocusHandler>)
        ensures
            handlers@ == self.attr.handlers(),
    {
        &self.attr.handlers
    }

    pub fn is_auto_focus(&self) -> (b: bool)
        ensures
            b == self.attr.auto_focus,
    {
        self.attr.auto_focus
    }

    pub fn tab_index(&self) -> (i: i16)
        ensures
            i == self.attr.tab_index,
    {
        self.attr.tab_index
    }
}

} // verus!
