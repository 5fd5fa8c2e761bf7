use vstd::prelude::*;
use crate::handle::NodeHandle;
use crate::message::UiMessage;
use crate::tab_control::{spec_tabs_after_remove_ref, Tab, TabControl};
use crate::widget::{spec_after_routed_message, Widget};

verus! {

/// The closed set of node kinds the tree can hold: the generic widget
/// base, and the tab control as the composite exemplar. Every kind
/// embeds a `Widget`; kind-specific behavior is dispatched by matching.
pub enum UiNode {
    Base(Widget),
    Tabs(TabControl),
}

impl UiNode {
    /// The embedded widget state of this node.
    pub open spec fn spec_widget(self) -> Widget {
        match self {
            UiNode::Base(w) => w,
            UiNode::Tabs(t) => t.widget,
        }
    }

    /// The tab list of this node; empty for kinds without tabs.
    pub open spec fn spec_tabs(self) -> Seq<Tab> {
        match self {
            UiNode::Base(_) => Seq::empty(),
            UiNode::Tabs(t) => t.tabs@,
        }
    }

    /// This node with its embedded widget replaced.
    pub open spec fn spec_with_widget(self, w: Widget) -> UiNode {
        match self {
            UiNode::Base(_) => UiNode::Base(w),
            UiNode::Tabs(t) => UiNode::Tabs(TabControl { widget: w, ..t }),
        }
    }

    /// The node state after a routed message: the embedded widget reacts
    /// to widget-category messages, and a tab control additionally
    /// reacts to clicks (its emissions are stated separately).
    pub open spec fn spec_after_routed(self, m: UiMessage) -> UiNode {
        self.spec_with_widget(spec_after_routed_message(self.spec_widget(), m))
    }

    /// The messages a node emits in response to a routed message.
    pub open spec fn spec_emitted(self, m: UiMessage) -> Seq<UiMessage> {
        match self {
            UiNode::Base(_) => Seq::empty(),
            UiNode::Tabs(t) => t.spec_emitted(m),
        }
    }

    pub fn widget(&self) -> (r: &Widget)
        ensures
            *r == self.spec_widget(),
    {
        match self {
            UiNode::Base(w) => w,
            UiNode::Tabs(t) => &t.widget,
        }
    }

    pub fn widget_mut(&mut self) -> (r: &mut Widget)
        ensures
            *r == old(self).spec_widget(),
            *final(self) == old(self).spec_with_widget(*final(r)),
    {
        match self {
            UiNode::Base(w) => w,
            UiNode::Tabs(t) => &mut t.widget,
        }
    }

    /// Clear every reference this node holds to a removed node, so no
    /// dangling handle survives an arena removal. The embedded widget's
    /// own tree links are the arena's business, not this node's.
    pub fn remove_ref(&mut self, handle: NodeHandle)
        ensures
            (*final(self)) is Base <==> (*old(self)) is Base,
            final(self).spec_widget() == old(self).spec_widget(),
            final(self).spec_tabs() == spec_tabs_after_remove_ref(old(self).spec_tabs(), handle),
    {
        match self {
            UiNode::Base(_) => {
                proof {
                    assert(self.spec_tabs() =~= spec_tabs_after_remove_ref(
                        old(self).spec_tabs(),
                        handle,
                    ));
                }
            },
            UiNode::Tabs(t) => t.remove_ref(handle),
        }
    }

    /// Apply a routed message and collect the messages the node emits in
    /// response. Only a click on a tab header makes a node emit, and
    /// what it emits is never itself a click, so dispatch terminates.
    pub fn handle_routed_message(&mut self, message: &UiMessage) -> (emitted: Vec<UiMessage>)
        ensures
            *final(self) == old(self).spec_after_routed(*message),
            emitted@ == old(self).spec_emitted(*message),
            forall|j: int| 0 <= j < emitted@.len() ==> !(#[trigger] emitted@[j]).is_click(),
    {
        match self {
            UiNode::Base(w) => {
                w.handle_routed_message(message);
                Vec::new()
            },
            UiNode::Tabs(t) => t.handle_routed_message(message),
        }
    }
}

/// A closed set of search predicates for walks over the tree. The
/// original open-ended predicate is a call-site closure; a closed set
/// keeps the walk's contract exact.
pub enum Criterion {
    /// The node's debug label equals the given one.
    NameIs(String),
    /// The node accepts hit testing.
    HitTestVisible,
    /// The node allows being a drop target.
    AcceptsDrops,
}

/// Whether a node satisfies a search criterion.
pub open spec fn criterion_holds(c: Criterion, n: UiNode) -> bool {
    match c {
        Criterion::NameIs(s) => n.spec_widget().name@ == s@,
        Criterion::HitTestVisible => n.spec_widget().hit_test_visibility,
        Criterion::AcceptsDrops => n.spec_widget().allow_drop,
    }
}

/// Evaluate a search criterion on a node.
pub fn criterion_matches(c: &Criterion, n: &UiNode) -> (r: bool)
    ensures
        r == criterion_holds(*c, *n),
{
    match c {
        Criterion::NameIs(s) => *s == *n.widget().name(),
        Criterion::HitTestVisible => n.widget().is_hit_test_visible(),
        Criterion::AcceptsDrops => n.widget().is_drop_allowed(),
    }
}

} // verus!
