use vstd::prelude::*;
use vstd::pervasive::VecAdditionalExecFns;
use crate::handle::NodeHandle;
use crate::message::{ButtonMessage, UiMessage, UiMessageData, WidgetMessage};
use crate::node::UiNode;
use crate::widget::{spec_after_routed_message, spec_is_raw_copy, Widget, WidgetBuilder};

verus! {

/// One tab of a tab control: the handle of the button that activates it
/// and the handle of the content pane it shows. Either becomes the null
/// handle when the referenced node is removed from the arena.
#[derive(Clone, Copy, PartialEq, Eq, Structural, Debug)]
pub struct Tab {
    pub header_button: NodeHandle,
    pub content: NodeHandle,
}

/// A composite widget that coordinates visibility among sibling content
/// panes: clicking a tab's header makes exactly that tab's content
/// visible.
pub struct TabControl {
    pub widget: Widget,
    pub tabs: Vec<Tab>,
}

/// The construction parameters of one tab: a header node and a content
/// node, both already inserted into the arena.
#[derive(Clone, Copy, PartialEq, Eq, Structural, Debug)]
pub struct TabDefinition {
    pub header: NodeHandle,
    pub content: NodeHandle,
}

/// An old-to-new handle mapping, used to rewrite internal references
/// after a bulk clone or load.
pub struct NodeHandleMapping {
    pub entries: Vec<(NodeHandle, NodeHandle)>,
}

/// Whether some entry of the mapping has `key` as its first component.
pub open spec fn mapping_contains(s: Seq<(NodeHandle, NodeHandle)>, key: NodeHandle) -> bool {
    exists|i: int| 0 <= i < s.len() && (#[trigger] s[i]).0 == key
}

/// The position of the first entry for `key`; meaningful only when one
/// exists.
pub open spec fn mapping_first(s: Seq<(NodeHandle, NodeHandle)>, key: NodeHandle) -> int {
    choose|i: int|
        0 <= i < s.len() && (#[trigger] s[i]).0 == key && (forall|j: int|
            0 <= j < i ==> s[j].0 != key)
}

impl NodeHandleMapping {
    pub open spec fn spec_contains(self, key: NodeHandle) -> bool {
        mapping_contains(self.entries@, key)
    }

    /// The image of `key`: the second component of its first entry.
    pub open spec fn spec_get(self, key: NodeHandle) -> NodeHandle {
        self.entries@[mapping_first(self.entries@, key)].1
    }

    pub fn new() -> (r: NodeHandleMapping)
        ensures
            r.entries@ == Seq::<(NodeHandle, NodeHandle)>::empty(),
    {
        NodeHandleMapping { entries: Vec::new() }
    }

    pub fn insert(&mut self, key: NodeHandle, value: NodeHandle)
        ensures
            final(self).entries@ == old(self).entries@.push((key, value)),
    {
        self.entries.push((key, value));
    }

    /// Look `key` up; the first entry wins.
    pub fn get(&self, key: NodeHandle) -> (r: Option<NodeHandle>)
        ensures
            r is Some <==> self.spec_contains(key),
            r is Some ==> r.unwrap() == self.spec_get(key),
    {
        let mut i: usize = 0;
        let n = self.entries.len();
        while i < n
            invariant
                n == self.entries@.len(),
                i <= n,
                forall|j: int| 0 <= j < i ==> (#[trigger] self.entries@[j]).0 != key,
            decreases n - i,
        {
            if self.entries[i].0 == key {
                proof {
                    lemma_mapping_first(self.entries@, key, i as int);
                }
                return Some(self.entries[i].1);
            }
            i += 1;
        }
        None
    }
}

proof fn lemma_mapping_first(s: Seq<(NodeHandle, NodeHandle)>, key: NodeHandle, i: int)
    requires
        0 <= i < s.len(),
        s[i].0 == key,
        forall|j: int| 0 <= j < i ==> (#[trigger] s[j]).0 != key,
    ensures
        mapping_contains(s, key),
        mapping_first(s, key) == i,
{
    assert(mapping_contains(s, key)) by {
        assert((s[i]).0 == key);
    }
    assert(exists|k: int|
        0 <= k < s.len() && (#[trigger] s[k]).0 == key && (forall|j: int|
            0 <= j < k ==> s[j].0 != key)) by {
        assert(0 <= i < s.len() && (s[i]).0 == key && (forall|j: int|
            0 <= j < i ==> s[j].0 != key));
    }
    let k = mapping_first(s, key);
    if k < i {
        assert((s[k]).0 == key);
        assert(false);
    } else if k > i {
        assert((s[i]).0 != key);
        assert(false);
    }
}

/// True when this tab's header matches the clicked destination and both
/// of its references are still valid; a tab with a cleared reference
/// never reacts.
pub open spec fn tab_hit(t: Tab, destination: NodeHandle) -> bool {
    t.header_button == destination && t.header_button.is_some_spec() && t.content.is_some_spec()
}

/// Whether some tab reacts to a click addressed to `destination`.
pub open spec fn some_tab_hit(tabs: Seq<Tab>, destination: NodeHandle) -> bool {
    exists|i: int| 0 <= i < tabs.len() && tab_hit(#[trigger] tabs[i], destination)
}

/// The first tab that reacts; meaningful only when one does.
pub open spec fn first_tab_hit(tabs: Seq<Tab>, destination: NodeHandle) -> int {
    choose|i: int|
        0 <= i < tabs.len() && tab_hit(#[trigger] tabs[i], destination) && (forall|j: int|
            0 <= j < i ==> !tab_hit(tabs[j], destination))
}

/// One tab with any reference equal to the removed handle cleared.
pub open spec fn spec_tab_scrubbed(t: Tab, h: NodeHandle) -> Tab {
    Tab {
        header_button: if t.header_button == h {
            NodeHandle { index: 0u32, generation: 0u32 }
        } else {
            t.header_button
        },
        content: if t.content == h {
            NodeHandle { index: 0u32, generation: 0u32 }
        } else {
            t.content
        },
    }
}

/// The tab list after references to a removed node are scrubbed.
pub open spec fn spec_tabs_after_remove_ref(tabs: Seq<Tab>, h: NodeHandle) -> Seq<Tab> {
    Seq::new(tabs.len(), |i: int| spec_tab_scrubbed(tabs[i], h))
}

/// No two tabs share a live header handle; construction guarantees it,
/// and clearing a reference only ever writes the null handle.
pub open spec fn distinct_headers(tabs: Seq<Tab>) -> bool {
    forall|i: int, j: int|
        0 <= i < j < tabs.len() ==> !((#[trigger] tabs[i]).header_button == (#[trigger] tabs[
            j
        ]).header_button && tabs[i].header_button.is_some_spec())
}

impl TabControl {
    /// The visibility fan-out a click produces: when a still-valid tab's
    /// header is the destination, every tab's content gets a visibility
    /// message, true exactly for the activated tab.
    pub open spec fn spec_emitted(self, m: UiMessage) -> Seq<UiMessage> {
        if m.is_click() && some_tab_hit(self.tabs@, m.destination) {
            let hit = first_tab_hit(self.tabs@, m.destination);
            Seq::new(
                self.tabs@.len(),
                |j: int|
                    UiMessage {
                        destination: self.tabs@[j].content,
                        data: UiMessageData::Widget(WidgetMessage::Visibility(j == hit)),
                    },
            )
        } else {
            Seq::empty()
        }
    }

    /// Clear every tab reference that names the removed node, so the
    /// control never dereferences a dangling handle.
    pub fn remove_ref(&mut self, handle: NodeHandle)
        ensures
            final(self).widget == old(self).widget,
            final(self).tabs@ == spec_tabs_after_remove_ref(old(self).tabs@, handle),
    {
        let mut k: usize = 0;
        let n = self.tabs.len();
        while k < n
            invariant
                n == self.tabs@.len(),
                k <= n,
                self.widget == old(self).widget,
                self.tabs@.len() == n,
                forall|i: int|
                    0 <= i < k ==> self.tabs@[i] == spec_tab_scrubbed(old(self).tabs@[i], handle),
                forall|i: int| k <= i < n ==> self.tabs@[i] == old(self).tabs@[i],
            decreases n - k,
        {
            let t = self.tabs[k];
            let scrubbed = Tab {
                header_button: if t.header_button == handle {
                    NodeHandle::none()
                } else {
                    t.header_button
                },
                content: if t.content == handle {
                    NodeHandle::none()
                } else {
                    t.content
                },
            };
            self.tabs.set(k, scrubbed);
            k += 1;
        }
        proof {
            assert(self.tabs@ =~= spec_tabs_after_remove_ref(old(self).tabs@, handle));
        }
    }

    /// Apply a routed message: the embedded widget reacts as any widget
    /// does, and a click on a still-valid tab's header emits one
    /// visibility message per tab, true exactly for the clicked one, so
    /// at most one content pane stays visible once they are delivered.
    pub fn handle_routed_message(&mut self, message: &UiMessage) -> (emitted: Vec<UiMessage>)
        ensures
            final(self).widget == spec_after_routed_message(old(self).widget, *message),
            final(self).tabs == old(self).tabs,
            emitted@ == old(self).spec_emitted(*message),
            forall|j: int| 0 <= j < emitted@.len() ==> !(#[trigger] emitted@[j]).is_click(),
    {
        self.widget.handle_routed_message(message);

        let mut emitted: Vec<UiMessage> = Vec::new();
        match &message.data {
            UiMessageData::Button(ButtonMessage::Click) => {
                proof {
                    assert(message.is_click());
                }
                let n = self.tabs.len();
                let mut i: usize = 0;
                while i < n
                    invariant
                        n == self.tabs@.len(),
                        i <= n,
                        emitted@.len() == 0,
                        message.is_click(),
                        *self == old(self).spec_routed_self(*message),
                        forall|j: int| 0 <= j < i ==> !tab_hit(self.tabs@[j], message.destination),
                    decreases n - i,
                {
                    let tab = self.tabs[i];
                    if message.destination == tab.header_button && tab.header_button.is_some()
                        && tab.content.is_some() {
                        proof {
                            lemma_first_tab_hit(self.tabs@, message.destination, i as int);
                        }
                        let mut j: usize = 0;
                        while j < n
                            invariant
                                n == self.tabs@.len(),
                                j <= n,
                                i < n,
                                i == first_tab_hit(self.tabs@, message.destination),
                                some_tab_hit(self.tabs@, message.destination),
                                message.is_click(),
                                *self == old(self).spec_routed_self(*message),
                                emitted@.len() == j,
                                forall|q: int|
                                    0 <= q < j ==> emitted@[q] == (UiMessage {
                                        destination: self.tabs@[q].content,
                                        data: UiMessageData::Widget(
                                            WidgetMessage::Visibility(q == i as int),
                                        ),
                                    }),
                            decreases n - j,
                        {
                            emitted.push(
                                UiMessage::widget(
                                    self.tabs[j].content,
                                    WidgetMessage::Visibility(j == i),
                                ),
                            );
                            j += 1;
                        }
                        proof {
                            assert(emitted@ =~= old(self).spec_emitted(*message));
                        }
                        return emitted;
                    }
                    i += 1;
                }
            },
            UiMessageData::Widget(_) => {},
        }
        proof {
            assert(emitted@ =~= old(self).spec_emitted(*message));
        }
        emitted
    }

    /// The control after only the widget part of a routed message.
    pub open spec fn spec_routed_self(self, m: UiMessage) -> TabControl {
        TabControl { widget: spec_after_routed_message(self.widget, m), tabs: self.tabs }
    }

    /// A structural duplicate of the control: the embedded widget copied
    /// as any widget is, with an empty tab list; references into the old
    /// tree are resolved separately after a bulk clone.
    pub fn raw_copy(&self) -> (r: UiNode)
        ensures
            (r matches UiNode::Tabs(t) && spec_is_raw_copy(t.widget, self.widget) && t.tabs@
                =~= Seq::<Tab>::empty()),
    {
        UiNode::Tabs(TabControl { widget: self.widget.raw_copy(), tabs: Vec::new() })
    }

    /// Rewrite every tab reference through an old-to-new mapping, after
    /// a bulk clone or load.
    #[verifier::rlimit(50)]
    pub fn resolve(&mut self, node_map: &NodeHandleMapping)
        requires
            forall|i: int|
                0 <= i < old(self).tabs@.len() ==> node_map.spec_contains(
                    (#[trigger] old(self).tabs@[i]).header_button,
                ) && node_map.spec_contains(old(self).tabs@[i].content),
        ensures
            final(self).widget == old(self).widget,
            final(self).tabs@.len() == old(self).tabs@.len(),
            forall|i: int|
                0 <= i < old(self).tabs@.len() ==> final(self).tabs@[i] == (Tab {
                    header_button: node_map.spec_get((#[trigger] old(self).tabs@[i]).header_button),
                    content: node_map.spec_get(old(self).tabs@[i].content),
                }),
    {
        let mut k: usize = 0;
        let n = self.tabs.len();
        while k < n
            invariant
                n == self.tabs@.len(),
                k <= n,
                self.widget == old(self).widget,
                forall|i: int| k <= i < n ==> self.tabs@[i] == old(self).tabs@[i],
                forall|i: int|
                    0 <= i < n ==> node_map.spec_contains(
                        (#[trigger] old(self).tabs@[i]).header_button,
                    ) && node_map.spec_contains(old(self).tabs@[i].content),
                forall|i: int|
                    0 <= i < k ==> self.tabs@[i] == (Tab {
                        header_button: node_map.spec_get(
                            (#[trigger] old(self).tabs@[i]).header_button,
                        ),
                        content: node_map.spec_get(old(self).tabs@[i].content),
                    }),
            decreases n - k,
        {
            let t = self.tabs[k];
            let header = match node_map.get(t.header_button) {
                Some(h) => h,
                None => NodeHandle::none(),
            };
            let content = match node_map.get(t.content) {
                Some(h) => h,
                None => NodeHandle::none(),
            };
            self.tabs.set(k, Tab { header_button: header, content });
            k += 1;
        }
    }
}

proof fn lemma_first_tab_hit(tabs: Seq<Tab>, destination: NodeHandle, i: int)
    requires
        0 <= i < tabs.len(),
        tab_hit(tabs[i], destination),
        forall|j: int| 0 <= j < i ==> !tab_hit(tabs[j], destination),
    ensures
        some_tab_hit(tabs, destination),
        first_tab_hit(tabs, destination) == i,
{
    assert(some_tab_hit(tabs, destination)) by {
        assert(tab_hit(tabs[i], destination));
    }
    assert(exists|k: int|
        0 <= k < tabs.len() && tab_hit(#[trigger] tabs[k], destination) && (forall|j: int|
            0 <= j < k ==> !tab_hit(tabs[j], destination))) by {
        assert(0 <= i < tabs.len() && tab_hit(tabs[i], destination) && (forall|j: int|
            0 <= j < i ==> !tab_hit(tabs[j], destination)));
    }
    let k = first_tab_hit(tabs, destination);
    if k < i {
        assert(tab_hit(tabs[k], destination));
        assert(false);
    } else if k > i {
        assert(!tab_hit(tabs[i], destination));
        assert(false);
    }
}

/// Assembles a tab control: a widget configuration plus an ordered list
/// of tab definitions.
pub struct TabControlBuilder {
    pub widget_builder: WidgetBuilder,
    pub tabs: Vec<TabDefinition>,
}

impl TabControlBuilder {
    pub fn new(widget_builder: WidgetBuilder) -> (r: TabControlBuilder)
        ensures
            r.widget_builder == widget_builder,
            r.tabs@ == Seq::<TabDefinition>::empty(),
    {
        TabControlBuilder { widget_builder, tabs: Vec::new() }
    }

    pub fn with_tab(self, tab: TabDefinition) -> (r: TabControlBuilder)
        ensures
            r.widget_builder == self.widget_builder,
            r.tabs@ == self.tabs@.push(tab),
    {
        let mut r = self;
        r.tabs.push(tab);
        r
    }

}

} // verus!
