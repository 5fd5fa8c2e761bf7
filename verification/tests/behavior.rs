use fyrox_ui::geometry::{Position, Rect, Size};
use fyrox_ui::handle::NodeHandle;
use fyrox_ui::message::{UiMessage, WidgetMessage};
use fyrox_ui::node::UiNode;
use fyrox_ui::tab_control::{Tab, TabControl};
use fyrox_ui::ui::Ui;
use fyrox_ui::widget::WidgetBuilder;

fn base(builder: WidgetBuilder) -> UiNode {
    UiNode::Base(builder.build())
}

#[test]
fn set_width_is_clamped() {
    let mut w = WidgetBuilder::new()
        .with_min_size(Size::new(10, 10))
        .with_max_size(Size::new(100, 100))
        .build();
    w.set_width(5);
    assert_eq!(w.width(), Some(10));
    w.set_width(150);
    assert_eq!(w.width(), Some(100));
    w.set_width(42);
    assert_eq!(w.width(), Some(42));
    w.set_height(150);
    assert_eq!(w.height(), Some(100));
}

#[test]
fn tree_edits_invalidate_layout() {
    let mut w = WidgetBuilder::new().build();
    w.commit_measure(Size::new(1, 1), Size::new(1, 1));
    w.commit_arrange(Rect::new(0, 0, 1, 1));
    assert!(w.is_measure_valid() && w.is_arrange_valid());
    w.add_child(NodeHandle::new(5, 1));
    assert!(!w.is_measure_valid() && !w.is_arrange_valid());

    w.commit_measure(Size::new(1, 1), Size::new(1, 1));
    w.commit_arrange(Rect::new(0, 0, 1, 1));
    w.remove_child(NodeHandle::new(5, 1));
    assert!(!w.is_measure_valid() && !w.is_arrange_valid());

    // Removing an absent child also invalidates.
    w.commit_measure(Size::new(1, 1), Size::new(1, 1));
    w.commit_arrange(Rect::new(0, 0, 1, 1));
    w.remove_child(NodeHandle::new(9, 9));
    assert!(!w.is_measure_valid() && !w.is_arrange_valid());
}

#[test]
fn layout_message_invalidates_only_on_change() {
    let mut w = WidgetBuilder::new().with_visibility(true).build();
    let h = NodeHandle::new(3, 1);
    w.set_parent(NodeHandle::none());
    // Stamp the handle the way the arena would.
    let mut ui = Ui::new();
    let node = ui.insert(UiNode::Base(w));
    // Re-borrow to learn the handle, then work on a detached copy.
    let mut copy = ui.borrow(node).widget().raw_copy();
    copy.commit_measure(Size::new(1, 1), Size::new(1, 1));
    copy.commit_arrange(Rect::new(0, 0, 1, 1));
    assert!(copy.is_measure_valid() && copy.is_arrange_valid());
    // Same visibility: a no-op, flags keep their values.
    let msg = UiMessage::visibility(copy.handle(), true);
    copy.handle_routed_message(&msg);
    assert!(copy.is_measure_valid() && copy.is_arrange_valid());
    // Different visibility: both flags drop.
    let msg = UiMessage::visibility(copy.handle(), false);
    copy.handle_routed_message(&msg);
    assert!(!copy.is_measure_valid() && !copy.is_arrange_valid());
    let _ = h;
}

#[test]
fn width_message_is_clamped_too() {
    let mut ui = Ui::new();
    let h = ui.insert(base(
        WidgetBuilder::new()
            .with_min_size(Size::new(10, 10))
            .with_max_size(Size::new(100, 100)),
    ));
    let msg = UiMessage::widget(h, WidgetMessage::Width(500));
    ui.deliver(h, &msg);
    assert_eq!(ui.borrow(h).widget().width(), Some(100));
}

#[test]
fn raw_copy_round_trip() {
    let mut ui = Ui::new();
    let child = ui.insert(base(WidgetBuilder::new()));
    let h = ui.insert(base(
        WidgetBuilder::new()
            .with_width(17)
            .with_name("panel".to_string())
            .with_child(child),
    ));
    let original = ui.borrow(h).widget();
    let copy = original.raw_copy();
    assert!(copy.handle().is_none());
    assert_eq!(copy.width(), original.width());
    assert_eq!(copy.name(), original.name());
    assert_eq!(copy.background(), original.background());
    assert_eq!(copy.foreground(), original.foreground());
    assert_eq!(copy.children().len(), 1);
    assert_eq!(copy.children()[0], child);
    assert!(!copy.is_measure_valid() && !copy.is_arrange_valid());
}

#[test]
fn measure_takes_component_wise_max() {
    let mut ui = Ui::new();
    let a = ui.insert(base(WidgetBuilder::new().with_width(10).with_height(20)));
    let b = ui.insert(base(WidgetBuilder::new().with_width(30).with_height(5)));
    let parent = ui.insert(base(WidgetBuilder::new().with_child(a).with_child(b)));
    ui.measure(parent, Size::unbounded());
    assert_eq!(ui.borrow(a).widget().desired_size(), Size::new(10, 20));
    assert_eq!(ui.borrow(b).widget().desired_size(), Size::new(30, 5));
    assert_eq!(ui.borrow(parent).widget().desired_size(), Size::new(30, 20));
    assert!(ui.borrow(parent).widget().is_measure_valid());
}

#[test]
fn arrange_places_children_at_origin() {
    let mut ui = Ui::new();
    let a = ui.insert(base(WidgetBuilder::new()));
    let parent = ui.insert(base(WidgetBuilder::new().with_child(a)));
    ui.arrange(parent, Rect::new(7, 9, 40, 30));
    let pw = ui.borrow(parent).widget();
    assert_eq!(pw.actual_local_position(), Position::new(7, 9));
    assert_eq!(pw.actual_size(), Size::new(40, 30));
    assert_eq!(pw.screen_position(), Position::new(7, 9));
    assert!(pw.is_arrange_valid());
    let aw = ui.borrow(a).widget();
    assert_eq!(aw.actual_local_position(), Position::new(0, 0));
    assert_eq!(aw.actual_size(), Size::new(40, 30));
    assert_eq!(aw.screen_position(), Position::new(7, 9));
    assert!(aw.is_globally_visible());
}

#[test]
fn cleared_tab_reference_makes_click_a_noop() {
    let mut control = TabControl {
        widget: WidgetBuilder::new().build(),
        tabs: vec![
            Tab { header_button: NodeHandle::new(1, 1), content: NodeHandle::new(2, 1) },
            Tab { header_button: NodeHandle::new(3, 1), content: NodeHandle::new(4, 1) },
        ],
    };
    // The content of the second tab is removed from the arena; the
    // control scrubs the dangling reference.
    control.remove_ref(NodeHandle::new(4, 1));
    assert!(control.tabs[1].content.is_none());
    assert_eq!(control.tabs[1].header_button, NodeHandle::new(3, 1));
    assert_eq!(control.tabs[0].content, NodeHandle::new(2, 1));
    // A later click on that tab's header emits nothing.
    let click = UiMessage::click(NodeHandle::new(3, 1));
    let emitted = control.handle_routed_message(&click);
    assert!(emitted.is_empty());
    // A click on the intact tab still fans out.
    let click = UiMessage::click(NodeHandle::new(1, 1));
    let emitted = control.handle_routed_message(&click);
    assert_eq!(emitted.len(), 2);
}

#[test]
fn has_descendant_sees_grandchildren_not_siblings() {
    let mut ui = Ui::new();
    let leaf = ui.insert(base(WidgetBuilder::new()));
    let mid = ui.insert(base(WidgetBuilder::new().with_child(leaf)));
    let sibling = ui.insert(base(WidgetBuilder::new()));
    let root = ui.insert(base(WidgetBuilder::new().with_child(mid).with_child(sibling)));
    assert!(ui.borrow(root).widget().has_descendant(leaf, &ui));
    assert!(ui.borrow(root).widget().has_descendant(mid, &ui));
    assert!(!ui.borrow(mid).widget().has_descendant(sibling, &ui));
    assert!(!ui.borrow(sibling).widget().has_descendant(leaf, &ui));
}

#[test]
fn stale_handles_do_not_resolve() {
    let mut ui = Ui::new();
    let h = ui.insert(base(WidgetBuilder::new()));
    assert!(ui.is_valid_handle(h));
    assert!(!ui.is_valid_handle(NodeHandle::none()));
    assert!(!ui.is_valid_handle(NodeHandle::new(h.index, h.generation + 1)));
}
