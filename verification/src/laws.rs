use vstd::prelude::*;
use crate::geometry::clamp_dim;
use crate::message::{UiMessage, UiMessageData, WidgetMessage};
use crate::tab_control::{distinct_headers, tab_hit, TabControl};
use crate::widget::{spec_after_routed_message, spec_after_widget_message, Widget};

verus! {

/// The width a setter stores lies inside `[min_size.x, max_size.x]`
/// whenever those bounds are ordered, and a request already inside the
/// bounds is stored unchanged.
pub proof fn law_set_width_clamps(w: Widget, v: u32)
    ensures
        w.min_size.x <= w.max_size.x ==> w.min_size.x <= clamp_dim(v, w.min_size.x, w.max_size.x)
            <= w.max_size.x,
        w.min_size.x <= v <= w.max_size.x ==> clamp_dim(v, w.min_size.x, w.max_size.x) == v,
        v < w.min_size.x && w.min_size.x <= w.max_size.x ==> clamp_dim(v, w.min_size.x, w.max_size.x)
            == w.min_size.x,
        v > w.max_size.x && w.min_size.x <= w.max_size.x ==> clamp_dim(v, w.min_size.x, w.max_size.x)
            == w.max_size.x,
{
}

/// A width message stores a clamped value too: after any `Width`
/// message the stored width lies inside the widget's bounds whenever
/// those bounds are ordered.
pub proof fn law_message_width_clamped(w: Widget, v: u32)
    requires
        w.min_size.x <= w.max_size.x,
    ensures
        spec_after_widget_message(w, WidgetMessage::Width(v)).width matches Some(x)
            ==> w.min_size.x <= x <= w.max_size.x || Some(x) == w.width,
{
}

/// A layout-affecting message whose value differs from the widget's
/// current state leaves both layout caches stale.
pub proof fn law_message_invalidates(w: Widget, m: UiMessage)
    requires
        m.destination == w.handle,
        (m.data matches UiMessageData::Widget(WidgetMessage::Visibility(v)) && v != w.visibility)
            || (m.data matches UiMessageData::Widget(WidgetMessage::Width(x)) && Some(
            clamp_dim(x, w.min_size.x, w.max_size.x),
        ) != w.width) || (m.data matches UiMessageData::Widget(WidgetMessage::Height(x)) && Some(
            clamp_dim(x, w.min_size.y, w.max_size.y),
        ) != w.height) || (m.data matches UiMessageData::Widget(WidgetMessage::MinSize(s)) && s
            != w.min_size) || (m.data matches UiMessageData::Widget(WidgetMessage::MaxSize(s)) && s
            != w.max_size) || (m.data matches UiMessageData::Widget(WidgetMessage::Row(x)) && x
            != w.row) || (m.data matches UiMessageData::Widget(WidgetMessage::Column(x)) && x
            != w.column) || (m.data matches UiMessageData::Widget(WidgetMessage::Margin(t)) && t
            != w.margin) || (m.data matches UiMessageData::Widget(
            WidgetMessage::DesiredPosition(p),
        ) && p != w.desired_local_position),
    ensures
        spec_after_routed_message(w, m).measure_valid == false,
        spec_after_routed_message(w, m).arrange_valid == false,
{
}

/// Dispatch is idempotent-safe: a message carrying the value a widget
/// already holds changes nothing, so the layout caches keep whatever
/// validity they had.
pub proof fn law_visibility_idempotent(w: Widget, v: bool)
    requires
        w.visibility == v,
    ensures
        spec_after_widget_message(w, WidgetMessage::Visibility(v)) == w,
{
}

/// A routed message addressed to another node changes nothing.
pub proof fn law_misaddressed_message_ignored(w: Widget, m: UiMessage)
    requires
        m.destination != w.handle,
    ensures
        spec_after_routed_message(w, m) == w,
{
}

/// A click that lands on the header of a tab whose content reference
/// was cleared is a no-op: with pairwise-distinct live headers, no tab
/// reacts, so nothing is emitted.
pub proof fn law_cleared_tab_click_is_noop(t: TabControl, m: UiMessage, i: int)
    requires
        distinct_headers(t.tabs@),
        0 <= i < t.tabs@.len(),
        m.is_click(),
        m.destination == t.tabs@[i].header_button,
        t.tabs@[i].header_button.is_some_spec(),
        t.tabs@[i].content.is_none_spec(),
    ensures
        t.spec_emitted(m) == Seq::<UiMessage>::empty(),
{
    assert forall|j: int| 0 <= j < t.tabs@.len() implies !tab_hit(
        #[trigger] t.tabs@[j],
        m.destination,
    ) by {
        if j != i && t.tabs@[j].header_button == m.destination {
            if j < i {
                assert(!(t.tabs@[j].header_button == t.tabs@[i].header_button && t.tabs@[
                    j
                ].header_button.is_some_spec()));
            } else {
                assert(!(t.tabs@[i].header_button == t.tabs@[j].header_button && t.tabs@[
                    i
                ].header_button.is_some_spec()));
            }
        }
    }
}

} // verus!
