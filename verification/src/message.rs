use vstd::prelude::*;
use crate::brush::Brush;
use crate::geometry::{Position, Size, Thickness};
use crate::handle::NodeHandle;
use crate::widget::{HorizontalAlignment, VerticalAlignment};

verus! {

/// The state changes a generic widget understands. Each variant carries
/// the new value for one field of the widget.
pub enum WidgetMessage {
    Background(Brush),
    Foreground(Brush),
    Name(String),
    Width(u32),
    Height(u32),
    VerticalAlignment(VerticalAlignment),
    HorizontalAlignment(HorizontalAlignment),
    MaxSize(Size),
    MinSize(Size),
    Row(usize),
    Column(usize),
    Margin(Thickness),
    HitTestVisibility(bool),
    Visibility(bool),
    DesiredPosition(Position),
}

/// The messages a button-like widget emits.
pub enum ButtonMessage {
    Click,
}

/// The payload of a routed message: one category per widget kind.
pub enum UiMessageData {
    Widget(WidgetMessage),
    Button(ButtonMessage),
}

/// An addressed, typed instruction. It is delivered to the node named
/// by `destination`; whether a dispatcher also propagates it along the
/// ancestor chain is the embedding's choice.
pub struct UiMessage {
    pub destination: NodeHandle,
    pub data: UiMessageData,
}

impl UiMessage {
    /// True for the click message of a button; only these make a handler
    /// emit further messages, which keeps dispatch finite.
    pub open spec fn is_click(self) -> bool {
        self.data is Button
    }

    pub fn widget(destination: NodeHandle, message: WidgetMessage) -> (m: UiMessage)
        ensures
            m == (UiMessage { destination, data: UiMessageData::Widget(message) }),
    {
        UiMessage { destination, data: UiMessageData::Widget(message) }
    }

    /// The message that sets a widget's local visibility flag.
    pub fn visibility(destination: NodeHandle, visible: bool) -> (m: UiMessage)
        ensures
            m == (UiMessage {
                destination,
                data: UiMessageData::Widget(WidgetMessage::Visibility(visible)),
            }),
    {
        UiMessage { destination, data: UiMessageData::Widget(WidgetMessage::Visibility(visible)) }
    }

    /// The click message of a button-like widget.
    pub fn click(destination: NodeHandle) -> (m: UiMessage)
        ensures
            m == (UiMessage { destination, data: UiMessageData::Button(ButtonMessage::Click) }),
    {
        UiMessage { destination, data: UiMessageData::Button(ButtonMessage::Click) }
    }
}

} // verus!
