use vstd::prelude::*;
use std::rc::Rc;
use crate::brush::{Brush, Color};
use crate::geometry::{clamp_dim, clamp_dim_exec, Position, Rect, Size, Thickness};
use crate::handle::NodeHandle;
use crate::message::{UiMessage, UiMessageData, WidgetMessage};

verus! {

/// How a widget is placed on the vertical axis of the slot its parent
/// gives it.
#[derive(Clone, Copy, PartialEq, Eq, Structural, Debug)]
pub enum VerticalAlignment {
    Top,
    Center,
    Bottom,
    Stretch,
}

/// How a widget is placed on the horizontal axis of the slot its parent
/// gives it.
#[derive(Clone, Copy, PartialEq, Eq, Structural, Debug)]
pub enum HorizontalAlignment {
    Left,
    Center,
    Right,
    Stretch,
}

/// A type-erased application payload. The tag stands for the payload's
/// runtime type: reading the payload under the wrong tag is a
/// construction-time contract violation, so the accessor requires the
/// tag to match instead of failing at run time.
pub struct UserData {
    pub type_tag: u64,
    pub bytes: Vec<u8>,
}

/// The state every node of the widget tree embeds: geometry, alignment,
/// visibility, tree links and the cached results of the two layout
/// passes. An explicit `width`/`height` of `None` means "size to
/// content".
pub struct Widget {
    /// Self-reference, assigned when the node is inserted into the arena.
    pub handle: NodeHandle,
    /// Debug label.
    pub name: String,
    /// Requested position relative to the parent.
    pub desired_local_position: Position,
    /// Explicit width, or `None` for automatic sizing.
    pub width: Option<u32>,
    /// Explicit height, or `None` for automatic sizing.
    pub height: Option<u32>,
    /// Absolute position, accumulated over the ancestors during arrange.
    pub screen_position: Position,
    /// Lower clamp bound for both axes.
    pub min_size: Size,
    /// Upper clamp bound for both axes.
    pub max_size: Size,
    pub background: Brush,
    pub foreground: Brush,
    /// Grid slot row.
    pub row: usize,
    /// Grid slot column.
    pub column: usize,
    pub vertical_alignment: VerticalAlignment,
    pub horizontal_alignment: HorizontalAlignment,
    pub margin: Thickness,
    /// Local visibility intent.
    pub visibility: bool,
    /// Effective visibility: local intent and every ancestor's combined.
    pub global_visibility: bool,
    /// The previous effective visibility, kept for transition detection.
    pub prev_global_visibility: bool,
    /// Ordered child handles. The arena owns the nodes; this list owns
    /// only the references.
    pub children: Vec<NodeHandle>,
    /// Back-reference to the parent; never owns.
    pub parent: NodeHandle,
    /// Indices of draw commands emitted for this node.
    pub command_indices: Vec<usize>,
    pub is_mouse_directly_over: bool,
    pub hit_test_visibility: bool,
    pub z_index: usize,
    pub allow_drag: bool,
    pub allow_drop: bool,
    /// Optional shared application payload; copies share it.
    pub user_data: Option<Rc<UserData>>,
    pub draw_on_top: bool,
    /// True while the cached measure result is current.
    pub measure_valid: bool,
    /// True while the cached arrange result is current.
    pub arrange_valid: bool,
    /// The constraint of the last measure pass, for memoization.
    pub prev_measure: Size,
    /// The rectangle of the last arrange pass, for memoization.
    pub prev_arrange: Rect,
    /// Cached result of the measure pass.
    pub desired_size: Size,
    /// Position within the parent after the arrange pass.
    pub actual_local_position: Position,
    /// Extent after the arrange pass.
    pub actual_size: Size,
}

/// `w` with both layout caches marked stale.
pub open spec fn spec_invalidated(w: Widget) -> Widget {
    Widget { measure_valid: false, arrange_valid: false, ..w }
}

/// The widget state after one `WidgetMessage` is applied. Mutating
/// variants that affect layout compare against the current value and
/// invalidate the caches only on an actual change; the others overwrite
/// unconditionally and leave the caches alone. A width or height is
/// stored clamped into `[min_size, max_size]`, as every stored
/// dimension is.
pub open spec fn spec_after_widget_message(w: Widget, m: WidgetMessage) -> Widget {
    match m {
        WidgetMessage::Background(background) => Widget { background, ..w },
        WidgetMessage::Foreground(foreground) => Widget { foreground, ..w },
        WidgetMessage::Name(name) => Widget { name, ..w },
        WidgetMessage::Width(width) => {
            let clamped = clamp_dim(width, w.min_size.x, w.max_size.x);
            if w.width == Some(clamped) {
                w
            } else {
                spec_invalidated(Widget { width: Some(clamped), ..w })
            }
        },
        WidgetMessage::Height(height) => {
            let clamped = clamp_dim(height, w.min_size.y, w.max_size.y);
            if w.height == Some(clamped) {
                w
            } else {
                spec_invalidated(Widget { height: Some(clamped), ..w })
            }
        },
        WidgetMessage::VerticalAlignment(vertical_alignment) => if w.vertical_alignment
            == vertical_alignment {
            w
        } else {
            spec_invalidated(Widget { vertical_alignment, ..w })
        },
        WidgetMessage::HorizontalAlignment(horizontal_alignment) => if w.horizontal_alignment
            == horizontal_alignment {
            w
        } else {
            spec_invalidated(Widget { horizontal_alignment, ..w })
        },
        WidgetMessage::MaxSize(max_size) => if w.max_size == max_size {
            w
        } else {
            spec_invalidated(Widget { max_size, ..w })
        },
        WidgetMessage::MinSize(min_size) => if w.min_size == min_size {
            w
        } else {
            spec_invalidated(Widget { min_size, ..w })
        },
        WidgetMessage::Row(row) => if w.row == row {
            w
        } else {
            spec_invalidated(Widget { row, ..w })
        },
        WidgetMessage::Column(column) => if w.column == column {
            w
        } else {
            spec_invalidated(Widget { column, ..w })
        },
        WidgetMessage::Margin(margin) => if w.margin == margin {
            w
        } else {
            spec_invalidated(Widget { margin, ..w })
        },
        WidgetMessage::HitTestVisibility(hit_test_visibility) => Widget {
            hit_test_visibility,
            ..w
        },
        WidgetMessage::Visibility(visibility) => if w.visibility == visibility {
            w
        } else {
            spec_invalidated(Widget { visibility, ..w })
        },
        WidgetMessage::DesiredPosition(desired_local_position) => if w.desired_local_position
            == desired_local_position {
            w
        } else {
            spec_invalidated(Widget { desired_local_position, ..w })
        },
    }
}

/// The widget state after a routed message: a widget acts only on
/// widget-category messages addressed to itself.
pub open spec fn spec_after_routed_message(w: Widget, m: UiMessage) -> Widget {
    if m.destination == w.handle {
        match m.data {
            UiMessageData::Widget(wm) => spec_after_widget_message(w, wm),
            UiMessageData::Button(_) => w,
        }
    } else {
        w
    }
}

/// What a structural duplicate keeps and what it resets: configuration,
/// geometry and the shared payload carry over; arena identity, draw
/// commands, the layout caches and the visibility transition marker
/// start fresh.
pub open spec fn spec_is_raw_copy(r: Widget, w: Widget) -> bool {
    &&& r.handle == (NodeHandle { index: 0u32, generation: 0u32 })
    &&& r.name == w.name
    &&& r.desired_local_position == w.desired_local_position
    &&& r.width == w.width
    &&& r.height == w.height
    &&& r.screen_position == w.screen_position
    &&& r.min_size == w.min_size
    &&& r.max_size == w.max_size
    &&& r.background == w.background
    &&& r.foreground == w.foreground
    &&& r.row == w.row
    &&& r.column == w.column
    &&& r.vertical_alignment == w.vertical_alignment
    &&& r.horizontal_alignment == w.horizontal_alignment
    &&& r.margin == w.margin
    &&& r.visibility == w.visibility
    &&& r.global_visibility == w.global_visibility
    &&& r.prev_global_visibility == false
    &&& r.children@ == w.children@
    &&& r.parent == w.parent
    &&& r.command_indices@ == Seq::<usize>::empty()
    &&& r.is_mouse_directly_over == w.is_mouse_directly_over
    &&& r.hit_test_visibility == w.hit_test_visibility
    &&& r.z_index == w.z_index
    &&& r.allow_drag == w.allow_drag
    &&& r.allow_drop == w.allow_drop
    &&& r.user_data == w.user_data
    &&& r.draw_on_top == w.draw_on_top
    &&& r.measure_valid == false
    &&& r.arrange_valid == false
    &&& r.prev_measure == (Size { x: 0u32, y: 0u32 })
    &&& r.prev_arrange == (Rect {
        position: Position { x: 0i64, y: 0i64 },
        size: Size { x: 0u32, y: 0u32 },
    })
    &&& r.desired_size == w.desired_size
    &&& r.actual_local_position == w.actual_local_position
    &&& r.actual_size == w.actual_size
}

impl Widget {
    pub fn handle(&self) -> (r: NodeHandle)
        ensures
            r == self.handle,
    {
        self.handle
    }

    pub fn name(&self) -> (r: &String)
        ensures
            r == self.name,
    {
        &self.name
    }

    pub fn set_name(&mut self, name: String)
        ensures
            *final(self) == (Widget { name, ..*old(self) }),
    {
        self.name = name;
    }

    pub fn actual_size(&self) -> (r: Size)
        ensures
            r == self.actual_size,
    {
        self.actual_size
    }

    pub fn set_min_size(&mut self, value: Size)
        ensures
            *final(self) == (Widget { min_size: value, ..*old(self) }),
    {
        self.min_size = value;
    }

    pub fn min_size(&self) -> (r: Size)
        ensures
            r == self.min_size,
    {
        self.min_size
    }

    pub fn min_width(&self) -> (r: u32)
        ensures
            r == self.min_size.x,
    {
        self.min_size.x
    }

    pub fn min_height(&self) -> (r: u32)
        ensures
            r == self.min_size.y,
    {
        self.min_size.y
    }

    pub fn is_drag_allowed(&self) -> (r: bool)
        ensures
            r == self.allow_drag,
    {
        self.allow_drag
    }

    pub fn is_drop_allowed(&self) -> (r: bool)
        ensures
            r == self.allow_drop,
    {
        self.allow_drop
    }

    /// Mark both cached layout results stale, so the next layout pass
    /// recomputes them.
    pub fn invalidate_layout(&mut self)
        ensures
            *final(self) == spec_invalidated(*old(self)),
    {
        self.measure_valid = false;
        self.arrange_valid = false;
    }

    pub fn is_hit_test_visible(&self) -> (r: bool)
        ensures
            r == self.hit_test_visibility,
    {
        self.hit_test_visibility
    }

    pub fn set_max_size(&mut self, value: Size)
        ensures
            *final(self) == (Widget { max_size: value, ..*old(self) }),
    {
        self.max_size = value;
    }

    pub fn max_size(&self) -> (r: Size)
        ensures
            r == self.max_size,
    {
        self.max_size
    }

    pub fn max_width(&self) -> (r: u32)
        ensures
            r == self.max_size.x,
    {
        self.max_size.x
    }

    pub fn max_height(&self) -> (r: u32)
        ensures
            r == self.max_size.y,
    {
        self.max_size.y
    }

    pub fn set_z_index(&mut self, z_index: usize)
        ensures
            *final(self) == (Widget { z_index, ..*old(self) }),
    {
        self.z_index = z_index;
    }

    pub fn z_index(&self) -> (r: usize)
        ensures
            r == self.z_index,
    {
        self.z_index
    }

    pub fn set_background(&mut self, brush: Brush)
        ensures
            *final(self) == (Widget { background: brush, ..*old(self) }),
    {
        self.background = brush;
    }

    pub fn background(&self) -> (r: Brush)
        ensures
            r == self.background,
    {
        self.background
    }

    pub fn set_foreground(&mut self, brush: Brush)
        ensures
            *final(self) == (Widget { foreground: brush, ..*old(self) }),
    {
        self.foreground = brush;
    }

    pub fn foreground(&self) -> (r: Brush)
        ensures
            r == self.foreground,
    {
        self.foreground
    }

    /// Store an explicit width, clamped into `[min_size.x, max_size.x]`.
    /// A direct setter does not invalidate the layout caches; only the
    /// message path does.
    pub fn set_width(&mut self, width: u32)
        ensures
            *final(self) == (Widget {
                width: Some(clamp_dim(width, old(self).min_size.x, old(self).max_size.x)),
                ..*old(self)
            }),
    {
        self.width = Some(clamp_dim_exec(width, self.min_size.x, self.max_size.x));
    }

    pub fn width(&self) -> (r: Option<u32>)
        ensures
            r == self.width,
    {
        self.width
    }

    pub fn is_draw_on_top(&self) -> (r: bool)
        ensures
            r == self.draw_on_top,
    {
        self.draw_on_top
    }

    /// Store an explicit height, clamped into `[min_size.y, max_size.y]`.
    pub fn set_height(&mut self, height: u32)
        ensures
            *final(self) == (Widget {
                height: Some(clamp_dim(height, old(self).min_size.y, old(self).max_size.y)),
                ..*old(self)
            }),
    {
        self.height = Some(clamp_dim_exec(height, self.min_size.y, self.max_size.y));
    }

    pub fn height(&self) -> (r: Option<u32>)
        ensures
            r == self.height,
    {
        self.height
    }

    pub fn set_desired_local_position(&mut self, pos: Position)
        ensures
            *final(self) == (Widget { desired_local_position: pos, ..*old(self) }),
    {
        self.desired_local_position = pos;
    }

    pub fn screen_position(&self) -> (r: Position)
        ensures
            r == self.screen_position,
    {
        self.screen_position
    }

    /// Append a child reference and mark the layout caches stale.
    /// The caller keeps the tree consistent: the arena's linking
    /// operations set the child's parent back-reference.
    pub fn add_child(&mut self, child: NodeHandle)
        ensures
            final(self).children@ == old(self).children@.push(child),
            *final(self) == (Widget {
                measure_valid: false,
                arrange_valid: false,
                children: final(self).children,
                ..*old(self)
            }),
    {
        self.invalidate_layout();
        self.children.push(child);
    }

    pub fn children(&self) -> (r: &Vec<NodeHandle>)
        ensures
            r == self.children,
    {
        &self.children
    }

    /// Drop every child reference and mark the layout caches stale.
    pub fn clear_children(&mut self)
        ensures
            final(self).children@ == Seq::<NodeHandle>::empty(),
            *final(self) == (Widget {
                measure_valid: false,
                arrange_valid: false,
                children: final(self).children,
                ..*old(self)
            }),
    {
        self.invalidate_layout();
        self.children.clear();
    }

    /// Remove the first occurrence of `child` from the child list, and
    /// mark the layout caches stale whether or not anything was found.
    pub fn remove_child(&mut self, child: NodeHandle)
        ensures
            ({
                let found = exists|j: int|
                    0 <= j < old(self).children@.len() && old(self).children@[j] == child;
                if found {
                    let i = first_index_of(old(self).children@, child);
                    final(self).children@ == old(self).children@.subrange(0, i) + old(
                        self,
                    ).children@.subrange(i + 1, old(self).children@.len() as int) && *final(self)
                        == (Widget {
                        measure_valid: false,
                        arrange_valid: false,
                        children: final(self).children,
                        ..*old(self)
                    })
                } else {
                    *final(self) == spec_invalidated(*old(self))
                }
            }),
    {
        let mut i: usize = 0;
        let n = self.children.len();
        while i < n
            invariant
                n == self.children.len(),
                i <= n,
                *self == *old(self),
                forall|j: int| 0 <= j < i ==> self.children@[j] != child,
            decreases n - i,
        {
            if self.children[i] == child {
                proof {
                    lemma_first_index_of(self.children@, child, i as int);
                }
                self.children.remove(i);
                self.invalidate_layout();
                return ;
            }
            i += 1;
        }
        self.invalidate_layout();
    }

    /// Record the arena identity this node was inserted under.
    pub(crate) fn set_handle(&mut self, handle: NodeHandle)
        ensures
            *final(self) == (Widget { handle, ..*old(self) }),
    {
        self.handle = handle;
    }

    pub fn parent(&self) -> (r: NodeHandle)
        ensures
            r == self.parent,
    {
        self.parent
    }

    pub fn set_parent(&mut self, parent: NodeHandle)
        ensures
            *final(self) == (Widget { parent, ..*old(self) }),
    {
        self.parent = parent;
    }

    pub fn column(&self) -> (r: usize)
        ensures
            r == self.column,
    {
        self.column
    }

    pub fn set_row(&mut self, row: usize)
        ensures
            *final(self) == (Widget { row, ..*old(self) }),
    {
        self.row = row;
    }

    pub fn row(&self) -> (r: usize)
        ensures
            r == self.row,
    {
        self.row
    }

    pub fn desired_size(&self) -> (r: Size)
        ensures
            r == self.desired_size,
    {
        self.desired_size
    }

    pub fn desired_local_position(&self) -> (r: Position)
        ensures
            r == self.desired_local_position,
    {
        self.desired_local_position
    }

    pub fn set_visibility(&mut self, visibility: bool)
        ensures
            *final(self) == (Widget { visibility, ..*old(self) }),
    {
        self.visibility = visibility;
    }

    pub fn visibility(&self) -> (r: bool)
        ensures
            r == self.visibility,
    {
        self.visibility
    }

    pub fn is_globally_visible(&self) -> (r: bool)
        ensures
            r == self.global_visibility,
    {
        self.global_visibility
    }

    /// The absolute rectangle this widget occupies after layout.
    pub fn screen_bounds(&self) -> (r: Rect)
        ensures
            r == (Rect { position: self.screen_position, size: self.actual_size }),
    {
        Rect { position: self.screen_position, size: self.actual_size }
    }

    pub fn set_vertical_alignment(&mut self, vertical_alignment: VerticalAlignment)
        ensures
            *final(self) == (Widget { vertical_alignment, ..*old(self) }),
    {
        self.vertical_alignment = vertical_alignment;
    }

    pub fn vertical_alignment(&self) -> (r: VerticalAlignment)
        ensures
            r == self.vertical_alignment,
    {
        self.vertical_alignment
    }

    pub fn set_horizontal_alignment(&mut self, horizontal_alignment: HorizontalAlignment)
        ensures
            *final(self) == (Widget { horizontal_alignment, ..*old(self) }),
    {
        self.horizontal_alignment = horizontal_alignment;
    }

    pub fn horizontal_alignment(&self) -> (r: HorizontalAlignment)
        ensures
            r == self.horizontal_alignment,
    {
        self.horizontal_alignment
    }

    pub fn set_column(&mut self, column: usize)
        ensures
            *final(self) == (Widget { column, ..*old(self) }),
    {
        self.column = column;
    }

    pub fn set_margin(&mut self, margin: Thickness)
        ensures
            *final(self) == (Widget { margin, ..*old(self) }),
    {
        self.margin = margin;
    }

    pub fn margin(&self) -> (r: Thickness)
        ensures
            r == self.margin,
    {
        self.margin
    }

    /// Record the measure pass result and mark the measure cache
    /// current.
    pub fn commit_measure(&mut self, available_size: Size, desired_size: Size)
        ensures
            *final(self) == (Widget {
                desired_size,
                prev_measure: available_size,
                measure_valid: true,
                ..*old(self)
            }),
    {
        self.desired_size = desired_size;
        self.prev_measure = available_size;
        self.measure_valid = true;
    }

    /// Record the arrange pass result and mark the arrange cache
    /// current.
    pub fn commit_arrange(&mut self, final_rect: Rect)
        ensures
            *final(self) == (Widget {
                actual_local_position: final_rect.position,
                actual_size: final_rect.size,
                prev_arrange: final_rect,
                arrange_valid: true,
                ..*old(self)
            }),
    {
        self.actual_local_position = final_rect.position;
        self.actual_size = final_rect.size;
        self.prev_arrange = final_rect;
        self.arrange_valid = true;
    }

    pub fn is_arrange_valid(&self) -> (r: bool)
        ensures
            r == self.arrange_valid,
    {
        self.arrange_valid
    }

    pub fn is_measure_valid(&self) -> (r: bool)
        ensures
            r == self.measure_valid,
    {
        self.measure_valid
    }

    pub fn actual_local_position(&self) -> (r: Position)
        ensures
            r == self.actual_local_position,
    {
        self.actual_local_position
    }

    /// Record where the arrange pass placed this widget in absolute
    /// coordinates.
    pub(crate) fn set_screen_position(&mut self, pos: Position)
        ensures
            *final(self) == (Widget { screen_position: pos, ..*old(self) }),
    {
        self.screen_position = pos;
    }

    /// Record a new effective visibility, keeping the previous one for
    /// transition detection.
    pub fn set_global_visibility(&mut self, value: bool)
        ensures
            *final(self) == (Widget {
                prev_global_visibility: old(self).global_visibility,
                global_visibility: value,
                ..*old(self)
            }),
    {
        self.prev_global_visibility = self.global_visibility;
        self.global_visibility = value;
    }

    /// The shared application payload. The payload's type is a
    /// construction-time contract: asking under the wrong tag is a
    /// programmer error, so callers must pass the tag the payload was
    /// stored with.
    pub fn user_data_ref(&self, type_tag: u64) -> (r: &Rc<UserData>)
        requires
            self.user_data is Some,
            self.user_data.unwrap().type_tag == type_tag,
        ensures
            Some(*r) == self.user_data,
    {
        self.user_data.as_ref().unwrap()
    }

    /// A structural duplicate: same configuration and geometry, same
    /// shared payload, but no arena identity, no draw commands and stale
    /// layout caches, ready to be inserted as a new node.
    pub fn raw_copy(&self) -> (r: Widget)
        ensures
            spec_is_raw_copy(r, *self),
    {
        Widget {
            handle: NodeHandle::none(),
            name: self.name.clone(),
            desired_local_position: self.desired_local_position,
            width: self.width,
            height: self.height,
            screen_position: self.screen_position,
            min_size: self.min_size,
            max_size: self.max_size,
            background: self.background,
            foreground: self.foreground,
            row: self.row,
            column: self.column,
            vertical_alignment: self.vertical_alignment,
            horizontal_alignment: self.horizontal_alignment,
            margin: self.margin,
            visibility: self.visibility,
            global_visibility: self.global_visibility,
            prev_global_visibility: false,
            children: copy_handles(&self.children),
            parent: self.parent,
            command_indices: Vec::new(),
            is_mouse_directly_over: self.is_mouse_directly_over,
            hit_test_visibility: self.hit_test_visibility,
            z_index: self.z_index,
            allow_drag: self.allow_drag,
            allow_drop: self.allow_drop,
            user_data: share_user_data(&self.user_data),
            draw_on_top: self.draw_on_top,
            measure_valid: false,
            arrange_valid: false,
            prev_measure: Size::zero(),
            prev_arrange: Rect::zero(),
            desired_size: self.desired_size,
            actual_local_position: self.actual_local_position,
            actual_size: self.actual_size,
        }
    }

    /// Apply a routed message: act only on widget-category messages
    /// addressed to this widget, overwrite the named field, and mark the
    /// layout caches stale exactly when a layout-affecting value
    /// actually changed.
    #[verifier::rlimit(100)]
    pub fn handle_routed_message(&mut self, message: &UiMessage)
        ensures
            *final(self) == spec_after_routed_message(*old(self), *message),
    {
        if message.destination == self.handle {
            match &message.data {
                UiMessageData::Widget(msg) => match msg {
                    WidgetMessage::Background(background) => {
                        self.background = *background;
                    },
                    WidgetMessage::Foreground(foreground) => {
                        self.foreground = *foreground;
                    },
                    WidgetMessage::Name(name) => {
                        self.name = name.clone();
                    },
                    WidgetMessage::Width(width) => {
                        let clamped = clamp_dim_exec(*width, self.min_size.x, self.max_size.x);
                        if self.width != Some(clamped) {
                            self.width = Some(clamped);
                            self.invalidate_layout();
                        }
                    },
                    WidgetMessage::Height(height) => {
                        let clamped = clamp_dim_exec(*height, self.min_size.y, self.max_size.y);
                        if self.height != Some(clamped) {
                            self.height = Some(clamped);
                            self.invalidate_layout();
                        }
                    },
                    WidgetMessage::VerticalAlignment(vertical_alignment) => {
                        if self.vertical_alignment != *vertical_alignment {
                            self.vertical_alignment = *vertical_alignment;
                            self.invalidate_layout();
                        }
                    },
                    WidgetMessage::HorizontalAlignment(horizontal_alignment) => {
                        if self.horizontal_alignment != *horizontal_alignment {
                            self.horizontal_alignment = *horizontal_alignment;
                            self.invalidate_layout();
                        }
                    },
                    WidgetMessage::MaxSize(max_size) => {
                        if self.max_size != *max_size {
                            self.max_size = *max_size;
                            self.invalidate_layout();
                        }
                    },
                    WidgetMessage::MinSize(min_size) => {
                        if self.min_size != *min_size {
                            self.min_size = *min_size;
                            self.invalidate_layout();
                        }
                    },
                    WidgetMessage::Row(row) => {
                        if self.row != *row {
                            self.row = *row;
                            self.invalidate_layout();
                        }
                    },
                    WidgetMessage::Column(column) => {
                        if self.column != *column {
                            self.column = *column;
                            self.invalidate_layout();
                        }
                    },
                    WidgetMessage::Margin(margin) => {
                        if self.margin != *margin {
                            self.margin = *margin;
                            self.invalidate_layout();
                        }
                    },
                    WidgetMessage::HitTestVisibility(hit_test_visibility) => {
                        self.hit_test_visibility = *hit_test_visibility;
                    },
                    WidgetMessage::Visibility(visibility) => {
                        if self.visibility != *visibility {
                            self.visibility = *visibility;
                            self.invalidate_layout();
                        }
                    },
                    WidgetMessage::DesiredPosition(pos) => {
                        if self.desired_local_position != *pos {
                            self.desired_local_position = *pos;
                            self.invalidate_layout();
                        }
                    },
                },
                UiMessageData::Button(_) => {},
            }
        }
    }
}

/// The position of the first occurrence of `x` in `s`; meaningful only
/// when `x` occurs.
pub open spec fn first_index_of(s: Seq<NodeHandle>, x: NodeHandle) -> int {
    choose|i: int| 0 <= i < s.len() && s[i] == x && forall|j: int| 0 <= j < i ==> s[j] != x
}

proof fn lemma_first_index_of(s: Seq<NodeHandle>, x: NodeHandle, i: int)
    requires
        0 <= i < s.len(),
        s[i] == x,
        forall|j: int| 0 <= j < i ==> s[j] != x,
    ensures
        first_index_of(s, x) == i,
{
    assert(exists|k: int|
        0 <= k < s.len() && s[k] == x && forall|j: int| 0 <= j < k ==> s[j] != x) by {
        assert(0 <= i < s.len() && s[i] == x && forall|j: int| 0 <= j < i ==> s[j] != x);
    }
    let k = first_index_of(s, x);
    if k < i {
        assert(s[k] == x);
        assert(false);
    } else if k > i {
        assert(forall|j: int| 0 <= j < k ==> s[j] != x);
        assert(s[i] != x);
        assert(false);
    }
}

/// A one-for-one copy of a handle list.
pub(crate) fn copy_handles(v: &Vec<NodeHandle>) -> (r: Vec<NodeHandle>)
    ensures
        r@ == v@,
{
    let mut r: Vec<NodeHandle> = Vec::new();
    let mut i: usize = 0;
    while i < v.len()
        invariant
            i <= v.len(),
            r@ == v@.subrange(0, i as int),
        decreases v.len() - i,
    {
        r.push(v[i]);
        i += 1;
    }
    proof {
        assert(r@ =~= v@);
    }
    r
}

/// Relies on `Rc::clone`: the returned pointer shares the same
/// allocation, so its value equals the argument's.
#[verifier::external_body]
fn share_user_data(u: &Option<Rc<UserData>>) -> (r: Option<Rc<UserData>>)
    ensures
        r == *u,
{
    u.clone()
}


/// Filter a handle list down to its non-null entries, keeping order.
pub open spec fn filter_some(s: Seq<NodeHandle>) -> Seq<NodeHandle>
    decreases s.len(),
{
    if s.len() == 0 {
        Seq::empty()
    } else if s.last().is_some_spec() {
        filter_some(s.drop_last()).push(s.last())
    } else {
        filter_some(s.drop_last())
    }
}

/// The widget a builder assembles: unset bounds default to zero and
/// unbounded, unset brushes to an opaque dark gray and white, and the
/// node starts with no arena identity, no parent and stale layout
/// caches.
pub open spec fn spec_build(b: WidgetBuilder, command_indices: Vec<usize>) -> Widget {
    Widget {
        handle: NodeHandle { index: 0u32, generation: 0u32 },
        name: b.name,
        desired_local_position: b.desired_position,
        width: b.width,
        height: b.height,
        screen_position: Position { x: 0i64, y: 0i64 },
        min_size: if b.min_size is Some {
            b.min_size.unwrap()
        } else {
            Size { x: 0u32, y: 0u32 }
        },
        max_size: if b.max_size is Some {
            b.max_size.unwrap()
        } else {
            Size { x: u32::MAX, y: u32::MAX }
        },
        background: if b.background is Some {
            b.background.unwrap()
        } else {
            Brush::Solid(Color { r: 50u8, g: 50u8, b: 50u8, a: 255u8 })
        },
        foreground: if b.foreground is Some {
            b.foreground.unwrap()
        } else {
            Brush::Solid(Color { r: 255u8, g: 255u8, b: 255u8, a: 255u8 })
        },
        row: b.row,
        column: b.column,
        vertical_alignment: b.vertical_alignment,
        horizontal_alignment: b.horizontal_alignment,
        margin: b.margin,
        visibility: b.visibility,
        global_visibility: true,
        prev_global_visibility: false,
        children: b.children,
        parent: NodeHandle { index: 0u32, generation: 0u32 },
        command_indices,
        is_mouse_directly_over: false,
        hit_test_visibility: b.is_hit_test_visible,
        z_index: b.z_index,
        allow_drag: b.allow_drag,
        allow_drop: b.allow_drop,
        user_data: b.user_data,
        draw_on_top: b.draw_on_top,
        measure_valid: false,
        arrange_valid: false,
        prev_measure: Size { x: 0u32, y: 0u32 },
        prev_arrange: Rect {
            position: Position { x: 0i64, y: 0i64 },
            size: Size { x: 0u32, y: 0u32 },
        },
        desired_size: Size { x: 0u32, y: 0u32 },
        actual_local_position: Position { x: 0i64, y: 0i64 },
        actual_size: Size { x: 0u32, y: 0u32 },
    }
}

/// A fluent configuration object that assembles the construction
/// parameters of a widget.
pub struct WidgetBuilder {
    pub name: String,
    pub width: Option<u32>,
    pub height: Option<u32>,
    pub desired_position: Position,
    pub vertical_alignment: VerticalAlignment,
    pub horizontal_alignment: HorizontalAlignment,
    pub max_size: Option<Size>,
    pub min_size: Option<Size>,
    pub background: Option<Brush>,
    pub foreground: Option<Brush>,
    pub row: usize,
    pub column: usize,
    pub margin: Thickness,
    pub children: Vec<NodeHandle>,
    pub is_hit_test_visible: bool,
    pub visibility: bool,
    pub z_index: usize,
    pub allow_drag: bool,
    pub allow_drop: bool,
    pub user_data: Option<Rc<UserData>>,
    pub draw_on_top: bool,
}

impl WidgetBuilder {
    /// The default configuration: automatic size, stretch alignment, no
    /// bounds, no brushes, visible and hit-test visible, no children.
    pub fn new() -> (b: WidgetBuilder)
        ensures
            b.name@ == Seq::<char>::empty(),
            b.width is None,
            b.height is None,
            b.desired_position == (Position { x: 0i64, y: 0i64 }),
            b.vertical_alignment == VerticalAlignment::Stretch,
            b.horizontal_alignment == HorizontalAlignment::Stretch,
            b.max_size is None,
            b.min_size is None,
            b.background is None,
            b.foreground is None,
            b.row == 0,
            b.column == 0,
            b.margin == (Thickness { left: 0u32, top: 0u32, right: 0u32, bottom: 0u32 }),
            b.children@ == Seq::<NodeHandle>::empty(),
            b.is_hit_test_visible == true,
            b.visibility == true,
            b.z_index == 0,
            b.allow_drag == false,
            b.allow_drop == false,
            b.user_data is None,
            b.draw_on_top == false,
    {
        WidgetBuilder {
            name: String::new(),
            width: None,
            height: None,
            desired_position: Position::zero(),
            vertical_alignment: VerticalAlignment::Stretch,
            horizontal_alignment: HorizontalAlignment::Stretch,
            max_size: None,
            min_size: None,
            background: None,
            foreground: None,
            row: 0,
            column: 0,
            margin: Thickness::zero(),
            children: Vec::new(),
            is_hit_test_visible: true,
            visibility: true,
            z_index: 0,
            allow_drag: false,
            allow_drop: false,
            user_data: None,
            draw_on_top: false,
        }
    }

    pub fn with_width(self, width: u32) -> (b: WidgetBuilder)
        ensures
            b == (WidgetBuilder { width: Some(width), ..self }),
    {
        WidgetBuilder { width: Some(width), ..self }
    }

    pub fn with_height(self, height: u32) -> (b: WidgetBuilder)
        ensures
            b == (WidgetBuilder { height: Some(height), ..self }),
    {
        WidgetBuilder { height: Some(height), ..self }
    }

    pub fn with_vertical_alignment(self, valign: VerticalAlignment) -> (b: WidgetBuilder)
        ensures
            b == (WidgetBuilder { vertical_alignment: valign, ..self }),
    {
        WidgetBuilder { vertical_alignment: valign, ..self }
    }

    pub fn with_horizontal_alignment(self, halign: HorizontalAlignment) -> (b: WidgetBuilder)
        ensures
            b == (WidgetBuilder { horizontal_alignment: halign, ..self }),
    {
        WidgetBuilder { horizontal_alignment: halign, ..self }
    }

    pub fn with_max_size(self, max_size: Size) -> (b: WidgetBuilder)
        ensures
            b == (WidgetBuilder { max_size: Some(max_size), ..self }),
    {
        WidgetBuilder { max_size: Some(max_size), ..self }
    }

    pub fn with_min_size(self, min_size: Size) -> (b: WidgetBuilder)
        ensures
            b == (WidgetBuilder { min_size: Some(min_size), ..self }),
    {
        WidgetBuilder { min_size: Some(min_size), ..self }
    }

    pub fn with_background(self, brush: Brush) -> (b: WidgetBuilder)
        ensures
            b == (WidgetBuilder { background: Some(brush), ..self }),
    {
        WidgetBuilder { background: Some(brush), ..self }
    }

    pub fn with_foreground(self, brush: Brush) -> (b: WidgetBuilder)
        ensures
            b == (WidgetBuilder { foreground: Some(brush), ..self }),
    {
        WidgetBuilder { foreground: Some(brush), ..self }
    }

    pub fn on_row(self, row: usize) -> (b: WidgetBuilder)
        ensures
            b == (WidgetBuilder { row, ..self }),
    {
        WidgetBuilder { row, ..self }
    }

    pub fn on_column(self, column: usize) -> (b: WidgetBuilder)
        ensures
            b == (WidgetBuilder { column, ..self }),
    {
        WidgetBuilder { column, ..self }
    }

    pub fn with_margin(self, margin: Thickness) -> (b: WidgetBuilder)
        ensures
            b == (WidgetBuilder { margin, ..self }),
    {
        WidgetBuilder { margin, ..self }
    }

    pub fn with_desired_position(self, desired_position: Position) -> (b: WidgetBuilder)
        ensures
            b == (WidgetBuilder { desired_position, ..self }),
    {
        WidgetBuilder { desired_position, ..self }
    }

    pub fn with_z_index(self, z_index: usize) -> (b: WidgetBuilder)
        ensures
            b == (WidgetBuilder { z_index, ..self }),
    {
        WidgetBuilder { z_index, ..self }
    }

    /// Append one child handle; a null handle is ignored.
    pub fn with_child(self, handle: NodeHandle) -> (b: WidgetBuilder)
        ensures
            b.children@ == if handle.is_some_spec() {
                self.children@.push(handle)
            } else {
                self.children@
            },
            b == (WidgetBuilder { children: b.children, ..self }),
    {
        let mut b = self;
        if handle.is_some() {
            b.children.push(handle);
        }
        b
    }

    pub fn with_draw_on_top(self, draw_on_top: bool) -> (b: WidgetBuilder)
        ensures
            b == (WidgetBuilder { draw_on_top, ..self }),
    {
        WidgetBuilder { draw_on_top, ..self }
    }

    /// Append every non-null handle of the list, keeping order.
    pub fn with_children(self, children: &Vec<NodeHandle>) -> (b: WidgetBuilder)
        ensures
            b.children@ == self.children@ + filter_some(children@),
            b == (WidgetBuilder { children: b.children, ..self }),
    {
        let mut b = self;
        let mut i: usize = 0;
        while i < children.len()
            invariant
                i <= children.len(),
                b.children@ == self.children@ + filter_some(children@.subrange(0, i as int)),
                b == (WidgetBuilder { children: b.children, ..self }),
            decreases children.len() - i,
        {
            let child = children[i];
            proof {
                assert(children@.subrange(0, i + 1).drop_last() =~= children@.subrange(
                    0,
                    i as int,
                ));
                assert(children@.subrange(0, i + 1).last() == children@[i as int]);
            }
            if child.is_some() {
                b.children.push(child);
            }
            i += 1;
        }
        proof {
            assert(children@.subrange(0, children@.len() as int) =~= children@);
        }
        b
    }

    pub fn with_name(self, name: String) -> (b: WidgetBuilder)
        ensures
            b == (WidgetBuilder { name, ..self }),
    {
        WidgetBuilder { name, ..self }
    }

    pub fn with_hit_test_visibility(self, state: bool) -> (b: WidgetBuilder)
        ensures
            b == (WidgetBuilder { is_hit_test_visible: state, ..self }),
    {
        WidgetBuilder { is_hit_test_visible: state, ..self }
    }

    pub fn with_visibility(self, visibility: bool) -> (b: WidgetBuilder)
        ensures
            b == (WidgetBuilder { visibility, ..self }),
    {
        WidgetBuilder { visibility, ..self }
    }

    pub fn with_allow_drop(self, allow_drop: bool) -> (b: WidgetBuilder)
        ensures
            b == (WidgetBuilder { allow_drop, ..self }),
    {
        WidgetBuilder { allow_drop, ..self }
    }

    pub fn with_allow_drag(self, allow_drag: bool) -> (b: WidgetBuilder)
        ensures
            b == (WidgetBuilder { allow_drag, ..self }),
    {
        WidgetBuilder { allow_drag, ..self }
    }

    pub fn with_user_data(self, user_data: Rc<UserData>) -> (b: WidgetBuilder)
        ensures
            b == (WidgetBuilder { user_data: Some(user_data), ..self }),
    {
        WidgetBuilder { user_data: Some(user_data), ..self }
    }

    /// Assemble the widget, applying the documented defaults for what
    /// was never set.
    pub fn build(self) -> (w: Widget)
        ensures
            w.command_indices@ == Seq::<usize>::empty(),
            w == spec_build(self, w.command_indices),
    {
        Widget {
            handle: NodeHandle::none(),
            name: self.name,
            desired_local_position: self.desired_position,
            width: self.width,
            height: self.height,
            screen_position: Position::zero(),
            min_size: match self.min_size {
                Some(s) => s,
                None => Size::zero(),
            },
            max_size: match self.max_size {
                Some(s) => s,
                None => Size::unbounded(),
            },
            background: match self.background {
                Some(b) => b,
                None => Brush::Solid(Color::opaque(50, 50, 50)),
            },
            foreground: match self.foreground {
                Some(b) => b,
                None => Brush::Solid(Color::white()),
            },
            row: self.row,
            column: self.column,
            vertical_alignment: self.vertical_alignment,
            horizontal_alignment: self.horizontal_alignment,
            margin: self.margin,
            visibility: self.visibility,
            global_visibility: true,
            prev_global_visibility: false,
            children: self.children,
            parent: NodeHandle::none(),
            command_indices: Vec::new(),
            is_mouse_directly_over: false,
            hit_test_visibility: self.is_hit_test_visible,
            z_index: self.z_index,
            allow_drag: self.allow_drag,
            allow_drop: self.allow_drop,
            user_data: self.user_data,
            draw_on_top: self.draw_on_top,
            measure_valid: false,
            arrange_valid: false,
            prev_measure: Size::zero(),
            prev_arrange: Rect::zero(),
            desired_size: Size::zero(),
            actual_local_position: Position::zero(),
            actual_size: Size::zero(),
        }
    }
}

} // verus!
