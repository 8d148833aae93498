//! Windows: a positioned, titled, coloured frame, and its builder.
use super::color::Color;
use super::coord::CoordType;
use super::rect::{cells, intersection_of, lemma_cells_determine, Rect};
use vstd::prelude::*;
use vstd::std_specs::convert::IntoSpec;

verus! {

/// How a window lays out its children.
#[derive(Debug, Clone, Copy, PartialEq, Eq, Structural)]
pub enum Layout {
    /// Stacked vertically, full width.
    Block,
    /// Side by side, each child taking only the space it needs.
    Inline,
}

impl Default for Layout {
    fn default() -> (l: Self)
        ensures
            l == Layout::Block,
    {
        Layout::Block
    }
}

/// Window resize handle position.
#[derive(Debug, Clone, Copy, PartialEq, Eq, Structural)]
pub enum ResizeHandle {
    Bottom,
    Right,
    BottomRight,
}

/// `c` converted to a colour, if present.
pub open spec fn color_of<T: Into<Color>>(c: Option<T>) -> Option<Color> {
    match c {
        Some(x) => Some(x.into_spec()),
        None => None,
    }
}

/// Converts an optional colour.
fn convert_color<T: Into<Color>>(c: Option<T>) -> (r: Option<Color>)
    ensures
        T::obeys_into_spec() ==> r == color_of(c),
        r is Some <==> c is Some,
{
    match c {
        Some(x) => Some(x.into()),
        None => None,
    }
}

/// Builds a [`Window`] step by step.
pub struct WindowBuilder<C: CoordType> {
    pub layout: Layout,
    pub rect: Rect<C>,
    pub z: C,
    pub title: Option<String>,
    pub color: Option<Color>,
    pub border_color: Option<Color>,
    pub component_color: Option<Color>,
}

impl<C: CoordType> WindowBuilder<C> {
    /// A builder with the block layout, the empty rectangle at the origin,
    /// z-order 0 and nothing else set.
    pub fn new() -> (b: Self)
        ensures
            b.layout == Layout::Block,
            b.rect.x.val() == 0 && b.rect.y.val() == 0 && b.rect.width.val() == 0 && b.rect.height.val() == 0,
            b.z.val() == 0,
            b.title == None::<String>,
            b.color == None::<Color>,
            b.border_color == None::<Color>,
            b.component_color == None::<Color>,
    {
        let zero = C::zero();
        WindowBuilder {
            layout: Layout::Block,
            rect: Rect::new(zero, zero, zero, zero),
            z: zero,
            title: None,
            color: None,
            border_color: None,
            component_color: None,
        }
    }

    /// Set the layout.
    pub fn layout(self, layout: Layout) -> (b: Self)
        ensures
            b == (WindowBuilder { layout, ..self }),
    {
        WindowBuilder { layout, ..self }
    }

    /// Set the rectangle.
    pub fn rect(self, rect: Rect<C>) -> (b: Self)
        ensures
            b == (WindowBuilder { rect, ..self }),
    {
        WindowBuilder { rect, ..self }
    }

    /// Set the z-order.
    pub fn z(self, z: C) -> (b: Self)
        ensures
            b == (WindowBuilder { z, ..self }),
    {
        WindowBuilder { z, ..self }
    }

    /// Set the title.
    pub fn title(self, title: String) -> (b: Self)
        ensures
            b == (WindowBuilder { title: Some(title), ..self }),
    {
        WindowBuilder { title: Some(title), ..self }
    }

    /// Set the background colour.
    pub fn color<T: Into<Color>>(self, color: T) -> (b: Self)
        ensures
            T::obeys_into_spec() ==> b.color == Some(color.into_spec()),
            b.color is Some,
            b.layout == self.layout && b.rect == self.rect && b.z == self.z && b.title == self.title,
            b.border_color == self.border_color && b.component_color == self.component_color,
    {
        WindowBuilder { color: Some(color.into()), ..self }
    }

    /// Set the border colour (`None`: no border).
    pub fn border_color<T: Into<Color>>(self, color: Option<T>) -> (b: Self)
        ensures
            T::obeys_into_spec() ==> b.border_color == color_of(color),
            b.border_color is Some <==> color is Some,
            b.layout == self.layout && b.rect == self.rect && b.z == self.z && b.title == self.title,
            b.color == self.color && b.component_color == self.component_color,
    {
        WindowBuilder { border_color: convert_color(color), ..self }
    }

    /// Set the colour used for components.
    pub fn component_color<T: Into<Color>>(self, color: Option<T>) -> (b: Self)
        ensures
            T::obeys_into_spec() ==> b.component_color == color_of(color),
            b.component_color is Some <==> color is Some,
            b.layout == self.layout && b.rect == self.rect && b.z == self.z && b.title == self.title,
            b.color == self.color && b.border_color == self.border_color,
    {
        WindowBuilder { component_color: convert_color(color), ..self }
    }

    /// The window this builder describes: visible, with an empty title and
    /// the default colour where none was set.
    pub fn build(self) -> (w: Window<C>)
        ensures
            w.rect == self.rect,
            w.z == self.z,
            w.title@ == (match self.title {
                Some(t) => t@,
                None => Seq::<char>::empty(),
            }),
            w.visible,
            w.color == (match self.color {
                Some(c) => c,
                None => Color::Default,
            }),
            w.border_color == self.border_color,
            w.component_color == self.component_color,
            w.layout == self.layout,
    {
        let title = match self.title {
            Some(t) => t,
            None => String::new(),
        };
        let color = match self.color {
            Some(c) => c,
            None => Color::Default,
        };
        Window {
            rect: self.rect,
            z: self.z,
            title,
            visible: true,
            color,
            border_color: self.border_color,
            component_color: self.component_color,
            layout: self.layout,
        }
    }
}

impl<C: CoordType> Default for WindowBuilder<C> {
    fn default() -> (b: Self)
        ensures
            b.layout == Layout::Block,
            b.z.val() == 0,
            b.title == None::<String>,
            b.color == None::<Color>,
    {
        WindowBuilder::new()
    }
}

/// Where a window's title goes: the text, the bar under it, and the area
/// left for the pane below the bar.
#[derive(Debug, Clone, Copy, PartialEq, Eq)]
pub struct TitlePlan<C: CoordType> {
    /// The column where the title text starts.
    pub text_x: C,
    /// The row of the title text.
    pub text_y: C,
    /// The clip for the title text and its bar.
    pub clip: Rect<C>,
    /// The title bar, one row under the title.
    pub bar: Rect<C>,
    /// The bar's border colour: the window's, or the default colour.
    pub bar_border: Option<Color>,
    /// The area below the bar.
    pub body: Rect<C>,
}

/// What rendering a window draws, in order: the frame, then (when the area
/// inside the frame is visible) the title and its bar, then the pane.
#[derive(Debug, Clone, Copy, PartialEq, Eq)]
pub struct RenderPlan<C: CoordType> {
    /// The frame: the window's rectangle.
    pub frame: Rect<C>,
    /// The clip the frame is drawn with.
    pub frame_clip: Rect<C>,
    /// The frame's background colour.
    pub color: Color,
    /// The frame's border colour.
    pub border_color: Option<Color>,
    /// The area inside the frame: the rectangle inset by one cell when
    /// there is a border.
    pub inner: Rect<C>,
    /// The clip inside the frame.
    pub inner_clip: Rect<C>,
    /// The title and its bar, when there is a title and the inner clip has area.
    pub title: Option<TitlePlan<C>>,
    /// The clip the pane is rendered with, when the inner clip has area.
    pub pane_clip: Option<Rect<C>>,
}

/// A rectangle with the given cells, where one exists.
pub open spec fn rect_with<C: CoordType>(c: (int, int, int, int)) -> Rect<C> {
    choose|r: Rect<C>| cells(r) == c
}

/// Whether a rectangle with these cells has area.
pub open spec fn has_area(c: (int, int, int, int)) -> bool {
    c.2 > 0 && c.3 > 0
}


/// A window: a pane with a position, z-order, title and colours.
#[derive(Debug, Clone, PartialEq)]
pub struct Window<C: CoordType> {
    /// Position and size.
    pub rect: Rect<C>,
    /// Z-order (higher is on top).
    pub z: C,
    /// Title.
    pub title: String,
    /// Whether the window is shown.
    pub visible: bool,
    /// Background colour.
    pub color: Color,
    /// Border colour (`None`: no border).
    pub border_color: Option<Color>,
    /// Colour used for components.
    pub component_color: Option<Color>,
    /// How the window lays out its children.
    pub layout: Layout,
}

impl<C: CoordType> Window<C> {
    /// A builder for a new window.
    pub fn new() -> (b: WindowBuilder<C>)
        ensures
            b.layout == Layout::Block,
            b.z.val() == 0,
            b.title == None::<String>,
            b.color == None::<Color>,
            b.border_color == None::<Color>,
            b.component_color == None::<Color>,
    {
        WindowBuilder::new()
    }

    /// Set the z-order.
    pub fn set_z(&mut self, z: C)
        ensures
            *final(self) == (Window { z, ..*old(self) }),
    {
        self.z = z;
    }

    /// Set the title.
    pub fn set_title(&mut self, title: String)
        ensures
            *final(self) == (Window { title, ..*old(self) }),
    {
        self.title = title;
    }

    /// Set the size.
    pub fn set_size(&mut self, width: C, height: C)
        ensures
            *final(self) == (Window { rect: Rect { width, height, ..old(self).rect }, ..*old(self) }),
    {
        self.rect.width = width;
        self.rect.height = height;
    }

    /// Set the position.
    pub fn set_pos(&mut self, x: C, y: C)
        ensures
            *final(self) == (Window { rect: Rect { x, y, ..old(self).rect }, ..*old(self) }),
    {
        self.rect.x = x;
        self.rect.y = y;
    }

    /// Show or hide the window.
    pub fn set_visible(&mut self, visible: bool)
        ensures
            *final(self) == (Window { visible, ..*old(self) }),
    {
        self.visible = visible;
    }

    /// Whether the window is shown.
    pub fn visible(&self) -> (b: bool)
        ensures
            b == self.visible,
    {
        self.visible
    }

    /// The area inside the window's frame, as cells: the rectangle inset by
    /// one cell on each side when there is a border.
    pub open spec fn inner_cells(&self) -> (int, int, int, int) {
        let r = cells(self.rect);
        if self.border_color is Some {
            (r.0 + 1, r.1 + 1, r.2 - 2, r.3 - 2)
        } else {
            r
        }
    }

    /// The clip left inside the frame, as cells.
    pub open spec fn inner_clip_cells(&self, clip: Rect<C>) -> (int, int, int, int) {
        if self.border_color is Some {
            intersection_of(clip, rect_with::<C>(self.inner_cells()))
        } else {
            cells(clip)
        }
    }

    /// Whether rendering stays inside the coordinate type: insetting the
    /// frame, and placing the bar and the pane under a title.
    pub open spec fn render_fits(&self, dirty: bool, clip: Rect<C>) -> bool {
        let i = self.inner_cells();
        self.visible && dirty ==> {
            &&& self.border_color is Some ==> {
                &&& self.rect.x.val() + 1 <= C::hi()
                &&& self.rect.y.val() + 1 <= C::hi()
                &&& C::lo() <= self.rect.width.val() - 2
                &&& C::lo() <= self.rect.height.val() - 2
            }
            &&& has_area(self.inner_clip_cells(clip)) && self.title@.len() > 0 ==> {
                &&& i.1 + 2 <= C::hi()
                &&& C::lo() <= i.3 - 2
            }
        }
    }

    /// What to draw for this window within `clip`; nothing when it is hidden
    /// or its render state is clean.
    pub fn render_plan(&self, dirty: bool, clip: Rect<C>) -> (p: Option<RenderPlan<C>>)
        requires
            self.render_fits(dirty, clip),
        ensures
            p is None <==> !self.visible || !dirty,
            p matches Some(plan) ==> {
                &&& plan.frame == self.rect
                &&& plan.frame_clip == clip
                &&& plan.color == self.color
                &&& plan.border_color == self.border_color
                &&& cells(plan.inner) == self.inner_cells()
                &&& cells(plan.inner_clip) == self.inner_clip_cells(clip)
                &&& self.border_color is None ==> plan.inner_clip == clip
                &&& plan.pane_clip is Some <==> has_area(cells(plan.inner_clip))
                &&& plan.title is Some <==> has_area(cells(plan.inner_clip)) && self.title@.len() > 0
                &&& plan.title matches Some(t) ==> {
                    &&& t.text_x == plan.inner.x && t.text_y == plan.inner.y
                    &&& t.clip == plan.inner_clip
                    &&& cells(t.bar) == (plan.inner.x.val(), plan.inner.y.val() + 1, plan.inner.width.val(), 1int)
                    &&& t.bar_border == (match self.border_color {
                        Some(c) => Some(c),
                        None => Some(Color::Default),
                    })
                    &&& cells(t.body) == (plan.inner.x.val(), plan.inner.y.val() + 2, plan.inner.width.val(), plan.inner.height.val() - 2)
                    &&& plan.pane_clip matches Some(pc) && cells(pc) == intersection_of(plan.inner_clip, t.body)
                }
                &&& plan.title is None ==> (plan.pane_clip matches Some(pc) ==> pc == plan.inner_clip)
            },
    {
        if !self.visible || !dirty {
            return None;
        }
        let one = C::one();
        proof {
            one.lemma_range();
            self.rect.x.lemma_range();
            self.rect.y.lemma_range();
            self.rect.width.lemma_range();
            self.rect.height.lemma_range();
        }
        let two = one.plus(one);
        let mut inner = self.rect;
        let mut inner_clip = clip;
        if self.border_color.is_some() {
            inner = Rect::new(
                self.rect.x.plus(one),
                self.rect.y.plus(one),
                self.rect.width.minus(two),
                self.rect.height.minus(two),
            );
            proof {
                lemma_cells_determine(inner, rect_with::<C>(self.inner_cells()));
            }
            inner_clip = clip.intersection(inner);
        }
        let zero = C::zero();
        let mut title = None;
        let mut pane_clip = None;
        if zero.below(inner_clip.width) && zero.below(inner_clip.height) {
            let mut pane = inner_clip;
            if !self.title.as_str().is_empty() {
                let body = Rect::new(inner.x, inner.y.plus(two), inner.width, inner.height.minus(two));
                let bar_border = match self.border_color {
                    Some(c) => Some(c),
                    None => Some(Color::Default),
                };
                title = Some(TitlePlan {
                    text_x: inner.x,
                    text_y: inner.y,
                    clip: inner_clip,
                    bar: Rect::new(inner.x, inner.y.plus(one), inner.width, one),
                    bar_border,
                    body,
                });
                pane = inner_clip.intersection(body);
            }
            pane_clip = Some(pane);
        }
        Some(RenderPlan {
            frame: self.rect,
            frame_clip: clip,
            color: self.color,
            border_color: self.border_color,
            inner,
            inner_clip,
            title,
            pane_clip,
        })
    }

    /// Set the background colour.
    pub fn set_color<T: Into<Color>>(&mut self, color: T)
        ensures
            T::obeys_into_spec() ==> *final(self) == (Window { color: color.into_spec(), ..*old(self) }),
    {
        self.color = color.into();
    }

    /// Set the border colour (`None`: no border).
    pub fn set_border_color<T: Into<Color>>(&mut self, color: Option<T>)
        ensures
            T::obeys_into_spec() ==> *final(self) == (Window { border_color: color_of(color), ..*old(self) }),
    {
        self.border_color = convert_color(color);
    }

    /// Set the colour used for components.
    pub fn set_component_color<T: Into<Color>>(&mut self, color: Option<T>)
        ensures
            T::obeys_into_spec() ==> *final(self) == (Window { component_color: color_of(color), ..*old(self) }),
    {
        self.component_color = convert_color(color);
    }
}

} // verus!
