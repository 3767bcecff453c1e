//! The settings of a standalone widget window, as a configuration file gives them.
use vstd::prelude::*;

verus! {

/// The size of the window: as large as the screen allows, or a fixed width and height.
#[derive(Clone, Copy, Debug, PartialEq, Eq, Structural)]
pub enum Size {
    Expand,
    Size(u32, u32),
}

impl Default for Size {
    fn default() -> (r: Self)
        ensures
            r == Size::Expand,
    {
        Size::Expand
    }
}

/// Where the window sticks: nowhere, to an edge, or to a corner.
#[derive(Clone, Copy, Debug, PartialEq, Eq, Structural)]
pub enum Anchor {
    Unanchored,
    Top,
    TopRight,
    Right,
    BottomRight,
    Bottom,
    BottomLeft,
    Left,
    TopLeft,
}

impl Default for Anchor {
    fn default() -> (r: Self)
        ensures
            r == Anchor::Unanchored,
    {
        Anchor::Unanchored
    }
}

/// The layer of the shell the window is drawn on.
#[derive(Clone, Copy, Debug, PartialEq, Eq, Structural)]
pub enum Layer {
    Background,
    Bottom,
    Top,
    Overlay,
}

/// The edges a window sticks to.
#[derive(Clone, Copy, Debug, PartialEq, Eq, Structural)]
pub struct Edges {
    pub top: bool,
    pub right: bool,
    pub bottom: bool,
    pub left: bool,
}

pub open spec fn anchor_edges(a: Anchor) -> Edges {
    match a {
        Anchor::Unanchored => Edges { top: false, right: false, bottom: false, left: false },
        Anchor::Top => Edges { top: true, right: false, bottom: false, left: false },
        Anchor::TopRight => Edges { top: true, right: true, bottom: false, left: false },
        Anchor::Right => Edges { top: false, right: true, bottom: false, left: false },
        Anchor::BottomRight => Edges { top: false, right: true, bottom: true, left: false },
        Anchor::Bottom => Edges { top: false, right: false, bottom: true, left: false },
        Anchor::BottomLeft => Edges { top: false, right: false, bottom: true, left: true },
        Anchor::Left => Edges { top: false, right: false, bottom: false, left: true },
        Anchor::TopLeft => Edges { top: true, right: false, bottom: false, left: true },
    }
}

impl Anchor {
    /// The edges the anchor sticks to: a corner is its two edges.
    pub fn edges(&self) -> (r: Edges)
        ensures
            r == anchor_edges(*self),
    {
        match self {
            Anchor::Unanchored => Edges { top: false, right: false, bottom: false, left: false },
            Anchor::Top => Edges { top: true, right: false, bottom: false, left: false },
            Anchor::TopRight => Edges { top: true, right: true, bottom: false, left: false },
            Anchor::Right => Edges { top: false, right: true, bottom: false, left: false },
            Anchor::BottomRight => Edges { top: false, right: true, bottom: true, left: false },
            Anchor::Bottom => Edges { top: false, right: false, bottom: true, left: false },
            Anchor::BottomLeft => Edges { top: false, right: false, bottom: true, left: true },
            Anchor::Left => Edges { top: false, right: false, bottom: false, left: true },
            Anchor::TopLeft => Edges { top: true, right: false, bottom: false, left: true },
        }
    }
}

impl Size {
    /// The fixed width and height, none when the window expands.
    pub fn dimensions(&self) -> (r: Option<(u32, u32)>)
        ensures
            r == match *self {
                Size::Expand => None,
                Size::Size(x, y) => Some((x, y)),
            },
    {
        match self {
            Size::Expand => None,
            Size::Size(x, y) => Some((*x, *y)),
        }
    }
}

#[derive(Debug)]
pub struct WidgetSettings {
    pub id: Option<String>,
    pub anchor: Anchor,
    pub layer: Layer,
    pub exclusive_zone: i32,
    pub size: Size,
    pub margin: (i32, i32, i32, i32),
}

impl Default for WidgetSettings {
    fn default() -> (r: Self)
        ensures
            r.id is None,
            r.anchor == Anchor::Unanchored,
            r.layer == Layer::Top,
            r.exclusive_zone == 0,
            r.size == Size::Size(100, 100),
            r.margin == (0i32, 0i32, 0i32, 0i32),
    {
        WidgetSettings {
            id: None,
            anchor: Anchor::Unanchored,
            layer: Layer::Top,
            exclusive_zone: 0,
            size: Size::Size(100, 100),
            margin: (0, 0, 0, 0),
        }
    }
}

} // verus!
