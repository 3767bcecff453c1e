//! The style properties every element understands, read from a map of the language.
//!
//! Sizes are whole numbers of pixels, as the language writes them.
use vstd::prelude::*;

use crate::language::value::{int_at, int_at_of, pairs_view, values_view, SValue, Value};
use crate::style::color::{color_of_value, default_color, Color};
use crate::utils::{eq_ignore_ascii_case, eq_ignore_ascii_case_of, simple_case, SimpleCase};

verus! {

broadcast use vstd::std_specs::vec::group_vec_axioms;

/// The text size used when a style gives none.
pub const DEFAULT_TEXT_SIZE: i64 = 17;

/// Where content is placed along an axis.
#[derive(Clone, Copy, Debug, PartialEq, Eq, Structural)]
pub enum Align {
    Start,
    Center,
    End,
}

impl Default for Align {
    fn default() -> (r: Self)
        ensures
            r == Align::Start,
    {
        Align::Start
    }
}

/// How much room an element takes along an axis.
#[derive(Clone, Copy, Debug, PartialEq, Eq, Structural)]
pub enum Length {
    Shrink,
    Fill,
    Fixed(i64),
}

impl Default for Length {
    fn default() -> (r: Self)
        ensures
            r == Length::Fill,
    {
        Length::Fill
    }
}

/// Four values going around a box: top, right, bottom, left.
#[derive(Clone, Copy, Debug, PartialEq, Eq, Structural)]
pub struct Sides {
    pub top: i64,
    pub right: i64,
    pub bottom: i64,
    pub left: i64,
}

/// Four values for the corners of a box: top left, top right, bottom right, bottom left.
#[derive(Clone, Copy, Debug, PartialEq, Eq, Structural)]
pub struct Corners {
    pub top_left: i64,
    pub top_right: i64,
    pub bottom_right: i64,
    pub bottom_left: i64,
}

#[derive(Clone, Copy, Debug, PartialEq, Eq, Structural)]
pub struct Border {
    pub color: Color,
    pub width: i64,
    pub radius: Corners,
}

/// The name of a font.
#[derive(Clone, Debug, PartialEq, Eq, Hash)]
pub struct FontName {
    name: String,
}

impl View for FontName {
    type V = Seq<char>;

    closed spec fn view(&self) -> Seq<char> {
        self.name@
    }
}

impl FontName {
    pub fn new(string: String) -> (r: Self)
        ensures
            r@ == string@,
    {
        FontName { name: string }
    }

    pub fn as_str(&self) -> (r: &str)
        ensures
            r@ == self@,
    {
        self.name.as_str()
    }

    /// Another font name with the same text.
    pub fn copied(&self) -> (r: Self)
        ensures
            r@ == self@,
    {
        FontName { name: self.name.clone() }
    }
}

/// The properties of a style; a property that is not there is taken from elsewhere.
#[derive(Debug)]
pub struct CommonStyle {
    background: Option<Color>,
    color: Option<Color>,
    highlight: Option<Color>,
    font: Option<FontName>,
    text_size: Option<i64>,
    line_height: Option<i64>,
    align_x: Option<Align>,
    align_y: Option<Align>,
    spacing: Option<i64>,
    width: Option<Length>,
    height: Option<Length>,
    border: Option<Border>,
    padding: Option<Sides>,
}

pub struct SCommonStyle {
    pub background: Option<Color>,
    pub color: Option<Color>,
    pub highlight: Option<Color>,
    pub font: Option<Seq<char>>,
    pub text_size: Option<i64>,
    pub line_height: Option<i64>,
    pub align_x: Option<Align>,
    pub align_y: Option<Align>,
    pub spacing: Option<i64>,
    pub width: Option<Length>,
    pub height: Option<Length>,
    pub border: Option<Border>,
    pub padding: Option<Sides>,
}

impl View for CommonStyle {
    type V = SCommonStyle;

    closed spec fn view(&self) -> SCommonStyle {
        SCommonStyle {
            background: self.background,
            color: self.color,
            highlight: self.highlight,
            font: match self.font {
                Some(f) => Some(f@),
                None => None,
            },
            text_size: self.text_size,
            line_height: self.line_height,
            align_x: self.align_x,
            align_y: self.align_y,
            spacing: self.spacing,
            width: self.width,
            height: self.height,
            border: self.border,
            padding: self.padding,
        }
    }
}

/* The model */

/// The style that gives no property.
pub open spec fn empty_style() -> SCommonStyle {
    SCommonStyle {
        background: None,
        color: None,
        highlight: None,
        font: None,
        text_size: None,
        line_height: None,
        align_x: None,
        align_y: None,
        spacing: None,
        width: None,
        height: None,
        border: None,
        padding: None,
    }
}

pub open spec fn or<T>(a: Option<T>, b: Option<T>) -> Option<T> {
    match a {
        Some(x) => Some(x),
        None => b,
    }
}

/// The properties of `a`, and those that `a` lacks taken from `b`.
pub open spec fn merge_styles(a: SCommonStyle, b: SCommonStyle) -> SCommonStyle {
    SCommonStyle {
        background: or(a.background, b.background),
        color: or(a.color, b.color),
        highlight: or(a.highlight, b.highlight),
        font: or(a.font, b.font),
        text_size: or(a.text_size, b.text_size),
        line_height: or(a.line_height, b.line_height),
        align_x: or(a.align_x, b.align_x),
        align_y: or(a.align_y, b.align_y),
        spacing: or(a.spacing, b.spacing),
        width: or(a.width, b.width),
        height: or(a.height, b.height),
        border: or(a.border, b.border),
        padding: or(a.padding, b.padding),
    }
}

/// Every property that `a` gives, `b` gives with the same value.
pub open spec fn gives_all_of(a: SCommonStyle, b: SCommonStyle) -> bool {
    &&& a.background is Some ==> b.background == a.background
    &&& a.color is Some ==> b.color == a.color
    &&& a.highlight is Some ==> b.highlight == a.highlight
    &&& a.font is Some ==> b.font == a.font
    &&& a.text_size is Some ==> b.text_size == a.text_size
    &&& a.line_height is Some ==> b.line_height == a.line_height
    &&& a.align_x is Some ==> b.align_x == a.align_x
    &&& a.align_y is Some ==> b.align_y == a.align_y
    &&& a.spacing is Some ==> b.spacing == a.spacing
    &&& a.width is Some ==> b.width == a.width
    &&& a.height is Some ==> b.height == a.height
    &&& a.border is Some ==> b.border == a.border
    &&& a.padding is Some ==> b.padding == a.padding
}

/// The alignment a name stands for, in any ASCII case.
pub open spec fn align_named(s: Seq<char>) -> Option<Align> {
    if eq_ignore_ascii_case(s, "Start"@) {
        Some(Align::Start)
    } else if eq_ignore_ascii_case(s, "Center"@) {
        Some(Align::Center)
    } else if eq_ignore_ascii_case(s, "End"@) {
        Some(Align::End)
    } else {
        None
    }
}

/// The length a name stands for, in any ASCII case; `Fixed` alone is a length of zero.
pub open spec fn length_named(s: Seq<char>) -> Option<Length> {
    if eq_ignore_ascii_case(s, "Shrink"@) {
        Some(Length::Shrink)
    } else if eq_ignore_ascii_case(s, "Fill"@) {
        Some(Length::Fill)
    } else if eq_ignore_ascii_case(s, "Fixed"@) {
        Some(Length::Fixed(0))
    } else {
        None
    }
}

/// The value under a key of a style map, keys compared in their simple case; where several
/// keys have the same simple case, the last one counts.
pub open spec fn style_entry(m: Seq<(SValue, SValue)>, k: Seq<char>) -> Option<SValue>
    decreases m.len(),
{
    if m.len() == 0 {
        None
    } else if m.last().0 matches SValue::String(s) && simple_case(s) == k {
        Some(m.last().1)
    } else {
        style_entry(m.drop_last(), k)
    }
}

pub open spec fn color_entry(m: Seq<(SValue, SValue)>, k: Seq<char>) -> Option<Color> {
    match style_entry(m, k) {
        Some(v) => Some(color_of_value(v)),
        None => None,
    }
}

pub open spec fn int_entry(m: Seq<(SValue, SValue)>, k: Seq<char>) -> Option<i64> {
    match style_entry(m, k) {
        Some(SValue::Int(n)) => Some(n),
        _ => None,
    }
}

pub open spec fn align_entry(m: Seq<(SValue, SValue)>, k: Seq<char>) -> Option<Align> {
    match style_entry(m, k) {
        Some(SValue::String(s)) => align_named(s),
        _ => None,
    }
}

pub open spec fn length_entry(m: Seq<(SValue, SValue)>, k: Seq<char>) -> Option<Length> {
    match style_entry(m, k) {
        Some(SValue::Int(n)) => Some(Length::Fixed(n)),
        Some(SValue::String(s)) => length_named(s),
        _ => None,
    }
}

pub open spec fn four_ints(vs: Seq<SValue>) -> bool {
    int_at(vs, 0) is Some && int_at(vs, 1) is Some && int_at(vs, 2) is Some && int_at(vs, 3) is Some
}

pub open spec fn default_border() -> Border {
    Border {
        color: default_color(),
        width: 0,
        radius: Corners { top_left: 0, top_right: 0, bottom_right: 0, bottom_left: 0 },
    }
}

/// The border a map describes: its color, width and corner radii, each defaulted.
pub open spec fn border_of(m: Seq<(SValue, SValue)>) -> Border {
    Border {
        color: match color_entry(m, "color"@) {
            Some(c) => c,
            None => default_color(),
        },
        width: match int_entry(m, "width"@) {
            Some(w) => w,
            None => 0,
        },
        radius: match style_entry(m, "radius"@) {
            Some(SValue::Array(vs)) => if four_ints(vs) {
                Corners {
                    top_left: int_at(vs, 0)->0,
                    top_right: int_at(vs, 1)->0,
                    bottom_right: int_at(vs, 2)->0,
                    bottom_left: int_at(vs, 3)->0,
                }
            } else {
                default_border().radius
            },
            _ => default_border().radius,
        },
    }
}

/// The style a map describes.
pub open spec fn style_of_map(m: Seq<(SValue, SValue)>) -> SCommonStyle {
    SCommonStyle {
        background: color_entry(m, "background"@),
        color: color_entry(m, "color"@),
        highlight: color_entry(m, "highlight"@),
        font: match style_entry(m, "font"@) {
            Some(SValue::String(s)) => Some(s),
            _ => None,
        },
        text_size: int_entry(m, "textsize"@),
        line_height: int_entry(m, "lineheight"@),
        align_x: align_entry(m, "alignx"@),
        align_y: align_entry(m, "aligny"@),
        spacing: int_entry(m, "spacing"@),
        width: length_entry(m, "width"@),
        height: length_entry(m, "height"@),
        border: match style_entry(m, "border"@) {
            Some(SValue::HashMap(bm)) => Some(border_of(bm)),
            _ => None,
        },
        padding: match style_entry(m, "padding"@) {
            Some(SValue::Array(vs)) => if four_ints(vs) {
                Some(
                    Sides {
                        top: int_at(vs, 0)->0,
                        right: int_at(vs, 1)->0,
                        bottom: int_at(vs, 2)->0,
                        left: int_at(vs, 3)->0,
                    },
                )
            } else {
                None
            },
            _ => None,
        },
    }
}

/// The style a value describes; a value that is not a map describes the empty style.
pub open spec fn style_of(v: SValue) -> SCommonStyle {
    match v {
        SValue::HashMap(m) => style_of_map(m),
        _ => empty_style(),
    }
}

/// An opacity cannot be given as a whole number: a style map that holds one is not read.
pub open spec fn style_readable(v: SValue) -> bool {
    match v {
        SValue::HashMap(m) => style_entry(m, "opacity"@) is None,
        _ => true,
    }
}

/* Reading a style */

impl Align {
    /// The alignment a name stands for, in any ASCII case.
    pub fn from_name(name: &String) -> (r: Option<Align>)
        ensures
            r == align_named(name@),
    {
        if eq_ignore_ascii_case_of(name, &String::from_str("Start")) {
            Some(Align::Start)
        } else if eq_ignore_ascii_case_of(name, &String::from_str("Center")) {
            Some(Align::Center)
        } else if eq_ignore_ascii_case_of(name, &String::from_str("End")) {
            Some(Align::End)
        } else {
            None
        }
    }
}

impl Length {
    /// The length a name stands for, in any ASCII case.
    pub fn from_name(name: &String) -> (r: Option<Length>)
        ensures
            r == length_named(name@),
    {
        if eq_ignore_ascii_case_of(name, &String::from_str("Shrink")) {
            Some(Length::Shrink)
        } else if eq_ignore_ascii_case_of(name, &String::from_str("Fill")) {
            Some(Length::Fill)
        } else if eq_ignore_ascii_case_of(name, &String::from_str("Fixed")) {
            Some(Length::Fixed(0))
        } else {
            None
        }
    }
}

/// The value under a key of a style map (see `style_entry`).
pub fn style_entry_of<'a>(pairs: &'a Vec<(Value, Value)>, key: &str) -> (r: Option<&'a Value>)
    ensures
        match r {
            Some(v) => style_entry(pairs_view(pairs@), key@) == Some(v@),
            None => style_entry(pairs_view(pairs@), key@) is None,
        },
{
    let ghost m = pairs_view(pairs@);
    let target = key.to_owned();
    let mut i: usize = pairs.len();
    assert(m.take(i as int) =~= m);
    while i > 0
        invariant
            i <= pairs@.len(),
            m == pairs_view(pairs@),
            target@ == key@,
            style_entry(m.take(i as int), key@) == style_entry(m, key@),
        decreases i,
    {
        proof {
            assert(m.take(i as int).drop_last() =~= m.take(i as int - 1));
        }
        if let Value::String(s) = &pairs[i - 1].0 {
            let simple = SimpleCase::new(s.as_str()).to_simple_string();
            if simple == target {
                return Some(&pairs[i - 1].1);
            }
        }
        i = i - 1;
    }
    assert(m.take(0) =~= Seq::<(SValue, SValue)>::empty());
    None
}

fn color_entry_of(pairs: &Vec<(Value, Value)>, key: &str) -> (r: Option<Color>)
    ensures
        r == color_entry(pairs_view(pairs@), key@),
{
    match style_entry_of(pairs, key) {
        Some(v) => Some(Color::from_value(v)),
        None => None,
    }
}

fn int_entry_of(pairs: &Vec<(Value, Value)>, key: &str) -> (r: Option<i64>)
    ensures
        r == int_entry(pairs_view(pairs@), key@),
{
    match style_entry_of(pairs, key) {
        Some(Value::Int(n)) => Some(*n),
        _ => None,
    }
}

fn align_entry_of(pairs: &Vec<(Value, Value)>, key: &str) -> (r: Option<Align>)
    ensures
        r == align_entry(pairs_view(pairs@), key@),
{
    match style_entry_of(pairs, key) {
        Some(Value::String(s)) => Align::from_name(s),
        _ => None,
    }
}

fn length_entry_of(pairs: &Vec<(Value, Value)>, key: &str) -> (r: Option<Length>)
    ensures
        r == length_entry(pairs_view(pairs@), key@),
{
    match style_entry_of(pairs, key) {
        Some(Value::Int(n)) => Some(Length::Fixed(*n)),
        Some(Value::String(s)) => Length::from_name(s),
        _ => None,
    }
}

/// The four integers at the start of an array, if they are integers.
fn four_ints_of(vs: &Vec<Value>) -> (r: Option<(i64, i64, i64, i64)>)
    ensures
        match r {
            Some((a, b, c, d)) => four_ints(values_view(vs@)) && a == int_at(values_view(vs@), 0)->0 && b == int_at(
                values_view(vs@),
                1,
            )->0 && c == int_at(values_view(vs@), 2)->0 && d == int_at(values_view(vs@), 3)->0,
            None => !four_ints(values_view(vs@)),
        },
{
    match (int_at_of(vs, 0), int_at_of(vs, 1), int_at_of(vs, 2), int_at_of(vs, 3)) {
        (Some(a), Some(b), Some(c), Some(d)) => Some((a, b, c, d)),
        _ => None,
    }
}

impl Border {
    pub fn default_border() -> (r: Border)
        ensures
            r == default_border(),
    {
        Border {
            color: Color::default_color(),
            width: 0,
            radius: Corners { top_left: 0, top_right: 0, bottom_right: 0, bottom_left: 0 },
        }
    }

    /// The border a map describes (see `border_of`).
    pub fn from_pairs(pairs: &Vec<(Value, Value)>) -> (r: Border)
        ensures
            r == border_of(pairs_view(pairs@)),
    {
        let mut border = Border::default_border();
        if let Some(c) = color_entry_of(pairs, "color") {
            border.color = c;
        }
        if let Some(w) = int_entry_of(pairs, "width") {
            border.width = w;
        }
        if let Some(Value::Array(vs)) = style_entry_of(pairs, "radius") {
            if let Some((a, b, c, d)) = four_ints_of(vs) {
                border.radius = Corners { top_left: a, top_right: b, bottom_right: c, bottom_left: d };
            }
        }
        border
    }
}

/// The first value if there is one, else the second.
fn either<T: Copy>(a: Option<T>, b: Option<T>) -> (r: Option<T>)
    ensures
        r == or(a, b),
{
    match a {
        Some(x) => Some(x),
        None => b,
    }
}

impl CommonStyle {
    /// The style that gives no property.
    pub fn empty() -> (r: Self)
        ensures
            r@ == empty_style(),
    {
        CommonStyle {
            background: None,
            color: None,
            highlight: None,
            font: None,
            text_size: None,
            line_height: None,
            align_x: None,
            align_y: None,
            spacing: None,
            width: None,
            height: None,
            border: None,
            padding: None,
        }
    }

    /// The style a value describes (see `style_of`).
    pub fn from_value(value: &Value) -> (r: Self)
        requires
            style_readable(value@),
        ensures
            r@ == style_of(value@),
    {
        let mut style = CommonStyle::empty();
        let pairs = match value {
            Value::HashMap(pairs) => pairs,
            _ => return style,
        };
        style.background = color_entry_of(pairs, "background");
        style.color = color_entry_of(pairs, "color");
        style.highlight = color_entry_of(pairs, "highlight");
        if let Some(Value::String(s)) = style_entry_of(pairs, "font") {
            style.font = Some(FontName::new(s.clone()));
        }
        style.text_size = int_entry_of(pairs, "textsize");
        style.line_height = int_entry_of(pairs, "lineheight");
        style.align_x = align_entry_of(pairs, "alignx");
        style.align_y = align_entry_of(pairs, "aligny");
        style.spacing = int_entry_of(pairs, "spacing");
        style.width = length_entry_of(pairs, "width");
        style.height = length_entry_of(pairs, "height");
        if let Some(Value::HashMap(bm)) = style_entry_of(pairs, "border") {
            style.border = Some(Border::from_pairs(bm));
        }
        if let Some(Value::Array(vs)) = style_entry_of(pairs, "padding") {
            if let Some((top, right, bottom, left)) = four_ints_of(vs) {
                style.padding = Some(Sides { top, right, bottom, left });
            }
        }
        style
    }

    /// The properties of this style, and those it lacks taken from `other`.
    pub fn merge(&self, other: &Self) -> (r: Self)
        ensures
            r@ == merge_styles(self@, other@),
    {
        CommonStyle {
            background: either(self.background, other.background),
            color: either(self.color, other.color),
            highlight: either(self.highlight, other.highlight),
            font: match &self.font {
                Some(f) => Some(f.copied()),
                None => match &other.font {
                    Some(f) => Some(f.copied()),
                    None => None,
                },
            },
            text_size: either(self.text_size, other.text_size),
            line_height: either(self.line_height, other.line_height),
            align_x: either(self.align_x, other.align_x),
            align_y: either(self.align_y, other.align_y),
            spacing: either(self.spacing, other.spacing),
            width: either(self.width, other.width),
            height: either(self.height, other.height),
            border: either(self.border, other.border),
            padding: either(self.padding, other.padding),
        }
    }

    pub fn background(&self) -> (r: Option<Color>)
        ensures
            r == self@.background,
    {
        self.background
    }

    pub fn color(&self) -> (r: Option<Color>)
        ensures
            r == self@.color,
    {
        self.color
    }

    pub fn highlight(&self) -> (r: Option<Color>)
        ensures
            r == self@.highlight,
    {
        self.highlight
    }

    pub fn font(&self) -> (r: Option<FontName>)
        ensures
            match r {
                Some(f) => self@.font == Some(f@),
                None => self@.font is None,
            },
    {
        match &self.font {
            Some(f) => Some(f.copied()),
            None => None,
        }
    }

    /// The text size, `DEFAULT_TEXT_SIZE` when the style gives none.
    pub fn text_size(&self) -> (r: i64)
        ensures
            r == match self@.text_size {
                Some(n) => n,
                None => DEFAULT_TEXT_SIZE,
            },
    {
        match self.text_size {
            Some(n) => n,
            None => DEFAULT_TEXT_SIZE,
        }
    }

    pub fn line_height(&self) -> (r: Option<i64>)
        ensures
            r == self@.line_height,
    {
        self.line_height
    }

    /// The horizontal alignment, `Start` when the style gives none.
    pub fn align_x(&self) -> (r: Align)
        ensures
            r == match self@.align_x {
                Some(a) => a,
                None => Align::Start,
            },
    {
        match self.align_x {
            Some(a) => a,
            None => Align::Start,
        }
    }

    /// The vertical alignment, `Start` when the style gives none.
    pub fn align_y(&self) -> (r: Align)
        ensures
            r == match self@.align_y {
                Some(a) => a,
                None => Align::Start,
            },
    {
        match self.align_y {
            Some(a) => a,
            None => Align::Start,
        }
    }

    /// The width, `Fill` when the style gives none.
    pub fn width(&self) -> (r: Length)
        ensures
            r == match self@.width {
                Some(l) => l,
                None => Length::Fill,
            },
    {
        match self.width {
            Some(l) => l,
            None => Length::Fill,
        }
    }

    /// The height, `Fill` when the style gives none.
    pub fn height(&self) -> (r: Length)
        ensures
            r == match self@.height {
                Some(l) => l,
                None => Length::Fill,
            },
    {
        match self.height {
            Some(l) => l,
            None => Length::Fill,
        }
    }

    /// The border, the default border when the style gives none.
    pub fn border(&self) -> (r: Border)
        ensures
            r == match self@.border {
                Some(b) => b,
                None => default_border(),
            },
    {
        match self.border {
            Some(b) => b,
            None => Border::default_border(),
        }
    }

    /// The padding, zero on each side when the style gives none.
    pub fn padding(&self) -> (r: Sides)
        ensures
            r == match self@.padding {
                Some(p) => p,
                None => Sides { top: 0, right: 0, bottom: 0, left: 0 },
            },
    {
        match self.padding {
            Some(p) => p,
            None => Sides { top: 0, right: 0, bottom: 0, left: 0 },
        }
    }

    /// The spacing, zero when the style gives none.
    pub fn spacing(&self) -> (r: i64)
        ensures
            r == match self@.spacing {
                Some(n) => n,
                None => 0,
            },
    {
        match self.spacing {
            Some(n) => n,
            None => 0,
        }
    }

    /// Another style with the same properties.
    pub fn copied(&self) -> (r: Self)
        ensures
            r@ == self@,
    {
        self.merge(&CommonStyle::empty())
    }
}

/// Merging with the empty style, on either side, changes nothing.
pub proof fn law_merge_empty(a: SCommonStyle)
    ensures
        merge_styles(a, empty_style()) == a,
        merge_styles(empty_style(), a) == a,
{
}

/// Merging is associative, and merging a style with itself gives it back.
pub proof fn law_merge_associative(a: SCommonStyle, b: SCommonStyle, c: SCommonStyle)
    ensures
        merge_styles(merge_styles(a, b), c) == merge_styles(a, merge_styles(b, c)),
        merge_styles(a, a) == a,
{
}

/// A merged style keeps every property of its first style.
pub proof fn law_merge_keeps_own(a: SCommonStyle, b: SCommonStyle)
    ensures
        gives_all_of(a, merge_styles(a, b)),
{
}

} // verus!
