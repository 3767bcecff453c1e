//! How a widget asks to be placed on the screen, read from the map its `init` function
//! returns.
use vstd::prelude::*;

use crate::language::assoc::{assoc_get, find_key};
use crate::language::value::{int_at, int_at_of, pairs_view, values_view, SValue, Value};
use crate::utils::{eq_ignore_ascii_case, eq_ignore_ascii_case_of};

verus! {

broadcast use vstd::std_specs::vec::group_vec_axioms;

/// An edge of the screen a widget sticks to.
#[derive(Clone, Copy, Debug, PartialEq, Eq, Structural)]
pub enum Anchor {
    Top,
    Right,
    Bottom,
    Left,
}

/// The layer of the shell a widget is drawn on.
#[derive(Clone, Copy, Debug, PartialEq, Eq, Structural)]
pub enum Layer {
    Background,
    Bottom,
    Top,
    Overlay,
}

/// Which renderer draws the widgets.
#[derive(Clone, Copy, Debug, PartialEq, Eq, Structural)]
pub enum Rendering {
    Cpu,
    Gpu,
}

#[derive(Debug)]
pub struct WidgetSettings {
    pub name: Option<String>,
    pub anchors: Vec<Anchor>,
    pub layer: Layer,
    pub exclusive_zone: i32,
    pub size: Option<(u32, u32)>,
    pub margin: (i32, i32, i32, i32),
    pub click_through: bool,
}

pub struct SWidgetSettings {
    pub name: Option<Seq<char>>,
    pub anchors: Seq<Anchor>,
    pub layer: Layer,
    pub exclusive_zone: i32,
    pub size: Option<(u32, u32)>,
    pub margin: (i32, i32, i32, i32),
    pub click_through: bool,
}

impl View for WidgetSettings {
    type V = SWidgetSettings;

    open spec fn view(&self) -> SWidgetSettings {
        SWidgetSettings {
            name: match self.name {
                Some(n) => Some(n@),
                None => None,
            },
            anchors: self.anchors@,
            layer: self.layer,
            exclusive_zone: self.exclusive_zone,
            size: self.size,
            margin: self.margin,
            click_through: self.click_through,
        }
    }
}

/* The model */

pub open spec fn default_settings() -> SWidgetSettings {
    SWidgetSettings {
        name: None,
        anchors: Seq::empty(),
        layer: Layer::Top,
        exclusive_zone: 0,
        size: None,
        margin: (0, 0, 0, 0),
        click_through: false,
    }
}

/// The anchor a name stands for, in any ASCII case.
pub open spec fn anchor_named(s: Seq<char>) -> Option<Anchor> {
    if eq_ignore_ascii_case(s, "Top"@) {
        Some(Anchor::Top)
    } else if eq_ignore_ascii_case(s, "Right"@) {
        Some(Anchor::Right)
    } else if eq_ignore_ascii_case(s, "Bottom"@) {
        Some(Anchor::Bottom)
    } else if eq_ignore_ascii_case(s, "Left"@) {
        Some(Anchor::Left)
    } else {
        None
    }
}

/// The layer a name stands for, in any ASCII case.
pub open spec fn layer_named(s: Seq<char>) -> Option<Layer> {
    if eq_ignore_ascii_case(s, "Background"@) {
        Some(Layer::Background)
    } else if eq_ignore_ascii_case(s, "Bottom"@) {
        Some(Layer::Bottom)
    } else if eq_ignore_ascii_case(s, "Top"@) {
        Some(Layer::Top)
    } else if eq_ignore_ascii_case(s, "Overlay"@) {
        Some(Layer::Overlay)
    } else {
        None
    }
}

/// The renderer a name stands for, in any ASCII case.
pub open spec fn rendering_named(s: Seq<char>) -> Option<Rendering> {
    if eq_ignore_ascii_case(s, "Cpu"@) {
        Some(Rendering::Cpu)
    } else if eq_ignore_ascii_case(s, "Gpu"@) {
        Some(Rendering::Gpu)
    } else {
        None
    }
}

pub open spec fn anchor_of_value(v: SValue) -> Option<Anchor> {
    match v {
        SValue::String(s) => anchor_named(s),
        _ => None,
    }
}

/// The anchors a value names: one name, or an array whose elements all name anchors.
pub open spec fn anchors_of(v: SValue) -> Option<Seq<Anchor>> {
    match v {
        SValue::String(s) => match anchor_named(s) {
            Some(a) => Some(seq![a]),
            None => None,
        },
        SValue::Array(vs) => if forall|i: int| 0 <= i < vs.len() ==> #[trigger] anchor_of_value(vs[i]) is Some {
            Some(Seq::new(vs.len(), |i: int| anchor_of_value(vs[i])->0))
        } else {
            None
        },
        _ => None,
    }
}

/// The entry of a map under a string key.
pub open spec fn entry(m: Seq<(SValue, SValue)>, key: Seq<char>) -> Option<SValue> {
    assoc_get(m, SValue::String(key))
}

pub open spec fn anchors_setting(m: Seq<(SValue, SValue)>) -> Seq<Anchor> {
    match entry(m, "anchor"@) {
        Some(v) => match anchors_of(v) {
            Some(a) => a,
            None => Seq::empty(),
        },
        None => Seq::empty(),
    }
}

pub open spec fn layer_setting(m: Seq<(SValue, SValue)>) -> Layer {
    match entry(m, "layer"@) {
        Some(SValue::String(s)) => match layer_named(s) {
            Some(l) => l,
            None => Layer::Top,
        },
        _ => Layer::Top,
    }
}

pub open spec fn exclusive_zone_setting(m: Seq<(SValue, SValue)>) -> i32 {
    match entry(m, "exclusiveZone"@) {
        Some(SValue::Int(n)) => n as i32,
        _ => 0,
    }
}

pub open spec fn size_setting(m: Seq<(SValue, SValue)>) -> Option<(u32, u32)> {
    match entry(m, "size"@) {
        Some(SValue::Array(vs)) => if int_at(vs, 0) is Some && int_at(vs, 1) is Some {
            Some((int_at(vs, 0)->0 as u32, int_at(vs, 1)->0 as u32))
        } else {
            None
        },
        _ => None,
    }
}

pub open spec fn margin_setting(m: Seq<(SValue, SValue)>) -> (i32, i32, i32, i32) {
    match entry(m, "margin"@) {
        Some(SValue::Array(vs)) => if int_at(vs, 0) is Some && int_at(vs, 1) is Some && int_at(vs, 2) is Some
            && int_at(vs, 3) is Some {
            (int_at(vs, 0)->0 as i32, int_at(vs, 1)->0 as i32, int_at(vs, 2)->0 as i32, int_at(vs, 3)->0 as i32)
        } else {
            (0, 0, 0, 0)
        },
        _ => (0, 0, 0, 0),
    }
}

pub open spec fn click_through_setting(m: Seq<(SValue, SValue)>) -> bool {
    match entry(m, "clickThrough"@) {
        Some(SValue::Bool(b)) => b,
        _ => false,
    }
}

/// The settings a value asks for: each setting its map gives in the right form, the
/// default for the others; all defaults for a value that is not a map.
pub open spec fn settings_of(v: SValue) -> SWidgetSettings {
    match v {
        SValue::HashMap(m) => SWidgetSettings {
            name: None,
            anchors: anchors_setting(m),
            layer: layer_setting(m),
            exclusive_zone: exclusive_zone_setting(m),
            size: size_setting(m),
            margin: margin_setting(m),
            click_through: click_through_setting(m),
        },
        _ => default_settings(),
    }
}

/* Reading the names */

impl Anchor {
    /// The anchor a name stands for, in any ASCII case.
    pub fn from_name(name: &String) -> (r: Option<Anchor>)
        ensures
            r == anchor_named(name@),
    {
        if eq_ignore_ascii_case_of(name, &String::from_str("Top")) {
            Some(Anchor::Top)
        } else if eq_ignore_ascii_case_of(name, &String::from_str("Right")) {
            Some(Anchor::Right)
        } else if eq_ignore_ascii_case_of(name, &String::from_str("Bottom")) {
            Some(Anchor::Bottom)
        } else if eq_ignore_ascii_case_of(name, &String::from_str("Left")) {
            Some(Anchor::Left)
        } else {
            None
        }
    }
}

impl Layer {
    /// The layer a name stands for, in any ASCII case.
    pub fn from_name(name: &String) -> (r: Option<Layer>)
        ensures
            r == layer_named(name@),
    {
        if eq_ignore_ascii_case_of(name, &String::from_str("Background")) {
            Some(Layer::Background)
        } else if eq_ignore_ascii_case_of(name, &String::from_str("Bottom")) {
            Some(Layer::Bottom)
        } else if eq_ignore_ascii_case_of(name, &String::from_str("Top")) {
            Some(Layer::Top)
        } else if eq_ignore_ascii_case_of(name, &String::from_str("Overlay")) {
            Some(Layer::Overlay)
        } else {
            None
        }
    }
}

impl Rendering {
    /// The renderer a name stands for, in any ASCII case.
    pub fn from_name(name: &String) -> (r: Option<Rendering>)
        ensures
            r == rendering_named(name@),
    {
        if eq_ignore_ascii_case_of(name, &String::from_str("Cpu")) {
            Some(Rendering::Cpu)
        } else if eq_ignore_ascii_case_of(name, &String::from_str("Gpu")) {
            Some(Rendering::Gpu)
        } else {
            None
        }
    }

    /// The renderer used when none is asked for.
    pub fn default_rendering() -> (r: Rendering)
        ensures
            r == Rendering::Gpu,
    {
        Rendering::Gpu
    }
}

/* Reading the settings */

/// The entry of a map under a string key.
pub fn entry_of<'a>(pairs: &'a Vec<(Value, Value)>, key: &str) -> (r: Option<&'a Value>)
    ensures
        match r {
            Some(v) => entry(pairs_view(pairs@), key@) == Some(v@),
            None => entry(pairs_view(pairs@), key@) is None,
        },
{
    let k = Value::String(key.to_owned());
    proof {
        crate::language::assoc::lemma_assoc_index(pairs_view(pairs@), k@);
    }
    match find_key(pairs, &k) {
        Some(i) => Some(&pairs[i].1),
        None => None,
    }
}

fn anchors_of_value(v: &Value) -> (r: Option<Vec<Anchor>>)
    ensures
        match r {
            Some(a) => anchors_of(v@) == Some(a@),
            None => anchors_of(v@) is None,
        },
{
    match v {
        Value::String(s) => match Anchor::from_name(s) {
            Some(a) => {
                let out = vec![a];
                assert(out@ =~= seq![a]);
                Some(out)
            },
            None => None,
        },
        Value::Array(vs) => {
            let ghost sv = values_view(vs@);
            assert(v@ == SValue::Array(sv));
            let mut out: Vec<Anchor> = Vec::new();
            let mut i: usize = 0;
            while i < vs.len()
                invariant
                    i <= vs@.len(),
                    sv == values_view(vs@),
                    v@ == SValue::Array(sv),
                    out@.len() == i,
                    forall|j: int| 0 <= j < i ==> #[trigger] anchor_of_value(sv[j]) == Some(out@[j]),
                decreases vs.len() - i,
            {
                let a = match &vs[i] {
                    Value::String(s) => Anchor::from_name(s),
                    _ => None,
                };
                match a {
                    Some(a) => out.push(a),
                    None => {
                        assert(anchor_of_value(sv[i as int]) is None);
                        assert(!(forall|j: int| 0 <= j < sv.len() ==> #[trigger] anchor_of_value(sv[j]) is Some));
                        return None;
                    },
                }
                i = i + 1;
            }
            assert(out@ =~= Seq::new(sv.len(), |j: int| anchor_of_value(sv[j])->0));
            Some(out)
        },
        _ => None,
    }
}

impl WidgetSettings {
    /// The settings used when nothing else is asked for.
    pub fn default_settings() -> (r: Self)
        ensures
            r@ == default_settings(),
    {
        let r = WidgetSettings {
            name: None,
            anchors: Vec::new(),
            layer: Layer::Top,
            exclusive_zone: 0,
            size: None,
            margin: (0, 0, 0, 0),
            click_through: false,
        };
        assert(r@.anchors =~= Seq::<Anchor>::empty());
        r
    }

    /// The settings that a value asks for (see `settings_of`).
    pub fn from_value(value: &Value) -> (r: Self)
        ensures
            r@ == settings_of(value@),
    {
        let mut settings = WidgetSettings::default_settings();
        let pairs = match value {
            Value::HashMap(pairs) => pairs,
            _ => return settings,
        };
        let ghost m = pairs_view(pairs@);
        if let Some(v) = entry_of(pairs, "anchor") {
            settings.anchors = match anchors_of_value(v) {
                Some(a) => a,
                None => Vec::new(),
            };
        }
        if let Some(Value::String(s)) = entry_of(pairs, "layer") {
            if let Some(l) = Layer::from_name(s) {
                settings.layer = l;
            }
        }
        if let Some(Value::Int(n)) = entry_of(pairs, "exclusiveZone") {
            settings.exclusive_zone = *n as i32;
        }
        if let Some(Value::Array(vs)) = entry_of(pairs, "size") {
            if let (Some(x), Some(y)) = (int_at_of(vs, 0), int_at_of(vs, 1)) {
                settings.size = Some((x as u32, y as u32));
            }
        }
        if let Some(Value::Array(vs)) = entry_of(pairs, "margin") {
            if let (Some(top), Some(right), Some(bottom), Some(left)) = (
                int_at_of(vs, 0),
                int_at_of(vs, 1),
                int_at_of(vs, 2),
                int_at_of(vs, 3),
            ) {
                settings.margin = (top as i32, right as i32, bottom as i32, left as i32);
            }
        }
        if let Some(Value::Bool(b)) = entry_of(pairs, "clickThrough") {
            settings.click_through = *b;
        }
        assert(settings@.anchors =~= anchors_setting(m));
        settings
    }
}

} // verus!
