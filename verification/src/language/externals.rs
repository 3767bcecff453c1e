//! What the external functions make of their arguments before they act, and of what they
//! learn before they answer: the command line `exec` runs, the map `date` answers, how
//! long `timeEvents` waits, the track map of `mpris.track`, the dispatch of
//! `hyprland.focusWorkspace` and the event maps of `hyprland.events`.
use vstd::prelude::*;

use crate::language::text::{append_str, chars_of, decimal, decimal_of, display, display_of, string_of_range};
use crate::language::value::{pairs_view, values_view, SValue, Value};

verus! {

broadcast use vstd::std_specs::vec::group_vec_axioms;

pub open spec fn strings_view(v: Seq<String>) -> Seq<Seq<char>> {
    Seq::new(v.len(), |i: int| v[i]@)
}

/* Command lines */

pub open spec fn is_quote(c: char) -> bool {
    c == '"' || c == '\''
}

pub open spec fn trim_quotes_start(s: Seq<char>) -> Seq<char>
    decreases s.len(),
{
    if s.len() > 0 && is_quote(s[0]) {
        trim_quotes_start(s.drop_first())
    } else {
        s
    }
}

pub open spec fn trim_quotes_end(s: Seq<char>) -> Seq<char>
    decreases s.len(),
{
    if s.len() > 0 && is_quote(s.last()) {
        trim_quotes_end(s.drop_last())
    } else {
        s
    }
}

/// The text without the quotes at its start and at its end.
pub open spec fn trim_quotes(s: Seq<char>) -> Seq<char> {
    trim_quotes_end(trim_quotes_start(s))
}

/// Where splitting a command line stands after its first `n` characters: the words so far,
/// where the current word starts, and whether a quote is open.
pub struct SplitState {
    pub parts: Seq<Seq<char>>,
    pub start: int,
    pub quoted: bool,
}

pub open spec fn split_state(cs: Seq<char>, n: int) -> SplitState
    decreases n,
{
    if n <= 0 {
        SplitState { parts: Seq::empty(), start: 0, quoted: false }
    } else {
        let st = split_state(cs, n - 1);
        let c = cs[n - 1];
        if c == ' ' && !st.quoted {
            SplitState { parts: st.parts.push(trim_quotes(cs.subrange(st.start, n - 1))), start: n, quoted: false }
        } else if is_quote(c) {
            SplitState { parts: st.parts, start: st.start, quoted: !st.quoted }
        } else {
            st
        }
    }
}

/// The words of a command line: split at spaces outside quotes, each without the quotes
/// around it.
pub open spec fn split_command_text(cs: Seq<char>) -> Seq<Seq<char>> {
    let st = split_state(cs, cs.len() as int);
    st.parts.push(trim_quotes(cs.subrange(st.start, cs.len() as int)))
}

/// The words a value of `exec` stands for: a command line, or an array of values each
/// written as text.
pub open spec fn command_words(v: SValue) -> Option<Seq<Seq<char>>> {
    match v {
        SValue::String(s) => Some(split_command_text(s)),
        SValue::Array(vs) => Some(Seq::new(vs.len(), |i: int| display(vs[i]))),
        _ => None,
    }
}

/// The program `exec` runs and its arguments; none when there is no word.
pub open spec fn command_of(v: SValue) -> Option<(Seq<char>, Seq<Seq<char>>)> {
    match command_words(v) {
        Some(w) => if w.len() > 0 {
            Some((w[0], w.drop_first()))
        } else {
            None
        },
        None => None,
    }
}

proof fn lemma_split_start(cs: Seq<char>, n: int)
    requires
        0 <= n <= cs.len(),
    ensures
        0 <= split_state(cs, n).start <= n,
    decreases n,
{
    if n > 0 {
        lemma_split_start(cs, n - 1);
    }
}

/// The part of `cs[a..b]` that is left without the quotes at its ends.
fn trim_quotes_range(cs: &Vec<char>, a: usize, b: usize) -> (r: (usize, usize))
    requires
        a <= b <= cs@.len(),
    ensures
        a <= r.0 <= r.1 <= b,
        cs@.subrange(r.0 as int, r.1 as int) == trim_quotes(cs@.subrange(a as int, b as int)),
{
    let mut lo = a;
    while lo < b && (cs[lo] == '"' || cs[lo] == '\'')
        invariant
            a <= lo <= b <= cs@.len(),
            trim_quotes_start(cs@.subrange(a as int, b as int)) == trim_quotes_start(cs@.subrange(lo as int, b as int)),
        decreases b - lo,
    {
        proof {
            assert(cs@.subrange(lo as int, b as int).drop_first() =~= cs@.subrange(lo as int + 1, b as int));
        }
        lo = lo + 1;
    }
    let mut hi = b;
    while hi > lo && (cs[hi - 1] == '"' || cs[hi - 1] == '\'')
        invariant
            a <= lo <= hi <= b <= cs@.len(),
            trim_quotes_start(cs@.subrange(a as int, b as int)) == cs@.subrange(lo as int, b as int)
                ==> trim_quotes(cs@.subrange(a as int, b as int)) == trim_quotes_end(cs@.subrange(lo as int, hi as int)),
            trim_quotes_start(cs@.subrange(a as int, b as int)) == cs@.subrange(lo as int, b as int),
        decreases hi - lo,
    {
        proof {
            assert(cs@.subrange(lo as int, hi as int).drop_last() =~= cs@.subrange(lo as int, hi as int - 1));
        }
        hi = hi - 1;
    }
    (lo, hi)
}

/// The words of a command line (see `split_command_text`).
pub fn split_command(command: &String) -> (r: Vec<String>)
    ensures
        strings_view(r@) == split_command_text(command@),
{
    let cs = chars_of(command);
    let mut parts: Vec<String> = Vec::new();
    let mut start: usize = 0;
    let mut quoted = false;
    let mut i: usize = 0;
    while i < cs.len()
        invariant
            i <= cs@.len(),
            cs@ == command@,
            start <= i,
            strings_view(parts@) == split_state(cs@, i as int).parts,
            start == split_state(cs@, i as int).start,
            quoted == split_state(cs@, i as int).quoted,
        decreases cs.len() - i,
    {
        let c = cs[i];
        if c == ' ' && !quoted {
            let (lo, hi) = trim_quotes_range(&cs, start, i);
            let word = string_of_range(&cs, lo, hi);
            let ghost before = parts@;
            parts.push(word);
            proof {
                assert(strings_view(parts@) =~= strings_view(before).push(word@));
            }
            start = i + 1;
        } else if c == '"' || c == '\'' {
            quoted = !quoted;
        }
        i = i + 1;
    }
    let (lo, hi) = trim_quotes_range(&cs, start, cs.len());
    let word = string_of_range(&cs, lo, hi);
    let ghost before = parts@;
    parts.push(word);
    proof {
        assert(strings_view(parts@) =~= strings_view(before).push(word@));
    }
    parts
}

/// The program `exec` runs and its arguments (see `command_of`).
pub fn exec_command(tail: &Value) -> (r: Option<(String, Vec<String>)>)
    ensures
        match r {
            Some((p, args)) => command_of(tail@) == Some((p@, strings_view(args@))),
            None => command_of(tail@) is None,
        },
{
    let mut words = match tail {
        Value::String(s) => split_command(s),
        Value::Array(vs) => {
            let ghost sv = values_view(vs@);
            let mut out: Vec<String> = Vec::new();
            let mut i: usize = 0;
            while i < vs.len()
                invariant
                    i <= vs@.len(),
                    sv == values_view(vs@),
                    strings_view(out@) == Seq::new(i as nat, |k: int| display(sv[k])),
                decreases vs.len() - i,
            {
                let ghost before = out@;
                let text = display_of(&vs[i]);
                let ghost tv = text@;
                out.push(text);
                proof {
                    assert(tv == display(sv[i as int]));
                    assert(strings_view(out@) =~= strings_view(before).push(tv));
                    assert(strings_view(out@) =~= Seq::new((i + 1) as nat, |k: int| display(sv[k])));
                }
                i = i + 1;
            }
            out
        },
        _ => return None,
    };
    let ghost w = strings_view(words@);
    assert(command_words(tail@) == Some(w));
    if words.len() == 0 {
        return None;
    }
    let program = words.remove(0);
    proof {
        assert(strings_view(words@) =~= w.drop_first());
    }
    Some((program, words))
}

/* Time */

/// The date map `date` answers, from the parts of the local time.
pub open spec fn time_map(
    year: i64,
    month: i64,
    day: i64,
    hour: i64,
    minute: i64,
    second: i64,
    weekday: Seq<char>,
) -> SValue {
    SValue::HashMap(
        seq![
            (SValue::String("year"@), SValue::Int(year)),
            (SValue::String("month"@), SValue::Int(month)),
            (SValue::String("day"@), SValue::Int(day)),
            (SValue::String("hour"@), SValue::Int(hour)),
            (SValue::String("minute"@), SValue::Int(minute)),
            (SValue::String("second"@), SValue::Int(second)),
            (SValue::String("weekday"@), SValue::String(weekday)),
        ],
    )
}

fn entry_pair(key: &str, v: Value) -> (r: (Value, Value))
    ensures
        r.0@ == SValue::String(key@),
        r.1@ == v@,
{
    (Value::String(key.to_owned()), v)
}

/// The date map `date` answers (see `time_map`).
pub fn time_value(year: i64, month: i64, day: i64, hour: i64, minute: i64, second: i64, weekday: String) -> (r: Value)
    ensures
        r@ == time_map(year, month, day, hour, minute, second, weekday@),
{
    let ghost wd = weekday@;
    let mut pairs: Vec<(Value, Value)> = Vec::new();
    pairs.push(entry_pair("year", Value::Int(year)));
    pairs.push(entry_pair("month", Value::Int(month)));
    pairs.push(entry_pair("day", Value::Int(day)));
    pairs.push(entry_pair("hour", Value::Int(hour)));
    pairs.push(entry_pair("minute", Value::Int(minute)));
    pairs.push(entry_pair("second", Value::Int(second)));
    pairs.push(entry_pair("weekday", Value::String(weekday)));
    let r = Value::HashMap(pairs);
    proof {
        if let SValue::HashMap(m) = time_map(year, month, day, hour, minute, second, wd) {
            assert(pairs_view(pairs@) =~= m);
        }
    }
    r
}

/// What `timeEvents` fires on.
#[derive(Clone, Copy, Debug, PartialEq, Eq, Structural)]
pub enum TimeUnit {
    Second,
    Minute,
    Hour,
}

pub open spec fn time_unit_of(v: SValue) -> Option<TimeUnit> {
    match v {
        SValue::String(s) => if s == "second"@ {
            Some(TimeUnit::Second)
        } else if s == "minute"@ {
            Some(TimeUnit::Minute)
        } else if s == "hour"@ {
            Some(TimeUnit::Hour)
        } else {
            None
        },
        _ => None,
    }
}

/// The unit a value of `onEvery` names: `second`, `minute` or `hour`.
pub fn time_unit(v: &Value) -> (r: Option<TimeUnit>)
    ensures
        r == time_unit_of(v@),
{
    match v {
        Value::String(s) => if *s == String::from_str("second") {
            Some(TimeUnit::Second)
        } else if *s == String::from_str("minute") {
            Some(TimeUnit::Minute)
        } else if *s == String::from_str("hour") {
            Some(TimeUnit::Hour)
        } else {
            None
        },
        _ => None,
    }
}

pub open spec fn saturating_sub(a: int, b: int) -> int {
    if a > b {
        a - b
    } else {
        0
    }
}

/// How many milliseconds are left until the next whole second, minute or hour.
pub open spec fn millis_until(unit: TimeUnit, minute: u32, second: u32, millis: u32) -> int {
    match unit {
        TimeUnit::Second => saturating_sub(1000, millis as int),
        TimeUnit::Minute => saturating_sub(60_000, second * 1000 + millis),
        TimeUnit::Hour => saturating_sub(3_600_000, minute * 60_000 + second * 1000 + millis),
    }
}

/// How long `timeEvents` waits before it fires, from the minute, second and millisecond of
/// the local time (see `millis_until`).
pub fn millis_to_next(unit: TimeUnit, minute: u32, second: u32, millis: u32) -> (r: u32)
    requires
        minute < 60,
        second <= 60,
        millis < 2000,
    ensures
        r == millis_until(unit, minute, second, millis),
{
    match unit {
        TimeUnit::Second => 1000u32.saturating_sub(millis),
        TimeUnit::Minute => 60_000u32.saturating_sub(second * 1000 + millis),
        TimeUnit::Hour => 3_600_000u32.saturating_sub(minute * 60_000 + second * 1000 + millis),
    }
}

/* Media players */

pub open spec fn text_or_null(s: Option<String>) -> SValue {
    match s {
        Some(t) => SValue::String(t@),
        None => SValue::Null,
    }
}

/// Texts joined with `, ` between them.
pub open spec fn join_comma(s: Seq<Seq<char>>) -> Seq<char>
    decreases s.len(),
{
    if s.len() == 0 {
        Seq::empty()
    } else if s.len() == 1 {
        s[0]
    } else {
        join_comma(s.drop_last()) + ", "@ + s.last()
    }
}

/// What a media player tells of its track.
pub struct TrackInfo {
    pub title: Option<String>,
    pub album: Option<String>,
    pub artists: Option<Vec<String>>,
    /// The length of the track in seconds.
    pub length: Option<u64>,
    /// Where the player is in the track, in microseconds.
    pub position: Option<u64>,
    pub art_url: Option<String>,
    pub is_playing: Option<bool>,
}

/// The track map `mpris.track` answers: each thing the player did not tell is null; the
/// artists are joined by commas; the position is multiplied by a million.
pub open spec fn track_map(t: TrackInfo) -> SValue {
    SValue::HashMap(
        seq![
            (SValue::String("title"@), text_or_null(t.title)),
            (SValue::String("album"@), text_or_null(t.album)),
            (
                SValue::String("artist"@),
                match t.artists {
                    Some(a) => SValue::String(join_comma(strings_view(a@))),
                    None => SValue::Null,
                },
            ),
            (
                SValue::String("length"@),
                match t.length {
                    Some(l) => SValue::Int(l as i64),
                    None => SValue::Null,
                },
            ),
            (
                SValue::String("timestamp"@),
                match t.position {
                    Some(p) => SValue::Int((p as i64 * 1_000_000) as i64),
                    None => SValue::Null,
                },
            ),
            (SValue::String("artUrl"@), text_or_null(t.art_url)),
            (
                SValue::String("isPlaying"@),
                match t.is_playing {
                    Some(b) => SValue::Bool(b),
                    None => SValue::Null,
                },
            ),
        ],
    )
}

fn text_value(s: Option<String>) -> (r: Value)
    ensures
        r@ == text_or_null(s),
{
    match s {
        Some(t) => Value::String(t),
        None => Value::Null,
    }
}

fn join_comma_of(parts: &Vec<String>) -> (r: String)
    ensures
        r@ == join_comma(strings_view(parts@)),
{
    let ghost sv = strings_view(parts@);
    let mut out = String::new();
    let mut i: usize = 0;
    let sep = String::from_str(", ");
    while i < parts.len()
        invariant
            i <= parts@.len(),
            sv == strings_view(parts@),
            sep@ == ", "@,
            out@ == join_comma(sv.take(i as int)),
        decreases parts.len() - i,
    {
        proof {
            assert(sv.take(i as int + 1).drop_last() =~= sv.take(i as int));
        }
        if i > 0 {
            append_str(&mut out, &sep);
        }
        append_str(&mut out, &parts[i]);
        i = i + 1;
    }
    proof {
        assert(sv.take(i as int) =~= sv);
    }
    out
}

impl TrackInfo {
    /// The track map `mpris.track` answers (see `track_map`).
    pub fn to_value(self) -> (r: Value)
        requires
            self.position matches Some(p) ==> p * 1_000_000 <= i64::MAX,
            self.length matches Some(l) ==> l <= i64::MAX,
        ensures
            r@ == track_map(self),
    {
        let ghost t = self;
        let artist = match &self.artists {
            Some(a) => Value::String(join_comma_of(a)),
            None => Value::Null,
        };
        let length = match self.length {
            Some(l) => Value::Int(l as i64),
            None => Value::Null,
        };
        let timestamp = match self.position {
            Some(p) => Value::Int((p as i64) * 1_000_000),
            None => Value::Null,
        };
        let is_playing = match self.is_playing {
            Some(b) => Value::Bool(b),
            None => Value::Null,
        };
        let mut pairs: Vec<(Value, Value)> = Vec::new();
        pairs.push(entry_pair("title", text_value(self.title)));
        pairs.push(entry_pair("album", text_value(self.album)));
        pairs.push(entry_pair("artist", artist));
        pairs.push(entry_pair("length", length));
        pairs.push(entry_pair("timestamp", timestamp));
        pairs.push(entry_pair("artUrl", text_value(self.art_url)));
        pairs.push(entry_pair("isPlaying", is_playing));
        let r = Value::HashMap(pairs);
        proof {
            if let SValue::HashMap(m) = track_map(t) {
                assert(pairs_view(pairs@) =~= m);
            }
        }
        r
    }
}

/* The window manager */

/// The workspace a value of `focusWorkspace` names: a text, or an integer written out.
pub open spec fn workspace_of(v: SValue) -> Option<Seq<char>> {
    match v {
        SValue::String(s) => Some(s),
        SValue::Int(n) => Some(decimal(n as int)),
        _ => None,
    }
}

/// The dispatch `hyprctl` is given to focus a workspace.
pub open spec fn focus_dispatch(workspace: Seq<char>) -> Seq<char> {
    "hl.dsp.focus({ workspace = \""@ + workspace + "\" })"@
}

/// The dispatch that focuses the workspace a value names, if it names one.
pub fn focus_workspace_dispatch(tail: &Value) -> (r: Option<String>)
    ensures
        match r {
            Some(d) => workspace_of(tail@) matches Some(w) && d@ == focus_dispatch(w),
            None => workspace_of(tail@) is None,
        },
{
    let workspace = match tail {
        Value::String(s) => s.clone(),
        Value::Int(n) => decimal_of(*n),
        _ => return None,
    };
    let mut out = String::from_str("hl.dsp.focus({ workspace = \"");
    append_str(&mut out, &workspace);
    append_str(&mut out, &String::from_str("\" })"));
    Some(out)
}

/// A field of an event of the window manager, as its JSON form gives it.
#[derive(Debug)]
pub enum JsonScalar {
    String(String),
    /// A number, and the integer it is when it fits in 64 bits.
    Number(Option<i64>),
    Bool(bool),
    /// Anything else: null, an array or an object.
    Other,
}

pub open spec fn json_field(v: JsonScalar) -> Option<SValue> {
    match v {
        JsonScalar::String(s) => Some(SValue::String(s@)),
        JsonScalar::Number(n) => Some(
            SValue::Int(
                match n {
                    Some(i) => i,
                    None => 0,
                },
            ),
        ),
        JsonScalar::Bool(b) => Some(SValue::Bool(b)),
        JsonScalar::Other => None,
    }
}

/// The pairs of an event's map: each field that is a text, a number or a boolean, in order.
pub open spec fn event_pairs(fields: Seq<(String, JsonScalar)>) -> Seq<(SValue, SValue)>
    decreases fields.len(),
{
    if fields.len() == 0 {
        Seq::empty()
    } else {
        let rest = event_pairs(fields.drop_last());
        match json_field(fields.last().1) {
            Some(v) => rest.push((SValue::String(fields.last().0@), v)),
            None => rest,
        }
    }
}

/// The map `hyprland.events` sends for an event (see `event_pairs`).
pub fn event_value(fields: &Vec<(String, JsonScalar)>) -> (r: Value)
    ensures
        r@ == SValue::HashMap(event_pairs(fields@)),
{
    let ghost f0 = fields@;
    let mut pairs: Vec<(Value, Value)> = Vec::new();
    let mut i: usize = 0;
    proof {
        assert(f0.take(0) =~= Seq::<(String, JsonScalar)>::empty());
    }
    while i < fields.len()
        invariant
            i <= f0.len(),
            f0 == fields@,
            pairs_view(pairs@) == event_pairs(f0.take(i as int)),
        decreases fields.len() - i,
    {
        let ghost before = pairs@;
        let ghost item = f0[i as int];
        proof {
            assert(f0.take(i as int + 1).drop_last() =~= f0.take(i as int));
        }
        let key = &fields[i].0;
        match &fields[i].1 {
            JsonScalar::String(s) => pairs.push((Value::String(key.clone()), Value::String(s.clone()))),
            JsonScalar::Number(n) => pairs.push(
                (
                    Value::String(key.clone()),
                    Value::Int(
                        match n {
                            Some(v) => *v,
                            None => 0,
                        },
                    ),
                ),
            ),
            JsonScalar::Bool(b) => pairs.push((Value::String(key.clone()), Value::Bool(*b))),
            JsonScalar::Other => {},
        }
        proof {
            if json_field(item.1) is Some {
                assert(pairs_view(pairs@) =~= pairs_view(before).push(
                    (SValue::String(item.0@), json_field(item.1)->0),
                ));
            } else {
                assert(pairs@ == before);
            }
        }
        i = i + 1;
    }
    proof {
        assert(f0.take(f0.len() as int) =~= f0);
    }
    Value::HashMap(pairs)
}

} // verus!
