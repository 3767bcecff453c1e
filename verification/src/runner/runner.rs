//! The runner: which widget is shown in which window, and what each message asks of the
//! windows. Loading a script from disk and driving the windows is left to the caller, which
//! performs the returned action and hands the outcome back.
use vstd::prelude::*;

use crate::ctl::ControlMessage;
use crate::language::assoc::{assoc_get, assoc_index, lemma_assoc_index, lemma_assoc_index_is};
use crate::language::interpreter::Host;
use crate::runner::instance::{loaded_view, message_rel, SLoaded, WidgetError, WidgetId, WidgetInstance, WidgetMessage};

verus! {

broadcast use vstd::std_specs::vec::group_vec_axioms;

/// A signal that the Kool language can produce and should be handled outside the runtime
/// itself. This ties together the language runtime and the widget runtime.
#[derive(Clone, Copy, Debug, PartialEq, Eq, Structural)]
pub enum Signal {
    Refresh,
}

/// A message for the runner.
#[derive(Debug)]
pub enum RunnerMessage {
    Control(ControlMessage),
    Signal(Signal),
    Widget { id: WidgetId, message: WidgetMessage },
}

/// What the runner asks of its caller after a message.
#[derive(Debug)]
pub enum RunnerAction {
    Nothing,
    /// Read the script at `path` and hand the loaded widget, or the error, to `loaded`.
    Load { path: String },
    /// Open a window with this number for the widget just loaded, with its settings.
    OpenWindow { window: u64 },
    /// The widget in this window was loaded again: apply its settings to the window.
    UpdateWindow { window: u64 },
    /// Close the window with this number.
    CloseWindow { window: u64 },
    /// Loading a widget failed.
    Report(WidgetError),
}

/// The widgets that are shown, by window.
#[derive(Debug)]
pub struct KoolRunner {
    windows: Vec<(WidgetId, u64)>,
    instances: Vec<(u64, WidgetInstance)>,
    next_window: u64,
}

pub struct SRunner {
    pub windows: Seq<(Seq<char>, u64)>,
    pub shown: Seq<u64>,
    /// The widgets, in the order of `windows`.
    pub widgets: Seq<SLoaded>,
    pub next_window: u64,
}

impl View for KoolRunner {
    type V = SRunner;

    closed spec fn view(&self) -> SRunner {
        SRunner {
            windows: Seq::new(self.windows@.len(), |i: int| (self.windows@[i].0@, self.windows@[i].1)),
            shown: Seq::new(self.instances@.len(), |i: int| self.instances@[i].0),
            widgets: Seq::new(self.instances@.len(), |i: int| loaded_view(self.instances@[i].1)),
            next_window: self.next_window,
        }
    }
}

/// Each widget has one window, each window one widget, each window was numbered before
/// `next_window`, the windows that show a widget are those of the widgets, and each widget
/// is filed under its own id.
pub open spec fn runner_wf(r: SRunner) -> bool {
    &&& forall|i: int, j: int| 0 <= i < j < r.windows.len() ==> r.windows[i].0 != r.windows[j].0
    &&& forall|i: int, j: int| 0 <= i < j < r.windows.len() ==> r.windows[i].1 != r.windows[j].1
    &&& forall|i: int| 0 <= i < r.windows.len() ==> r.windows[i].1 < r.next_window
    &&& r.shown.len() == r.windows.len()
    &&& r.widgets.len() == r.windows.len()
    &&& forall|i: int| 0 <= i < r.windows.len() ==> #[trigger] r.shown[i] == r.windows[i].1
    &&& forall|i: int| 0 <= i < r.windows.len() ==> #[trigger] r.widgets[i].id == r.windows[i].0
}

/// The runner after the widget at position `i` was closed: its window and the widget are
/// gone, the others stay in order.
pub open spec fn closed(a: SRunner, i: int, b: SRunner) -> bool {
    &&& 0 <= i < a.windows.len()
    &&& b.windows == a.windows.remove(i)
    &&& b.shown == a.shown.remove(i)
    &&& b.widgets == a.widgets.remove(i)
    &&& b.next_window == a.next_window
}

/// The runner after the widget at position `i` handled `message`: the other widgets and
/// the windows stay as they were.
pub open spec fn delivered(a: SRunner, i: int, message: WidgetMessage, b: SRunner) -> bool {
    &&& 0 <= i < a.windows.len()
    &&& b.windows == a.windows
    &&& b.shown == a.shown
    &&& b.next_window == a.next_window
    &&& b.widgets.len() == a.widgets.len()
    &&& forall|k: int| 0 <= k < a.widgets.len() && k != i ==> #[trigger] b.widgets[k] == a.widgets[k]
    &&& message_rel(a.widgets[i], message, b.widgets[i])
}

/// The window of a widget, if it has one.
pub open spec fn window_of(r: SRunner, id: Seq<char>) -> Option<u64> {
    assoc_get(r.windows, id)
}

impl KoolRunner {
    /// The runner's state is well formed, and each widget is in the window it is filed under.
    pub closed spec fn wf(&self) -> bool {
        &&& runner_wf(self@)
        &&& self.instances@.len() == self.windows@.len()
        &&& forall|i: int| 0 <= i < self.instances@.len() ==> #[trigger] self.instances@[i].1.id@ == self.windows@[i].0@
    }

    pub fn new() -> (r: Self)
        ensures
            r.wf(),
            r@.windows.len() == 0,
            r@.next_window == 0,
    {
        let r = KoolRunner { windows: Vec::new(), instances: Vec::new(), next_window: 0 };
        assert(r@.windows =~= Seq::<(Seq<char>, u64)>::empty());
        r
    }

    fn find_window(&self, id: &WidgetId) -> (r: Option<usize>)
        ensures
            match r {
                Some(i) => i == assoc_index(self@.windows, id@) && i < self@.windows.len(),
                None => assoc_index(self@.windows, id@) == -1,
            },
    {
        let ghost s = self@.windows;
        let mut i: usize = 0;
        while i < self.windows.len()
            invariant
                i <= self.windows@.len(),
                s == self@.windows,
                forall|j: int| 0 <= j < i ==> s[j].0 != id@,
            decreases self.windows.len() - i,
        {
            if self.windows[i].0.same(id) {
                proof {
                    lemma_assoc_index_is(s, id@, i as int);
                }
                return Some(i);
            }
            i = i + 1;
        }
        proof {
            lemma_assoc_index(s, id@);
        }
        None
    }

    /// What a message asks: a script to run is to be loaded, a script to close has its
    /// window closed, a widget's message goes to that widget; a refresh asks nothing.
    pub fn update<H: Host>(&mut self, message: RunnerMessage, host: &mut H) -> (r: RunnerAction)
        requires
            old(self).wf(),
        ensures
            final(self).wf(),
            match message {
                RunnerMessage::Control(ControlMessage::Run { path }) => r matches RunnerAction::Load { path: p }
                    && p@ == path@ && final(self)@ == old(self)@,
                RunnerMessage::Control(ControlMessage::Close { path }) => match window_of(old(self)@, path@) {
                    Some(w) => r matches RunnerAction::CloseWindow { window } && window == w && closed(
                        old(self)@,
                        assoc_index(old(self)@.windows, path@),
                        final(self)@,
                    ),
                    None => r is Nothing && final(self)@ == old(self)@,
                },
                RunnerMessage::Signal(_) => r is Nothing && final(self)@ == old(self)@,
                RunnerMessage::Widget { id, message } => r is Nothing && match window_of(old(self)@, id@) {
                    Some(_) => delivered(old(self)@, assoc_index(old(self)@.windows, id@), message, final(self)@),
                    None => final(self)@ == old(self)@,
                },
            },
    {
        match message {
            RunnerMessage::Control(ControlMessage::Run { path }) => RunnerAction::Load { path },
            RunnerMessage::Control(ControlMessage::Close { path }) => {
                let id = WidgetId::new(path);
                match self.close(&id) {
                    Some(window) => RunnerAction::CloseWindow { window },
                    None => RunnerAction::Nothing,
                }
            },
            RunnerMessage::Signal(Signal::Refresh) => RunnerAction::Nothing,
            RunnerMessage::Widget { id, message } => {
                self.deliver(&id, message, host);
                RunnerAction::Nothing
            },
        }
    }

    /// Hands a message to the widget `id`, if it is shown.
    fn deliver<H: Host>(&mut self, id: &WidgetId, message: WidgetMessage, host: &mut H)
        requires
            old(self).wf(),
        ensures
            final(self).wf(),
            match window_of(old(self)@, id@) {
                Some(_) => delivered(old(self)@, assoc_index(old(self)@.windows, id@), message, final(self)@),
                None => final(self)@ == old(self)@,
            },
    {
        proof {
            lemma_assoc_index(self@.windows, id@);
        }
        match self.find_window(id) {
            Some(i) => {
                let ghost v0 = self@;
                let ghost ins0 = self.instances@;
                self.instances[i].1.update(message, host);
                proof {
                    assert(self@.shown =~= v0.shown);
                    assert(self@.windows =~= v0.windows);
                    assert forall|k: int| 0 <= k < self.instances@.len() implies #[trigger] self.instances@[k].1.id@
                        == self.windows@[k].0@ by {
                        if k != i {
                            assert(self.instances@[k] == ins0[k]);
                        }
                    }
                    assert forall|k: int| 0 <= k < v0.widgets.len() && k != i implies #[trigger] self@.widgets[k]
                        == v0.widgets[k] by {
                        assert(self.instances@[k] == ins0[k]);
                    }
                }
            },
            None => {},
        }
    }

    /// Closes the widget `id`: gives its window, and forgets both.
    fn close(&mut self, id: &WidgetId) -> (r: Option<u64>)
        requires
            old(self).wf(),
        ensures
            final(self).wf(),
            r == window_of(old(self)@, id@),
            r is Some ==> closed(old(self)@, assoc_index(old(self)@.windows, id@), final(self)@),
            window_of(final(self)@, id@) is None,
            r is None ==> final(self)@ == old(self)@,
    {
        proof {
            lemma_assoc_index(self@.windows, id@);
        }
        match self.find_window(id) {
            Some(i) => {
                let ghost v0 = self@;
                let w = self.windows[i].1;
                self.windows.remove(i);
                self.instances.remove(i);
                proof {
                    assert(self@.windows =~= v0.windows.remove(i as int));
                    assert(self@.shown =~= v0.shown.remove(i as int));
                    assert(self@.widgets =~= v0.widgets.remove(i as int));
                    lemma_assoc_index(self@.windows, id@);
                    if assoc_index(self@.windows, id@) >= 0 {
                        let k = assoc_index(self@.windows, id@);
                        if k < i {
                            assert(v0.windows[k].0 == id@);
                        } else {
                            assert(v0.windows[k + 1].0 == id@);
                            assert(v0.windows[i as int].0 != v0.windows[k + 1].0);
                        }
                    }
                }
                Some(w)
            },
            None => None,
        }
    }

    /// Takes in the outcome of loading a widget: a widget already shown keeps its window,
    /// a new one gets the next window; a failure is reported.
    pub fn loaded(&mut self, result: Result<WidgetInstance, WidgetError>) -> (r: RunnerAction)
        requires
            old(self).wf(),
            old(self)@.next_window < u64::MAX,
        ensures
            final(self).wf(),
            match result {
                Err(_) => r is Report && final(self)@ == old(self)@,
                Ok(w) => match window_of(old(self)@, w.id@) {
                    Some(n) => r matches RunnerAction::UpdateWindow { window } && window == n
                        && final(self)@.windows == old(self)@.windows
                        && final(self)@.widgets == old(self)@.widgets.update(
                        assoc_index(old(self)@.windows, w.id@),
                        loaded_view(w),
                    ) && final(self)@.next_window == old(self)@.next_window,
                    None => r matches RunnerAction::OpenWindow { window } && window == old(self)@.next_window
                        && final(self)@.windows == old(self)@.windows.push((w.id@, window))
                        && final(self)@.widgets == old(self)@.widgets.push(loaded_view(w))
                        && final(self)@.next_window == old(self)@.next_window + 1,
                },
            },
    {
        let instance = match result {
            Ok(w) => w,
            Err(e) => return RunnerAction::Report(e),
        };
        proof {
            lemma_assoc_index(self@.windows, instance.id@);
        }
        match self.find_window(&instance.id) {
            Some(i) => {
                let ghost v0 = self@;
                let ghost ins0 = self.instances@;
                let w = self.windows[i].1;
                self.instances.set(i, (w, instance));
                proof {
                    assert(self@.windows =~= v0.windows);
                    assert(self@.shown =~= v0.shown);
                    assert(self@.widgets =~= v0.widgets.update(i as int, loaded_view(self.instances@[i as int].1)));
                    assert forall|k: int| 0 <= k < self.instances@.len() implies #[trigger] self.instances@[k].1.id@
                        == self.windows@[k].0@ by {
                        if k != i {
                            assert(self.instances@[k] == ins0[k]);
                        }
                    }
                }
                RunnerAction::UpdateWindow { window: w }
            },
            None => {
                let ghost v0 = self@;
                let w = self.next_window;
                let id = instance.id.copied();
                let ghost idv = id@;
                proof {
                    assert forall|k: int| 0 <= k < v0.windows.len() implies v0.windows[k].0 != idv by {}
                }
                self.windows.push((id, w));
                self.instances.push((w, instance));
                self.next_window = w + 1;
                proof {
                    assert(self@.windows =~= v0.windows.push((idv, w)));
                    assert(self@.shown =~= v0.shown.push(w));
                    assert(self@.widgets =~= v0.widgets.push(loaded_view(self.instances@[self.instances@.len() - 1].1)));
                }
                RunnerAction::OpenWindow { window: w }
            },
        }
    }

    /// The number the next new window gets.
    pub fn next_window(&self) -> (r: u64)
        ensures
            r == self@.next_window,
    {
        self.next_window
    }

    /// The window of a widget, if it has one.
    pub fn window_of(&self, id: &WidgetId) -> (r: Option<u64>)
        requires
            self.wf(),
        ensures
            r == window_of(self@, id@),
    {
        proof {
            lemma_assoc_index(self@.windows, id@);
        }
        match self.find_window(id) {
            Some(i) => Some(self.windows[i].1),
            None => None,
        }
    }

    /// The widget shown in a window.
    pub fn instance(&self, window: u64) -> (r: Option<&WidgetInstance>)
        requires
            self.wf(),
        ensures
            r is Some <==> self@.shown.contains(window),
            r matches Some(w) ==> exists|k: int|
                0 <= k < self@.shown.len() && self@.shown[k] == window && #[trigger] self@.widgets[k] == loaded_view(*w),
    {
        let mut i: usize = 0;
        while i < self.instances.len()
            invariant
                i <= self.instances@.len(),
                self@.shown.len() == self.instances@.len(),
                forall|j: int| 0 <= j < self.instances@.len() ==> #[trigger] self@.shown[j] == self.instances@[j].0,
                forall|j: int| 0 <= j < i ==> self@.shown[j] != window,
            decreases self.instances.len() - i,
        {
            if self.instances[i].0 == window {
                assert(self@.shown[i as int] == window);
                assert(self@.widgets[i as int] == loaded_view(self.instances@[i as int].1));
                return Some(&self.instances[i].1);
            }
            i = i + 1;
        }
        None
    }
}

/// Loading a widget that is shown already keeps its window; loading a new one numbers a
/// window no widget has.
pub proof fn law_windows_stay_apart(r: SRunner, id: Seq<char>)
    requires
        runner_wf(r),
    ensures
        window_of(r, id) is None ==> forall|i: int| 0 <= i < r.windows.len() ==> r.windows[i].1 != r.next_window,
        window_of(r, id) matches Some(w) ==> w < r.next_window,
{
    lemma_assoc_index(r.windows, id);
}

} // verus!
