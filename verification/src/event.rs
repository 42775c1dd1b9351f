//! What the application decides when the host hands it an event: how the
//! counter changes and what the host is to do next. The host owns the window
//! and the loop; it performs each action and comes back with the next event.

use vstd::prelude::*;

verus! {

/// A key of the keyboard, as far as the application tells keys apart.
#[derive(Clone, Copy, Debug, PartialEq, Eq, Structural)]
pub enum Key {
    /// The space bar: the key that increments the counter.
    Space,
    /// Any other key, or one that the host could not name.
    Other,
}

/// Whether a key went down or came up.
#[derive(Clone, Copy, Debug, PartialEq, Eq, Structural)]
pub enum KeyState {
    Pressed,
    Released,
}

/// An event that the host delivers.
#[derive(Clone, Copy, Debug, PartialEq, Eq, Structural)]
pub enum Event {
    /// The user asked to close the window.
    CloseRequested,
    /// A key changed its state.
    KeyboardInput { key: Key, state: KeyState },
    /// The window has to be painted again.
    RedrawRequested,
    /// Anything else.
    Other,
}

/// What the host does after an event.
#[derive(Clone, Copy, Debug, PartialEq, Eq, Structural)]
pub enum Action {
    /// Leave the event loop.
    Exit,
    /// Paint the label for `counter` on a cleared frame, present the frame
    /// and report with `App::after_present` how that went.
    Render { counter: u32 },
    /// Ask for another redraw and wait for the next event.
    RequestRedraw,
}

/// The state of the application: the counter, and whether the loop has been
/// told to end.
#[derive(Clone, Copy, Debug)]
pub struct App {
    counter: u32,
    exiting: bool,
}

/// What an `App` stands for.
pub struct AppView {
    /// The value of the counter.
    pub counter: nat,
    /// Whether the host has been told to leave the loop. Once it has, it is
    /// told nothing else.
    pub exiting: bool,
}

/// The application at its start: the counter is zero and the loop runs.
pub open spec fn started() -> AppView {
    AppView { counter: 0, exiting: false }
}

/// Whether an event increments the counter: only the space bar going down
/// does.
pub open spec fn is_increment(event: Event) -> bool {
    event == (Event::KeyboardInput { key: Key::Space, state: KeyState::Pressed })
}

/// The counter after one event.
pub open spec fn counter_after(counter: nat, event: Event) -> nat {
    if is_increment(event) {
        counter + 1
    } else {
        counter
    }
}

/// What the host is to do after an event that arrived while the loop ran and
/// the counter stood at `counter`.
pub open spec fn action_for(counter: u32, event: Event) -> Action {
    match event {
        Event::CloseRequested => Action::Exit,
        Event::RedrawRequested => Action::Render { counter },
        _ => Action::RequestRedraw,
    }
}

/// The state after one event. The counter counts on whatever the loop does;
/// a close request ends the loop for good.
pub open spec fn state_after(state: AppView, event: Event) -> AppView {
    AppView {
        counter: counter_after(state.counter, event),
        exiting: state.exiting || event == Event::CloseRequested,
    }
}

/// What the host is to do after an event that arrived in `state`: to leave,
/// once the loop has been told to end, whatever the event.
pub open spec fn action_in(state: AppView, event: Event) -> Action {
    if state.exiting {
        Action::Exit
    } else {
        action_for(state.counter as u32, event)
    }
}

/// The state after the host has tried to present a frame: a failure ends the
/// loop for good.
pub open spec fn state_after_present(state: AppView, presented: bool) -> AppView {
    AppView { counter: state.counter, exiting: state.exiting || !presented }
}

/// What the host is to do once it has tried to present a frame.
pub open spec fn action_after_present(state: AppView, presented: bool) -> Action {
    if state.exiting || !presented {
        Action::Exit
    } else {
        Action::RequestRedraw
    }
}

/// The state after a run of events, one after the other.
pub open spec fn state_after_all(state: AppView, events: Seq<Event>) -> AppView
    decreases events.len(),
{
    if events.len() == 0 {
        state
    } else {
        state_after(state_after_all(state, events.drop_last()), events.last())
    }
}

/// How many events of a run are presses of the space bar.
pub open spec fn presses(events: Seq<Event>) -> nat
    decreases events.len(),
{
    if events.len() == 0 {
        0
    } else if is_increment(events.last()) {
        presses(events.drop_last()) + 1
    } else {
        presses(events.drop_last())
    }
}

impl View for App {
    type V = AppView;

    closed spec fn view(&self) -> AppView {
        AppView { counter: self.counter as nat, exiting: self.exiting }
    }
}

impl App {
    /// The application at its start: the counter is zero and the loop runs.
    pub fn new() -> (app: App)
        ensures
            app@ == started(),
    {
        App { counter: 0, exiting: false }
    }

    /// The value of the counter.
    pub fn counter(&self) -> (counter: u32)
        ensures
            counter == self@.counter,
    {
        self.counter
    }

    /// Whether the host has been told to leave the loop.
    pub fn is_exiting(&self) -> (exiting: bool)
        ensures
            exiting == self@.exiting,
    {
        self.exiting
    }

    /// Takes one event. A press of the space bar increments the counter and
    /// nothing else changes it. While the loop runs, a close request ends
    /// it, a redraw request has the counter painted as it stands, and after
    /// every other event the host asks for another redraw. Once the loop has
    /// been told to end, the answer to every event is to leave: no frame is
    /// painted or presented any more.
    pub fn handle(&mut self, event: Event) -> (action: Action)
        requires
            is_increment(event) ==> old(self)@.counter < u32::MAX,
        ensures
            final(self)@ == state_after(old(self)@, event),
            action == action_in(old(self)@, event),
    {
        let was_exiting = self.exiting;
        let counter: u32 = self.counter;
        match event {
            Event::CloseRequested => {
                self.exiting = true;
            },
            Event::KeyboardInput { key, state } => {
                match (key, state) {
                    (Key::Space, KeyState::Pressed) => {
                        self.counter = counter + 1;
                    },
                    _ => {},
                }
            },
            _ => {},
        }
        if was_exiting {
            Action::Exit
        } else {
            match event {
                Event::CloseRequested => Action::Exit,
                Event::RedrawRequested => Action::Render { counter },
                _ => Action::RequestRedraw,
            }
        }
    }

    /// Takes the outcome of presenting a frame. The host asks for another
    /// redraw when the frame was presented, and leaves the loop for good
    /// when the surface failed.
    pub fn after_present(&mut self, presented: bool) -> (action: Action)
        ensures
            final(self)@ == state_after_present(old(self)@, presented),
            action == action_after_present(old(self)@, presented),
    {
        if !presented {
            self.exiting = true;
        }
        if self.exiting {
            Action::Exit
        } else {
            Action::RequestRedraw
        }
    }
}

/// The counter counts the presses of the space bar: after any run of events
/// it stands at where it started plus the number of presses in the run,
/// whatever releases and other events lie between them. A redraw request
/// that follows a run from the start, while the loop runs, has exactly that
/// number painted.
pub proof fn lemma_counter_counts_presses(state: AppView, events: Seq<Event>)
    ensures
        state_after_all(state, events).counter == state.counter + presses(events),
        !state_after_all(started(), events).exiting && presses(events) <= u32::MAX ==> action_in(
            state_after_all(started(), events),
            Event::RedrawRequested,
        ) == (Action::Render { counter: presses(events) as u32 }),
    decreases events.len(),
{
    if events.len() > 0 {
        lemma_counter_counts_presses(state, events.drop_last());
        lemma_counter_counts_presses(started(), events.drop_last());
    }
}

/// An event that is not a press of the space bar leaves the counter alone.
pub proof fn lemma_only_presses_count(state: AppView, event: Event)
    requires
        !is_increment(event),
    ensures
        state_after(state, event).counter == state.counter,
{
}

/// The loop ends by a close request and by nothing else that the window
/// sends: after a run of events the loop has been told to end exactly when
/// it had been before the run or the run holds a close request.
pub proof fn lemma_exiting_after_close_only(state: AppView, events: Seq<Event>)
    ensures
        state_after_all(state, events).exiting <==> (state.exiting || events.contains(
            Event::CloseRequested,
        )),
    decreases events.len(),
{
    if events.len() > 0 {
        let front = events.drop_last();
        lemma_exiting_after_close_only(state, front);
        if front.contains(Event::CloseRequested) {
            let i = choose|i: int| 0 <= i < front.len() && front[i] == Event::CloseRequested;
            assert(events[i] == Event::CloseRequested);
        }
        if events.last() == Event::CloseRequested {
            assert(events[events.len() - 1] == Event::CloseRequested);
        }
        if events.contains(Event::CloseRequested) && events.last() != Event::CloseRequested {
            let j = choose|j: int| 0 <= j < events.len() && events[j] == Event::CloseRequested;
            assert(front[j] == Event::CloseRequested);
        }
    }
}

/// Leaving is final. Once the loop has been told to end, by a close request
/// or by a failure to present, it stays so through every run of events, and
/// whatever event comes after the run, a redraw request too, the host is
/// told to leave: no further frame is painted or presented.
pub proof fn lemma_no_frame_after_exit(state: AppView, events: Seq<Event>, next: Event)
    ensures
        state.exiting ==> state_after_all(state, events).exiting,
        state.exiting ==> action_in(state_after_all(state, events), next) == Action::Exit,
        action_in(state_after_all(state_after(state, Event::CloseRequested), events), next)
            == Action::Exit,
        action_in(state_after_all(state_after_present(state, false), events), next)
            == Action::Exit,
{
    lemma_exiting_after_close_only(state, events);
    lemma_exiting_after_close_only(state_after(state, Event::CloseRequested), events);
    lemma_exiting_after_close_only(state_after_present(state, false), events);
}

} // verus!
