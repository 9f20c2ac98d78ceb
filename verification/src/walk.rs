//! Walking a directory tree depth first, one step at a time: what to ask of
//! the file system next, and what to hand on once it has answered.

use vstd::prelude::*;

verus! {

/// Where a walk stands.
#[derive(Debug, Clone, Copy, PartialEq, Eq, Structural)]
pub enum State {
    /// Nothing was opened yet.
    Start,
    /// `open` directories are open, one inside the other; the innermost is
    /// being read.
    Walk { open: usize },
    /// An entry was read in the innermost directory and its type was asked
    /// for.
    Typing { open: usize },
    /// The entry read last is a directory and is being opened.
    Opening { open: usize },
    /// The root could not be opened: there is nothing to walk.
    Done,
}

/// What to ask of the file system next.
#[derive(Debug, Clone, Copy, PartialEq, Eq, Structural)]
pub enum Action {
    /// Open the root directory.
    OpenRoot,
    /// Read the next entry of the innermost open directory.
    ReadNext,
    /// Find out whether the entry read last is a directory.
    AskType,
    /// Open the entry read last, which is a directory.
    OpenEntry,
    /// Nothing: the walk is over.
    Stop,
}

/// What the file system answered; a failure carries the system's text.
#[derive(Debug, PartialEq, Eq)]
pub enum Event {
    /// A directory was opened, or could not be.
    Opened(Result<(), String>),
    /// The innermost directory gave an entry (`true`), is exhausted
    /// (`false`), or could not be read.
    Read(Result<bool, String>),
    /// The entry read last is a directory (`true`) or not, or its type
    /// could not be had.
    Typed(Result<bool, String>),
}

/// What the walk hands on.
#[derive(Debug, PartialEq, Eq)]
pub enum Item {
    /// The entry read last.
    Entry,
    /// A failure; the walk goes on with the next entry.
    Error(String),
}

impl State {
    /// What to ask next in this state.
    pub open spec fn next_action(self) -> Action {
        match self {
            State::Start => Action::OpenRoot,
            State::Walk { open } => if open == 0 {
                Action::Stop
            } else {
                Action::ReadNext
            },
            State::Typing { open } => Action::AskType,
            State::Opening { open } => Action::OpenEntry,
            State::Done => Action::Stop,
        }
    }

    /// The number of open directories.
    pub open spec fn depth(self) -> nat {
        match self {
            State::Start => 0,
            State::Walk { open } => open as nat,
            State::Typing { open } => open as nat,
            State::Opening { open } => open as nat,
            State::Done => 0,
        }
    }

    /// Whether `event` answers what this state asks.
    pub open spec fn expects(self, event: Event) -> bool {
        match (self.next_action(), event) {
            (Action::OpenRoot, Event::Opened(_)) => true,
            (Action::ReadNext, Event::Read(_)) => true,
            (Action::AskType, Event::Typed(_)) => true,
            (Action::OpenEntry, Event::Opened(_)) => true,
            _ => false,
        }
    }

    /// The state after `event`. An event that the state does not expect
    /// changes nothing.
    pub open spec fn after(self, event: Event) -> State {
        match (self, event) {
            (State::Start, Event::Opened(Ok(_))) => State::Walk { open: 1 },
            (State::Start, Event::Opened(Err(_))) => State::Done,
            (State::Walk { open }, Event::Read(Ok(true))) => if open == 0 {
                self
            } else {
                State::Typing { open }
            },
            (State::Walk { open }, Event::Read(Ok(false))) => if open == 0 {
                self
            } else {
                State::Walk { open: (open - 1) as usize }
            },
            (State::Walk { open }, Event::Read(Err(_))) => self,
            (State::Typing { open }, Event::Typed(Ok(true))) => State::Opening { open },
            (State::Typing { open }, Event::Typed(_)) => State::Walk { open },
            (State::Opening { open }, Event::Opened(Ok(_))) => State::Walk {
                open: (open + 1) as usize,
            },
            (State::Opening { open }, Event::Opened(Err(_))) => State::Walk { open },
            _ => self,
        }
    }

    /// Whether an entry is handed on after `event`: a file once its type
    /// is known, a directory once it is open.
    pub open spec fn yields_entry(self, event: Event) -> bool {
        match (self, event) {
            (State::Typing { open }, Event::Typed(Ok(false))) => true,
            (State::Opening { open }, Event::Opened(Ok(_))) => true,
            _ => false,
        }
    }

    /// The failure handed on after `event`, if the event is an expected
    /// one that failed.
    pub open spec fn yields_error(self, event: Event) -> Option<String> {
        if self.expects(event) {
            match event {
                Event::Opened(Err(text)) => Some(text),
                Event::Read(Err(text)) => Some(text),
                Event::Typed(Err(text)) => Some(text),
                _ => None,
            }
        } else {
            None
        }
    }
}

/// A walk below one root directory.
#[derive(Debug)]
pub struct WalkDir {
    root: String,
    state: State,
}

impl WalkDir {
    /// The root of the walk.
    pub closed spec fn root_path(&self) -> Seq<char> {
        self.root@
    }

    /// Where the walk stands.
    pub closed spec fn stands(&self) -> State {
        self.state
    }

    /// A walk below `root` that has not begun.
    pub fn new(root: String) -> (walk: WalkDir)
        ensures
            walk.root_path() == root@,
            walk.stands() == State::Start,
    {
        WalkDir { root, state: State::Start }
    }

    /// The root of the walk.
    pub fn root(&self) -> (root: &String)
        ensures
            root@ == self.root_path(),
    {
        &self.root
    }

    /// Where the walk stands.
    pub fn state(&self) -> (state: State)
        ensures
            state == self.stands(),
    {
        self.state
    }

    /// What to ask of the file system next.
    pub fn action(&self) -> (action: Action)
        ensures
            action == self.stands().next_action(),
    {
        match self.state {
            State::Start => Action::OpenRoot,
            State::Walk { open } => if open == 0 {
                Action::Stop
            } else {
                Action::ReadNext
            },
            State::Typing { open: _ } => Action::AskType,
            State::Opening { open: _ } => Action::OpenEntry,
            State::Done => Action::Stop,
        }
    }

    /// Takes the file system's answer and says what to hand on: the entry
    /// read last, a failure, or nothing.
    pub fn on_event(&mut self, event: Event) -> (item: Option<Item>)
        requires
            old(self).stands().depth() < usize::MAX,
        ensures
            final(self).root_path() == old(self).root_path(),
            final(self).stands() == old(self).stands().after(event),
            item == if old(self).stands().yields_entry(event) {
                Some(Item::Entry)
            } else {
                match old(self).stands().yields_error(event) {
                    Some(text) => Some(Item::Error(text)),
                    None => None,
                }
            },
    {
        match (self.state, event) {
            (State::Start, Event::Opened(Ok(_))) => {
                self.state = State::Walk { open: 1 };
                None
            },
            (State::Start, Event::Opened(Err(text))) => {
                self.state = State::Done;
                Some(Item::Error(text))
            },
            (State::Walk { open }, Event::Read(Ok(true))) => {
                if open > 0 {
                    self.state = State::Typing { open };
                }
                None
            },
            (State::Walk { open }, Event::Read(Ok(false))) => {
                if open > 0 {
                    self.state = State::Walk { open: open - 1 };
                }
                None
            },
            (State::Walk { open }, Event::Read(Err(text))) => {
                if open > 0 {
                    Some(Item::Error(text))
                } else {
                    None
                }
            },
            (State::Typing { open }, Event::Typed(Ok(true))) => {
                self.state = State::Opening { open };
                None
            },
            (State::Typing { open }, Event::Typed(Ok(false))) => {
                self.state = State::Walk { open };
                Some(Item::Entry)
            },
            (State::Typing { open }, Event::Typed(Err(text))) => {
                self.state = State::Walk { open };
                Some(Item::Error(text))
            },
            (State::Opening { open }, Event::Opened(Ok(_))) => {
                self.state = State::Walk { open: open + 1 };
                Some(Item::Entry)
            },
            (State::Opening { open }, Event::Opened(Err(text))) => {
                self.state = State::Walk { open };
                Some(Item::Error(text))
            },
            _ => None,
        }
    }
}

/// Only a root that cannot be opened ends a walk: after any other failure
/// the walk goes on.
pub proof fn law_failures_do_not_end_the_walk(state: State, event: Event)
    requires
        state.after(event) == State::Done,
    ensures
        state == State::Done || (state == State::Start && event is Opened && event->Opened_0 is Err),
{
}

/// Every entry that was read is answered: once its type is known, or once
/// it is open, the entry itself or a failure in its place is handed on.
pub proof fn law_every_entry_is_answered(state: State, event: Event)
    requires
        state is Typing || state is Opening,
        state.expects(event),
        state.after(event) is Walk,
    ensures
        state.yields_entry(event) != (state.yields_error(event) is Some),
{
}

/// A walk stops only where no directory is open.
pub proof fn law_stop_leaves_nothing_open(state: State)
    requires
        state.next_action() == Action::Stop,
    ensures
        state.depth() == 0,
{
}

/// Opening a directory adds one to the open directories, exhausting one
/// takes one away, and nothing else changes their number.
pub proof fn law_depth_follows_the_events(state: State, event: Event)
    requires
        state.depth() < usize::MAX,
    ensures
        state.after(event).depth() == state.depth() + if state.expects(event) && event
            matches Event::Opened(Ok(_)) {
            1int
        } else if state.expects(event) && event matches Event::Read(Ok(false)) {
            -1int
        } else {
            0int
        },
{
}

} // verus!
