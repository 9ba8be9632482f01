//! The order of a purge, as a state machine.
//!
//! The caller opens the connection and tells the machine how that went. From
//! then on every event is answered by an [`Action`]: print this batch index,
//! wait for a permit of the rate limiter, send these keys to the store in
//! one command, stop. The machine never acts by itself; it decides.
//!
//! `Idle` is the start. `AwaitingPermit` and `AwaitingStore` are the two
//! halves of processing a batch. `Done` and `Failed` are final.

use crate::archive::utf8_text;
use crate::chunker::{
    batch_count, batches, batches_of, batches_view, law_number_of_batches, lemma_batch_count,
    lemma_batch_count_step, remaining,
};
use crate::config::Config;
use crate::error::PurgeError;
use crate::lines::{lines_of, lines_view, split_lines};
use vstd::prelude::*;
use vstd::utf8::*;

verus! {

/// Where a purge stands.
#[derive(Clone, Copy, Debug, PartialEq, Eq, Structural)]
pub enum State {
    /// Nothing has happened yet.
    Idle,
    /// A batch is ready and waits for the rate limiter.
    AwaitingPermit,
    /// A batch was handed out and the store has not answered.
    AwaitingStore,
    /// Every batch was deleted.
    Done,
    /// An error ended the run.
    Failed,
}

/// The states as an operator sees them: before, during and after the work.
#[derive(Clone, Copy, Debug, PartialEq, Eq, Structural)]
pub enum Phase {
    Idle,
    Processing,
    Done,
    Failed,
}

impl State {
    /// The phase that a state belongs to. Waiting for a permit and waiting
    /// for the store are both processing.
    pub open spec fn phase_of(self) -> Phase {
        match self {
            State::Idle => Phase::Idle,
            State::AwaitingPermit => Phase::Processing,
            State::AwaitingStore => Phase::Processing,
            State::Done => Phase::Done,
            State::Failed => Phase::Failed,
        }
    }

    /// The phase that this state belongs to.
    pub fn phase(&self) -> (phase: Phase)
        ensures
            phase == self.phase_of(),
    {
        match *self {
            State::Idle => Phase::Idle,
            State::AwaitingPermit => Phase::Processing,
            State::AwaitingStore => Phase::Processing,
            State::Done => Phase::Done,
            State::Failed => Phase::Failed,
        }
    }
}

/// What the caller reports to the machine.
#[derive(Clone, Copy, Debug, PartialEq, Eq, Structural)]
pub enum Event {
    /// The connection to the store is open.
    Connected,
    /// The connection could not be opened.
    ConnectFailed,
    /// The rate limiter granted one permit.
    PermitGranted,
    /// The store acknowledged the batch it was last sent.
    Deleted,
    /// The store, or the connection, failed on the batch it was last sent.
    StoreFailed,
}

/// What the caller is to do next.
#[derive(Debug)]
pub enum Command {
    /// Wait until the rate limiter grants one permit, then report it.
    AwaitPermit,
    /// Send these keys to the store in one unlink command, then report how
    /// that went.
    Unlink(Vec<String>),
    /// The run is complete.
    Finish,
    /// The run has failed with this error.
    Abort(PurgeError),
    /// The event does not belong to the machine's state; nothing changed.
    Ignore,
}

/// The answer to an event: a batch index to print first, if any, and a
/// command.
#[derive(Debug)]
pub struct Action {
    pub progress: Option<usize>,
    pub command: Command,
}

/// A command, with the keys as sequences of characters.
pub enum CommandModel {
    AwaitPermit,
    Unlink(Seq<Seq<char>>),
    Finish,
    Abort(PurgeError),
    Ignore,
}

/// An action, as mathematics.
pub struct ActionModel {
    pub progress: Option<nat>,
    pub command: CommandModel,
}

/// The machine, as mathematics.
pub struct Machine {
    /// The batches to delete, each a list of lines as bytes.
    pub batches: Seq<Seq<Seq<u8>>>,
    /// The progress interval.
    pub offset: nat,
    pub state: State,
    /// The zero-based index of the current batch, which is also the number
    /// of batches that the store has acknowledged.
    pub index: nat,
    /// The error that ended the run, if one did.
    pub error: Option<PurgeError>,
}

/// The characters of each string of a list.
pub open spec fn strings_view(keys: Seq<String>) -> Seq<Seq<char>> {
    Seq::new(keys.len(), |i: int| keys[i]@)
}

/// The keys that the lines of a batch spell, or `None` where a line is not
/// UTF-8.
pub open spec fn keys_of(batch: Seq<Seq<u8>>) -> Option<Seq<Seq<char>>> {
    if forall|i: int| 0 <= i < batch.len() ==> valid_utf8(#[trigger] batch[i]) {
        Some(Seq::new(batch.len(), |i: int| decode_utf8(batch[i])))
    } else {
        None
    }
}

/// The index to print on entering batch `index`: the index itself at every
/// multiple of `offset`, nothing at any other.
pub open spec fn progress_at(index: nat, offset: nat) -> Option<nat> {
    if offset > 0 && index % offset == 0 {
        Some(index)
    } else {
        None
    }
}

/// A machine that has not started.
pub open spec fn initial(batches: Seq<Seq<Seq<u8>>>, offset: nat) -> Machine {
    Machine { batches, offset, state: State::Idle, index: 0, error: None }
}

/// Turning to batch `index`. Past the last batch the run is complete. Else
/// the index is printed where progress is due, and the lines of the batch
/// are read as keys: the run fails if one is not text, and waits for a
/// permit if all are.
pub open spec fn enter(m: Machine, index: nat) -> (Machine, ActionModel) {
    if index >= m.batches.len() {
        (
            Machine { state: State::Done, index, ..m },
            ActionModel { progress: None, command: CommandModel::Finish },
        )
    } else if keys_of(m.batches[index as int]) is None {
        (
            Machine { state: State::Failed, index, error: Some(PurgeError::Io), ..m },
            ActionModel {
                progress: progress_at(index, m.offset),
                command: CommandModel::Abort(PurgeError::Io),
            },
        )
    } else {
        (
            Machine { state: State::AwaitingPermit, index, ..m },
            ActionModel {
                progress: progress_at(index, m.offset),
                command: CommandModel::AwaitPermit,
            },
        )
    }
}

/// The machine's answer to an event, and the machine after it.
pub open spec fn step(m: Machine, event: Event) -> (Machine, ActionModel) {
    match (m.state, event) {
        (State::Idle, Event::Connected) => enter(m, 0),
        (State::Idle, Event::ConnectFailed) => (
            Machine { state: State::Failed, error: Some(PurgeError::Connection), ..m },
            ActionModel { progress: None, command: CommandModel::Abort(PurgeError::Connection) },
        ),
        (State::AwaitingPermit, Event::PermitGranted) => (
            Machine { state: State::AwaitingStore, ..m },
            ActionModel {
                progress: None,
                command: CommandModel::Unlink(keys_of(m.batches[m.index as int]).unwrap()),
            },
        ),
        (State::AwaitingStore, Event::Deleted) => enter(m, m.index + 1),
        (State::AwaitingStore, Event::StoreFailed) => (
            Machine { state: State::Failed, error: Some(PurgeError::Command), ..m },
            ActionModel { progress: None, command: CommandModel::Abort(PurgeError::Command) },
        ),
        _ => (m, ActionModel { progress: None, command: CommandModel::Ignore }),
    }
}

impl Machine {
    /// What holds of every machine that was started from `initial` and moved
    /// by `step`.
    pub open spec fn inv(self) -> bool {
        &&& self.offset > 0
        &&& self.index <= self.batches.len()
        &&& self.state == State::Idle ==> self.index == 0
        &&& self.state == State::AwaitingPermit || self.state == State::AwaitingStore ==> {
            &&& self.index < self.batches.len()
            &&& keys_of(self.batches[self.index as int]) is Some
        }
        &&& self.state == State::Done ==> self.index == self.batches.len()
        &&& self.state == State::Failed <==> self.error is Some
        &&& self.error == Some(PurgeError::Command) ==> self.index < self.batches.len()
    }

    /// The number of batches that the machine has turned to.
    pub open spec fn entered(self) -> nat {
        match self.state {
            State::Idle => 0,
            State::AwaitingPermit => self.index + 1,
            State::AwaitingStore => self.index + 1,
            State::Done => self.index,
            State::Failed => if self.error == Some(PurgeError::Connection) {
                0
            } else {
                self.index + 1
            },
        }
    }

    /// The number of batches that were handed out for the store: those it
    /// acknowledged, and the one it has not answered or has failed on.
    pub open spec fn sent(self) -> nat {
        if self.state == State::AwaitingStore || self.error == Some(PurgeError::Command) {
            self.index + 1
        } else {
            self.index
        }
    }
}

/// The machine after a sequence of events.
pub open spec fn run(m: Machine, events: Seq<Event>) -> Machine
    decreases events.len(),
{
    if events.len() == 0 {
        m
    } else {
        step(run(m, events.drop_last()), events.last()).0
    }
}

/// The key lists of the unlink commands that the machine gives in answer to
/// a sequence of events, in the order in which it gives them.
pub open spec fn issued(m: Machine, events: Seq<Event>) -> Seq<Seq<Seq<char>>>
    decreases events.len(),
{
    if events.len() == 0 {
        seq![]
    } else {
        let before = issued(m, events.drop_last());
        match step(run(m, events.drop_last()), events.last()).1.command {
            CommandModel::Unlink(keys) => before.push(keys),
            _ => before,
        }
    }
}

/// The batch indices that the machine has printed in answer to a sequence of
/// events, in the order in which it printed them.
pub open spec fn printed(m: Machine, events: Seq<Event>) -> Seq<nat>
    decreases events.len(),
{
    if events.len() == 0 {
        seq![]
    } else {
        let before = printed(m, events.drop_last());
        match step(run(m, events.drop_last()), events.last()).1.progress {
            Some(index) => before.push(index),
            None => before,
        }
    }
}

/// No event leads a machine out of its invariant, changes its batches or
/// its interval, or takes the batch index back: the index stays or grows by
/// one.
pub proof fn law_step_keeps_invariant(m: Machine, event: Event)
    requires
        m.inv(),
    ensures
        step(m, event).0.inv(),
        step(m, event).0.batches == m.batches,
        step(m, event).0.offset == m.offset,
        m.index <= step(m, event).0.index <= m.index + 1,
{
}

/// The phases follow one another in one direction only: from idle to
/// processing, done or failed; from processing to done or failed; and from
/// done and failed nowhere.
pub proof fn law_phases(m: Machine, event: Event)
    requires
        m.inv(),
    ensures
        ({
            let before = m.state.phase_of();
            let after = step(m, event).0.state.phase_of();
            &&& after == Phase::Idle ==> before == Phase::Idle
            &&& after == Phase::Processing ==> before == Phase::Idle || before == Phase::Processing
            &&& before == Phase::Done ==> after == Phase::Done
            &&& before == Phase::Failed ==> after == Phase::Failed
        }),
{
}

/// `Done` and `Failed` are final: every event is ignored there, and no
/// command for the store is ever given again.
pub proof fn law_final_states_absorb(m: Machine, events: Seq<Event>)
    requires
        m.state == State::Done || m.state == State::Failed,
    ensures
        run(m, events) == m,
        issued(m, events) == Seq::<Seq<Seq<char>>>::empty(),
        events.len() > 0 ==> step(m, events[0]) == (
            m,
            ActionModel { progress: None, command: CommandModel::Ignore },
        ),
    decreases events.len(),
{
    if events.len() > 0 {
        law_final_states_absorb(m, events.drop_last());
    }
}

/// Progress is printed on turning to a batch whose index is a multiple of
/// the interval, with that index, and at no other moment.
pub proof fn law_progress(m: Machine, event: Event)
    requires
        m.inv(),
    ensures
        ({
            let (next, action) = step(m, event);
            let turns = (m.state == State::Idle && event == Event::Connected) || (m.state
                == State::AwaitingStore && event == Event::Deleted);
            &&& action.progress is Some <==> turns && next.index < m.batches.len() && next.index
                % m.offset == 0
            &&& action.progress is Some ==> action.progress == Some(next.index)
        }),
{
}

/// The store is sent a batch only in answer to a permit of the rate limiter,
/// one batch for one permit, and the keys are those of the current batch.
pub proof fn law_unlink_needs_permit(m: Machine, event: Event)
    requires
        m.inv(),
    ensures
        step(m, event).1.command is Unlink <==> m.state == State::AwaitingPermit && event
            == Event::PermitGranted,
        step(m, event).1.command is Unlink ==> keys_of(m.batches[m.index as int]) == Some(
            step(m, event).1.command->Unlink_0,
        ),
{
}

/// Whatever the events, the batches go to the store in the order of the key
/// list, each at most once and none before the one in front of it: the
/// unlink commands given so far carry the keys of batches `0`, `1`, `2` and
/// so on, as many as the machine counts as sent.
pub proof fn law_commands_in_order(batches: Seq<Seq<Seq<u8>>>, offset: nat, events: Seq<Event>)
    requires
        offset > 0,
    ensures
        ({
            let end = run(initial(batches, offset), events);
            let out = issued(initial(batches, offset), events);
            &&& end.inv()
            &&& end.batches == batches
            &&& end.offset == offset
            &&& out.len() == end.sent()
            &&& out.len() <= batches.len()
            &&& forall|j: int| 0 <= j < out.len() ==> keys_of(batches[j]) == Some(#[trigger] out[j])
        }),
    decreases events.len(),
{
    if events.len() > 0 {
        law_commands_in_order(batches, offset, events.drop_last());
        let before = run(initial(batches, offset), events.drop_last());
        law_step_keeps_invariant(before, events.last());
    }
}

/// Whatever the events, progress is printed at the batch indices `0`,
/// `offset`, `2 * offset` and so on, in this order, once each and as far as
/// the machine has come; no other index is ever printed.
pub proof fn law_progress_in_order(batches: Seq<Seq<Seq<u8>>>, offset: nat, events: Seq<Event>)
    requires
        offset > 0,
    ensures
        ({
            let end = run(initial(batches, offset), events);
            let out = printed(initial(batches, offset), events);
            &&& out.len() == batch_count(end.entered(), offset)
            &&& forall|j: int| 0 <= j < out.len() ==> #[trigger] out[j] == j * offset
        }),
    decreases events.len(),
{
    let start = initial(batches, offset);
    if events.len() == 0 {
        lemma_batch_count(0, offset);
    } else {
        law_progress_in_order(batches, offset, events.drop_last());
        law_commands_in_order(batches, offset, events.drop_last());
        let before = run(start, events.drop_last());
        let (after, action) = step(before, events.last());
        if after.entered() != before.entered() {
            assert(after.entered() == before.entered() + 1);
            assert(after.index == before.entered());
            lemma_batch_count_step(before.entered(), offset);
        }
    }
}

/// A key list with no line past the skip gives no batch, and the machine
/// for it is done at once: it never asks for a permit or for the store.
pub proof fn law_nothing_to_delete(lines: Seq<Seq<u8>>, skip: nat, size: nat, offset: nat)
    requires
        size > 0,
        offset > 0,
        skip >= lines.len(),
    ensures
        batches_of(remaining(lines, skip), size).len() == 0,
        ({
            let start = initial(batches_of(remaining(lines, skip), size), offset);
            &&& step(start, Event::Connected).0.state == State::Done
            &&& step(start, Event::Connected).1 == (ActionModel {
                progress: None,
                command: CommandModel::Finish,
            })
            &&& forall|events: Seq<Event>| #[trigger] issued(start, events).len() == 0
        }),
{
    law_number_of_batches(lines, skip, size);
    let start = initial(batches_of(remaining(lines, skip), size), offset);
    assert forall|events: Seq<Event>| #[trigger] issued(start, events).len() == 0 by {
        law_commands_in_order(start.batches, offset, events);
    }
}

/// When the store fails on a batch, the run ends there. The batches before
/// it stay deleted and are counted as completed, the error is a command
/// error, and no later event makes the machine send anything again.
pub proof fn law_store_failure(m: Machine, later: Seq<Event>)
    requires
        m.inv(),
        m.state == State::AwaitingStore,
    ensures
        ({
            let (failed, action) = step(m, Event::StoreFailed);
            &&& failed.state == State::Failed
            &&& failed.error == Some(PurgeError::Command)
            &&& failed.index == m.index
            &&& failed.sent() == m.index + 1
            &&& action == (ActionModel {
                progress: None,
                command: CommandModel::Abort(PurgeError::Command),
            })
            &&& run(failed, later) == failed
            &&& issued(failed, later).len() == 0
        }),
{
    law_final_states_absorb(step(m, Event::StoreFailed).0, later);
}

impl View for Command {
    type V = CommandModel;

    open spec fn view(&self) -> CommandModel {
        match *self {
            Command::AwaitPermit => CommandModel::AwaitPermit,
            Command::Unlink(keys) => CommandModel::Unlink(strings_view(keys@)),
            Command::Finish => CommandModel::Finish,
            Command::Abort(error) => CommandModel::Abort(error),
            Command::Ignore => CommandModel::Ignore,
        }
    }
}

impl View for Action {
    type V = ActionModel;

    open spec fn view(&self) -> ActionModel {
        ActionModel {
            progress: match self.progress {
                Some(index) => Some(index as nat),
                None => None,
            },
            command: self.command@,
        }
    }
}

/// The keys of an optional list of strings.
pub open spec fn optional_strings_view(keys: Option<Vec<String>>) -> Option<Seq<Seq<char>>> {
    match keys {
        Some(keys) => Some(strings_view(keys@)),
        None => None,
    }
}

/// Reads each line of a batch as a key. All lines must be UTF-8.
pub fn decode_batch(batch: &Vec<Vec<u8>>) -> (keys: Option<Vec<String>>)
    ensures
        optional_strings_view(keys) == keys_of(lines_view(batch@)),
{
    let ghost lines = lines_view(batch@);
    let mut keys: Vec<String> = Vec::new();
    let mut i: usize = 0;
    while i < batch.len()
        invariant
            i <= batch.len(),
            lines == lines_view(batch@),
            keys@.len() == i,
            forall|j: int| 0 <= j < i ==> valid_utf8(#[trigger] lines[j]),
            forall|j: int| 0 <= j < i ==> (#[trigger] keys@[j])@ == decode_utf8(lines[j]),
        decreases batch.len() - i,
    {
        match utf8_text(batch[i].as_slice()) {
            Some(key) => {
                keys.push(key);
            },
            None => {
                assert(!valid_utf8(lines[i as int]));
                return None;
            },
        }
        i += 1;
    }
    assert(strings_view(keys@) =~= keys_of(lines).unwrap());
    Some(keys)
}

/// A purge in progress: the batches, and how far the run has come.
pub struct Deleter {
    batches: Vec<Vec<Vec<u8>>>,
    print_chunk_offset: usize,
    state: State,
    index: usize,
    error: Option<PurgeError>,
    pending: Vec<String>,
}

impl View for Deleter {
    type V = Machine;

    closed spec fn view(&self) -> Machine {
        Machine {
            batches: batches_view(self.batches@),
            offset: self.print_chunk_offset as nat,
            state: self.state,
            index: self.index as nat,
            error: self.error,
        }
    }
}

impl Deleter {
    /// The machine is one that `step` can have reached, and the keys of the
    /// batch that waits for its permit are at hand.
    pub closed spec fn wf(&self) -> bool {
        &&& self@.inv()
        &&& self.state == State::AwaitingPermit ==> Some(strings_view(self.pending@)) == keys_of(
            self@.batches[self.index as int],
        )
    }

    /// A well-formed deleter stands for a machine that holds the invariant.
    pub proof fn lemma_wf(&self)
        requires
            self.wf(),
        ensures
            self@.inv(),
    {
    }

    /// A deleter for these batches that prints progress every
    /// `print_chunk_offset` batches. It has not started.
    pub fn new(batches: Vec<Vec<Vec<u8>>>, print_chunk_offset: usize) -> (deleter: Deleter)
        requires
            print_chunk_offset > 0,
        ensures
            deleter.wf(),
            deleter@ == initial(batches_view(batches@), print_chunk_offset as nat),
    {
        Deleter {
            batches,
            print_chunk_offset,
            state: State::Idle,
            index: 0,
            error: None,
            pending: Vec::new(),
        }
    }

    /// The deleter for the key list in `text`: its lines after the first
    /// `skip`, in batches of the configured size.
    pub fn for_key_list(text: &[u8], skip: usize, config: &Config) -> (deleter: Deleter)
        requires
            config.wf(),
        ensures
            deleter.wf(),
            deleter@ == initial(
                batches_of(remaining(lines_of(text@), skip as nat), config.chunk_size as nat),
                config.print_chunk_offset as nat,
            ),
    {
        let lines = split_lines(text);
        Deleter::new(batches(&lines, skip, config.chunk_size), config.print_chunk_offset)
    }

    /// Where the run stands.
    pub fn state(&self) -> (state: State)
        ensures
            state == self@.state,
    {
        self.state
    }

    /// The number of batches that the store has acknowledged.
    pub fn completed(&self) -> (count: usize)
        ensures
            count == self@.index,
    {
        self.index
    }

    /// The number of batches of the run.
    pub fn batch_count(&self) -> (count: usize)
        ensures
            count == self@.batches.len(),
    {
        self.batches.len()
    }

    /// The error that ended the run, if one did.
    pub fn error(&self) -> (error: Option<PurgeError>)
        ensures
            error == self@.error,
    {
        self.error
    }

    fn enter(&mut self, index: usize) -> (action: Action)
        requires
            old(self).print_chunk_offset > 0,
            old(self).error is None,
            index <= old(self).batches.len(),
        ensures
            final(self).wf(),
            (final(self)@, action@) == enter(old(self)@, index as nat),
    {
        self.index = index;
        if index >= self.batches.len() {
            self.state = State::Done;
            return Action { progress: None, command: Command::Finish };
        }
        let progress = if index % self.print_chunk_offset == 0 {
            Some(index)
        } else {
            None
        };
        match decode_batch(&self.batches[index]) {
            Some(keys) => {
                self.pending = keys;
                self.state = State::AwaitingPermit;
                Action { progress, command: Command::AwaitPermit }
            },
            None => {
                self.state = State::Failed;
                self.error = Some(PurgeError::Io);
                Action { progress, command: Command::Abort(PurgeError::Io) }
            },
        }
    }

    /// Takes one event and says what to do next.
    pub fn handle(&mut self, event: Event) -> (action: Action)
        requires
            old(self).wf(),
        ensures
            final(self).wf(),
            (final(self)@, action@) == step(old(self)@, event),
    {
        match (self.state, event) {
            (State::Idle, Event::Connected) => self.enter(0),
            (State::Idle, Event::ConnectFailed) => {
                self.state = State::Failed;
                self.error = Some(PurgeError::Connection);
                Action { progress: None, command: Command::Abort(PurgeError::Connection) }
            },
            (State::AwaitingPermit, Event::PermitGranted) => {
                let mut keys: Vec<String> = Vec::new();
                std::mem::swap(&mut self.pending, &mut keys);
                self.state = State::AwaitingStore;
                Action { progress: None, command: Command::Unlink(keys) }
            },
            (State::AwaitingStore, Event::Deleted) => {
                let count: usize = self.batches.len();
                assert(self@.batches.len() == count);
                let next: usize = self.index + 1;
                self.enter(next)
            },
            (State::AwaitingStore, Event::StoreFailed) => {
                self.state = State::Failed;
                self.error = Some(PurgeError::Command);
                Action { progress: None, command: Command::Abort(PurgeError::Command) }
            },
            _ => Action { progress: None, command: Command::Ignore },
        }
    }
}

} // verus!
