//! The life cycle of a container: the decisions of opening and closing it,
//! as a state machine.
//!
//! ```text
//! Unopened -> Opening -> { Created, Verified } -> Open -> Closed
//!                 \-> Failed
//! ```
//!
//! The machine touches no file. It answers each call with an [`Action`] for
//! its driver: open the file, take the exclusive lock, ask for the length,
//! write the initial image, read the contents, release. The driver performs
//! the action and reports the outcome as an [`Event`]. Which resources are
//! held follows from the state alone, so the machine can say at every exit
//! what has to be released.

use vstd::prelude::*;
use crate::error::StorageError;
use crate::header::{current_header, Header};
use crate::image::{
    create, image_bytes, initial_image, lemma_created_image_verifies, read_meta, spec_read_meta,
    spec_verify, verify,
};
use crate::meta::{MetaInformation, MetaView};

verus! {

/// What an opening container is waiting for.
#[derive(Clone, Copy, Debug, PartialEq, Eq, Structural)]
pub enum Pending {
    /// The file to be opened, or created if absent, for reading and writing.
    File,
    /// The exclusive lock on the file.
    Lock,
    /// The length of the file.
    Length,
    /// The initial image to be written and flushed.
    Flush,
    /// The contents of the file.
    Contents,
}

/// Where a container is in its life.
#[derive(Clone, Copy, Debug, PartialEq, Eq, Structural)]
pub enum State {
    /// Nothing has been asked of the file yet.
    Unopened,
    /// Opening is under way.
    Opening(Pending),
    /// The file was empty; the initial image has been written and flushed.
    Created,
    /// The file held a container; its image has been validated.
    Verified,
    /// The container has been handed to its caller.
    Open,
    /// The container was closed; nothing is held.
    Closed,
    /// Opening failed; nothing is held.
    Failed,
}

impl State {
    /// The file handle is held from the moment the file is open until the
    /// container is closed or has failed.
    pub open spec fn holds_file(self) -> bool {
        match self {
            State::Opening(Pending::File) => false,
            State::Opening(_) => true,
            State::Created => true,
            State::Verified => true,
            State::Open => true,
            _ => false,
        }
    }

    /// The exclusive lock is held from the moment it is acquired until the
    /// container is closed or has failed.
    pub open spec fn holds_lock(self) -> bool {
        match self {
            State::Opening(Pending::File) => false,
            State::Opening(Pending::Lock) => false,
            State::Opening(_) => true,
            State::Created => true,
            State::Verified => true,
            State::Open => true,
            _ => false,
        }
    }

    /// The header is known once the file has been created or verified.
    pub open spec fn knows_header(self) -> bool {
        self is Created || self is Verified || self is Open
    }

    /// Tells whether the file handle is held.
    pub fn has_file(&self) -> (b: bool)
        ensures
            b == self.holds_file(),
    {
        match self {
            State::Opening(Pending::File) => false,
            State::Opening(_) => true,
            State::Created => true,
            State::Verified => true,
            State::Open => true,
            _ => false,
        }
    }

    /// Tells whether the exclusive lock is held.
    pub fn has_lock(&self) -> (b: bool)
        ensures
            b == self.holds_lock(),
    {
        match self {
            State::Opening(Pending::File) => false,
            State::Opening(Pending::Lock) => false,
            State::Opening(_) => true,
            State::Created => true,
            State::Verified => true,
            State::Open => true,
            _ => false,
        }
    }
}

/// What the driver reports back.
#[derive(Debug, PartialEq, Eq)]
pub enum Event {
    /// The file is open for reading and writing.
    FileOpened,
    /// The exclusive lock is held.
    LockAcquired,
    /// The locking primitive failed.
    LockFailed,
    /// A non-blocking attempt found the lock held by another owner.
    LockContended,
    /// The file is this many bytes long.
    Length(u64),
    /// The bytes were written at offset 0 and flushed to the medium.
    Flushed,
    /// These are the bytes of the whole file.
    Contents(Vec<u8>),
    /// The operating system refused the last action.
    IoFailed,
    /// The container has been handed to the caller of the open operation.
    Delivered,
}

/// What the driver is to do next.
#[derive(Debug, PartialEq, Eq)]
pub enum Action {
    /// Open the file, creating it if absent, for reading and writing.
    OpenFile,
    /// Take the exclusive lock on the file.
    AcquireLock,
    /// Find out how long the file is.
    QueryLength,
    /// Write these bytes at offset 0 as one buffered write, and flush.
    WriteAndFlush(Vec<u8>),
    /// Read the whole file.
    ReadContents,
    /// Hand the container to the caller: opening has succeeded.
    Deliver,
    /// Release the lock if `unlock`, close the file if `close`, then report
    /// `error`: opening has failed.
    Abort { unlock: bool, close: bool, error: StorageError },
    /// Release the lock if `unlock` and close the file if `close`.
    Release { unlock: bool, close: bool },
    /// Nothing is to be done.
    Nothing,
}

/// An event, with bytes as a sequence.
pub enum EventView {
    FileOpened,
    LockAcquired,
    LockFailed,
    LockContended,
    Length(u64),
    Flushed,
    Contents(Seq<u8>),
    IoFailed,
    Delivered,
}

/// An action, with bytes as a sequence.
pub enum ActionView {
    OpenFile,
    AcquireLock,
    QueryLength,
    WriteAndFlush(Seq<u8>),
    ReadContents,
    Deliver,
    Abort { unlock: bool, close: bool, error: StorageError },
    Release { unlock: bool, close: bool },
    Nothing,
}

impl View for Event {
    type V = EventView;

    open spec fn view(&self) -> EventView {
        match self {
            Event::FileOpened => EventView::FileOpened,
            Event::LockAcquired => EventView::LockAcquired,
            Event::LockFailed => EventView::LockFailed,
            Event::LockContended => EventView::LockContended,
            Event::Length(n) => EventView::Length(*n),
            Event::Flushed => EventView::Flushed,
            Event::Contents(bytes) => EventView::Contents(bytes@),
            Event::IoFailed => EventView::IoFailed,
            Event::Delivered => EventView::Delivered,
        }
    }
}

impl View for Action {
    type V = ActionView;

    open spec fn view(&self) -> ActionView {
        match self {
            Action::OpenFile => ActionView::OpenFile,
            Action::AcquireLock => ActionView::AcquireLock,
            Action::QueryLength => ActionView::QueryLength,
            Action::WriteAndFlush(bytes) => ActionView::WriteAndFlush(bytes@),
            Action::ReadContents => ActionView::ReadContents,
            Action::Deliver => ActionView::Deliver,
            Action::Abort { unlock, close, error } => ActionView::Abort {
                unlock: *unlock,
                close: *close,
                error: *error,
            },
            Action::Release { unlock, close } => ActionView::Release {
                unlock: *unlock,
                close: *close,
            },
            Action::Nothing => ActionView::Nothing,
        }
    }
}

/// The failure of an opening container: everything held is released, then
/// the error is reported.
pub open spec fn spec_abort(state: State, error: StorageError) -> (State, ActionView) {
    (
        State::Failed,
        ActionView::Abort { unlock: state.holds_lock(), close: state.holds_file(), error },
    )
}

/// The start of opening: only a container that has not been opened yet
/// starts, by asking for the file.
pub open spec fn spec_open(state: State) -> (State, ActionView) {
    if state is Unopened {
        (State::Opening(Pending::File), ActionView::OpenFile)
    } else {
        (state, ActionView::Nothing)
    }
}

/// The decision taken on an event.
///
/// While opening, each awaited outcome leads one step on: file, lock,
/// length; then an empty file is created, a file of at least four bytes is
/// read and verified, and a shorter one is refused. Any failure leads to
/// `Failed`. A created or verified container becomes `Open` when it is
/// delivered. An event that the state does not await changes nothing.
pub open spec fn spec_step(state: State, event: EventView) -> (State, ActionView) {
    match (state, event) {
        (State::Opening(_), EventView::IoFailed) => spec_abort(state, StorageError::IoError),
        (State::Opening(Pending::File), EventView::FileOpened) => (
            State::Opening(Pending::Lock),
            ActionView::AcquireLock,
        ),
        (State::Opening(Pending::Lock), EventView::LockAcquired) => (
            State::Opening(Pending::Length),
            ActionView::QueryLength,
        ),
        (State::Opening(Pending::Lock), EventView::LockFailed) => spec_abort(
            state,
            StorageError::LockUnavailable,
        ),
        (State::Opening(Pending::Lock), EventView::LockContended) => spec_abort(
            state,
            StorageError::WouldBlock,
        ),
        (State::Opening(Pending::Length), EventView::Length(length)) => if length == 0 {
            (State::Opening(Pending::Flush), ActionView::WriteAndFlush(initial_image()))
        } else if length < 4 {
            spec_abort(state, StorageError::NotAVectorStorageFile { length })
        } else {
            (State::Opening(Pending::Contents), ActionView::ReadContents)
        },
        (State::Opening(Pending::Flush), EventView::Flushed) => (
            State::Created,
            ActionView::Deliver,
        ),
        (State::Opening(Pending::Contents), EventView::Contents(bytes)) => match spec_verify(
            bytes,
        ) {
            Ok(_) => (State::Verified, ActionView::Deliver),
            Err(error) => spec_abort(state, error),
        },
        (State::Created, EventView::Delivered) => (State::Open, ActionView::Nothing),
        (State::Verified, EventView::Delivered) => (State::Open, ActionView::Nothing),
        _ => (state, ActionView::Nothing),
    }
}

/// Closing: whatever is held is released. A failed container stays failed;
/// every other one is closed.
pub open spec fn spec_close(state: State) -> (State, ActionView) {
    (
        if state is Failed {
            State::Failed
        } else {
            State::Closed
        },
        ActionView::Release { unlock: state.holds_lock(), close: state.holds_file() },
    )
}

/// What a container is: the path of its file, where it is in its life, and
/// the header of the file once that is known.
pub struct StorageView {
    pub file_name: Seq<char>,
    pub state: State,
    pub header: Option<Header>,
}

impl StorageView {
    /// The header is known exactly in the states that know it, and is then
    /// the header of the supported version.
    pub open spec fn wf(self) -> bool {
        if self.state.knows_header() {
            self.header == Some(current_header())
        } else {
            self.header is None
        }
    }

    /// The container in another state, with the header that state knows.
    pub open spec fn moved_to(self, state: State) -> StorageView {
        StorageView {
            file_name: self.file_name,
            state,
            header: if state.knows_header() {
                Some(current_header())
            } else {
                None
            },
        }
    }
}

/// A vector storage container on a local file.
///
/// The value records the decisions; the file handle and the lock belong to
/// the driver that performs the actions, one handle and one lock for one
/// container.
#[derive(Debug)]
pub struct VectorStorage {
    file_name: String,
    progress: Progress,
}

/// The state together with the header it knows; they change as one.
#[derive(Clone, Copy, Debug)]
struct Progress {
    state: State,
    header: Option<Header>,
}

impl View for VectorStorage {
    type V = StorageView;

    closed spec fn view(&self) -> StorageView {
        StorageView {
            file_name: self.file_name@,
            state: self.progress.state,
            header: self.progress.header,
        }
    }
}

impl VectorStorage {
    #[verifier::type_invariant]
    spec fn consistent(self) -> bool {
        self@.wf()
    }

    /// A container for the file at `file_name`, not opened yet.
    pub fn new(file_name: String) -> (storage: VectorStorage)
        ensures
            storage@ == (StorageView {
                file_name: file_name@,
                state: State::Unopened,
                header: None,
            }),
            storage@.wf(),
    {
        VectorStorage { file_name, progress: Progress { state: State::Unopened, header: None } }
    }

    /// The path of the file.
    pub fn file_name(&self) -> (name: &String)
        ensures
            name@ == self@.file_name,
    {
        &self.file_name
    }

    /// Where the container is in its life.
    pub fn state(&self) -> (state: State)
        ensures
            state == self@.state,
            self@.wf(),
    {
        proof {
            use_type_invariant(self);
        }
        self.progress.state
    }

    /// The header of the file, once the file has been created or verified.
    pub fn header(&self) -> (header: Option<Header>)
        ensures
            header == self@.header,
            self@.wf(),
    {
        proof {
            use_type_invariant(self);
        }
        self.progress.header
    }

    /// Tells whether the container has been handed to its caller and not
    /// been closed since.
    pub fn is_open(&self) -> (b: bool)
        ensures
            b == (self@.state is Open),
    {
        match self.progress.state {
            State::Open => true,
            _ => false,
        }
    }

    /// Moves to `state`, keeping the header in step with it.
    fn enter(&mut self, state: State)
        ensures
            final(self)@ == old(self)@.moved_to(state),
            final(self)@.wf(),
    {
        let known = match state {
            State::Created => true,
            State::Verified => true,
            State::Open => true,
            _ => false,
        };
        let header = if known {
            Some(Header { version: crate::header::FILE_VERSION })
        } else {
            None
        };
        self.progress = Progress { state, header };
    }

    /// Fails: the driver is told what to release and which error to report.
    fn abort(&mut self, error: StorageError) -> (action: Action)
        ensures
            (final(self)@.state, action@) == spec_abort(old(self)@.state, error),
            final(self)@ == old(self)@.moved_to(State::Failed),
            final(self)@.wf(),
    {
        let unlock = self.progress.state.has_lock();
        let close = self.progress.state.has_file();
        self.enter(State::Failed);
        Action::Abort { unlock, close, error }
    }

    /// Starts opening the container. Only a container that has not been
    /// opened yet starts; on any other the call changes nothing.
    pub fn open(&mut self) -> (action: Action)
        ensures
            (final(self)@.state, action@) == spec_open(old(self)@.state),
            final(self)@ == old(self)@.moved_to(final(self)@.state),
            final(self)@.wf(),
    {
        proof {
            use_type_invariant(&*self);
        }
        match self.progress.state {
            State::Unopened => {
                self.enter(State::Opening(Pending::File));
                Action::OpenFile
            },
            _ => Action::Nothing,
        }
    }

    /// Takes the outcome of the last action and decides what comes next.
    pub fn step(&mut self, event: Event) -> (action: Action)
        ensures
            (final(self)@.state, action@) == spec_step(old(self)@.state, event@),
            final(self)@ == old(self)@.moved_to(final(self)@.state),
            final(self)@.wf(),
    {
        proof {
            use_type_invariant(&*self);
        }
        match (self.progress.state, event) {
            (State::Opening(_), Event::IoFailed) => self.abort(StorageError::IoError),
            (State::Opening(Pending::File), Event::FileOpened) => {
                self.enter(State::Opening(Pending::Lock));
                Action::AcquireLock
            },
            (State::Opening(Pending::Lock), Event::LockAcquired) => {
                self.enter(State::Opening(Pending::Length));
                Action::QueryLength
            },
            (State::Opening(Pending::Lock), Event::LockFailed) => self.abort(
                StorageError::LockUnavailable,
            ),
            (State::Opening(Pending::Lock), Event::LockContended) => self.abort(
                StorageError::WouldBlock,
            ),
            (State::Opening(Pending::Length), Event::Length(length)) => {
                if length == 0 {
                    self.enter(State::Opening(Pending::Flush));
                    Action::WriteAndFlush(create())
                } else if length < 4 {
                    self.abort(StorageError::NotAVectorStorageFile { length })
                } else {
                    self.enter(State::Opening(Pending::Contents));
                    Action::ReadContents
                }
            },
            (State::Opening(Pending::Flush), Event::Flushed) => {
                self.enter(State::Created);
                Action::Deliver
            },
            (State::Opening(Pending::Contents), Event::Contents(bytes)) => {
                match verify(bytes.as_slice()) {
                    Ok(_) => {
                        self.enter(State::Verified);
                        Action::Deliver
                    },
                    Err(error) => self.abort(error),
                }
            },
            (State::Created, Event::Delivered) => {
                self.enter(State::Open);
                Action::Nothing
            },
            (State::Verified, Event::Delivered) => {
                self.enter(State::Open);
                Action::Nothing
            },
            _ => Action::Nothing,
        }
    }

    /// Closes the container: the driver is told what to release. Closing
    /// again, or closing a container that never opened, releases nothing.
    pub fn close(&mut self) -> (action: Action)
        ensures
            (final(self)@.state, action@) == spec_close(old(self)@.state),
            final(self)@ == old(self)@.moved_to(final(self)@.state),
            final(self)@.wf(),
            !final(self)@.state.holds_lock(),
            !final(self)@.state.holds_file(),
    {
        proof {
            use_type_invariant(&*self);
        }
        let unlock = self.progress.state.has_lock();
        let close = self.progress.state.has_file();
        match self.progress.state {
            State::Failed => {},
            _ => {
                self.enter(State::Closed);
            },
        }
        Action::Release { unlock, close }
    }

    /// Reads the Meta-Information from the contents of the file of an open
    /// container, which the driver has read under the lock.
    pub fn read_meta(&self, contents: &[u8]) -> (r: Result<MetaInformation, StorageError>)
        requires
            self@.state is Open,
        ensures
            match spec_read_meta(contents@) {
                Ok(m) => r matches Ok(meta) && meta@ == m,
                Err(e) => r == Err::<MetaInformation, StorageError>(e),
            },
    {
        read_meta(contents)
    }
}

/// Resources: the lock is never held without the file, and nothing is held
/// before opening, after closing or after a failure.
pub proof fn lemma_resources(state: State)
    ensures
        state.holds_lock() ==> state.holds_file(),
        state is Unopened || state is Closed || state is Failed ==> !state.holds_file(),
        state.knows_header() ==> state.holds_lock(),
{
}

/// The lock is a prerequisite: a state that holds the lock is entered only
/// by the report that the lock was acquired, a state that holds the file only
/// by the report that the file was opened, and neither by starting or
/// closing.
pub proof fn lemma_held_only_when_acquired(state: State, event: EventView)
    ensures
        !state.holds_lock() && spec_step(state, event).0.holds_lock() ==> state
            == State::Opening(Pending::Lock) && event is LockAcquired,
        !state.holds_file() && spec_step(state, event).0.holds_file() ==> state
            == State::Opening(Pending::File) && event is FileOpened,
        !spec_open(state).0.holds_lock() || state.holds_lock(),
        !spec_open(state).0.holds_file() || state.holds_file(),
{
}

/// No partial open: `Open` is entered only from `Created` or `Verified`, by
/// delivery; these are entered only from the flush of the initial image and
/// from contents that verify; and every failure while opening tells the
/// driver to release exactly what is held.
pub proof fn lemma_no_partial_open(state: State, event: EventView)
    ensures
        spec_step(state, event).0 is Open && !(state is Open) ==> (state is Created
            || state is Verified) && event is Delivered,
        spec_step(state, event).0 is Created && !(state is Created) ==> state == State::Opening(
            Pending::Flush,
        ) && event is Flushed,
        spec_step(state, event).0 is Verified && !(state is Verified) ==> state
            == State::Opening(Pending::Contents) && event is Contents && spec_verify(
            event->Contents_0,
        ) is Ok,
        spec_step(state, event).0 is Failed && !(state is Failed) ==> state is Opening && (
        spec_step(state, event).1 matches ActionView::Abort { unlock, close, .. } && unlock
            == state.holds_lock() && close == state.holds_file()),
{
}

/// Blocks are read and written only under the lock: the machine asks for
/// the file's length, for a write or for a read only in a state that holds
/// the exclusive lock.
pub proof fn lemma_io_under_lock(state: State, event: EventView)
    ensures
        ({
            let action = spec_step(state, event).1;
            action is QueryLength || action is WriteAndFlush || action is ReadContents
        }) ==> spec_step(state, event).0.holds_lock(),
        spec_step(state, event).1 is WriteAndFlush ==> spec_step(state, event).1
            == ActionView::WriteAndFlush(initial_image()),
{
}

/// Closing is idempotent: a second close changes nothing and releases
/// nothing.
pub proof fn lemma_close_idempotent(state: State)
    ensures
        spec_close(spec_close(state).0).0 == spec_close(state).0,
        spec_close(spec_close(state).0).1 == (ActionView::Release { unlock: false, close: false }),
        !spec_close(state).0.holds_lock(),
        !spec_close(state).0.holds_file(),
{
}

/// Structural failures are not retried: once failed, a container stays
/// failed whatever is reported to it, and asks for nothing more.
pub proof fn lemma_failed_is_final(event: EventView)
    ensures
        spec_step(State::Failed, event) == (State::Failed, ActionView::Nothing),
        spec_step(State::Closed, event) == (State::Closed, ActionView::Nothing),
        spec_open(State::Failed) == (State::Failed, ActionView::Nothing),
        spec_open(State::Closed) == (State::Closed, ActionView::Nothing),
{
}

/// Rejection at opening: a file of one to three bytes is refused as not a
/// vector storage file, with the lock and the file released.
pub proof fn lemma_short_file_refused(length: u64)
    requires
        1 <= length <= 3,
    ensures
        spec_step(State::Opening(Pending::Length), EventView::Length(length)) == (
            State::Failed,
            ActionView::Abort {
                unlock: true,
                close: true,
                error: StorageError::NotAVectorStorageFile { length },
            },
        ),
{
}

/// Idempotent open: opening a file that holds the image of a created
/// container reaches `Verified`, every time, and its Meta-Information reads
/// back as created.
pub proof fn lemma_reopen_verifies(m: MetaView)
    requires
        m.valid(),
        m.encoded_len() <= u32::MAX,
    ensures
        image_bytes(m).len() >= 4,
        spec_step(
            State::Opening(Pending::Length),
            EventView::Length(image_bytes(m).len() as u64),
        ) == (State::Opening(Pending::Contents), ActionView::ReadContents),
        spec_step(State::Opening(Pending::Contents), EventView::Contents(image_bytes(m))) == (
            State::Verified,
            ActionView::Deliver,
        ),
        spec_read_meta(image_bytes(m)) == Ok::<MetaView, StorageError>(m),
{
    lemma_created_image_verifies(m);
}

} // verus!
