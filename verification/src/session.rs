//! A build as a conversation between the library and its caller. The session names the next
//! thing to do on disk, the caller does it and reports what came of it, and the session decides
//! what follows. The session touches no file itself.

use vstd::prelude::*;

use crate::entry::{EntryView, WalkItem};
use crate::error::{IndexError, IoStage};
use crate::layout::Layout;
use crate::writer::{index_lines, index_text, item_line, item_text, join_lines};

verus! {

/// What the caller of a build is to do next.
#[derive(Clone, Debug, PartialEq, Eq)]
pub enum BuildAction {
    /// Find out whether the root is a directory.
    ProbeRoot,
    /// Find out whether a file stands at the destination.
    ProbeDestination,
    /// Delete the file that stands at the destination.
    RemoveDestination,
    /// Create the destination, empty, and open it for writing.
    CreateDestination,
    /// Take the next step of the traversal.
    NextEntry,
    /// Append this line, followed by the line end, to the destination.
    Append(String),
    /// Write out what is still buffered and close the destination.
    Flush,
    /// Nothing: the build is complete.
    Done,
    /// Nothing: the build has failed with this error.
    Abort(IndexError),
}

/// What came of the action that the caller was asked for.
#[derive(Clone, Debug, PartialEq, Eq)]
pub enum BuildEvent {
    /// The root was looked at.
    RootProbed { is_directory: bool },
    /// The destination was looked at.
    DestinationProbed { exists: bool },
    /// The file operation succeeded.
    Succeeded,
    /// The file operation failed.
    Failed,
    /// The traversal took a step.
    Walked(WalkItem),
    /// The traversal has no step left.
    WalkEnded,
}

/// The mathematical value of a [`BuildAction`].
pub enum ActionView {
    ProbeRoot,
    ProbeDestination,
    RemoveDestination,
    CreateDestination,
    NextEntry,
    Append(Seq<char>),
    Flush,
    Done,
    Abort(IndexError),
}

/// The mathematical value of a [`BuildEvent`].
pub enum EventView {
    RootProbed(bool),
    DestinationProbed(bool),
    Succeeded,
    Failed,
    Walked(Option<EntryView>),
    WalkEnded,
}

impl View for BuildAction {
    type V = ActionView;

    open spec fn view(&self) -> ActionView {
        match self {
            BuildAction::ProbeRoot => ActionView::ProbeRoot,
            BuildAction::ProbeDestination => ActionView::ProbeDestination,
            BuildAction::RemoveDestination => ActionView::RemoveDestination,
            BuildAction::CreateDestination => ActionView::CreateDestination,
            BuildAction::NextEntry => ActionView::NextEntry,
            BuildAction::Append(line) => ActionView::Append(line@),
            BuildAction::Flush => ActionView::Flush,
            BuildAction::Done => ActionView::Done,
            BuildAction::Abort(error) => ActionView::Abort(*error),
        }
    }
}

impl View for BuildEvent {
    type V = EventView;

    open spec fn view(&self) -> EventView {
        match self {
            BuildEvent::RootProbed { is_directory } => EventView::RootProbed(*is_directory),
            BuildEvent::DestinationProbed { exists } => EventView::DestinationProbed(*exists),
            BuildEvent::Succeeded => EventView::Succeeded,
            BuildEvent::Failed => EventView::Failed,
            BuildEvent::Walked(item) => EventView::Walked(item@),
            BuildEvent::WalkEnded => EventView::WalkEnded,
        }
    }
}

/// The mathematical value of a [`BuildSession`]: what it was made for, what it waits for, and
/// what has happened so far.
pub struct SessionView {
    /// The layout of the index that is built.
    pub layout: Layout,
    /// Whether the index holds regular files only.
    pub files_only: bool,
    /// The action that the caller is to perform.
    pub pending: ActionView,
    /// The steps that the traversal has taken, in order.
    pub walked: Seq<Option<EntryView>>,
    /// What this build has put at the destination: `None` until the destination is created,
    /// then the lines appended to it, in order.
    pub written: Option<Seq<Seq<char>>>,
}

impl SessionView {
    /// A build that has done nothing yet.
    pub open spec fn start(layout: Layout, files_only: bool) -> SessionView {
        SessionView {
            layout,
            files_only,
            pending: ActionView::ProbeRoot,
            walked: Seq::empty(),
            written: None,
        }
    }

    /// The session with another action pending.
    pub open spec fn waiting_for(self, pending: ActionView) -> SessionView {
        SessionView { pending, ..self }
    }

    /// The session after the caller has reported `event`. An event that is no answer to the
    /// pending action changes nothing, and neither does any event once the build is complete
    /// or has failed.
    pub open spec fn after(self, event: EventView) -> SessionView {
        match (self.pending, event) {
            (ActionView::ProbeRoot, EventView::RootProbed(is_directory)) => self.waiting_for(
                if is_directory {
                    ActionView::ProbeDestination
                } else {
                    ActionView::Abort(IndexError::PathNotFound)
                },
            ),
            (ActionView::ProbeDestination, EventView::DestinationProbed(exists)) => {
                self.waiting_for(
                    if exists {
                        ActionView::RemoveDestination
                    } else {
                        ActionView::CreateDestination
                    },
                )
            },
            (ActionView::RemoveDestination, EventView::Succeeded) => self.waiting_for(
                ActionView::CreateDestination,
            ),
            (ActionView::RemoveDestination, EventView::Failed) => self.waiting_for(
                ActionView::Abort(IndexError::Io(IoStage::Remove)),
            ),
            (ActionView::CreateDestination, EventView::Succeeded) => SessionView {
                pending: ActionView::NextEntry,
                written: Some(Seq::empty()),
                ..self
            },
            (ActionView::CreateDestination, EventView::Failed) => self.waiting_for(
                ActionView::Abort(IndexError::Io(IoStage::Create)),
            ),
            (ActionView::NextEntry, EventView::Walked(item)) => SessionView {
                pending: match item_text(item, self.layout, self.files_only) {
                    Ok(Some(line)) => ActionView::Append(line),
                    Ok(None) => ActionView::NextEntry,
                    Err(error) => ActionView::Abort(error),
                },
                walked: self.walked.push(item),
                ..self
            },
            (ActionView::NextEntry, EventView::WalkEnded) => self.waiting_for(ActionView::Flush),
            (ActionView::Append(line), EventView::Succeeded) => SessionView {
                pending: ActionView::NextEntry,
                written: Some(self.written->0.push(line)),
                ..self
            },
            (ActionView::Append(_), EventView::Failed) => self.waiting_for(
                ActionView::Abort(IndexError::Io(IoStage::Write)),
            ),
            (ActionView::Flush, EventView::Succeeded) => self.waiting_for(ActionView::Done),
            (ActionView::Flush, EventView::Failed) => self.waiting_for(
                ActionView::Abort(IndexError::Io(IoStage::Write)),
            ),
            _ => self,
        }
    }

    /// What holds of a session at every moment. Before the destination is created, no step of
    /// the traversal was taken. From then on the destination holds the lines of the entries
    /// that were walked, in traversal order, but for the one line that is about to be
    /// appended. A build fails with a fatal error only; it fails for a missing root or a
    /// destination that cannot be replaced before anything is written, and for an entry
    /// exactly where the layout cannot write an entry that was walked.
    pub open spec fn is_consistent(self) -> bool {
        match self.pending {
            ActionView::ProbeRoot
            | ActionView::ProbeDestination
            | ActionView::RemoveDestination
            | ActionView::CreateDestination => self.written is None && self.walked.len() == 0,
            ActionView::NextEntry | ActionView::Flush | ActionView::Done => {
                &&& self.written matches Some(lines)
                &&& index_lines(self.walked, self.layout, self.files_only) == Ok::<
                    Seq<Seq<char>>,
                    IndexError,
                >(lines)
            },
            ActionView::Append(line) => {
                &&& self.written matches Some(lines)
                &&& index_lines(self.walked, self.layout, self.files_only) == Ok::<
                    Seq<Seq<char>>,
                    IndexError,
                >(lines.push(line))
            },
            ActionView::Abort(error) => error.is_fatal() && match error {
                IndexError::PathNotFound
                | IndexError::Io(IoStage::Remove)
                | IndexError::Io(IoStage::Create) => self.written is None && self.walked.len()
                    == 0,
                IndexError::Io(IoStage::Write) => self.written is Some,
                IndexError::MissingComponent => {
                    &&& self.written is Some
                    &&& index_lines(self.walked, self.layout, self.files_only) == Err::<
                        Seq<Seq<char>>,
                        IndexError,
                    >(error)
                },
                _ => false,
            },
        }
    }
}

/// Whatever the caller reports, the session stays consistent.
pub proof fn lemma_after_is_consistent(session: SessionView, event: EventView)
    requires
        session.is_consistent(),
    ensures
        session.after(event).is_consistent(),
{
    match (session.pending, event) {
        (ActionView::NextEntry, EventView::Walked(item)) => {
            assert(session.walked.push(item).drop_last() =~= session.walked);
        },
        _ => {},
    }
}

/// A build that is complete has replaced the destination by the index of its own traversal:
/// the destination holds the text of that index and nothing else.
pub proof fn lemma_complete_build_holds_its_traversal(session: SessionView)
    requires
        session.is_consistent(),
        session.pending is Done,
    ensures
        session.written is Some,
        index_text(session.walked, session.layout, session.files_only) == Ok::<
            Seq<char>,
            IndexError,
        >(join_lines(session.written->0)),
{
}

/// A step of the traversal that could not be read asks for the next step and changes nothing
/// else: the build goes on, and the destination is left as it is.
pub proof fn lemma_unreadable_step_goes_on(session: SessionView)
    requires
        session.pending is NextEntry,
    ensures
        session.after(EventView::Walked(None)).pending is NextEntry,
        session.after(EventView::Walked(None)).written == session.written,
{
}

/// A build in progress.
pub struct BuildSession {
    layout: Layout,
    files_only: bool,
    pending: BuildAction,
    walked: Ghost<Seq<Option<EntryView>>>,
    written: Ghost<Option<Seq<Seq<char>>>>,
}

impl View for BuildSession {
    type V = SessionView;

    closed spec fn view(&self) -> SessionView {
        SessionView {
            layout: self.layout,
            files_only: self.files_only,
            pending: self.pending@,
            walked: self.walked@,
            written: self.written@,
        }
    }
}

impl BuildSession {
    #[verifier::type_invariant]
    spec fn is_valid(self) -> bool {
        self@.is_consistent()
    }

    /// Starts a build of an index in the given layout; with `files_only`, of regular files
    /// only. The first thing to do is to look at the root.
    pub fn new(layout: Layout, files_only: bool) -> (session: BuildSession)
        ensures
            session@ == SessionView::start(layout, files_only),
    {
        BuildSession {
            layout,
            files_only,
            pending: BuildAction::ProbeRoot,
            walked: Ghost(Seq::empty()),
            written: Ghost(None),
        }
    }

    /// The action that the caller is to perform next.
    pub fn pending(&self) -> (action: &BuildAction)
        ensures
            action@ == self@.pending,
            self@.is_consistent(),
    {
        proof {
            use_type_invariant(self);
        }
        &self.pending
    }

    /// Takes the caller's report of what came of the pending action, and decides what is to
    /// be done next.
    pub fn advance(&mut self, event: BuildEvent)
        ensures
            final(self)@ == old(self)@.after(event@),
            final(self)@.is_consistent(),
    {
        proof {
            use_type_invariant(&*self);
            lemma_after_is_consistent(self@, event@);
        }
        let layout = self.layout;
        let files_only = self.files_only;
        let ghost mut walked = self.walked@;
        let ghost mut written = self.written@;
        let next: Option<BuildAction> = match (&self.pending, event) {
            (BuildAction::ProbeRoot, BuildEvent::RootProbed { is_directory }) => Some(
                if is_directory {
                    BuildAction::ProbeDestination
                } else {
                    BuildAction::Abort(IndexError::PathNotFound)
                },
            ),
            (BuildAction::ProbeDestination, BuildEvent::DestinationProbed { exists }) => Some(
                if exists {
                    BuildAction::RemoveDestination
                } else {
                    BuildAction::CreateDestination
                },
            ),
            (BuildAction::RemoveDestination, BuildEvent::Succeeded) => Some(
                BuildAction::CreateDestination,
            ),
            (BuildAction::RemoveDestination, BuildEvent::Failed) => Some(
                BuildAction::Abort(IndexError::Io(IoStage::Remove)),
            ),
            (BuildAction::CreateDestination, BuildEvent::Succeeded) => {
                proof {
                    written = Some(Seq::empty());
                }
                Some(BuildAction::NextEntry)
            },
            (BuildAction::CreateDestination, BuildEvent::Failed) => Some(
                BuildAction::Abort(IndexError::Io(IoStage::Create)),
            ),
            (BuildAction::NextEntry, BuildEvent::Walked(item)) => {
                proof {
                    walked = walked.push(item@);
                }
                match item_line(&item, layout, files_only) {
                    Ok(Some(line)) => Some(BuildAction::Append(line)),
                    Ok(None) => Some(BuildAction::NextEntry),
                    Err(error) => Some(BuildAction::Abort(error)),
                }
            },
            (BuildAction::NextEntry, BuildEvent::WalkEnded) => Some(BuildAction::Flush),
            (BuildAction::Append(line), BuildEvent::Succeeded) => {
                proof {
                    written = Some(written->0.push(line@));
                }
                Some(BuildAction::NextEntry)
            },
            (BuildAction::Append(_), BuildEvent::Failed) => Some(
                BuildAction::Abort(IndexError::Io(IoStage::Write)),
            ),
            (BuildAction::Flush, BuildEvent::Succeeded) => Some(BuildAction::Done),
            (BuildAction::Flush, BuildEvent::Failed) => Some(
                BuildAction::Abort(IndexError::Io(IoStage::Write)),
            ),
            _ => None,
        };
        match next {
            Some(pending) => {
                *self = BuildSession {
                    layout,
                    files_only,
                    pending,
                    walked: Ghost(walked),
                    written: Ghost(written),
                };
            },
            None => {},
        }
    }
}

} // verus!
