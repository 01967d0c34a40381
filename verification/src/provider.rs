//! The provider runtime: what a request carries, how handler results become
//! host statuses, and how a virtualization root is brought up.

use vstd::prelude::*;
use crate::conv::WStr;
use crate::filedata::{FileDataTransfer, TransferAction};
use crate::guid::{
    guid_bytes, guid_from_bytes, guid_to_bytes, lemma_guid_round_trip, spec_guid_from_bytes, Guid,
};
use crate::status::{
    failed, StatusCode, E_ACCESS_DENIED, E_FILE_NOT_FOUND, E_INVALIDARG, E_OUTOFMEMORY,
    GENERIC_FAILURE,
};
use crate::sys;

verus! {

/// What can go wrong in the provider.
#[derive(Clone, Copy, Debug, PartialEq, Eq)]
pub enum ProviderError {
    /// The host refused to mark the directory as a virtualization root.
    RegistrationFailed(StatusCode),
    /// The host refused to start virtualizing.
    StartFailed(StatusCode),
    /// The root exists but its identity marker cannot be read as one.
    CorruptRoot,
    /// The enumeration session is not known, or has ended.
    InvalidSession,
    /// The backing store does not hold the path.
    NotFound,
    /// The host could not provide a buffer.
    OutOfMemory,
    /// Policy refuses the operation.
    AccessDenied,
    /// Any other failure.
    Unhandled,
}

/// The status that names `error` to the host. Errors that the host has no
/// name for share the generic failure status.
pub open spec fn spec_error_status(error: ProviderError) -> StatusCode {
    match error {
        ProviderError::RegistrationFailed(code) => code,
        ProviderError::StartFailed(code) => code,
        ProviderError::CorruptRoot => GENERIC_FAILURE,
        ProviderError::InvalidSession => E_INVALIDARG,
        ProviderError::NotFound => E_FILE_NOT_FOUND,
        ProviderError::OutOfMemory => E_OUTOFMEMORY,
        ProviderError::AccessDenied => E_ACCESS_DENIED,
        ProviderError::Unhandled => GENERIC_FAILURE,
    }
}

impl ProviderError {
    /// The status that names this error to the host.
    pub fn status(&self) -> (status: StatusCode)
        ensures
            status == spec_error_status(*self),
    {
        match self {
            ProviderError::RegistrationFailed(code) => *code,
            ProviderError::StartFailed(code) => *code,
            ProviderError::CorruptRoot => GENERIC_FAILURE,
            ProviderError::InvalidSession => E_INVALIDARG,
            ProviderError::NotFound => E_FILE_NOT_FOUND,
            ProviderError::OutOfMemory => E_OUTOFMEMORY,
            ProviderError::AccessDenied => E_ACCESS_DENIED,
            ProviderError::Unhandled => GENERIC_FAILURE,
        }
    }
}

/// The status that a handler's result becomes at the native boundary: a
/// status that the handler chose passes through unchanged, whatever it is;
/// an error, whichever, becomes the generic failure status, which the host
/// reads as failure.
pub open spec fn spec_status_from_result(result: Result<StatusCode, ProviderError>) -> StatusCode {
    match result {
        Ok(status) => status,
        Err(_) => GENERIC_FAILURE,
    }
}

/// Maps a handler's result to the status handed back to the host.
pub fn status_from_result(result: Result<StatusCode, ProviderError>) -> (status: StatusCode)
    ensures
        status == spec_status_from_result(result),
        result is Ok ==> status == result->Ok_0,
        result is Err ==> status == GENERIC_FAILURE && failed(status),
{
    match result {
        Ok(status) => status,
        Err(_) => GENERIC_FAILURE,
    }
}

/// The handle that the host issues when virtualization starts. Every
/// write-back to the host names it.
#[derive(Clone, Copy, Debug, PartialEq, Eq)]
pub struct InstanceContext {
    pub handle: usize,
}

/// What the host says about one callback. The values are copies: nothing
/// of the host's memory is kept past the callback.
#[derive(Debug)]
pub struct CallbackRequest {
    /// The path the request is about, relative to the virtualization root.
    pub file_path_name: WStr,
    /// The image of the process that caused the request.
    pub triggering_process_image_file_name: WStr,
    /// The host's flags for this callback.
    pub flags: u32,
}

impl CallbackRequest {
    /// Whether the host asks for the enumeration to start over.
    pub open spec fn spec_restart_scan(&self) -> bool {
        self.flags & sys::PRJ_CB_DATA_FLAG_ENUM_RESTART_SCAN != 0
    }

    /// Whether the host asks for the enumeration to start over.
    #[verifier::when_used_as_spec(spec_restart_scan)]
    pub fn restart_scan(&self) -> (b: bool)
        ensures
            b == self.spec_restart_scan(),
    {
        self.flags & sys::PRJ_CB_DATA_FLAG_ENUM_RESTART_SCAN != 0
    }
}

/// The buffer of the host that takes the entries of a directory listing,
/// by its handle.
#[derive(Clone, Copy, Debug, PartialEq, Eq)]
pub struct DirEntryBufferHandle {
    pub handle: usize,
}

/// A file system handler: it answers the callbacks of the host.
///
/// A handler may be called before the host handle is delivered, and must
/// tolerate that.
pub trait ProviderT: Sized {
    /// Takes the handle that the host issued when virtualization started.
    fn set_context(&mut self, context: InstanceContext);

    /// The host opens the enumeration `enumeration_id` of the directory
    /// that the request names.
    fn start_dir_enum(&mut self, request: &CallbackRequest, enumeration_id: &Guid) -> (r: Result<
        StatusCode,
        ProviderError,
    >);

    /// The host closes the enumeration `enumeration_id`.
    fn end_dir_enum(&mut self, request: &CallbackRequest, enumeration_id: &Guid) -> (r: Result<
        StatusCode,
        ProviderError,
    >);

    /// The host asks for the next entries of the enumeration
    /// `enumeration_id`, as many as fit into the buffer that it names.
    fn get_dir_enum(
        &mut self,
        request: &CallbackRequest,
        enumeration_id: &Guid,
        search_expression: &WStr,
        dir_entry_buffer_handle: DirEntryBufferHandle,
    ) -> (r: Result<StatusCode, ProviderError>);

    /// The host asks for the metadata of the path that the request names.
    fn get_placeholder_info(&self, request: &CallbackRequest) -> (r: Result<
        StatusCode,
        ProviderError,
    >);

    /// The host asks for `length` bytes from `offset` on of the file
    /// that the request names. The answer is how the request is to be
    /// served, and what to do first.
    fn get_file_data(&self, request: &CallbackRequest, offset: u64, length: u32) -> (r: (
        FileDataTransfer,
        TransferAction,
    ));

    /// The host tells of something that happens to the path that the
    /// request names, or asks whether it may happen.
    fn notify(
        &self,
        request: &CallbackRequest,
        is_directory: bool,
        notification: sys::PrjNotification,
        destination_file_name: &WStr,
    ) -> (r: Result<StatusCode, ProviderError>);

    /// The host asks whether the path that the request names exists.
    fn query_file_name(&self, request: &CallbackRequest) -> (r: Result<StatusCode, ProviderError>);

    /// The host has given up on a request.
    fn cancel_command(&self, request: &CallbackRequest) -> (r: Result<(), ProviderError>);
}

/// The provider as the host sees it: a handler, and the mapping of what
/// the handler answers to host statuses.
pub struct Provider<T: ProviderT> {
    inner: T,
}

impl<T: ProviderT> Provider<T> {
    /// The handler.
    pub closed spec fn handler(&self) -> T {
        self.inner
    }

    /// A provider around `inner`. It can answer callbacks at once; the
    /// host handle is delivered when the host has issued it.
    pub fn new(inner: T) -> (provider: Provider<T>)
        ensures
            provider.handler() == inner,
    {
        Provider { inner }
    }

    /// The handler.
    pub fn inner(&self) -> (inner: &T)
        ensures
            *inner == self.handler(),
    {
        &self.inner
    }

    /// Delivers the handle that the host issued to the handler.
    pub fn set_context(&mut self, context: InstanceContext)
        ensures
            exists|m: &mut T|
                #[trigger] call_ensures(T::set_context, (m, context), ()) && *m
                    == old(self).handler() && *final(m) == final(self).handler(),
    {
        self.inner.set_context(context)
    }

    /// Answers the host's opening of an enumeration: with the status of
    /// what the handler answers, and with the handler's new state.
    pub fn start_dir_enum(&mut self, request: &CallbackRequest, enumeration_id: &Guid) -> (status:
        StatusCode)
        ensures
            exists|m: &mut T, r: Result<StatusCode, ProviderError>|
                #[trigger] call_ensures(T::start_dir_enum, (m, request, enumeration_id), r) && *m
                    == old(self).handler() && *final(m) == final(self).handler() && status
                    == spec_status_from_result(r),
    {
        status_from_result(self.inner.start_dir_enum(request, enumeration_id))
    }

    /// Answers the host's closing of an enumeration: with the status of
    /// what the handler answers, and with the handler's new state.
    pub fn end_dir_enum(&mut self, request: &CallbackRequest, enumeration_id: &Guid) -> (status:
        StatusCode)
        ensures
            exists|m: &mut T, r: Result<StatusCode, ProviderError>|
                #[trigger] call_ensures(T::end_dir_enum, (m, request, enumeration_id), r) && *m
                    == old(self).handler() && *final(m) == final(self).handler() && status
                    == spec_status_from_result(r),
    {
        status_from_result(self.inner.end_dir_enum(request, enumeration_id))
    }

    /// Answers the host's request for the next entries of an
    /// enumeration: with the status of what the handler answers, and with
    /// the handler's new state.
    pub fn get_dir_enum(
        &mut self,
        request: &CallbackRequest,
        enumeration_id: &Guid,
        search_expression: &WStr,
        dir_entry_buffer_handle: DirEntryBufferHandle,
    ) -> (status: StatusCode)
        ensures
            exists|m: &mut T, r: Result<StatusCode, ProviderError>|
                #[trigger] call_ensures(
                    T::get_dir_enum,
                    (m, request, enumeration_id, search_expression, dir_entry_buffer_handle),
                    r,
                ) && *m == old(self).handler() && *final(m) == final(self).handler() && status
                    == spec_status_from_result(r),
    {
        status_from_result(
            self.inner.get_dir_enum(
                request,
                enumeration_id,
                search_expression,
                dir_entry_buffer_handle,
            ),
        )
    }

    /// Answers the host's request for metadata: with the status of what
    /// the handler answers.
    pub fn get_placeholder_info(&self, request: &CallbackRequest) -> (status: StatusCode)
        ensures
            exists|r: Result<StatusCode, ProviderError>|
                #[trigger] call_ensures(T::get_placeholder_info, (&self.handler(), request), r)
                    && status == spec_status_from_result(r),
    {
        status_from_result(self.inner.get_placeholder_info(request))
    }

    /// Begins to serve the host's request for file data as the handler
    /// says. The answer of the request, once it is served, becomes a
    /// status as any other answer does.
    pub fn get_file_data(&self, request: &CallbackRequest, offset: u64, length: u32) -> (r: (
        FileDataTransfer,
        TransferAction,
    ))
        ensures
            call_ensures(T::get_file_data, (&self.handler(), request, offset, length), r),
    {
        self.inner.get_file_data(request, offset, length)
    }

    /// Answers a notification of the host: with the status of what the
    /// handler answers.
    pub fn notify(
        &self,
        request: &CallbackRequest,
        is_directory: bool,
        notification: sys::PrjNotification,
        destination_file_name: &WStr,
    ) -> (status: StatusCode)
        ensures
            exists|r: Result<StatusCode, ProviderError>|
                #[trigger] call_ensures(
                    T::notify,
                    (&self.handler(), request, is_directory, notification, destination_file_name),
                    r,
                ) && status == spec_status_from_result(r),
    {
        status_from_result(
            self.inner.notify(request, is_directory, notification, destination_file_name),
        )
    }

    /// Answers the host's question whether a path exists: with the
    /// status of what the handler answers.
    pub fn query_file_name(&self, request: &CallbackRequest) -> (status: StatusCode)
        ensures
            exists|r: Result<StatusCode, ProviderError>|
                #[trigger] call_ensures(T::query_file_name, (&self.handler(), request), r)
                    && status == spec_status_from_result(r),
    {
        status_from_result(self.inner.query_file_name(request))
    }

    /// Tells the handler that the host has given up on a request. What
    /// the handler answers is dropped: nothing goes back to the host.
    pub fn cancel_command(&self, request: &CallbackRequest)
        ensures
            exists|r: Result<(), ProviderError>| #[trigger]
                call_ensures(T::cancel_command, (&self.handler(), request), r),
    {
        let _ = self.inner.cancel_command(request);
    }
}

/// The name of the hidden file in a virtualization root that stores the
/// root's identity.
pub const GUID_FILE: &'static str = ".regfsId";

/// How far start-up has come.
#[derive(Clone, Copy, Debug, PartialEq, Eq)]
pub enum StartupPhase {
    /// It is being looked up whether the root is there.
    Probing,
    /// The identity marker of a root that is there is being read.
    ReadingMarker,
    /// An identity for a new root is being made.
    MakingIdentity,
    /// The root directory is being created.
    CreatingDirectory,
    /// The identity marker of the new root is being written.
    WritingMarker,
    /// The host is being asked to mark the new directory as a root.
    Marking,
    /// The new root is being undone: its marker is being removed.
    RemovingMarker,
    /// The new root is being undone: its directory is being removed.
    RemovingDirectory,
    /// The host is being asked to start virtualizing.
    Starting,
    /// The provider runs.
    Running,
    /// Start-up has failed.
    Failed,
}

/// What the embedding program is to do next during start-up.
#[derive(Debug)]
pub enum StartupAction {
    /// Look up whether the root path is there and is a directory.
    Probe,
    /// Read the identity marker of the root.
    ReadMarker,
    /// Make a new identity for the root.
    MakeIdentity,
    /// Create the root directory.
    CreateDirectory,
    /// Write these bytes as the identity marker of the root.
    WriteMarker(Vec<u8>),
    /// Ask the host to mark the root directory as a virtualization root
    /// with this identity.
    MarkAsPlaceholder(Guid),
    /// Remove the identity marker, ignoring failure.
    RemoveMarker,
    /// Remove the root directory, ignoring failure.
    RemoveDirectory,
    /// Ask the host to start virtualizing the root.
    StartVirtualizing,
    /// Hand the handler this host handle; the provider runs.
    Ready(InstanceContext),
    /// Give up with this error.
    Fail(ProviderError),
}

/// What came of the last start-up action.
#[derive(Debug)]
pub enum StartupEvent {
    /// Whether the root path is there and is a directory.
    Probed(bool),
    /// The bytes of the identity marker, if it could be read.
    MarkerRead(Option<Vec<u8>>),
    /// The identity that was made.
    IdentityMade(Guid),
    /// Whether the root directory was created.
    DirectoryCreated(bool),
    /// Whether the identity marker was written.
    MarkerWritten(bool),
    /// The host's answer to marking the root.
    Marked(StatusCode),
    /// The identity marker has been dealt with.
    MarkerRemoved,
    /// The root directory has been dealt with.
    DirectoryRemoved,
    /// The host's answer to starting, and the handle it issued.
    Started(StatusCode, InstanceContext),
}

/// What a start-up action says.
pub enum StartupActionView {
    Probe,
    ReadMarker,
    MakeIdentity,
    CreateDirectory,
    WriteMarker(Seq<u8>),
    MarkAsPlaceholder(Guid),
    RemoveMarker,
    RemoveDirectory,
    StartVirtualizing,
    Ready(InstanceContext),
    Fail(ProviderError),
}

/// What a start-up event says.
pub enum StartupEventView {
    Probed(bool),
    MarkerRead(Option<Seq<u8>>),
    IdentityMade(Guid),
    DirectoryCreated(bool),
    MarkerWritten(bool),
    Marked(StatusCode),
    MarkerRemoved,
    DirectoryRemoved,
    Started(StatusCode, InstanceContext),
}

impl View for StartupAction {
    type V = StartupActionView;

    open spec fn view(&self) -> StartupActionView {
        match *self {
            StartupAction::Probe => StartupActionView::Probe,
            StartupAction::ReadMarker => StartupActionView::ReadMarker,
            StartupAction::MakeIdentity => StartupActionView::MakeIdentity,
            StartupAction::CreateDirectory => StartupActionView::CreateDirectory,
            StartupAction::WriteMarker(bytes) => StartupActionView::WriteMarker(bytes@),
            StartupAction::MarkAsPlaceholder(guid) => StartupActionView::MarkAsPlaceholder(guid),
            StartupAction::RemoveMarker => StartupActionView::RemoveMarker,
            StartupAction::RemoveDirectory => StartupActionView::RemoveDirectory,
            StartupAction::StartVirtualizing => StartupActionView::StartVirtualizing,
            StartupAction::Ready(context) => StartupActionView::Ready(context),
            StartupAction::Fail(error) => StartupActionView::Fail(error),
        }
    }
}

impl View for StartupEvent {
    type V = StartupEventView;

    open spec fn view(&self) -> StartupEventView {
        match *self {
            StartupEvent::Probed(is_directory) => StartupEventView::Probed(is_directory),
            StartupEvent::MarkerRead(Some(bytes)) => StartupEventView::MarkerRead(Some(bytes@)),
            StartupEvent::MarkerRead(None) => StartupEventView::MarkerRead(None),
            StartupEvent::IdentityMade(identity) => StartupEventView::IdentityMade(identity),
            StartupEvent::DirectoryCreated(done) => StartupEventView::DirectoryCreated(done),
            StartupEvent::MarkerWritten(done) => StartupEventView::MarkerWritten(done),
            StartupEvent::Marked(status) => StartupEventView::Marked(status),
            StartupEvent::MarkerRemoved => StartupEventView::MarkerRemoved,
            StartupEvent::DirectoryRemoved => StartupEventView::DirectoryRemoved,
            StartupEvent::Started(status, context) => StartupEventView::Started(status, context),
        }
    }
}

/// The start-up of a provider: bringing up the virtualization root, then
/// starting to virtualize it.
#[derive(Clone, Copy, Debug, PartialEq, Eq)]
pub struct Startup {
    pub phase: StartupPhase,
    /// The identity that was made for a new root, once it was made. None
    /// is made for a root that is there.
    pub fresh: Option<Guid>,
    /// The identity of the root, once the root is known to be usable.
    pub identity: Option<Guid>,
    /// Why start-up fails, once that is known.
    pub failure: Option<ProviderError>,
    /// The handle the host issued, once the provider runs.
    pub context: Option<InstanceContext>,
    /// Whether a root directory that start-up created is on disk.
    pub directory_created: bool,
    /// Whether an identity marker that start-up wrote, in whole or in
    /// part, may be on disk.
    pub marker_written: bool,
}

/// Whether `event` is what can come of the action that led to `phase`.
pub open spec fn startup_expects(phase: StartupPhase, event: StartupEventView) -> bool {
    match phase {
        StartupPhase::Probing => event is Probed,
        StartupPhase::ReadingMarker => event is MarkerRead,
        StartupPhase::MakingIdentity => event is IdentityMade,
        StartupPhase::CreatingDirectory => event is DirectoryCreated,
        StartupPhase::WritingMarker => event is MarkerWritten,
        StartupPhase::Marking => event is Marked,
        StartupPhase::RemovingMarker => event is MarkerRemoved,
        StartupPhase::RemovingDirectory => event is DirectoryRemoved,
        StartupPhase::Starting => event is Started,
        StartupPhase::Running => false,
        StartupPhase::Failed => false,
    }
}

/// Start-up as it begins.
pub open spec fn startup_begin() -> Startup {
    Startup {
        phase: StartupPhase::Probing,
        fresh: None,
        identity: None,
        failure: None,
        context: None,
        directory_created: false,
        marker_written: false,
    }
}

/// Start-up given up with `error`.
pub open spec fn startup_failed(s: Startup, error: ProviderError) -> (Startup, StartupActionView) {
    (
        Startup { phase: StartupPhase::Failed, failure: Some(error), ..s },
        StartupActionView::Fail(error),
    )
}

/// Start-up beginning to undo a new root whose marker may be on disk.
pub open spec fn startup_undo_marker(s: Startup, error: ProviderError) -> (
    Startup,
    StartupActionView,
) {
    (
        Startup {
            phase: StartupPhase::RemovingMarker,
            marker_written: true,
            failure: Some(error),
            ..s
        },
        StartupActionView::RemoveMarker,
    )
}

/// The next state and action of start-up.
///
/// A root that is there is taken as it is: its marker must hold an
/// identity, else the root is corrupt. For a root that is not there, and
/// only for such a root, an identity is made; then the root is created,
/// given that identity in its marker, and marked with the host. If the marker cannot be written or the host refuses, what was
/// created is removed again, marker first, before start-up fails. With a
/// usable root the host is asked to start; the provider runs if it
/// agrees, and start-up fails with its answer if it does not.
pub open spec fn startup_step(s: Startup, event: StartupEventView) -> (
    Startup,
    StartupActionView,
) {
    match (s.phase, event) {
        (StartupPhase::Probing, StartupEventView::Probed(true)) => (
            Startup { phase: StartupPhase::ReadingMarker, ..s },
            StartupActionView::ReadMarker,
        ),
        (StartupPhase::Probing, StartupEventView::Probed(false)) => (
            Startup { phase: StartupPhase::MakingIdentity, ..s },
            StartupActionView::MakeIdentity,
        ),
        (StartupPhase::MakingIdentity, StartupEventView::IdentityMade(identity)) => (
            Startup { phase: StartupPhase::CreatingDirectory, fresh: Some(identity), ..s },
            StartupActionView::CreateDirectory,
        ),
        (StartupPhase::ReadingMarker, StartupEventView::MarkerRead(Some(bytes))) => {
            match spec_guid_from_bytes(bytes) {
                Ok(identity) => (
                    Startup { phase: StartupPhase::Starting, identity: Some(identity), ..s },
                    StartupActionView::StartVirtualizing,
                ),
                Err(_) => startup_failed(s, ProviderError::CorruptRoot),
            }
        },
        (StartupPhase::ReadingMarker, StartupEventView::MarkerRead(None)) => startup_failed(
            s,
            ProviderError::CorruptRoot,
        ),
        (StartupPhase::CreatingDirectory, StartupEventView::DirectoryCreated(true)) => {
            match s.fresh {
                Some(fresh) => (
                    Startup { phase: StartupPhase::WritingMarker, directory_created: true, ..s },
                    StartupActionView::WriteMarker(guid_bytes(fresh)),
                ),
                None => (
                    Startup {
                        phase: StartupPhase::RemovingDirectory,
                        directory_created: true,
                        failure: Some(ProviderError::Unhandled),
                        ..s
                    },
                    StartupActionView::RemoveDirectory,
                ),
            }
        },
        (StartupPhase::CreatingDirectory, StartupEventView::DirectoryCreated(false)) => {
            startup_failed(s, ProviderError::Unhandled)
        },
        (StartupPhase::WritingMarker, StartupEventView::MarkerWritten(true)) => {
            match s.fresh {
                Some(fresh) => (
                    Startup { phase: StartupPhase::Marking, marker_written: true, ..s },
                    StartupActionView::MarkAsPlaceholder(fresh),
                ),
                None => startup_undo_marker(s, ProviderError::Unhandled),
            }
        },
        (StartupPhase::WritingMarker, StartupEventView::MarkerWritten(false)) => {
            startup_undo_marker(s, ProviderError::Unhandled)
        },
        (StartupPhase::Marking, StartupEventView::Marked(status)) => {
            if failed(status) {
                startup_undo_marker(s, ProviderError::RegistrationFailed(status))
            } else {
                match s.fresh {
                    Some(fresh) => (
                        Startup { phase: StartupPhase::Starting, identity: Some(fresh), ..s },
                        StartupActionView::StartVirtualizing,
                    ),
                    None => startup_undo_marker(s, ProviderError::Unhandled),
                }
            }
        },
        (StartupPhase::RemovingMarker, StartupEventView::MarkerRemoved) => (
            Startup { phase: StartupPhase::RemovingDirectory, marker_written: false, ..s },
            StartupActionView::RemoveDirectory,
        ),
        (StartupPhase::RemovingDirectory, StartupEventView::DirectoryRemoved) => {
            let error = match s.failure {
                Some(error) => error,
                None => ProviderError::Unhandled,
            };
            startup_failed(Startup { directory_created: false, ..s }, error)
        },
        (StartupPhase::Starting, StartupEventView::Started(status, context)) => {
            if failed(status) {
                startup_failed(s, ProviderError::StartFailed(status))
            } else {
                (
                    Startup { phase: StartupPhase::Running, context: Some(context), ..s },
                    StartupActionView::Ready(context),
                )
            }
        },
        _ => (s, StartupActionView::Fail(ProviderError::Unhandled)),
    }
}

impl Startup {
    /// Begins start-up and says what to do first.
    pub fn begin() -> (r: (Startup, StartupAction))
        ensures
            r.0 == startup_begin(),
            r.1@ == StartupActionView::Probe,
    {
        (
            Startup {
                phase: StartupPhase::Probing,
                fresh: None,
                identity: None,
                failure: None,
                context: None,
                directory_created: false,
                marker_written: false,
            },
            StartupAction::Probe,
        )
    }

    /// Whether start-up has ended, by running or by failing.
    pub fn is_over(&self) -> (b: bool)
        ensures
            b == (self.phase is Running || self.phase is Failed),
    {
        match self.phase {
            StartupPhase::Running => true,
            StartupPhase::Failed => true,
            _ => false,
        }
    }

    /// Whether `event` is what can come of the last action.
    pub fn expects(&self, event: &StartupEvent) -> (b: bool)
        ensures
            b == startup_expects(self.phase, event@),
    {
        match (self.phase, event) {
            (StartupPhase::Probing, StartupEvent::Probed(_)) => true,
            (StartupPhase::ReadingMarker, StartupEvent::MarkerRead(_)) => true,
            (StartupPhase::MakingIdentity, StartupEvent::IdentityMade(_)) => true,
            (StartupPhase::CreatingDirectory, StartupEvent::DirectoryCreated(_)) => true,
            (StartupPhase::WritingMarker, StartupEvent::MarkerWritten(_)) => true,
            (StartupPhase::Marking, StartupEvent::Marked(_)) => true,
            (StartupPhase::RemovingMarker, StartupEvent::MarkerRemoved) => true,
            (StartupPhase::RemovingDirectory, StartupEvent::DirectoryRemoved) => true,
            (StartupPhase::Starting, StartupEvent::Started(_, _)) => true,
            _ => false,
        }
    }

    /// Gives up with `error`.
    fn fail(&mut self, error: ProviderError) -> (action: StartupAction)
        ensures
            (*final(self), action@) == startup_failed(*old(self), error),
    {
        self.phase = StartupPhase::Failed;
        self.failure = Some(error);
        StartupAction::Fail(error)
    }

    /// Begins to undo a new root whose marker may be on disk.
    fn undo_marker(&mut self, error: ProviderError) -> (action: StartupAction)
        ensures
            (*final(self), action@) == startup_undo_marker(*old(self), error),
    {
        self.phase = StartupPhase::RemovingMarker;
        self.marker_written = true;
        self.failure = Some(error);
        StartupAction::RemoveMarker
    }

    /// Takes what came of the last action and says what to do next.
    pub fn step(&mut self, event: StartupEvent) -> (action: StartupAction)
        requires
            startup_expects(old(self).phase, event@),
        ensures
            (*final(self), action@) == startup_step(*old(self), event@),
    {
        match (self.phase, event) {
            (StartupPhase::Probing, StartupEvent::Probed(true)) => {
                self.phase = StartupPhase::ReadingMarker;
                StartupAction::ReadMarker
            },
            (StartupPhase::Probing, StartupEvent::Probed(false)) => {
                self.phase = StartupPhase::MakingIdentity;
                StartupAction::MakeIdentity
            },
            (StartupPhase::MakingIdentity, StartupEvent::IdentityMade(identity)) => {
                self.phase = StartupPhase::CreatingDirectory;
                self.fresh = Some(identity);
                StartupAction::CreateDirectory
            },
            (StartupPhase::ReadingMarker, StartupEvent::MarkerRead(Some(bytes))) => {
                match guid_from_bytes(bytes) {
                    Ok(identity) => {
                        self.phase = StartupPhase::Starting;
                        self.identity = Some(identity);
                        StartupAction::StartVirtualizing
                    },
                    Err(_) => self.fail(ProviderError::CorruptRoot),
                }
            },
            (StartupPhase::ReadingMarker, StartupEvent::MarkerRead(None)) => self.fail(
                ProviderError::CorruptRoot,
            ),
            (StartupPhase::CreatingDirectory, StartupEvent::DirectoryCreated(true)) => {
                self.directory_created = true;
                match self.fresh {
                    Some(fresh) => {
                        self.phase = StartupPhase::WritingMarker;
                        StartupAction::WriteMarker(guid_to_bytes(&fresh))
                    },
                    None => {
                        self.phase = StartupPhase::RemovingDirectory;
                        self.failure = Some(ProviderError::Unhandled);
                        StartupAction::RemoveDirectory
                    },
                }
            },
            (StartupPhase::CreatingDirectory, StartupEvent::DirectoryCreated(false)) => self.fail(
                ProviderError::Unhandled,
            ),
            (StartupPhase::WritingMarker, StartupEvent::MarkerWritten(true)) => {
                match self.fresh {
                    Some(fresh) => {
                        self.phase = StartupPhase::Marking;
                        self.marker_written = true;
                        StartupAction::MarkAsPlaceholder(fresh)
                    },
                    None => self.undo_marker(ProviderError::Unhandled),
                }
            },
            (StartupPhase::WritingMarker, StartupEvent::MarkerWritten(false)) => self.undo_marker(
                ProviderError::Unhandled,
            ),
            (StartupPhase::Marking, StartupEvent::Marked(status)) => {
                if failed(status) {
                    self.undo_marker(ProviderError::RegistrationFailed(status))
                } else {
                    match self.fresh {
                        Some(fresh) => {
                            self.phase = StartupPhase::Starting;
                            self.identity = Some(fresh);
                            StartupAction::StartVirtualizing
                        },
                        None => self.undo_marker(ProviderError::Unhandled),
                    }
                }
            },
            (StartupPhase::RemovingMarker, StartupEvent::MarkerRemoved) => {
                self.phase = StartupPhase::RemovingDirectory;
                self.marker_written = false;
                StartupAction::RemoveDirectory
            },
            (StartupPhase::RemovingDirectory, StartupEvent::DirectoryRemoved) => {
                let error = match self.failure {
                    Some(error) => error,
                    None => ProviderError::Unhandled,
                };
                self.directory_created = false;
                self.fail(error)
            },
            (StartupPhase::Starting, StartupEvent::Started(status, context)) => {
                if failed(status) {
                    self.fail(ProviderError::StartFailed(status))
                } else {
                    self.phase = StartupPhase::Running;
                    self.context = Some(context);
                    StartupAction::Ready(context)
                }
            },
            _ => StartupAction::Fail(ProviderError::Unhandled),
        }
    }
}

/// Whether what `s` records fits its phase: what start-up has put on
/// disk, and what it knows of the root's identity and of its failure.
pub open spec fn startup_consistent(s: Startup) -> bool {
    &&& s.phase is Running <==> s.context is Some
    &&& s.phase is Starting || s.phase is Running || (s.phase is Failed && s.failure is Some
        && s.failure->0 is StartFailed) <==> s.identity is Some
    &&& s.phase is RemovingMarker || s.phase is RemovingDirectory || s.phase is Failed
        <==> s.failure is Some
    &&& s.phase is RemovingMarker || s.phase is RemovingDirectory ==> !(s.failure->0 is StartFailed)
    &&& s.phase is Probing || s.phase is ReadingMarker || s.phase is MakingIdentity
        ==> s.fresh is None
    &&& s.phase is CreatingDirectory || s.phase is WritingMarker || s.phase is Marking
        ==> s.fresh is Some
    &&& s.directory_created ==> s.fresh is Some
    &&& s.identity is Some ==> s.directory_created == s.marker_written
    &&& s.identity is Some && s.directory_created ==> s.identity == s.fresh
    &&& match s.phase {
        StartupPhase::Probing
        | StartupPhase::ReadingMarker
        | StartupPhase::MakingIdentity
        | StartupPhase::CreatingDirectory => !s.directory_created && !s.marker_written,
        StartupPhase::WritingMarker => s.directory_created && !s.marker_written,
        StartupPhase::Marking => s.directory_created && s.marker_written,
        StartupPhase::RemovingMarker => s.directory_created && s.marker_written,
        StartupPhase::RemovingDirectory => s.directory_created && !s.marker_written,
        StartupPhase::Starting | StartupPhase::Running => true,
        StartupPhase::Failed => s.identity is None ==> !s.directory_created && !s.marker_written,
    }
}

/// Whether each event of `events`, in turn, is what start-up expects.
pub open spec fn startup_run_valid(s: Startup, events: Seq<StartupEventView>) -> bool
    decreases events.len(),
{
    events.len() == 0 || (startup_expects(s.phase, events[0]) && startup_run_valid(
        startup_step(s, events[0]).0,
        events.drop_first(),
    ))
}

/// Start-up after the events of `events`, in turn.
pub open spec fn startup_run_end(s: Startup, events: Seq<StartupEventView>) -> Startup
    decreases events.len(),
{
    if events.len() == 0 {
        s
    } else {
        startup_run_end(startup_step(s, events[0]).0, events.drop_first())
    }
}

/// A step keeps start-up consistent; it ends start-up exactly when it
/// says that the provider is ready or that start-up fails, and the error
/// it names then is the failure recorded.
pub proof fn lemma_startup_step_consistent(s: Startup, event: StartupEventView)
    requires
        startup_consistent(s),
        startup_expects(s.phase, event),
    ensures
        startup_consistent(startup_step(s, event).0),
        s.fresh is Some ==> startup_step(s, event).0.fresh == s.fresh,
        startup_step(s, event).0.fresh is Some && s.fresh is None ==> event is IdentityMade,
        startup_step(s, event).1 is Fail <==> startup_step(s, event).0.phase is Failed,
        startup_step(s, event).1 is Ready <==> startup_step(s, event).0.phase is Running,
        startup_step(s, event).1 is Fail ==> startup_step(s, event).0.failure == Some(
            startup_step(s, event).1->Fail_0,
        ),
{
}

/// Every run of start-up from its beginning stays consistent.
pub proof fn lemma_startup_run_consistent(s: Startup, events: Seq<StartupEventView>)
    requires
        startup_consistent(s),
        startup_run_valid(s, events),
    ensures
        startup_consistent(startup_run_end(s, events)),
        s.fresh is Some ==> startup_run_end(s, events).fresh == s.fresh,
    decreases events.len(),
{
    if events.len() > 0 {
        lemma_startup_step_consistent(s, events[0]);
        lemma_startup_run_consistent(startup_step(s, events[0]).0, events.drop_first());
    }
}

/// Start-up is all or nothing. When it ends with the provider running,
/// the root is usable and its identity is known. When it fails before the
/// host was asked to start, nothing that it created is left on disk:
/// neither directory nor marker. When the host refuses to start, the root
/// is left as a usable root. An identity is made only for a root that
/// start-up creates.
pub proof fn lemma_startup_is_atomic(events: Seq<StartupEventView>)
    requires
        startup_run_valid(startup_begin(), events),
    ensures
        ({
            let end = startup_run_end(startup_begin(), events);
            &&& end.phase is Running ==> end.identity is Some && end.context is Some
            &&& end.phase is Failed ==> end.failure is Some
            &&& end.phase is Failed && !(end.failure->0 is StartFailed) ==> !end.directory_created
                && !end.marker_written
            &&& end.phase is Failed && end.failure->0 is StartFailed ==> end.identity is Some
                && end.directory_created == end.marker_written
            &&& end.directory_created ==> end.fresh is Some
            &&& end.phase is ReadingMarker ==> end.fresh is None
        }),
{
    lemma_startup_run_consistent(startup_begin(), events);
}

/// A root that is there gets no new identity: from the reading of its
/// marker on, no step asks for one, and none is recorded.
pub proof fn lemma_existing_root_keeps_its_identity(s: Startup, events: Seq<StartupEventView>)
    requires
        startup_consistent(s),
        s.phase is ReadingMarker,
        startup_run_valid(s, events),
    ensures
        startup_run_end(s, events).fresh is None,
        !startup_run_end(s, events).directory_created,
        !startup_run_end(s, events).marker_written,
        events.len() > 0 ==> !(startup_step(s, events[0]).1 is MakeIdentity),
    decreases events.len(),
{
    if events.len() > 0 {
        let next = startup_step(s, events[0]).0;
        lemma_startup_step_consistent(s, events[0]);
        lemma_untouched_root_stays_untouched(next, events.drop_first());
    }
}

/// Once the root is known to be usable or start-up has failed without
/// making an identity, nothing more is made or put on disk.
proof fn lemma_untouched_root_stays_untouched(s: Startup, events: Seq<StartupEventView>)
    requires
        startup_consistent(s),
        s.phase is Starting || s.phase is Running || s.phase is Failed,
        s.fresh is None,
        startup_run_valid(s, events),
    ensures
        startup_run_end(s, events).fresh is None,
        !startup_run_end(s, events).directory_created,
        !startup_run_end(s, events).marker_written,
    decreases events.len(),
{
    if events.len() > 0 {
        lemma_startup_step_consistent(s, events[0]);
        lemma_untouched_root_stays_untouched(startup_step(s, events[0]).0, events.drop_first());
    }
}

/// The identity of a root survives a restart. When a root is created, the
/// marker written holds the stored form of the identity that was made for
/// it, and that identity becomes the root's. When start-up later finds the
/// root and reads those bytes from the marker, it takes the same identity
/// and goes on to start.
pub proof fn lemma_root_identity_round_trip(
    fresh: Guid,
    making: Startup,
    restarting: Startup,
    status: StatusCode,
)
    requires
        making.phase is MakingIdentity,
        restarting.phase is ReadingMarker,
        !failed(status),
    ensures
        ({
            let (creating, create) = startup_step(making, StartupEventView::IdentityMade(fresh));
            let (writing, write) = startup_step(creating, StartupEventView::DirectoryCreated(true));
            let (marking, mark) = startup_step(writing, StartupEventView::MarkerWritten(true));
            let (created, start) = startup_step(marking, StartupEventView::Marked(status));
            let (restarted, restart) = startup_step(
                restarting,
                StartupEventView::MarkerRead(Some(guid_bytes(fresh))),
            );
            &&& create == StartupActionView::CreateDirectory
            &&& write == StartupActionView::WriteMarker(guid_bytes(fresh))
            &&& mark == StartupActionView::MarkAsPlaceholder(fresh)
            &&& start == StartupActionView::StartVirtualizing
            &&& created.identity == Some(fresh)
            &&& restart == StartupActionView::StartVirtualizing
            &&& restarted.identity == created.identity
        }),
{
    lemma_guid_round_trip(fresh);
}

/// Every error of a handler reaches the host as one and the same status,
/// and that status reports failure.
pub proof fn lemma_errors_reach_the_host_as_failure(error: ProviderError)
    ensures
        spec_status_from_result(Err(error)) == GENERIC_FAILURE,
        failed(spec_status_from_result(Err(error))),
{
}

} // verus!
