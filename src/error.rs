use vstd::prelude::*;

verus! {

/// The category a failure belongs to, so that callers can branch on it
/// without reading messages.
#[derive(Debug, Clone, Copy, PartialEq, Eq, Structural)]
pub enum ErrorKind {
    /// The caller handed in something that cannot be accepted.
    InputValidation,
    /// The disk, a permission or a device was not available.
    ResourceUnavailable,
    /// The platform's audio layer rejected a call.
    HostApiFailure,
}

/// Why storing an audio clip failed.
#[derive(Debug)]
pub enum PersistenceError {
    /// The name is empty, holds a separator, or could leave the storage directory.
    InvalidFileName,
    /// The storage directory could not be created; holds the host's message.
    DirectoryCreateFailed(String),
    /// The clip could not be written or moved into place; holds the host's message.
    WriteFailed(String),
}

/// The mathematical value of a [`PersistenceError`].
pub enum PersistenceErrorView {
    InvalidFileName,
    DirectoryCreateFailed(Seq<char>),
    WriteFailed(Seq<char>),
}

impl View for PersistenceError {
    type V = PersistenceErrorView;

    open spec fn view(&self) -> PersistenceErrorView {
        match self {
            PersistenceError::InvalidFileName => PersistenceErrorView::InvalidFileName,
            PersistenceError::DirectoryCreateFailed(m) => PersistenceErrorView::DirectoryCreateFailed(m@),
            PersistenceError::WriteFailed(m) => PersistenceErrorView::WriteFailed(m@),
        }
    }
}

pub open spec fn persistence_kind(e: PersistenceErrorView) -> ErrorKind {
    match e {
        PersistenceErrorView::InvalidFileName => ErrorKind::InputValidation,
        _ => ErrorKind::ResourceUnavailable,
    }
}

impl PersistenceError {
    /// The category of this failure.
    pub fn kind(&self) -> (r: ErrorKind)
        ensures
            r == persistence_kind(self@),
    {
        match self {
            PersistenceError::InvalidFileName => ErrorKind::InputValidation,
            _ => ErrorKind::ResourceUnavailable,
        }
    }

    /// A copy with the same value.
    pub fn duplicate(&self) -> (r: PersistenceError)
        ensures
            r@ == self@,
    {
        match self {
            PersistenceError::InvalidFileName => PersistenceError::InvalidFileName,
            PersistenceError::DirectoryCreateFailed(m) => PersistenceError::DirectoryCreateFailed(m.clone()),
            PersistenceError::WriteFailed(m) => PersistenceError::WriteFailed(m.clone()),
        }
    }

    /// A sentence for the user; the host's own message follows the prefix.
    pub fn message(&self) -> (r: String)
        ensures
            match self@ {
                PersistenceErrorView::InvalidFileName => r@ == "invalid file name"@,
                PersistenceErrorView::DirectoryCreateFailed(m) => r@ == "could not create the storage directory: "@ + m,
                PersistenceErrorView::WriteFailed(m) => r@ == "could not write the audio file: "@ + m,
            },
    {
        match self {
            PersistenceError::InvalidFileName => String::from_str("invalid file name"),
            PersistenceError::DirectoryCreateFailed(m) => {
                String::from_str("could not create the storage directory: ").concat(m.as_str())
            },
            PersistenceError::WriteFailed(m) => {
                String::from_str("could not write the audio file: ").concat(m.as_str())
            },
        }
    }
}

/// Why listing or selecting an audio device failed.
#[derive(Debug)]
pub enum DeviceError {
    /// The audio subsystem could not be queried; holds the host's message.
    QueryFailed(String),
    /// No output device of the last listing has the requested id.
    UnknownDevice,
    /// The host refused to route output to the device; holds its message.
    SwitchFailed(String),
}

/// The mathematical value of a [`DeviceError`].
pub enum DeviceErrorView {
    QueryFailed(Seq<char>),
    UnknownDevice,
    SwitchFailed(Seq<char>),
}

impl View for DeviceError {
    type V = DeviceErrorView;

    open spec fn view(&self) -> DeviceErrorView {
        match self {
            DeviceError::QueryFailed(m) => DeviceErrorView::QueryFailed(m@),
            DeviceError::UnknownDevice => DeviceErrorView::UnknownDevice,
            DeviceError::SwitchFailed(m) => DeviceErrorView::SwitchFailed(m@),
        }
    }
}

pub open spec fn device_kind_of_error(e: DeviceErrorView) -> ErrorKind {
    match e {
        DeviceErrorView::QueryFailed(_) => ErrorKind::ResourceUnavailable,
        DeviceErrorView::UnknownDevice => ErrorKind::InputValidation,
        DeviceErrorView::SwitchFailed(_) => ErrorKind::HostApiFailure,
    }
}

impl DeviceError {
    /// The category of this failure.
    pub fn kind(&self) -> (r: ErrorKind)
        ensures
            r == device_kind_of_error(self@),
    {
        match self {
            DeviceError::QueryFailed(_) => ErrorKind::ResourceUnavailable,
            DeviceError::UnknownDevice => ErrorKind::InputValidation,
            DeviceError::SwitchFailed(_) => ErrorKind::HostApiFailure,
        }
    }

    /// A sentence for the user; the host's own message follows the prefix.
    pub fn message(&self) -> (r: String)
        ensures
            match self@ {
                DeviceErrorView::QueryFailed(m) => r@ == "could not query audio devices: "@ + m,
                DeviceErrorView::UnknownDevice => r@ == "unknown output device"@,
                DeviceErrorView::SwitchFailed(m) => r@ == "could not switch the output device: "@ + m,
            },
    {
        match self {
            DeviceError::QueryFailed(m) => String::from_str("could not query audio devices: ").concat(m.as_str()),
            DeviceError::UnknownDevice => String::from_str("unknown output device"),
            DeviceError::SwitchFailed(m) => {
                String::from_str("could not switch the output device: ").concat(m.as_str())
            },
        }
    }
}

} // verus!
