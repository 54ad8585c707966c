use vstd::prelude::*;

verus! {

/// Kinds of errors, following the kinds of `std::io::ErrorKind`.
/// On the wire a kind is the single byte given by `kind_code`.
#[derive(Clone, Copy, Debug, PartialEq, Eq, Structural, Hash)]
pub enum ErrorKindSer {
    NotFound,
    PermissionDenied,
    ConnectionRefused,
    ConnectionReset,
    HostUnreachable,
    NetworkUnreachable,
    ConnectionAborted,
    NotConnected,
    AddrInUse,
    AddrNotAvailable,
    NetworkDown,
    BrokenPipe,
    AlreadyExists,
    WouldBlock,
    NotADirectory,
    IsADirectory,
    DirectoryNotEmpty,
    ReadOnlyFilesystem,
    FilesystemLoop,
    StaleNetworkFileHandle,
    InvalidInput,
    InvalidData,
    TimedOut,
    WriteZero,
    StorageFull,
    NotSeekable,
    FilesystemQuotaExceeded,
    FileTooLarge,
    ResourceBusy,
    ExecutableFileBusy,
    Deadlock,
    CrossesDevices,
    TooManyLinks,
    FilenameTooLong,
    ArgumentListTooLong,
    Interrupted,
    Unsupported,
    UnexpectedEof,
    OutOfMemory,
    Other,
    Uncategorized,
}

/// The byte that represents an error kind on the wire: its position in the list of kinds.
pub open spec fn kind_code(k: ErrorKindSer) -> u8 {
    match k {
        ErrorKindSer::NotFound => 0,
        ErrorKindSer::PermissionDenied => 1,
        ErrorKindSer::ConnectionRefused => 2,
        ErrorKindSer::ConnectionReset => 3,
        ErrorKindSer::HostUnreachable => 4,
        ErrorKindSer::NetworkUnreachable => 5,
        ErrorKindSer::ConnectionAborted => 6,
        ErrorKindSer::NotConnected => 7,
        ErrorKindSer::AddrInUse => 8,
        ErrorKindSer::AddrNotAvailable => 9,
        ErrorKindSer::NetworkDown => 10,
        ErrorKindSer::BrokenPipe => 11,
        ErrorKindSer::AlreadyExists => 12,
        ErrorKindSer::WouldBlock => 13,
        ErrorKindSer::NotADirectory => 14,
        ErrorKindSer::IsADirectory => 15,
        ErrorKindSer::DirectoryNotEmpty => 16,
        ErrorKindSer::ReadOnlyFilesystem => 17,
        ErrorKindSer::FilesystemLoop => 18,
        ErrorKindSer::StaleNetworkFileHandle => 19,
        ErrorKindSer::InvalidInput => 20,
        ErrorKindSer::InvalidData => 21,
        ErrorKindSer::TimedOut => 22,
        ErrorKindSer::WriteZero => 23,
        ErrorKindSer::StorageFull => 24,
        ErrorKindSer::NotSeekable => 25,
        ErrorKindSer::FilesystemQuotaExceeded => 26,
        ErrorKindSer::FileTooLarge => 27,
        ErrorKindSer::ResourceBusy => 28,
        ErrorKindSer::ExecutableFileBusy => 29,
        ErrorKindSer::Deadlock => 30,
        ErrorKindSer::CrossesDevices => 31,
        ErrorKindSer::TooManyLinks => 32,
        ErrorKindSer::FilenameTooLong => 33,
        ErrorKindSer::ArgumentListTooLong => 34,
        ErrorKindSer::Interrupted => 35,
        ErrorKindSer::Unsupported => 36,
        ErrorKindSer::UnexpectedEof => 37,
        ErrorKindSer::OutOfMemory => 38,
        ErrorKindSer::Other => 39,
        ErrorKindSer::Uncategorized => 40,
    }
}

/// The kind whose byte is `b`, if any.
pub open spec fn kind_from_code(b: u8) -> Option<ErrorKindSer> {
    if b == 0 {
        Some(ErrorKindSer::NotFound)
    } else if b == 1 {
        Some(ErrorKindSer::PermissionDenied)
    } else if b == 2 {
        Some(ErrorKindSer::ConnectionRefused)
    } else if b == 3 {
        Some(ErrorKindSer::ConnectionReset)
    } else if b == 4 {
        Some(ErrorKindSer::HostUnreachable)
    } else if b == 5 {
        Some(ErrorKindSer::NetworkUnreachable)
    } else if b == 6 {
        Some(ErrorKindSer::ConnectionAborted)
    } else if b == 7 {
        Some(ErrorKindSer::NotConnected)
    } else if b == 8 {
        Some(ErrorKindSer::AddrInUse)
    } else if b == 9 {
        Some(ErrorKindSer::AddrNotAvailable)
    } else if b == 10 {
        Some(ErrorKindSer::NetworkDown)
    } else if b == 11 {
        Some(ErrorKindSer::BrokenPipe)
    } else if b == 12 {
        Some(ErrorKindSer::AlreadyExists)
    } else if b == 13 {
        Some(ErrorKindSer::WouldBlock)
    } else if b == 14 {
        Some(ErrorKindSer::NotADirectory)
    } else if b == 15 {
        Some(ErrorKindSer::IsADirectory)
    } else if b == 16 {
        Some(ErrorKindSer::DirectoryNotEmpty)
    } else if b == 17 {
        Some(ErrorKindSer::ReadOnlyFilesystem)
    } else if b == 18 {
        Some(ErrorKindSer::FilesystemLoop)
    } else if b == 19 {
        Some(ErrorKindSer::StaleNetworkFileHandle)
    } else if b == 20 {
        Some(ErrorKindSer::InvalidInput)
    } else if b == 21 {
        Some(ErrorKindSer::InvalidData)
    } else if b == 22 {
        Some(ErrorKindSer::TimedOut)
    } else if b == 23 {
        Some(ErrorKindSer::WriteZero)
    } else if b == 24 {
        Some(ErrorKindSer::StorageFull)
    } else if b == 25 {
        Some(ErrorKindSer::NotSeekable)
    } else if b == 26 {
        Some(ErrorKindSer::FilesystemQuotaExceeded)
    } else if b == 27 {
        Some(ErrorKindSer::FileTooLarge)
    } else if b == 28 {
        Some(ErrorKindSer::ResourceBusy)
    } else if b == 29 {
        Some(ErrorKindSer::ExecutableFileBusy)
    } else if b == 30 {
        Some(ErrorKindSer::Deadlock)
    } else if b == 31 {
        Some(ErrorKindSer::CrossesDevices)
    } else if b == 32 {
        Some(ErrorKindSer::TooManyLinks)
    } else if b == 33 {
        Some(ErrorKindSer::FilenameTooLong)
    } else if b == 34 {
        Some(ErrorKindSer::ArgumentListTooLong)
    } else if b == 35 {
        Some(ErrorKindSer::Interrupted)
    } else if b == 36 {
        Some(ErrorKindSer::Unsupported)
    } else if b == 37 {
        Some(ErrorKindSer::UnexpectedEof)
    } else if b == 38 {
        Some(ErrorKindSer::OutOfMemory)
    } else if b == 39 {
        Some(ErrorKindSer::Other)
    } else if b == 40 {
        Some(ErrorKindSer::Uncategorized)
    } else {
        None
    }
}

/// The kinds that `std::io::ErrorKind` and `ErrorKindSer` convert into each other
/// one for one; every other kind passes through the standard library as `Other`.
pub open spec fn kind_is_std_mapped(k: ErrorKindSer) -> bool {
    match k {
        ErrorKindSer::NotFound => true,
        ErrorKindSer::PermissionDenied => true,
        ErrorKindSer::ConnectionRefused => true,
        ErrorKindSer::ConnectionReset => true,
        ErrorKindSer::ConnectionAborted => true,
        ErrorKindSer::NotConnected => true,
        ErrorKindSer::AddrInUse => true,
        ErrorKindSer::AddrNotAvailable => true,
        ErrorKindSer::BrokenPipe => true,
        ErrorKindSer::AlreadyExists => true,
        ErrorKindSer::WouldBlock => true,
        ErrorKindSer::InvalidInput => true,
        ErrorKindSer::InvalidData => true,
        ErrorKindSer::TimedOut => true,
        ErrorKindSer::WriteZero => true,
        ErrorKindSer::Interrupted => true,
        ErrorKindSer::Unsupported => true,
        ErrorKindSer::UnexpectedEof => true,
        ErrorKindSer::OutOfMemory => true,
        ErrorKindSer::Other => true,
        _ => false,
    }
}

/// What a kind becomes after a conversion to `std::io::ErrorKind` and back.
pub open spec fn kind_through_std(k: ErrorKindSer) -> ErrorKindSer {
    if kind_is_std_mapped(k) { k } else { ErrorKindSer::Other }
}

impl ErrorKindSer {
    /// The byte that this kind is serialized as.
    pub fn to_u8(self) -> (b: u8)
        ensures
            b == kind_code(self),
    {
        match self {
            ErrorKindSer::NotFound => 0,
            ErrorKindSer::PermissionDenied => 1,
            ErrorKindSer::ConnectionRefused => 2,
            ErrorKindSer::ConnectionReset => 3,
            ErrorKindSer::HostUnreachable => 4,
            ErrorKindSer::NetworkUnreachable => 5,
            ErrorKindSer::ConnectionAborted => 6,
            ErrorKindSer::NotConnected => 7,
            ErrorKindSer::AddrInUse => 8,
            ErrorKindSer::AddrNotAvailable => 9,
            ErrorKindSer::NetworkDown => 10,
            ErrorKindSer::BrokenPipe => 11,
            ErrorKindSer::AlreadyExists => 12,
            ErrorKindSer::WouldBlock => 13,
            ErrorKindSer::NotADirectory => 14,
            ErrorKindSer::IsADirectory => 15,
            ErrorKindSer::DirectoryNotEmpty => 16,
            ErrorKindSer::ReadOnlyFilesystem => 17,
            ErrorKindSer::FilesystemLoop => 18,
            ErrorKindSer::StaleNetworkFileHandle => 19,
            ErrorKindSer::InvalidInput => 20,
            ErrorKindSer::InvalidData => 21,
            ErrorKindSer::TimedOut => 22,
            ErrorKindSer::WriteZero => 23,
            ErrorKindSer::StorageFull => 24,
            ErrorKindSer::NotSeekable => 25,
            ErrorKindSer::FilesystemQuotaExceeded => 26,
            ErrorKindSer::FileTooLarge => 27,
            ErrorKindSer::ResourceBusy => 28,
            ErrorKindSer::ExecutableFileBusy => 29,
            ErrorKindSer::Deadlock => 30,
            ErrorKindSer::CrossesDevices => 31,
            ErrorKindSer::TooManyLinks => 32,
            ErrorKindSer::FilenameTooLong => 33,
            ErrorKindSer::ArgumentListTooLong => 34,
            ErrorKindSer::Interrupted => 35,
            ErrorKindSer::Unsupported => 36,
            ErrorKindSer::UnexpectedEof => 37,
            ErrorKindSer::OutOfMemory => 38,
            ErrorKindSer::Other => 39,
            ErrorKindSer::Uncategorized => 40,
        }
    }

    /// Reads a kind from its byte. Bytes past the last kind are refused with
    /// `Err` holding the byte.
    pub fn from_u8(b: u8) -> (r: core::result::Result<ErrorKindSer, u8>)
        ensures
            kind_from_code(b) matches Some(k) ==> r == Ok::<ErrorKindSer, u8>(k),
            kind_from_code(b) is None ==> r == Err::<ErrorKindSer, u8>(b),
            r is Err <==> b >= 41,
    {
        match b {
            0 => Ok(ErrorKindSer::NotFound),
            1 => Ok(ErrorKindSer::PermissionDenied),
            2 => Ok(ErrorKindSer::ConnectionRefused),
            3 => Ok(ErrorKindSer::ConnectionReset),
            4 => Ok(ErrorKindSer::HostUnreachable),
            5 => Ok(ErrorKindSer::NetworkUnreachable),
            6 => Ok(ErrorKindSer::ConnectionAborted),
            7 => Ok(ErrorKindSer::NotConnected),
            8 => Ok(ErrorKindSer::AddrInUse),
            9 => Ok(ErrorKindSer::AddrNotAvailable),
            10 => Ok(ErrorKindSer::NetworkDown),
            11 => Ok(ErrorKindSer::BrokenPipe),
            12 => Ok(ErrorKindSer::AlreadyExists),
            13 => Ok(ErrorKindSer::WouldBlock),
            14 => Ok(ErrorKindSer::NotADirectory),
            15 => Ok(ErrorKindSer::IsADirectory),
            16 => Ok(ErrorKindSer::DirectoryNotEmpty),
            17 => Ok(ErrorKindSer::ReadOnlyFilesystem),
            18 => Ok(ErrorKindSer::FilesystemLoop),
            19 => Ok(ErrorKindSer::StaleNetworkFileHandle),
            20 => Ok(ErrorKindSer::InvalidInput),
            21 => Ok(ErrorKindSer::InvalidData),
            22 => Ok(ErrorKindSer::TimedOut),
            23 => Ok(ErrorKindSer::WriteZero),
            24 => Ok(ErrorKindSer::StorageFull),
            25 => Ok(ErrorKindSer::NotSeekable),
            26 => Ok(ErrorKindSer::FilesystemQuotaExceeded),
            27 => Ok(ErrorKindSer::FileTooLarge),
            28 => Ok(ErrorKindSer::ResourceBusy),
            29 => Ok(ErrorKindSer::ExecutableFileBusy),
            30 => Ok(ErrorKindSer::Deadlock),
            31 => Ok(ErrorKindSer::CrossesDevices),
            32 => Ok(ErrorKindSer::TooManyLinks),
            33 => Ok(ErrorKindSer::FilenameTooLong),
            34 => Ok(ErrorKindSer::ArgumentListTooLong),
            35 => Ok(ErrorKindSer::Interrupted),
            36 => Ok(ErrorKindSer::Unsupported),
            37 => Ok(ErrorKindSer::UnexpectedEof),
            38 => Ok(ErrorKindSer::OutOfMemory),
            39 => Ok(ErrorKindSer::Other),
            40 => Ok(ErrorKindSer::Uncategorized),
            _ => Err(b),
        }
    }

    /// Whether this kind survives a conversion to `std::io::ErrorKind` unchanged.
    pub fn is_std_mapped(self) -> (r: bool)
        ensures
            r == kind_is_std_mapped(self),
    {
        match self {
            ErrorKindSer::NotFound => true,
            ErrorKindSer::PermissionDenied => true,
            ErrorKindSer::ConnectionRefused => true,
            ErrorKindSer::ConnectionReset => true,
            ErrorKindSer::ConnectionAborted => true,
            ErrorKindSer::NotConnected => true,
            ErrorKindSer::AddrInUse => true,
            ErrorKindSer::AddrNotAvailable => true,
            ErrorKindSer::BrokenPipe => true,
            ErrorKindSer::AlreadyExists => true,
            ErrorKindSer::WouldBlock => true,
            ErrorKindSer::InvalidInput => true,
            ErrorKindSer::InvalidData => true,
            ErrorKindSer::TimedOut => true,
            ErrorKindSer::WriteZero => true,
            ErrorKindSer::Interrupted => true,
            ErrorKindSer::Unsupported => true,
            ErrorKindSer::UnexpectedEof => true,
            ErrorKindSer::OutOfMemory => true,
            ErrorKindSer::Other => true,
            _ => false,
        }
    }

    /// The kind that a peer receives when this kind is sent through a
    /// `std::io::Error`: itself when it has a counterpart there, else `Other`.
    pub fn through_std(self) -> (r: ErrorKindSer)
        ensures
            r == kind_through_std(self),
    {
        if self.is_std_mapped() {
            self
        } else {
            ErrorKindSer::Other
        }
    }
}

/// `std::io::ErrorKind`, whose kinds the library's kinds follow.
#[verifier::external_type_specification]
pub struct ExIoErrorKind(std::io::ErrorKind);

/// The kind of `std::io` that a kind of the library converts into: itself
/// for the kinds that `std::io` has a counterpart of, else `Other`.
pub open spec fn std_kind_of(k: ErrorKindSer) -> std::io::ErrorKind {
    match k {
        ErrorKindSer::NotFound => std::io::ErrorKind::NotFound,
        ErrorKindSer::PermissionDenied => std::io::ErrorKind::PermissionDenied,
        ErrorKindSer::ConnectionRefused => std::io::ErrorKind::ConnectionRefused,
        ErrorKindSer::ConnectionReset => std::io::ErrorKind::ConnectionReset,
        ErrorKindSer::ConnectionAborted => std::io::ErrorKind::ConnectionAborted,
        ErrorKindSer::NotConnected => std::io::ErrorKind::NotConnected,
        ErrorKindSer::AddrInUse => std::io::ErrorKind::AddrInUse,
        ErrorKindSer::AddrNotAvailable => std::io::ErrorKind::AddrNotAvailable,
        ErrorKindSer::BrokenPipe => std::io::ErrorKind::BrokenPipe,
        ErrorKindSer::AlreadyExists => std::io::ErrorKind::AlreadyExists,
        ErrorKindSer::WouldBlock => std::io::ErrorKind::WouldBlock,
        ErrorKindSer::InvalidInput => std::io::ErrorKind::InvalidInput,
        ErrorKindSer::InvalidData => std::io::ErrorKind::InvalidData,
        ErrorKindSer::TimedOut => std::io::ErrorKind::TimedOut,
        ErrorKindSer::WriteZero => std::io::ErrorKind::WriteZero,
        ErrorKindSer::Interrupted => std::io::ErrorKind::Interrupted,
        ErrorKindSer::Unsupported => std::io::ErrorKind::Unsupported,
        ErrorKindSer::UnexpectedEof => std::io::ErrorKind::UnexpectedEof,
        ErrorKindSer::OutOfMemory => std::io::ErrorKind::OutOfMemory,
        ErrorKindSer::Other => std::io::ErrorKind::Other,
        _ => std::io::ErrorKind::Other,
    }
}

/// The kind of the library that a kind of `std::io` converts into: itself
/// for the kinds the library has a counterpart of, else `Other`.
pub open spec fn kind_of_std(k: std::io::ErrorKind) -> ErrorKindSer {
    match k {
        std::io::ErrorKind::NotFound => ErrorKindSer::NotFound,
        std::io::ErrorKind::PermissionDenied => ErrorKindSer::PermissionDenied,
        std::io::ErrorKind::ConnectionRefused => ErrorKindSer::ConnectionRefused,
        std::io::ErrorKind::ConnectionReset => ErrorKindSer::ConnectionReset,
        std::io::ErrorKind::ConnectionAborted => ErrorKindSer::ConnectionAborted,
        std::io::ErrorKind::NotConnected => ErrorKindSer::NotConnected,
        std::io::ErrorKind::AddrInUse => ErrorKindSer::AddrInUse,
        std::io::ErrorKind::AddrNotAvailable => ErrorKindSer::AddrNotAvailable,
        std::io::ErrorKind::BrokenPipe => ErrorKindSer::BrokenPipe,
        std::io::ErrorKind::AlreadyExists => ErrorKindSer::AlreadyExists,
        std::io::ErrorKind::WouldBlock => ErrorKindSer::WouldBlock,
        std::io::ErrorKind::InvalidInput => ErrorKindSer::InvalidInput,
        std::io::ErrorKind::InvalidData => ErrorKindSer::InvalidData,
        std::io::ErrorKind::TimedOut => ErrorKindSer::TimedOut,
        std::io::ErrorKind::WriteZero => ErrorKindSer::WriteZero,
        std::io::ErrorKind::Interrupted => ErrorKindSer::Interrupted,
        std::io::ErrorKind::Unsupported => ErrorKindSer::Unsupported,
        std::io::ErrorKind::UnexpectedEof => ErrorKindSer::UnexpectedEof,
        std::io::ErrorKind::OutOfMemory => ErrorKindSer::OutOfMemory,
        std::io::ErrorKind::Other => ErrorKindSer::Other,
        _ => ErrorKindSer::Other,
    }
}

impl From<ErrorKindSer> for std::io::ErrorKind {
    fn from(kind: ErrorKindSer) -> (r: std::io::ErrorKind) {
        match kind {
            ErrorKindSer::NotFound => std::io::ErrorKind::NotFound,
            ErrorKindSer::PermissionDenied => std::io::ErrorKind::PermissionDenied,
            ErrorKindSer::ConnectionRefused => std::io::ErrorKind::ConnectionRefused,
            ErrorKindSer::ConnectionReset => std::io::ErrorKind::ConnectionReset,
            ErrorKindSer::ConnectionAborted => std::io::ErrorKind::ConnectionAborted,
            ErrorKindSer::NotConnected => std::io::ErrorKind::NotConnected,
            ErrorKindSer::AddrInUse => std::io::ErrorKind::AddrInUse,
            ErrorKindSer::AddrNotAvailable => std::io::ErrorKind::AddrNotAvailable,
            ErrorKindSer::BrokenPipe => std::io::ErrorKind::BrokenPipe,
            ErrorKindSer::AlreadyExists => std::io::ErrorKind::AlreadyExists,
            ErrorKindSer::WouldBlock => std::io::ErrorKind::WouldBlock,
            ErrorKindSer::InvalidInput => std::io::ErrorKind::InvalidInput,
            ErrorKindSer::InvalidData => std::io::ErrorKind::InvalidData,
            ErrorKindSer::TimedOut => std::io::ErrorKind::TimedOut,
            ErrorKindSer::WriteZero => std::io::ErrorKind::WriteZero,
            ErrorKindSer::Interrupted => std::io::ErrorKind::Interrupted,
            ErrorKindSer::Unsupported => std::io::ErrorKind::Unsupported,
            ErrorKindSer::UnexpectedEof => std::io::ErrorKind::UnexpectedEof,
            ErrorKindSer::OutOfMemory => std::io::ErrorKind::OutOfMemory,
            ErrorKindSer::Other => std::io::ErrorKind::Other,
            _ => std::io::ErrorKind::Other,
        }
    }
}

impl vstd::std_specs::convert::FromSpecImpl<ErrorKindSer> for std::io::ErrorKind {
    open spec fn obeys_from_spec() -> bool {
        true
    }

    open spec fn from_spec(kind: ErrorKindSer) -> std::io::ErrorKind {
        std_kind_of(kind)
    }
}

impl From<std::io::ErrorKind> for ErrorKindSer {
    fn from(kind: std::io::ErrorKind) -> (r: ErrorKindSer) {
        match kind {
            std::io::ErrorKind::NotFound => ErrorKindSer::NotFound,
            std::io::ErrorKind::PermissionDenied => ErrorKindSer::PermissionDenied,
            std::io::ErrorKind::ConnectionRefused => ErrorKindSer::ConnectionRefused,
            std::io::ErrorKind::ConnectionReset => ErrorKindSer::ConnectionReset,
            std::io::ErrorKind::ConnectionAborted => ErrorKindSer::ConnectionAborted,
            std::io::ErrorKind::NotConnected => ErrorKindSer::NotConnected,
            std::io::ErrorKind::AddrInUse => ErrorKindSer::AddrInUse,
            std::io::ErrorKind::AddrNotAvailable => ErrorKindSer::AddrNotAvailable,
            std::io::ErrorKind::BrokenPipe => ErrorKindSer::BrokenPipe,
            std::io::ErrorKind::AlreadyExists => ErrorKindSer::AlreadyExists,
            std::io::ErrorKind::WouldBlock => ErrorKindSer::WouldBlock,
            std::io::ErrorKind::InvalidInput => ErrorKindSer::InvalidInput,
            std::io::ErrorKind::InvalidData => ErrorKindSer::InvalidData,
            std::io::ErrorKind::TimedOut => ErrorKindSer::TimedOut,
            std::io::ErrorKind::WriteZero => ErrorKindSer::WriteZero,
            std::io::ErrorKind::Interrupted => ErrorKindSer::Interrupted,
            std::io::ErrorKind::Unsupported => ErrorKindSer::Unsupported,
            std::io::ErrorKind::UnexpectedEof => ErrorKindSer::UnexpectedEof,
            std::io::ErrorKind::OutOfMemory => ErrorKindSer::OutOfMemory,
            std::io::ErrorKind::Other => ErrorKindSer::Other,
            _ => ErrorKindSer::Other,
        }
    }
}

impl vstd::std_specs::convert::FromSpecImpl<std::io::ErrorKind> for ErrorKindSer {
    open spec fn obeys_from_spec() -> bool {
        true
    }

    open spec fn from_spec(kind: std::io::ErrorKind) -> ErrorKindSer {
        kind_of_std(kind)
    }
}

/// Converting a kind into `std::io` and back is what passing it through
/// `std::io` does: the kinds with a counterpart come back, the others as
/// `Other`; and a kind that `std::io` reports is always one with a counterpart.
pub proof fn lemma_std_round_trip(k: ErrorKindSer, s: std::io::ErrorKind)
    ensures
        kind_of_std(std_kind_of(k)) == kind_through_std(k),
        kind_is_std_mapped(kind_of_std(s)),
        kind_is_std_mapped(k) ==> kind_of_std(std_kind_of(k)) == k,
{
}

/// The kinds in the order they are declared in.
pub open spec fn kinds_in_order() -> Seq<ErrorKindSer> {
    seq![
        ErrorKindSer::NotFound,
        ErrorKindSer::PermissionDenied,
        ErrorKindSer::ConnectionRefused,
        ErrorKindSer::ConnectionReset,
        ErrorKindSer::HostUnreachable,
        ErrorKindSer::NetworkUnreachable,
        ErrorKindSer::ConnectionAborted,
        ErrorKindSer::NotConnected,
        ErrorKindSer::AddrInUse,
        ErrorKindSer::AddrNotAvailable,
        ErrorKindSer::NetworkDown,
        ErrorKindSer::BrokenPipe,
        ErrorKindSer::AlreadyExists,
        ErrorKindSer::WouldBlock,
        ErrorKindSer::NotADirectory,
        ErrorKindSer::IsADirectory,
        ErrorKindSer::DirectoryNotEmpty,
        ErrorKindSer::ReadOnlyFilesystem,
        ErrorKindSer::FilesystemLoop,
        ErrorKindSer::StaleNetworkFileHandle,
        ErrorKindSer::InvalidInput,
        ErrorKindSer::InvalidData,
        ErrorKindSer::TimedOut,
        ErrorKindSer::WriteZero,
        ErrorKindSer::StorageFull,
        ErrorKindSer::NotSeekable,
        ErrorKindSer::FilesystemQuotaExceeded,
        ErrorKindSer::FileTooLarge,
        ErrorKindSer::ResourceBusy,
        ErrorKindSer::ExecutableFileBusy,
        ErrorKindSer::Deadlock,
        ErrorKindSer::CrossesDevices,
        ErrorKindSer::TooManyLinks,
        ErrorKindSer::FilenameTooLong,
        ErrorKindSer::ArgumentListTooLong,
        ErrorKindSer::Interrupted,
        ErrorKindSer::Unsupported,
        ErrorKindSer::UnexpectedEof,
        ErrorKindSer::OutOfMemory,
        ErrorKindSer::Other,
        ErrorKindSer::Uncategorized,
    ]
}

/// The byte of a kind is its position in the order of declaration, and every
/// byte below 41 names the kind at that position: a peer that numbers the
/// kinds by their declaration reads each kind back as the one that was sent.
pub proof fn lemma_kind_code_is_position(k: ErrorKindSer, b: u8)
    ensures
        kinds_in_order().len() == 41,
        kinds_in_order()[kind_code(k) as int] == k,
        b < 41 ==> kind_from_code(b) == Some(kinds_in_order()[b as int]),
{
    let ks = kinds_in_order();
    assert(ks.len() == 41);
    match k {
        ErrorKindSer::NotFound => {
            assert(kinds_in_order()[0] == k);
        },
        ErrorKindSer::PermissionDenied => {
            assert(kinds_in_order()[1] == k);
        },
        ErrorKindSer::ConnectionRefused => {
            assert(kinds_in_order()[2] == k);
        },
        ErrorKindSer::ConnectionReset => {
            assert(kinds_in_order()[3] == k);
        },
        ErrorKindSer::HostUnreachable => {
            assert(kinds_in_order()[4] == k);
        },
        ErrorKindSer::NetworkUnreachable => {
            assert(kinds_in_order()[5] == k);
        },
        ErrorKindSer::ConnectionAborted => {
            assert(kinds_in_order()[6] == k);
        },
        ErrorKindSer::NotConnected => {
            assert(kinds_in_order()[7] == k);
        },
        ErrorKindSer::AddrInUse => {
            assert(kinds_in_order()[8] == k);
        },
        ErrorKindSer::AddrNotAvailable => {
            assert(kinds_in_order()[9] == k);
        },
        ErrorKindSer::NetworkDown => {
            assert(kinds_in_order()[10] == k);
        },
        ErrorKindSer::BrokenPipe => {
            assert(kinds_in_order()[11] == k);
        },
        ErrorKindSer::AlreadyExists => {
            assert(kinds_in_order()[12] == k);
        },
        ErrorKindSer::WouldBlock => {
            assert(kinds_in_order()[13] == k);
        },
        ErrorKindSer::NotADirectory => {
            assert(kinds_in_order()[14] == k);
        },
        ErrorKindSer::IsADirectory => {
            assert(kinds_in_order()[15] == k);
        },
        ErrorKindSer::DirectoryNotEmpty => {
            assert(kinds_in_order()[16] == k);
        },
        ErrorKindSer::ReadOnlyFilesystem => {
            assert(kinds_in_order()[17] == k);
        },
        ErrorKindSer::FilesystemLoop => {
            assert(kinds_in_order()[18] == k);
        },
        ErrorKindSer::StaleNetworkFileHandle => {
            assert(kinds_in_order()[19] == k);
        },
        ErrorKindSer::InvalidInput => {
            assert(kinds_in_order()[20] == k);
        },
        ErrorKindSer::InvalidData => {
            assert(kinds_in_order()[21] == k);
        },
        ErrorKindSer::TimedOut => {
            assert(kinds_in_order()[22] == k);
        },
        ErrorKindSer::WriteZero => {
            assert(kinds_in_order()[23] == k);
        },
        ErrorKindSer::StorageFull => {
            assert(kinds_in_order()[24] == k);
        },
        ErrorKindSer::NotSeekable => {
            assert(kinds_in_order()[25] == k);
        },
        ErrorKindSer::FilesystemQuotaExceeded => {
            assert(kinds_in_order()[26] == k);
        },
        ErrorKindSer::FileTooLarge => {
            assert(kinds_in_order()[27] == k);
        },
        ErrorKindSer::ResourceBusy => {
            assert(kinds_in_order()[28] == k);
        },
        ErrorKindSer::ExecutableFileBusy => {
            assert(kinds_in_order()[29] == k);
        },
        ErrorKindSer::Deadlock => {
            assert(kinds_in_order()[30] == k);
        },
        ErrorKindSer::CrossesDevices => {
            assert(kinds_in_order()[31] == k);
        },
        ErrorKindSer::TooManyLinks => {
            assert(kinds_in_order()[32] == k);
        },
        ErrorKindSer::FilenameTooLong => {
            assert(kinds_in_order()[33] == k);
        },
        ErrorKindSer::ArgumentListTooLong => {
            assert(kinds_in_order()[34] == k);
        },
        ErrorKindSer::Interrupted => {
            assert(kinds_in_order()[35] == k);
        },
        ErrorKindSer::Unsupported => {
            assert(kinds_in_order()[36] == k);
        },
        ErrorKindSer::UnexpectedEof => {
            assert(kinds_in_order()[37] == k);
        },
        ErrorKindSer::OutOfMemory => {
            assert(kinds_in_order()[38] == k);
        },
        ErrorKindSer::Other => {
            assert(kinds_in_order()[39] == k);
        },
        ErrorKindSer::Uncategorized => {
            assert(kinds_in_order()[40] == k);
        },
    }
    if b < 41 {
        if b == 0 {
            assert(kinds_in_order()[0] == ErrorKindSer::NotFound);
        } else if b == 1 {
            assert(kinds_in_order()[1] == ErrorKindSer::PermissionDenied);
        } else if b == 2 {
            assert(kinds_in_order()[2] == ErrorKindSer::ConnectionRefused);
        } else if b == 3 {
            assert(kinds_in_order()[3] == ErrorKindSer::ConnectionReset);
        } else if b == 4 {
            assert(kinds_in_order()[4] == ErrorKindSer::HostUnreachable);
        } else if b == 5 {
            assert(kinds_in_order()[5] == ErrorKindSer::NetworkUnreachable);
        } else if b == 6 {
            assert(kinds_in_order()[6] == ErrorKindSer::ConnectionAborted);
        } else if b == 7 {
            assert(kinds_in_order()[7] == ErrorKindSer::NotConnected);
        } else if b == 8 {
            assert(kinds_in_order()[8] == ErrorKindSer::AddrInUse);
        } else if b == 9 {
            assert(kinds_in_order()[9] == ErrorKindSer::AddrNotAvailable);
        } else if b == 10 {
            assert(kinds_in_order()[10] == ErrorKindSer::NetworkDown);
        } else if b == 11 {
            assert(kinds_in_order()[11] == ErrorKindSer::BrokenPipe);
        } else if b == 12 {
            assert(kinds_in_order()[12] == ErrorKindSer::AlreadyExists);
        } else if b == 13 {
            assert(kinds_in_order()[13] == ErrorKindSer::WouldBlock);
        } else if b == 14 {
            assert(kinds_in_order()[14] == ErrorKindSer::NotADirectory);
        } else if b == 15 {
            assert(kinds_in_order()[15] == ErrorKindSer::IsADirectory);
        } else if b == 16 {
            assert(kinds_in_order()[16] == ErrorKindSer::DirectoryNotEmpty);
        } else if b == 17 {
            assert(kinds_in_order()[17] == ErrorKindSer::ReadOnlyFilesystem);
        } else if b == 18 {
            assert(kinds_in_order()[18] == ErrorKindSer::FilesystemLoop);
        } else if b == 19 {
            assert(kinds_in_order()[19] == ErrorKindSer::StaleNetworkFileHandle);
        } else if b == 20 {
            assert(kinds_in_order()[20] == ErrorKindSer::InvalidInput);
        } else if b == 21 {
            assert(kinds_in_order()[21] == ErrorKindSer::InvalidData);
        } else if b == 22 {
            assert(kinds_in_order()[22] == ErrorKindSer::TimedOut);
        } else if b == 23 {
            assert(kinds_in_order()[23] == ErrorKindSer::WriteZero);
        } else if b == 24 {
            assert(kinds_in_order()[24] == ErrorKindSer::StorageFull);
        } else if b == 25 {
            assert(kinds_in_order()[25] == ErrorKindSer::NotSeekable);
        } else if b == 26 {
            assert(kinds_in_order()[26] == ErrorKindSer::FilesystemQuotaExceeded);
        } else if b == 27 {
            assert(kinds_in_order()[27] == ErrorKindSer::FileTooLarge);
        } else if b == 28 {
            assert(kinds_in_order()[28] == ErrorKindSer::ResourceBusy);
        } else if b == 29 {
            assert(kinds_in_order()[29] == ErrorKindSer::ExecutableFileBusy);
        } else if b == 30 {
            assert(kinds_in_order()[30] == ErrorKindSer::Deadlock);
        } else if b == 31 {
            assert(kinds_in_order()[31] == ErrorKindSer::CrossesDevices);
        } else if b == 32 {
            assert(kinds_in_order()[32] == ErrorKindSer::TooManyLinks);
        } else if b == 33 {
            assert(kinds_in_order()[33] == ErrorKindSer::FilenameTooLong);
        } else if b == 34 {
            assert(kinds_in_order()[34] == ErrorKindSer::ArgumentListTooLong);
        } else if b == 35 {
            assert(kinds_in_order()[35] == ErrorKindSer::Interrupted);
        } else if b == 36 {
            assert(kinds_in_order()[36] == ErrorKindSer::Unsupported);
        } else if b == 37 {
            assert(kinds_in_order()[37] == ErrorKindSer::UnexpectedEof);
        } else if b == 38 {
            assert(kinds_in_order()[38] == ErrorKindSer::OutOfMemory);
        } else if b == 39 {
            assert(kinds_in_order()[39] == ErrorKindSer::Other);
        } else if b == 40 {
            assert(kinds_in_order()[40] == ErrorKindSer::Uncategorized);
        }
    }
}

/// The kinds of the library that have a kind of the same name in `std::io`,
/// in the order they are declared in.
pub open spec fn kinds_named_in_std() -> Seq<ErrorKindSer> {
    seq![
        ErrorKindSer::NotFound,
        ErrorKindSer::PermissionDenied,
        ErrorKindSer::ConnectionRefused,
        ErrorKindSer::ConnectionReset,
        ErrorKindSer::ConnectionAborted,
        ErrorKindSer::NotConnected,
        ErrorKindSer::AddrInUse,
        ErrorKindSer::AddrNotAvailable,
        ErrorKindSer::BrokenPipe,
        ErrorKindSer::AlreadyExists,
        ErrorKindSer::WouldBlock,
        ErrorKindSer::InvalidInput,
        ErrorKindSer::InvalidData,
        ErrorKindSer::TimedOut,
        ErrorKindSer::WriteZero,
        ErrorKindSer::Interrupted,
        ErrorKindSer::Unsupported,
        ErrorKindSer::UnexpectedEof,
        ErrorKindSer::OutOfMemory,
        ErrorKindSer::Other,
    ]
}

/// The kinds of `std::io` of the same names, in the same order.
pub open spec fn std_kinds_of_same_name() -> Seq<std::io::ErrorKind> {
    seq![
        std::io::ErrorKind::NotFound,
        std::io::ErrorKind::PermissionDenied,
        std::io::ErrorKind::ConnectionRefused,
        std::io::ErrorKind::ConnectionReset,
        std::io::ErrorKind::ConnectionAborted,
        std::io::ErrorKind::NotConnected,
        std::io::ErrorKind::AddrInUse,
        std::io::ErrorKind::AddrNotAvailable,
        std::io::ErrorKind::BrokenPipe,
        std::io::ErrorKind::AlreadyExists,
        std::io::ErrorKind::WouldBlock,
        std::io::ErrorKind::InvalidInput,
        std::io::ErrorKind::InvalidData,
        std::io::ErrorKind::TimedOut,
        std::io::ErrorKind::WriteZero,
        std::io::ErrorKind::Interrupted,
        std::io::ErrorKind::Unsupported,
        std::io::ErrorKind::UnexpectedEof,
        std::io::ErrorKind::OutOfMemory,
        std::io::ErrorKind::Other,
    ]
}

/// Each kind that `std::io` has under the same name converts to it, and each
/// such kind of `std::io` converts back to it, so each passes through
/// `std::io` unchanged.
pub proof fn lemma_same_named_kinds_convert(i: int)
    ensures
        kinds_named_in_std().len() == 20,
        std_kinds_of_same_name().len() == 20,
        0 <= i < 20 ==> std_kind_of(kinds_named_in_std()[i]) == std_kinds_of_same_name()[i],
        0 <= i < 20 ==> kind_of_std(std_kinds_of_same_name()[i]) == kinds_named_in_std()[i],
        0 <= i < 20 ==> kind_is_std_mapped(kinds_named_in_std()[i]),
{
    assert(kinds_named_in_std().len() == 20);
    assert(std_kinds_of_same_name().len() == 20);
    if 0 <= i < 20 {
        if i == 0 {
            assert(kinds_named_in_std()[0] == ErrorKindSer::NotFound);
            assert(std_kinds_of_same_name()[0] == std::io::ErrorKind::NotFound);
        } else if i == 1 {
            assert(kinds_named_in_std()[1] == ErrorKindSer::PermissionDenied);
            assert(std_kinds_of_same_name()[1] == std::io::ErrorKind::PermissionDenied);
        } else if i == 2 {
            assert(kinds_named_in_std()[2] == ErrorKindSer::ConnectionRefused);
            assert(std_kinds_of_same_name()[2] == std::io::ErrorKind::ConnectionRefused);
        } else if i == 3 {
            assert(kinds_named_in_std()[3] == ErrorKindSer::ConnectionReset);
            assert(std_kinds_of_same_name()[3] == std::io::ErrorKind::ConnectionReset);
        } else if i == 4 {
            assert(kinds_named_in_std()[4] == ErrorKindSer::ConnectionAborted);
            assert(std_kinds_of_same_name()[4] == std::io::ErrorKind::ConnectionAborted);
        } else if i == 5 {
            assert(kinds_named_in_std()[5] == ErrorKindSer::NotConnected);
            assert(std_kinds_of_same_name()[5] == std::io::ErrorKind::NotConnected);
        } else if i == 6 {
            assert(kinds_named_in_std()[6] == ErrorKindSer::AddrInUse);
            assert(std_kinds_of_same_name()[6] == std::io::ErrorKind::AddrInUse);
        } else if i == 7 {
            assert(kinds_named_in_std()[7] == ErrorKindSer::AddrNotAvailable);
            assert(std_kinds_of_same_name()[7] == std::io::ErrorKind::AddrNotAvailable);
        } else if i == 8 {
            assert(kinds_named_in_std()[8] == ErrorKindSer::BrokenPipe);
            assert(std_kinds_of_same_name()[8] == std::io::ErrorKind::BrokenPipe);
        } else if i == 9 {
            assert(kinds_named_in_std()[9] == ErrorKindSer::AlreadyExists);
            assert(std_kinds_of_same_name()[9] == std::io::ErrorKind::AlreadyExists);
        } else if i == 10 {
            assert(kinds_named_in_std()[10] == ErrorKindSer::WouldBlock);
            assert(std_kinds_of_same_name()[10] == std::io::ErrorKind::WouldBlock);
        } else if i == 11 {
            assert(kinds_named_in_std()[11] == ErrorKindSer::InvalidInput);
            assert(std_kinds_of_same_name()[11] == std::io::ErrorKind::InvalidInput);
        } else if i == 12 {
            assert(kinds_named_in_std()[12] == ErrorKindSer::InvalidData);
            assert(std_kinds_of_same_name()[12] == std::io::ErrorKind::InvalidData);
        } else if i == 13 {
            assert(kinds_named_in_std()[13] == ErrorKindSer::TimedOut);
            assert(std_kinds_of_same_name()[13] == std::io::ErrorKind::TimedOut);
        } else if i == 14 {
            assert(kinds_named_in_std()[14] == ErrorKindSer::WriteZero);
            assert(std_kinds_of_same_name()[14] == std::io::ErrorKind::WriteZero);
        } else if i == 15 {
            assert(kinds_named_in_std()[15] == ErrorKindSer::Interrupted);
            assert(std_kinds_of_same_name()[15] == std::io::ErrorKind::Interrupted);
        } else if i == 16 {
            assert(kinds_named_in_std()[16] == ErrorKindSer::Unsupported);
            assert(std_kinds_of_same_name()[16] == std::io::ErrorKind::Unsupported);
        } else if i == 17 {
            assert(kinds_named_in_std()[17] == ErrorKindSer::UnexpectedEof);
            assert(std_kinds_of_same_name()[17] == std::io::ErrorKind::UnexpectedEof);
        } else if i == 18 {
            assert(kinds_named_in_std()[18] == ErrorKindSer::OutOfMemory);
            assert(std_kinds_of_same_name()[18] == std::io::ErrorKind::OutOfMemory);
        } else if i == 19 {
            assert(kinds_named_in_std()[19] == ErrorKindSer::Other);
            assert(std_kinds_of_same_name()[19] == std::io::ErrorKind::Other);
        }
    }
}

/// Reading back the byte of a kind gives the same kind.
pub proof fn lemma_kind_code_roundtrip(k: ErrorKindSer)
    ensures
        kind_from_code(kind_code(k)) == Some(k),
        kind_code(k) < 41,
{
}

/// A byte that names a kind is that kind's byte.
pub proof fn lemma_kind_from_code_inverse(b: u8)
    ensures
        kind_from_code(b) matches Some(k) ==> kind_code(k) == b,
        kind_from_code(b) is Some <==> b < 41,
{
}

/// Passing a kind through the standard library twice changes nothing more
/// than passing it once.
pub proof fn lemma_through_std_idempotent(k: ErrorKindSer)
    ensures
        kind_through_std(kind_through_std(k)) == kind_through_std(k),
        kind_is_std_mapped(kind_through_std(k)),
{
}

/// The error of this library: a kind and a message, and, for an error that
/// a refused memory reservation caused, the refusal itself.
#[derive(Clone, Debug)]
pub struct Error {
    pub kind: ErrorKindSer,
    pub message: String,
    pub refusal: Option<std::collections::TryReserveError>,
}

impl Error {
    /// Whether this error carries the refusal of a memory reservation. Only
    /// a refusal given by `Vec::try_reserve` can be carried, so such an error
    /// comes from a reservation that was tried and refused.
    pub open spec fn from_refused_reservation(&self) -> bool {
        self.refusal is Some
    }

    /// An error of the given kind with the given message.
    pub fn new(kind: ErrorKindSer, message: &str) -> (e: Error)
        ensures
            e.kind == kind,
            e.message@ == message@,
            !e.from_refused_reservation(),
    {
        Error { kind, message: message.to_string(), refusal: None }
    }

    /// An error of the given kind with the given message.
    pub fn with_message(kind: ErrorKindSer, message: String) -> (e: Error)
        ensures
            e.kind == kind,
            e.message@ == message@,
            !e.from_refused_reservation(),
    {
        Error { kind, message, refusal: None }
    }

    /// The out-of-memory error of a reservation that `Vec::try_reserve`
    /// refused, keeping the refusal.
    pub(crate) fn refused_reservation(message: String, refusal: std::collections::TryReserveError) -> (e: Error)
        ensures
            e.kind == ErrorKindSer::OutOfMemory,
            e.message@ == message@,
            e.from_refused_reservation(),
    {
        Error { kind: ErrorKindSer::OutOfMemory, message, refusal: Some(refusal) }
    }

    /// The kind of this error.
    pub fn kind(&self) -> (k: ErrorKindSer)
        ensures
            k == self.kind,
    {
        self.kind
    }
}

/// Result of the fallible operations of this library.
pub type Result<T> = core::result::Result<T, Error>;

/// The outcome of a format tried after another one failed: what it gave
/// where it succeeded, else its message as an `InvalidData` error.
pub fn second_attempt<T>(second: Result<T>) -> (r: Result<T>)
    ensures
        second matches Ok(v) ==> r matches Ok(w) && w == v,
        second matches Err(e) ==> r matches Err(f) && f.kind == ErrorKindSer::InvalidData
            && f.message@ == e.message@,
{
    match second {
        Ok(v) => Ok(v),
        Err(e) => Err(Error::with_message(ErrorKindSer::InvalidData, e.message)),
    }
}

} // verus!
