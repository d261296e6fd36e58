//! Errors of the PTY layer, with their messages and classification.

use vstd::prelude::*;
use crate::text::{decimal, owned, push_decimal, push_signed_decimal, push_str, signed_decimal, string_from_chars};

verus! {

/// Category of an I/O failure (the kinds of `std::io::ErrorKind` that the
/// PTY layer tells apart, the rest being `Other`).
#[derive(Debug, Clone, Copy, PartialEq, Eq, Structural)]
pub enum IoErrorKind {
    NotFound,
    PermissionDenied,
    ConnectionRefused,
    ConnectionReset,
    ConnectionAborted,
    NotConnected,
    AddrInUse,
    AddrNotAvailable,
    BrokenPipe,
    AlreadyExists,
    WouldBlock,
    InvalidInput,
    InvalidData,
    TimedOut,
    WriteZero,
    Interrupted,
    Unsupported,
    UnexpectedEof,
    OutOfMemory,
    Other,
}

/// An I/O failure: its kind and its message.
#[derive(Debug)]
pub struct IoFailure {
    pub kind: IoErrorKind,
    pub message: String,
}

impl IoFailure {
    /// Creates a failure of `kind` with `message`.
    pub fn new(kind: IoErrorKind, message: &str) -> (e: Self)
        ensures
            e.kind == kind,
            e.message@ == message@,
    {
        IoFailure { kind, message: owned(message) }
    }
}

/// Errors of the PTY operations.
#[derive(Debug)]
pub enum PtyError {
    /// Creating the master/slave pair failed.
    CreateFailed { message: String },
    /// Spawning the child process failed.
    SpawnFailed { command: String, source: IoFailure },
    /// I/O on the PTY master failed.
    Io { source: IoFailure },
    /// Resizing the PTY failed.
    ResizeFailed { cols: u16, rows: u16, source: IoFailure },
    /// Signalling the process failed.
    SignalFailed { pid: u32, source: IoFailure },
    /// The child process has already exited.
    ProcessExited { pid: u32, exit_code: i32 },
    /// The PTY was closed unexpectedly.
    Closed,
    /// Invalid configuration.
    InvalidConfig { message: String },
    /// Operation not supported on this platform.
    Unsupported { operation: String },
    /// An asynchronous operation timed out.
    Timeout { ms: u64, operation: String },
}

impl PtyError {
    /// Spawn failure of `command`.
    pub fn spawn_failed(command: &str, source: IoFailure) -> (e: Self)
        ensures
            e matches PtyError::SpawnFailed { command: c, source: s } && c@ == command@ && s == source,
    {
        PtyError::SpawnFailed { command: owned(command), source }
    }

    /// Resize failure to `cols` x `rows`.
    pub fn resize_failed(cols: u16, rows: u16, source: IoFailure) -> (e: Self)
        ensures
            e == (PtyError::ResizeFailed { cols, rows, source }),
    {
        PtyError::ResizeFailed { cols, rows, source }
    }

    /// Failure to signal process `pid`.
    pub fn signal_failed(pid: u32, source: IoFailure) -> (e: Self)
        ensures
            e == (PtyError::SignalFailed { pid, source }),
    {
        PtyError::SignalFailed { pid, source }
    }

    /// Invalid configuration, with its explanation.
    pub fn invalid_config(message: &str) -> (e: Self)
        ensures
            e matches PtyError::InvalidConfig { message: m } && m@ == message@,
    {
        PtyError::InvalidConfig { message: owned(message) }
    }

    /// Unsupported `operation`.
    pub fn unsupported(operation: &str) -> (e: Self)
        ensures
            e matches PtyError::Unsupported { operation: o } && o@ == operation@,
    {
        PtyError::Unsupported { operation: owned(operation) }
    }

    /// Timeout of `operation` after `ms` milliseconds.
    pub fn timeout(ms: u64, operation: &str) -> (e: Self)
        ensures
            e matches PtyError::Timeout { ms: t, operation: o } && t == ms && o@ == operation@,
    {
        PtyError::Timeout { ms, operation: owned(operation) }
    }

    /// Failure to create the PTY, with its explanation.
    pub fn create_failed(message: &str) -> (e: Self)
        ensures
            e matches PtyError::CreateFailed { message: m } && m@ == message@,
    {
        PtyError::CreateFailed { message: owned(message) }
    }

    /// Whether the error says that the process has already exited.
    pub fn is_process_exited(&self) -> (b: bool)
        ensures
            b == (self is ProcessExited),
    {
        match self {
            PtyError::ProcessExited { .. } => true,
            _ => false,
        }
    }

    /// An I/O failure that may go away when retried: would block,
    /// interrupted, timed out.
    pub open spec fn temporary(&self) -> bool {
        self matches PtyError::Io { source } && (source.kind == IoErrorKind::WouldBlock || source.kind
            == IoErrorKind::Interrupted || source.kind == IoErrorKind::TimedOut)
    }

    /// The PTY is gone: closed, or a broken pipe.
    pub open spec fn closed(&self) -> bool {
        self is Closed || (self matches PtyError::Io { source } && source.kind == IoErrorKind::BrokenPipe)
    }

    /// Whether the error is a temporary I/O condition (would block,
    /// interrupted, timed out), worth retrying.
    pub fn is_temporary_io(&self) -> (b: bool)
        ensures
            b == self.temporary(),
    {
        match self {
            PtyError::Io { source } => {
                source.kind == IoErrorKind::WouldBlock || source.kind == IoErrorKind::Interrupted || source.kind
                    == IoErrorKind::TimedOut
            },
            _ => false,
        }
    }

    /// Whether the error says that the PTY was closed (explicitly, or as a
    /// broken pipe).
    pub fn is_closed(&self) -> (b: bool)
        ensures
            b == self.closed(),
    {
        match self {
            PtyError::Closed => true,
            PtyError::Io { source } => source.kind == IoErrorKind::BrokenPipe,
            _ => false,
        }
    }

    /// The message describing the error.
    pub open spec fn message(&self) -> Seq<char> {
        match self {
            PtyError::CreateFailed { message } => "Falha ao criar PTY: "@ + message@,
            PtyError::SpawnFailed { command, source } => "Falha ao spawnar processo '"@ + command@ + "': "@
                + source.message@,
            PtyError::Io { source } => "Erro de I/O no PTY: "@ + source.message@,
            PtyError::ResizeFailed { cols, rows, source } => "Falha ao redimensionar PTY para "@ + decimal(
                *cols as nat,
            ) + "x"@ + decimal(*rows as nat) + ": "@ + source.message@,
            PtyError::SignalFailed { pid, source } => "Falha ao enviar sinal para processo "@ + decimal(*pid as nat)
                + ": "@ + source.message@,
            PtyError::ProcessExited { pid, exit_code } => "Processo filho (PID "@ + decimal(*pid as nat)
                + ") já terminou com código "@ + signed_decimal(*exit_code as int),
            PtyError::Closed => "PTY fechado inesperadamente"@,
            PtyError::InvalidConfig { message } => "Configuração inválida: "@ + message@,
            PtyError::Unsupported { operation } => "Operação não suportada: "@ + operation@,
            PtyError::Timeout { ms, operation } => "Timeout após "@ + decimal(*ms as nat) + "ms: "@ + operation@,
        }
    }

    /// The message describing the error (see [`PtyError::message`]).
    pub fn to_string(&self) -> (s: String)
        ensures
            s@ == self.message(),
    {
        let mut v: Vec<char> = Vec::new();
        match self {
            PtyError::CreateFailed { message } => {
                push_str(&mut v, "Falha ao criar PTY: ");
                push_str(&mut v, message.as_str());
            },
            PtyError::SpawnFailed { command, source } => {
                push_str(&mut v, "Falha ao spawnar processo '");
                push_str(&mut v, command.as_str());
                push_str(&mut v, "': ");
                push_str(&mut v, source.message.as_str());
            },
            PtyError::Io { source } => {
                push_str(&mut v, "Erro de I/O no PTY: ");
                push_str(&mut v, source.message.as_str());
            },
            PtyError::ResizeFailed { cols, rows, source } => {
                push_str(&mut v, "Falha ao redimensionar PTY para ");
                push_decimal(&mut v, *cols as u64);
                push_str(&mut v, "x");
                push_decimal(&mut v, *rows as u64);
                push_str(&mut v, ": ");
                push_str(&mut v, source.message.as_str());
            },
            PtyError::SignalFailed { pid, source } => {
                push_str(&mut v, "Falha ao enviar sinal para processo ");
                push_decimal(&mut v, *pid as u64);
                push_str(&mut v, ": ");
                push_str(&mut v, source.message.as_str());
            },
            PtyError::ProcessExited { pid, exit_code } => {
                push_str(&mut v, "Processo filho (PID ");
                push_decimal(&mut v, *pid as u64);
                push_str(&mut v, ") já terminou com código ");
                push_signed_decimal(&mut v, *exit_code as i64);
            },
            PtyError::Closed => {
                push_str(&mut v, "PTY fechado inesperadamente");
            },
            PtyError::InvalidConfig { message } => {
                push_str(&mut v, "Configuração inválida: ");
                push_str(&mut v, message.as_str());
            },
            PtyError::Unsupported { operation } => {
                push_str(&mut v, "Operação não suportada: ");
                push_str(&mut v, operation.as_str());
            },
            PtyError::Timeout { ms, operation } => {
                push_str(&mut v, "Timeout após ");
                push_decimal(&mut v, *ms);
                push_str(&mut v, "ms: ");
                push_str(&mut v, operation.as_str());
            },
        }
        string_from_chars(&v)
    }
}

/// Attaching PTY context to an I/O failure.
pub trait IoErrorExt {
    /// The PTY error for this failure during `operation`.
    fn pty_context(self, operation: &str) -> PtyError;
}

impl IoErrorExt for IoFailure {
    /// Wraps the failure as [`PtyError::Io`]; the operation name is not kept.
    fn pty_context(self, _operation: &str) -> (e: PtyError)
        ensures
            e == (PtyError::Io { source: self }),
    {
        PtyError::Io { source: self }
    }
}

/// No error is both worth retrying and a closed PTY, and an exited process
/// is neither.
pub proof fn lemma_error_classes_disjoint(e: PtyError)
    ensures
        !(e.temporary() && e.closed()),
        e is ProcessExited ==> !e.temporary() && !e.closed(),
{
}

} // verus!
