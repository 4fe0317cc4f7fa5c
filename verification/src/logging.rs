//! Which log sinks a transport mode gets.

use vstd::prelude::*;

verus! {

/// How the server talks to its client.
#[derive(Debug, Clone, Copy, PartialEq, Eq, Structural)]
pub enum TransportMode {
    /// Standard input and output: the client owns the terminal.
    Stdio,
    /// Streamable HTTP.
    Stream,
}

/// The sinks that log records are written to.
#[derive(Debug)]
pub enum LogSinks {
    /// Nothing is logged.
    Silent,
    /// Records are appended to the named file only.
    File(String),
    /// Records go to standard error only.
    Console,
    /// Records go to standard error and are appended to the named file.
    ConsoleAndFile(String),
}

/// The sinks as a plain value: the file name by its characters.
pub enum LogSinksView {
    Silent,
    File(Seq<char>),
    Console,
    ConsoleAndFile(Seq<char>),
}

impl View for LogSinks {
    type V = LogSinksView;

    open spec fn view(&self) -> LogSinksView {
        match self {
            LogSinks::Silent => LogSinksView::Silent,
            LogSinks::File(name) => LogSinksView::File(name@),
            LogSinks::Console => LogSinksView::Console,
            LogSinks::ConsoleAndFile(name) => LogSinksView::ConsoleAndFile(name@),
        }
    }
}

/// The sinks for a mode and an optional log file.
///
/// Over standard input and output nothing may reach standard error, since
/// any stray output there can break the client's handshake: only a file is
/// written, and only on request. Over HTTP the console always logs, and the
/// file is added on request.
pub open spec fn sinks_for(mode: TransportMode, log_file: Option<Seq<char>>) -> LogSinksView {
    match (mode, log_file) {
        (TransportMode::Stdio, None) => LogSinksView::Silent,
        (TransportMode::Stdio, Some(name)) => LogSinksView::File(name),
        (TransportMode::Stream, None) => LogSinksView::Console,
        (TransportMode::Stream, Some(name)) => LogSinksView::ConsoleAndFile(name),
    }
}

/// Chooses the log sinks for a transport mode.
pub fn init_logging(mode: TransportMode, log_file: Option<String>) -> (sinks: LogSinks)
    ensures
        sinks@ == sinks_for(
            mode,
            match log_file {
                Some(name) => Some(name@),
                None => None,
            },
        ),
{
    match mode {
        TransportMode::Stdio => match log_file {
            Some(name) => LogSinks::File(name),
            None => LogSinks::Silent,
        },
        TransportMode::Stream => match log_file {
            Some(name) => LogSinks::ConsoleAndFile(name),
            None => LogSinks::Console,
        },
    }
}

} // verus!
