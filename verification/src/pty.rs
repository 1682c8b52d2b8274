//! Data types of the PTY boundary: the terminal size handed to the OS PTY
//! and the error taxonomy surfaced by the PTY manager. The I/O itself lives
//! outside the library.

use vstd::prelude::*;

verus! {

/// Terminal size in rows and columns; pixel dimensions are not modelled.
#[derive(Debug, Clone, Copy, PartialEq, Eq, Structural)]
pub struct PtySize {
    pub rows: u16,
    pub cols: u16,
}

impl Default for PtySize {
    /// The conventional 24×80 terminal.
    fn default() -> (r: Self)
        ensures
            r.rows == 24,
            r.cols == 80,
    {
        PtySize { rows: 24, cols: 80 }
    }
}

/// Errors surfaced by the PTY manager and the raw-mode guard.
#[derive(Debug, Clone, PartialEq)]
pub enum PtyError {
    /// OS PTY allocation, reader cloning, or resize failed.
    CreateError(String),
    /// The child could not be started, waited for, or killed.
    SpawnError(String),
    /// Writing to the child's input failed.
    WriteError(String),
    /// A generic I/O fault not covered by the others.
    IoError(String),
    /// Getting or setting terminal attributes failed.
    TermiosError(String),
}

impl PtyError {
    /// The displayable description: a fixed prefix naming the failure,
    /// followed by the underlying cause.
    pub fn message(&self) -> (s: String)
        ensures
            s@ == match *self {
                PtyError::CreateError(m) => "Failed to create PTY: "@ + m@,
                PtyError::SpawnError(m) => "Failed to spawn command: "@ + m@,
                PtyError::WriteError(m) => "Failed to write to PTY: "@ + m@,
                PtyError::IoError(m) => "IO error: "@ + m@,
                PtyError::TermiosError(m) => "Failed to configure terminal: "@ + m@,
            },
    {
        let mut s = String::new();
        match self {
            PtyError::CreateError(m) => {
                s.append("Failed to create PTY: ");
                s.append(m.as_str());
            },
            PtyError::SpawnError(m) => {
                s.append("Failed to spawn command: ");
                s.append(m.as_str());
            },
            PtyError::WriteError(m) => {
                s.append("Failed to write to PTY: ");
                s.append(m.as_str());
            },
            PtyError::IoError(m) => {
                s.append("IO error: ");
                s.append(m.as_str());
            },
            PtyError::TermiosError(m) => {
                s.append("Failed to configure terminal: ");
                s.append(m.as_str());
            },
        }
        s
    }
}

} // verus!
