use vstd::prelude::*;

verus! {

/// Why a build run stopped.
#[derive(Debug, Clone)]
pub enum ContainerError {
    /// The configuration file is missing, unreadable or incomplete.
    Configuration(String),
    /// The runtime refused an operation, with a status code and a message.
    Fault { code: u16, message: String },
    /// Any other failure talking to the runtime.
    Transport(String),
}

/// An error as plain values.
pub enum ErrorView {
    Configuration(Seq<char>),
    Fault { code: u16, message: Seq<char> },
    Transport(Seq<char>),
}

impl View for ContainerError {
    type V = ErrorView;

    open spec fn view(&self) -> ErrorView {
        match self {
            ContainerError::Configuration(m) => ErrorView::Configuration(m@),
            ContainerError::Fault { code, message } => ErrorView::Fault {
                code: *code,
                message: message@,
            },
            ContainerError::Transport(m) => ErrorView::Transport(m@),
        }
    }
}

} // verus!
