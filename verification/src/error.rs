use vstd::prelude::*;
use vstd::string::StringExecFns;

verus! {

/// Why a mirror could not be started.
#[derive(Clone, Debug)]
pub enum ReplayError {
    /// The configuration breaks one of its rules; the text says which.
    InvalidConfig(String),
}

/// The text by which an error presents itself.
pub open spec fn error_text(e: ReplayError) -> Seq<char> {
    match e {
        ReplayError::InvalidConfig(msg) => "invalid config: "@ + msg@,
    }
}

impl ReplayError {
    /// The error as a line of text, such as `invalid config: channel_buffer_size must be > 0`.
    pub fn describe(&self) -> (text: String)
        ensures
            text@ == error_text(*self),
    {
        match self {
            ReplayError::InvalidConfig(msg) => {
                let prefix = "invalid config: ".to_owned();
                prefix.concat(msg.as_str())
            },
        }
    }
}

} // verus!
