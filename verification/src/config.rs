//! The configuration: where the capture is read from and written to, and the
//! modifiers to run.
use vstd::prelude::*;
use crate::techniques::ModifierConfig;

verus! {

/// Input and output capture paths and the modifiers to run, in order.
#[derive(Debug, Clone)]
pub struct Config {
    pub input: String,
    pub output: String,
    pub modifiers: Vec<ModifierConfig>,
}

/// A modifier as the editor shows it: its configuration and whether it is
/// switched on.
#[derive(Debug, Clone, Copy, PartialEq, Eq, Structural)]
pub struct ModifierUi {
    pub enabled: bool,
    pub config: ModifierConfig,
}

impl Default for Config {
    /// Reads "input.pcap", writes "output.pcap", runs no modifier.
    fn default() -> (r: Self)
        ensures
            r.input@ == "input.pcap"@,
            r.output@ == "output.pcap"@,
            r.modifiers@ == Seq::<ModifierConfig>::empty(),
    {
        Self {
            input: String::from_str("input.pcap"),
            output: String::from_str("output.pcap"),
            modifiers: Vec::new(),
        }
    }
}

/// The message `validate` gives for a configuration, if any.
pub open spec fn validation_error(input: Seq<char>, output: Seq<char>) -> Option<Seq<char>> {
    if input.len() == 0 {
        Some("Input path cannot be empty"@)
    } else if output.len() == 0 {
        Some("Output path cannot be empty"@)
    } else {
        None
    }
}

/// Accepts a configuration whose input and output paths are both non-empty;
/// otherwise says which one is empty (the input first).
pub fn validate(config: &Config) -> (r: Result<(), String>)
    ensures
        match (r, validation_error(config.input@, config.output@)) {
            (Ok(()), None) => true,
            (Err(msg), Some(expected)) => msg@ == expected,
            _ => false,
        },
{
    if config.input.as_str().is_empty() {
        return Err(String::from_str("Input path cannot be empty"));
    }
    if config.output.as_str().is_empty() {
        return Err(String::from_str("Output path cannot be empty"));
    }
    Ok(())
}

} // verus!
