use super::arg_enums::Format;
use vstd::prelude::*;

verus! {

/// Where the output of a command goes, and in what form.
#[derive(Debug, Copy, Clone, PartialEq, Eq, Structural)]
pub enum Sink {
    /// Written to the output file, byte for byte.
    File,
    /// Printed as the text that it is.
    Text,
    /// Printed as a list of byte values.
    Bytes,
}

/// The sink of output: the file where a path is given, whatever the
/// format; else the screen, as text for the text envelope and as a list of
/// bytes for binary output.
pub open spec fn sink_for(has_path: bool, format: Format) -> Sink {
    if has_path {
        Sink::File
    } else if format == Format::Pem {
        Sink::Text
    } else {
        Sink::Bytes
    }
}

/// Decides where the output of a command goes.
pub fn output(output_path: &Option<String>, format: Format) -> (sink: Sink)
    ensures
        sink == sink_for(output_path is Some, format),
{
    match output_path {
        Some(_) => Sink::File,
        None => if format == Format::Pem {
            Sink::Text
        } else {
            Sink::Bytes
        },
    }
}

} // verus!
