//! The two envelope kinds a conversion can read or write, and the option
//! pair that selects one kind for the input and one for the output.

use vstd::prelude::*;

verus! {

/// The envelope kind of a conversion input or output.
#[derive(Clone, Copy, Debug, PartialEq, Eq, Structural)]
pub enum DataType {
    /// A bare encoded string: `<z85-text>:<pad-count>` for Z85, or plain
    /// Base64 text.
    Raw,
    /// A data URL: `data:<mime-type>;<encoding-tag>,<payload>`.
    DataURL,
}

/// The requested (input kind, output kind) pair of a conversion.
#[derive(Clone, Copy, Debug, PartialEq, Eq, Structural)]
pub struct ConversionOptions {
    pub input: DataType,
    pub output: DataType,
}

impl ConversionOptions {
    pub fn new(input: DataType, output: DataType) -> (r: ConversionOptions)
        ensures
            r.input == input,
            r.output == output,
    {
        ConversionOptions { input, output }
    }

    pub fn input(&self) -> (r: DataType)
        ensures
            r == self.input,
    {
        self.input
    }

    pub fn set_input(&mut self, input: DataType)
        ensures
            final(self).input == input,
            final(self).output == old(self).output,
    {
        self.input = input;
    }

    pub fn output(&self) -> (r: DataType)
        ensures
            r == self.output,
    {
        self.output
    }

    pub fn set_output(&mut self, output: DataType)
        ensures
            final(self).output == output,
            final(self).input == old(self).input,
    {
        self.output = output;
    }
}

} // verus!
