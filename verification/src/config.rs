//! What the caller chooses about the rendering.

use vstd::prelude::*;

verus! {

/// The two choices that shape a rendered line.
#[derive(Clone, Copy, Debug)]
pub struct OutputConfig {
    format_seconds: bool,
    ansi: bool,
}

impl OutputConfig {
    /// Whether the time to live is shown as a compact duration rather than
    /// as a bare count of seconds.
    pub closed spec fn spec_format_seconds(&self) -> bool {
        self.format_seconds
    }

    /// Whether the record type and the name are wrapped in color escapes.
    pub closed spec fn spec_ansi(&self) -> bool {
        self.ansi
    }

    pub fn new(format_seconds: bool, ansi: bool) -> (config: Self)
        ensures
            config.spec_format_seconds() == format_seconds,
            config.spec_ansi() == ansi,
    {
        Self { format_seconds, ansi }
    }

    /// The configuration to use on a terminal that does or does not
    /// understand color escapes: colors stay on only where they were asked
    /// for and the terminal supports them.
    pub fn with_color_support(self, supported: bool) -> (config: Self)
        ensures
            config.spec_format_seconds() == self.spec_format_seconds(),
            config.spec_ansi() == (self.spec_ansi() && supported),
    {
        Self { format_seconds: self.format_seconds, ansi: self.ansi && supported }
    }

    #[verifier::when_used_as_spec(spec_format_seconds)]
    pub fn format_seconds(&self) -> (b: bool)
        ensures
            b == self.spec_format_seconds(),
    {
        self.format_seconds
    }

    #[verifier::when_used_as_spec(spec_ansi)]
    pub fn ansi(&self) -> (b: bool)
        ensures
            b == self.spec_ansi(),
    {
        self.ansi
    }
}

} // verus!
