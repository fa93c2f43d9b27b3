//! Options of the HTML renderer, and a builder for them.
use vstd::prelude::*;

verus! {

/// Options of the HTML renderer.
#[derive(Debug, PartialEq, Eq, Structural, Hash, Clone, Copy)]
pub struct RenderOptions {
    /// The initial header level.
    pub initial_header_level: u8,
    /// Produce a standalone document.
    pub standalone: bool,
}

impl Default for RenderOptions {
    fn default() -> (r: RenderOptions)
        ensures
            r.initial_header_level == 0,
            !r.standalone,
    {
        RenderOptions { initial_header_level: 0, standalone: false }
    }
}

/// Builds render options; a field not set takes its default: header level 0, standalone.
#[derive(Debug, PartialEq, Eq, Structural, Hash, Clone, Copy)]
pub struct RenderOptionsBuilder {
    pub initial_header_level: Option<u8>,
    pub standalone: Option<bool>,
}

impl Default for RenderOptionsBuilder {
    fn default() -> (r: RenderOptionsBuilder)
        ensures
            r.initial_header_level is None,
            r.standalone is None,
    {
        RenderOptionsBuilder { initial_header_level: None, standalone: None }
    }
}

impl RenderOptionsBuilder {
    /// Sets the initial header level.
    pub fn initial_header_level(&mut self, value: u8) -> (r: &mut Self)
        ensures
            r.initial_header_level == Some(value),
            r.standalone == old(self).standalone,
            *final(self) == *final(r),
    {
        self.initial_header_level = Some(value);
        self
    }

    /// Sets whether the document is standalone.
    pub fn standalone(&mut self, value: bool) -> (r: &mut Self)
        ensures
            r.standalone == Some(value),
            r.initial_header_level == old(self).initial_header_level,
            *final(self) == *final(r),
    {
        self.standalone = Some(value);
        self
    }

    /// The options, with the defaults for the fields not set.
    pub fn build(&mut self) -> (r: RenderOptions)
        ensures
            r.initial_header_level == match old(self).initial_header_level {
                Some(v) => v,
                None => 0u8,
            },
            r.standalone == match old(self).standalone {
                Some(v) => v,
                None => true,
            },
            *final(self) == *old(self),
    {
        RenderOptions {
            initial_header_level: match self.initial_header_level {
                Some(v) => v,
                None => 0,
            },
            standalone: match self.standalone {
                Some(v) => v,
                None => true,
            },
        }
    }
}

impl From<bool> for RenderOptions {
    fn from(standalone: bool) -> (r: RenderOptions) {
        let mut b = RenderOptionsBuilder::default();
        b.standalone(standalone);
        b.build()
    }
}

impl vstd::std_specs::convert::FromSpecImpl<bool> for RenderOptions {
    open spec fn obeys_from_spec() -> bool {
        true
    }

    open spec fn from_spec(standalone: bool) -> RenderOptions {
        RenderOptions { initial_header_level: 0, standalone: standalone }
    }
}

} // verus!
