//! Deducing when to use colours.

use vstd::prelude::*;
use vstd::string::StringSliceAdditionalSpecFns;

use crate::bytes::is_word;
use crate::options::error::{Misfire, MisfireView};
use crate::options::flags;
use crate::options::parser::{agrees, FlagsModel, MatchedFlags};

verus! {

/// Under what circumstances we should display coloured, rather than plain,
/// output to the terminal.
///
/// By default, colours are shown when standard output can display them, so
/// that programs reading the output through a pipe are not confused by them.
#[derive(PartialEq, Eq, Debug, Copy, Clone)]
pub enum TerminalColours {
    /// Display them even when output isn't going to a terminal.
    Always,
    /// Display them when output is going to a terminal, but not otherwise.
    Automatic,
    /// Never display them, even when output is going to a terminal.
    Never,
}

/// The colour setting named by a `--colour` value.
pub open spec fn terminal_colours_of(w: Seq<u8>) -> Result<TerminalColours, MisfireView> {
    if w == "always".spec_bytes() {
        Ok(TerminalColours::Always)
    } else if w == "auto".spec_bytes() || w == "automatic".spec_bytes() {
        Ok(TerminalColours::Automatic)
    } else if w == "never".spec_bytes() {
        Ok(TerminalColours::Never)
    } else {
        Err(MisfireView::BadArgument(flags::color(), w))
    }
}

/// The colour setting that `--color` or `--colour` asks for.
pub open spec fn spec_terminal_colours(m: FlagsModel) -> Result<TerminalColours, MisfireView> {
    match m.spec_get_where(seq![flags::color(), flags::colour()]) {
        Err(e) => Err(e),
        Ok(None) => Ok(TerminalColours::Automatic),
        Ok(Some(w)) => terminal_colours_of(w),
    }
}

impl TerminalColours {
    /// Whether output is painted under this setting: always, never, or, by
    /// default, when it goes to a terminal.
    pub fn should_paint(self, to_terminal: bool) -> (r: bool)
        ensures
            r == match self {
                TerminalColours::Always => true,
                TerminalColours::Automatic => to_terminal,
                TerminalColours::Never => false,
            },
    {
        match self {
            TerminalColours::Always => true,
            TerminalColours::Automatic => to_terminal,
            TerminalColours::Never => false,
        }
    }

    /// The colour setting when none is given.
    pub fn default() -> (r: TerminalColours)
        ensures
            r == TerminalColours::Automatic,
    {
        TerminalColours::Automatic
    }

    /// Determine which terminal colour conditions to use.
    pub fn deduce(matches: &MatchedFlags) -> (r: Result<TerminalColours, Misfire>)
        ensures
            agrees(r, spec_terminal_colours(matches.model())),
    {
        let args = vec![flags::color(), flags::colour()];
        assert(args@ =~= seq![flags::color(), flags::colour()]);
        let word = match matches.get_where(&args)? {
            Some(w) => w,
            None => return Ok(TerminalColours::default()),
        };
        let w = word.as_slice();
        if is_word(w, "always") {
            Ok(TerminalColours::Always)
        } else if is_word(w, "auto") || is_word(w, "automatic") {
            Ok(TerminalColours::Automatic)
        } else if is_word(w, "never") {
            Ok(TerminalColours::Never)
        } else {
            Err(Misfire::BadArgument(flags::color(), word))
        }
    }
}

} // verus!
