use vstd::prelude::*;

use crate::command::{Command, CommandView};
use crate::help::HelpRender;

verus! {

/// Renders the version text of a command.
pub trait VersionRender: Sized {
    /// The text that `version_text` renders for a command in the given state.
    spec fn spec_version_text(&self, command: CommandView) -> Seq<char>;

    fn version_text<H, V>(&self, command: &Command<H, V>) -> (text: String)
        ensures
            text@ == self.spec_version_text(command@),
    ;
}

/// The default version text: `{name} version {version}`.
pub open spec fn default_version_text(command: CommandView) -> Seq<char> {
    command.name + " version "@ + command.version
}

/// The version renderer a command has unless another is given.
pub struct DefaultVersionRender {}

impl DefaultVersionRender {
    /// Returns a `DefaultVersionRender`.
    pub fn new() -> (r: DefaultVersionRender)
        ensures
            r == (DefaultVersionRender {}),
    {
        DefaultVersionRender {}
    }
}

impl VersionRender for DefaultVersionRender {
    open spec fn spec_version_text(&self, command: CommandView) -> Seq<char> {
        default_version_text(command)
    }

    fn version_text<H, V>(&self, command: &Command<H, V>) -> (text: String) {
        let mut text = command.name().clone();
        text.append(" version ");
        text.append(command.program_version().as_str());
        text
    }
}

} // verus!
