use vstd::prelude::*;

use crate::command::{Command, CommandView};
use crate::flag::{flag_line, FlagView};
use crate::version::VersionRender;

verus! {

/// Renders the help text of a command.
pub trait HelpRender: Sized {
    /// The text that `help_text` renders for a command in the given state.
    spec fn spec_help_text(&self, command: CommandView) -> Seq<char>;

    fn help_text<H, V>(&self, command: &Command<H, V>) -> (text: String)
        ensures
            text@ == self.spec_help_text(command@),
    ;
}

/// The help-text lines of `flags`, each ended by a newline, in order.
pub open spec fn flag_lines(flags: Seq<FlagView>) -> Seq<char>
    decreases flags.len(),
{
    if flags.len() == 0 {
        Seq::empty()
    } else {
        flag_lines(flags.drop_last()) + flag_line(flags.last()) + "\n"@
    }
}

/// The default help text:
///
/// ```text
/// {description}
///
/// Usage:
///   {usage}
///
/// Flags:
///   -{short}, --{long}<tab>{description}     (one line per flag)
/// ```
pub open spec fn default_help_text(command: CommandView) -> Seq<char> {
    command.description + "\n\nUsage:\n  "@ + command.usage + "\n\nFlags:\n"@ + flag_lines(
        command.flags,
    )
}

/// The help renderer a command has unless another is given.
pub struct DefaultHelpRender {}

impl DefaultHelpRender {
    /// Returns a `DefaultHelpRender`.
    pub fn new() -> (r: DefaultHelpRender)
        ensures
            r == (DefaultHelpRender {}),
    {
        DefaultHelpRender {}
    }
}

impl HelpRender for DefaultHelpRender {
    open spec fn spec_help_text(&self, command: CommandView) -> Seq<char> {
        default_help_text(command)
    }

    fn help_text<H, V>(&self, command: &Command<H, V>) -> (text: String) {
        let flags = command.flags();
        let ghost views = command@.flags;
        let mut text = command.description().clone();
        text.append("\n\nUsage:\n  ");
        text.append(command.usage().as_str());
        text.append("\n\nFlags:\n");
        let mut i: usize = 0;
        while i < flags.len()
            invariant
                i <= flags@.len(),
                flags@.len() == views.len(),
                forall|k: int| 0 <= k < views.len() ==> #[trigger] flags@[k]@ == views[k],
                text@ == command@.description + "\n\nUsage:\n  "@ + command@.usage + "\n\nFlags:\n"@
                    + flag_lines(views.take(i as int)),
            decreases flags@.len() - i,
        {
            let line = flags[i].to_string();
            text.append(line.as_str());
            text.append("\n");
            proof {
                assert(views.take(i + 1).drop_last() == views.take(i as int));
            }
            i += 1;
        }
        proof {
            assert(views.take(i as int) == views);
        }
        text
    }
}

} // verus!
