use vstd::prelude::*;

use crate::flag::{is_flag, spec_is_flag, token_matches, Flag, FlagValue, FlagView, FLAG_SHORT_START};
use crate::help::{DefaultHelpRender, HelpRender};
use crate::partition::{
    lemma_match_is_flag, lemma_updated_flag_step, positional_of, tokens_of, updated_flag,
    updated_flags,
};
use crate::version::{DefaultVersionRender, VersionRender};

verus! {

/// Short identifier of the help flag.
pub const HELP_SHORT: &'static str = "h";

/// Long identifier of the help flag.
pub const HELP_LONG: &'static str = "help";

/// Short identifier of the version flag.
pub const VERSION_SHORT: &'static str = "v";

/// Long identifier of the version flag.
pub const VERSION_LONG: &'static str = "version";

/// Mathematical model of a [`Command`]: its metadata and its flags, in order.
pub ghost struct CommandView {
    pub name: Seq<char>,
    pub version: Seq<char>,
    pub description: Seq<char>,
    pub usage: Seq<char>,
    pub flags: Seq<FlagView>,
}

/// Why a flag could not be added to a command.
#[derive(Debug)]
pub enum FlagError {
    /// The short or the long identifier is empty.
    EmptyIdentifier,
    /// Another flag of the command has the same short or the same long identifier.
    DuplicateIdentifier,
}

/// The handler was due to run but no positional input was given.
#[derive(Debug)]
pub struct MissingInputError {}

/// What one execution of a command ends in.
#[derive(Debug)]
pub enum Execution {
    /// The help flag was set: show this text, do not run the handler.
    HelpShown(String),
    /// The version flag was set (and the help flag was not): show this text,
    /// do not run the handler.
    VersionShown(String),
    /// Run the handler with this input, the first positional token, and with
    /// the flags of [`Command::get_flags`].
    Run(String),
}

/// The help flag of a program called `name`: `-h`, `--help`.
pub open spec fn help_flag(name: Seq<char>) -> FlagView {
    FlagView {
        short: HELP_SHORT@,
        long: HELP_LONG@,
        description: "help for "@ + name,
        value: FlagValue::Bool(false),
    }
}

/// The version flag of a program called `name`: `-v`, `--version`.
pub open spec fn version_flag(name: Seq<char>) -> FlagView {
    FlagView {
        short: VERSION_SHORT@,
        long: VERSION_LONG@,
        description: "version for "@ + name,
        value: FlagValue::Bool(false),
    }
}

/// `flag` could join `flags`: both identifiers are non-empty and neither is
/// taken by a flag already in `flags`.
pub open spec fn can_add(flags: Seq<FlagView>, flag: FlagView) -> bool {
    &&& flag.short.len() > 0
    &&& flag.long.len() > 0
    &&& forall|i: int| 0 <= i < flags.len() ==> #[trigger] flags[i].short != flag.short
    &&& forall|i: int| 0 <= i < flags.len() ==> #[trigger] flags[i].long != flag.long
}

/// The outcome `r` of adding `flag` to a command `before`, giving `after`:
/// success exactly when [`can_add`] holds, and then `flag` is the new last
/// flag; otherwise the command is unchanged and the error says why.
pub open spec fn flag_added(
    before: CommandView,
    after: CommandView,
    flag: FlagView,
    r: Result<(), FlagError>,
) -> bool {
    &&& r is Ok <==> can_add(before.flags, flag)
    &&& r is Ok ==> after == (CommandView { flags: before.flags.push(flag), ..before })
    &&& r is Err ==> after == before
    &&& (r matches Err(FlagError::EmptyIdentifier)) <==> (flag.short.len() == 0
        || flag.long.len() == 0)
}

/// The view of a flag with the given fields.
pub open spec fn flag_view(
    short: Seq<char>,
    long: Seq<char>,
    description: Seq<char>,
    value: FlagValue,
) -> FlagView {
    FlagView { short, long, description, value }
}

/// The flags of a command: the help flag, then the version flag, then the
/// flags added; every identifier non-empty, no identifier used twice.
pub open spec fn well_formed_flags(flags: Seq<FlagView>) -> bool {
    &&& flags.len() >= 2
    &&& flags[0].short == HELP_SHORT@
    &&& flags[0].long == HELP_LONG@
    &&& flags[1].short == VERSION_SHORT@
    &&& flags[1].long == VERSION_LONG@
    &&& forall|i: int| 0 <= i < flags.len() ==> #[trigger] flags[i].short.len() > 0
    &&& forall|i: int| 0 <= i < flags.len() ==> #[trigger] flags[i].long.len() > 0
    &&& forall|i: int, j: int|
        0 <= i < j < flags.len() ==> #[trigger] flags[i].short != #[trigger] flags[j].short
    &&& forall|i: int, j: int|
        0 <= i < j < flags.len() ==> #[trigger] flags[i].long != #[trigger] flags[j].long
}

/// A flag is set when it holds `Bool(true)`.
pub open spec fn is_set(flag: FlagView) -> bool {
    flag.value == FlagValue::Bool(true)
}

/// The tokens a command reads from the raw argument list `args`, whose first
/// entry is the program path: the rest, or the help flag `-h` when there is
/// no other entry.
pub open spec fn user_tokens(args: Seq<Seq<char>>) -> Seq<Seq<char>> {
    if args.len() <= 1 {
        seq!["-"@ + HELP_SHORT@]
    } else {
        args.drop_first()
    }
}

/// With no entry after the program path, the pass sets the help flag, so an
/// execution ends with the help text.
pub proof fn lemma_no_user_tokens_sets_help(flags: Seq<FlagView>, args: Seq<Seq<char>>)
    requires
        well_formed_flags(flags),
        args.len() <= 1,
    ensures
        is_set(updated_flags(flags, user_tokens(args))[0]),
{
    assert(token_matches(flags[0], user_tokens(args)[0]));
}

/// The single token `-v` sets the version flag and leaves the help flag as it
/// was, so on a command whose help flag is not set an execution ends with the
/// version text.
pub proof fn lemma_version_token(flags: Seq<FlagView>)
    requires
        well_formed_flags(flags),
    ensures
        is_set(updated_flags(flags, seq!["-"@ + VERSION_SHORT@])[1]),
        updated_flags(flags, seq!["-"@ + VERSION_SHORT@])[0] == flags[0],
{
    let tokens = seq!["-"@ + VERSION_SHORT@];
    reveal_strlit("-");
    reveal_strlit("--");
    reveal_strlit("h");
    reveal_strlit("v");
    reveal_strlit("help");
    assert(token_matches(flags[1], tokens[0]));
    assert(HELP_SHORT@ =~= seq!['h']);
    assert(VERSION_SHORT@ =~= seq!['v']);
    assert(HELP_LONG@.len() == 4);
    assert(tokens[0].len() == 2);
    assert(tokens[0][1] != ("-"@ + HELP_SHORT@)[1]);
    assert(!token_matches(flags[0], tokens[0]));
}

/// A command: metadata, flags, and the two renderers of its help and version text.
pub struct Command<H = DefaultHelpRender, V = DefaultVersionRender> {
    name: String,
    version: String,
    description: String,
    usage: String,
    flags: Vec<Flag>,
    help_render: H,
    version_render: V,
}

impl<H, V> View for Command<H, V> {
    type V = CommandView;

    closed spec fn view(&self) -> CommandView {
        CommandView {
            name: self.name@,
            version: self.version@,
            description: self.description@,
            usage: self.usage@,
            flags: self.flags@.map_values(|f: Flag| f@),
        }
    }
}

impl<H, V> Command<H, V> {
    /// The command's flags are well formed (see [`well_formed_flags`]).
    pub open spec fn wf(&self) -> bool {
        well_formed_flags(self@.flags)
    }

    /// The renderer of the help text.
    pub closed spec fn help_renderer(&self) -> H {
        self.help_render
    }

    /// The renderer of the version text.
    pub closed spec fn version_renderer(&self) -> V {
        self.version_render
    }

    /// The name of the program.
    pub fn name(&self) -> (r: &String)
        ensures
            r@ == self@.name,
    {
        &self.name
    }

    /// The version of the program.
    pub fn program_version(&self) -> (r: &String)
        ensures
            r@ == self@.version,
    {
        &self.version
    }

    /// The description of the command.
    pub fn description(&self) -> (r: &String)
        ensures
            r@ == self@.description,
    {
        &self.description
    }

    /// The usage line of the command.
    pub fn usage(&self) -> (r: &String)
        ensures
            r@ == self@.usage,
    {
        &self.usage
    }

    /// All flags of the command, the help and version flags first.
    pub fn flags(&self) -> (r: &Vec<Flag>)
        ensures
            r@.map_values(|f: Flag| f@) == self@.flags,
    {
        &self.flags
    }
}

impl Command<DefaultHelpRender, DefaultVersionRender> {
    /// Returns a command of the program `name` at `version`, with the help and
    /// version flags and the default renderers.
    pub fn new(name: &str, version: &str, description: &str, usage: &str) -> (r: Command)
        ensures
            r.wf(),
            r@ == (CommandView {
                name: name@,
                version: version@,
                description: description@,
                usage: usage@,
                flags: seq![help_flag(name@), version_flag(name@)],
            }),
    {
        Command::with_renderers(
            name,
            version,
            description,
            usage,
            DefaultHelpRender::new(),
            DefaultVersionRender::new(),
        )
    }
}

impl<H: HelpRender, V: VersionRender> Command<H, V> {
    /// Returns a command of the program `name` at `version`, with the help and
    /// version flags and the given renderers.
    pub fn with_renderers(
        name: &str,
        version: &str,
        description: &str,
        usage: &str,
        help_render: H,
        version_render: V,
    ) -> (r: Command<H, V>)
        ensures
            r.wf(),
            r@ == (CommandView {
                name: name@,
                version: version@,
                description: description@,
                usage: usage@,
                flags: seq![help_flag(name@), version_flag(name@)],
            }),
            r.help_renderer() == help_render,
            r.version_renderer() == version_render,
    {
        let mut help_description = "help for ".to_owned();
        help_description.append(name);
        let mut version_description = "version for ".to_owned();
        version_description.append(name);
        let mut flags: Vec<Flag> = Vec::new();
        flags.push(Flag::new_bool(HELP_SHORT, HELP_LONG, help_description.as_str()));
        flags.push(Flag::new_bool(VERSION_SHORT, VERSION_LONG, version_description.as_str()));
        proof {
            reveal_strlit("h");
            reveal_strlit("help");
            reveal_strlit("v");
            reveal_strlit("version");
            assert(flags@.map_values(|f: Flag| f@) =~= seq![help_flag(name@), version_flag(name@)]);
            assert(HELP_SHORT@ =~= seq!['h']);
            assert(VERSION_SHORT@ =~= seq!['v']);
            assert(HELP_SHORT@[0] != VERSION_SHORT@[0]);
            assert(HELP_LONG@.len() == 4);
            assert(VERSION_LONG@.len() == 7);
            let views = seq![help_flag(name@), version_flag(name@)];
            assert(views[0] == help_flag(name@) && views[1] == version_flag(name@));
            assert(well_formed_flags(views));
        }
        Command {
            name: name.to_owned(),
            version: version.to_owned(),
            description: description.to_owned(),
            usage: usage.to_owned(),
            flags,
            help_render,
            version_render,
        }
    }
}

impl<H: HelpRender, V: VersionRender> Command<H, V> {
    /// Adds `flag` after the flags the command has.
    ///
    /// Fails, leaving the command unchanged, when an identifier of `flag` is
    /// empty, or is already used by a flag of the command.
    pub fn add_flag(&mut self, flag: Flag) -> (r: Result<(), FlagError>)
        requires
            old(self).wf(),
        ensures
            final(self).wf(),
            final(self).help_renderer() == old(self).help_renderer(),
            final(self).version_renderer() == old(self).version_renderer(),
            flag_added(old(self)@, final(self)@, flag@, r),
    {
        if flag.short.as_str().is_empty() || flag.long.as_str().is_empty() {
            return Err(FlagError::EmptyIdentifier);
        }
        let ghost views = self@.flags;
        let mut i: usize = 0;
        while i < self.flags.len()
            invariant
                *self == *old(self),
                self.wf(),
                flag@.short.len() > 0,
                flag@.long.len() > 0,
                self.flags@.map_values(|f: Flag| f@) == views,
                i <= views.len(),
                forall|k: int| 0 <= k < i ==> #[trigger] views[k].short != flag@.short,
                forall|k: int| 0 <= k < i ==> #[trigger] views[k].long != flag@.long,
            decreases views.len() - i,
        {
            if self.flags[i].short == flag.short || self.flags[i].long == flag.long {
                assert(views[i as int] == self.flags@[i as int]@);
                assert(views[i as int].short == flag@.short || views[i as int].long == flag@.long);
                return Err(FlagError::DuplicateIdentifier);
            }
            assert(views[i as int] == self.flags@[i as int]@);
            i += 1;
        }
        let ghost added = flag@;
        self.flags.push(flag);
        assert(self.flags@.map_values(|f: Flag| f@) =~= views.push(added));
        Ok(())
    }

    /// Adds a boolean flag, `false` until seen; fails as [`Command::add_flag`] does.
    pub fn add_boolean_flag(&mut self, short: &str, long: &str, description: &str) -> (r: Result<
        (),
        FlagError,
    >)
        requires
            old(self).wf(),
        ensures
            final(self).wf(),
            final(self).help_renderer() == old(self).help_renderer(),
            final(self).version_renderer() == old(self).version_renderer(),
            flag_added(
                old(self)@,
                final(self)@,
                flag_view(short@, long@, description@, FlagValue::Bool(false)),
                r,
            ),
    {
        self.add_flag(Flag::new_bool(short, long, description))
    }

    /// Adds a text flag with no value; fails as [`Command::add_flag`] does.
    pub fn add_string_flag(&mut self, short: &str, long: &str, description: &str) -> (r: Result<
        (),
        FlagError,
    >)
        requires
            old(self).wf(),
        ensures
            final(self).wf(),
            final(self).help_renderer() == old(self).help_renderer(),
            final(self).version_renderer() == old(self).version_renderer(),
            flag_added(
                old(self)@,
                final(self)@,
                flag_view(short@, long@, description@, FlagValue::String(None)),
                r,
            ),
    {
        self.add_flag(Flag::new_string(short, long, description))
    }

    /// Adds an integer flag with no value; fails as [`Command::add_flag`] does.
    pub fn add_int_flag(&mut self, short: &str, long: &str, description: &str) -> (r: Result<
        (),
        FlagError,
    >)
        requires
            old(self).wf(),
        ensures
            final(self).wf(),
            final(self).help_renderer() == old(self).help_renderer(),
            final(self).version_renderer() == old(self).version_renderer(),
            flag_added(
                old(self)@,
                final(self)@,
                flag_view(short@, long@, description@, FlagValue::Int(None)),
                r,
            ),
    {
        self.add_flag(Flag::new_int(short, long, description))
    }

    /// Adds a floating-point flag with no value; fails as [`Command::add_flag`] does.
    pub fn add_float_flag(&mut self, short: &str, long: &str, description: &str) -> (r: Result<
        (),
        FlagError,
    >)
        requires
            old(self).wf(),
        ensures
            final(self).wf(),
            final(self).help_renderer() == old(self).help_renderer(),
            final(self).version_renderer() == old(self).version_renderer(),
            flag_added(
                old(self)@,
                final(self)@,
                flag_view(short@, long@, description@, FlagValue::Float(None)),
                r,
            ),
    {
        self.add_flag(Flag::new_float(short, long, description))
    }
}

/// The tokens to partition: the entries of the raw argument list `args`
/// after the program path, or the single token `-h` when there is none.
fn user_args(args: &Vec<String>) -> (r: Vec<String>)
    ensures
        tokens_of(r@) == user_tokens(tokens_of(args@)),
{
    let mut tokens: Vec<String> = Vec::new();
    if args.len() <= 1 {
        let mut help_token = FLAG_SHORT_START.to_owned();
        help_token.append(HELP_SHORT);
        tokens.push(help_token);
    } else {
        let mut i: usize = 1;
        while i < args.len()
            invariant
                1 <= i <= args@.len(),
                tokens@.len() == i - 1,
                forall|k: int| 0 <= k < tokens@.len() ==> #[trigger] tokens@[k]@ == args@[k + 1]@,
            decreases args@.len() - i,
        {
            tokens.push(args[i].clone());
            i += 1;
        }
    }
    proof {
        reveal_strlit("-");
        assert(tokens_of(tokens@) =~= user_tokens(tokens_of(args@)));
    }
    tokens
}

impl<H: HelpRender, V: VersionRender> Command<H, V> {
    /// Scans `args` once, in order. A token that is not a flag token is kept
    /// as positional; a flag token sets every flag it names to `Bool(true)`
    /// and is dropped, also when it names none. Returns the positional tokens.
    pub fn update_flags(&mut self, args: &Vec<String>) -> (r: Vec<String>)
        requires
            old(self).wf(),
        ensures
            final(self).wf(),
            tokens_of(r@) == positional_of(tokens_of(args@)),
            final(self)@ == (CommandView {
                flags: updated_flags(old(self)@.flags, tokens_of(args@)),
                ..old(self)@
            }),
            final(self).help_renderer() == old(self).help_renderer(),
            final(self).version_renderer() == old(self).version_renderer(),
    {
        let ghost tokens = tokens_of(args@);
        let ghost initial = old(self)@.flags;
        let mut simple_args: Vec<String> = Vec::new();
        let mut i: usize = 0;
        while i < args.len()
            invariant
                i <= args@.len(),
                tokens == tokens_of(args@),
                initial == old(self)@.flags,
                self.wf(),
                self@ == (CommandView { flags: self@.flags, ..old(self)@ }),
                self.help_render == old(self).help_render,
                self.version_render == old(self).version_render,
                self@.flags == updated_flags(initial, tokens.take(i as int)),
                tokens_of(simple_args@) == positional_of(tokens.take(i as int)),
            decreases args@.len() - i,
        {
            let arg = &args[i];
            proof {
                let next = tokens.take(i + 1);
                assert(next.drop_last() == tokens.take(i as int));
                assert(next.last() == arg@);
            }
            if !is_flag(arg.as_str()) {
                simple_args.push(arg.clone());
                proof {
                    let next = tokens.take(i + 1);
                    reveal(Seq::filter);
                    assert(tokens_of(simple_args@) =~= tokens_of(simple_args@).drop_last().push(arg@));
                    assert forall|k: int| 0 <= k < initial.len() implies #[trigger] updated_flag(
                        initial[k],
                        next,
                    ) == updated_flag(initial[k], tokens.take(i as int)) by {
                        if token_matches(initial[k], arg@) {
                            lemma_match_is_flag(initial[k], arg@);
                        }
                        lemma_updated_flag_step(initial[k], tokens, i as int);
                    }
                    assert(updated_flags(initial, next) =~= updated_flags(
                        initial,
                        tokens.take(i as int),
                    ));
                }
            } else {
                proof {
                    reveal(Seq::filter);
                }
                let ghost before = self@.flags;
                let mut j: usize = 0;
                while j < self.flags.len()
                    invariant
                        i < args@.len(),
                        tokens == tokens_of(args@),
                        initial == old(self)@.flags,
                        initial.len() == before.len(),
                        well_formed_flags(before),
                        arg@ == tokens[i as int],
                        spec_is_flag(arg@),
                        j <= self.flags@.len(),
                        self.flags@.len() == before.len(),
                        before == updated_flags(initial, tokens.take(i as int)),
                        self@ == (CommandView { flags: self@.flags, ..old(self)@ }),
                        self.help_render == old(self).help_render,
                        self.version_render == old(self).version_render,
                        forall|k: int|
                            0 <= k < j ==> #[trigger] self.flags@[k]@ == updated_flag(
                                initial[k],
                                tokens.take(i + 1),
                            ),
                        forall|k: int| j <= k < before.len() ==> #[trigger] self.flags@[k]@ == before[k],
                    decreases self.flags@.len() - j,
                {
                    if self.flags[j].is_match(arg.as_str()) {
                        self.flags[j].value = FlagValue::Bool(true);
                    }
                    proof {
                        lemma_updated_flag_step(initial[j as int], tokens, i as int);
                    }
                    j += 1;
                }
                proof {
                    assert(self@.flags =~= updated_flags(initial, tokens.take(i + 1)));
                    assert(forall|k: int|
                        0 <= k < before.len() ==> #[trigger] self@.flags[k].short == before[k].short
                            && self@.flags[k].long == before[k].long);
                    assert(well_formed_flags(self@.flags));
                }
            }
            i += 1;
        }
        proof {
            assert(tokens.take(i as int) =~= tokens);
        }
        simple_args
    }
}

impl<H: HelpRender, V: VersionRender> Command<H, V> {
    /// The flags the handler is given: all but the help and version flags, in order.
    pub fn get_flags(&self) -> (r: Vec<&Flag>)
        requires
            self.wf(),
        ensures
            r@.len() == self@.flags.len() - 2,
            forall|k: int| 0 <= k < r@.len() ==> #[trigger] r@[k]@ == self@.flags[k + 2],
    {
        let mut simple_flags: Vec<&Flag> = Vec::new();
        let mut i: usize = 2;
        while i < self.flags.len()
            invariant
                2 <= i <= self.flags@.len(),
                simple_flags@.len() == i - 2,
                forall|k: int|
                    0 <= k < simple_flags@.len() ==> #[trigger] simple_flags@[k]@ == self@.flags[k
                        + 2],
            decreases self.flags@.len() - i,
        {
            simple_flags.push(&self.flags[i]);
            i += 1;
        }
        simple_flags
    }

    /// The help text, as the command's help renderer gives it.
    pub fn help(&self) -> (r: String)
        ensures
            r@ == self.help_renderer().spec_help_text(self@),
    {
        self.help_render.help_text(self)
    }

    /// The version text, as the command's version renderer gives it.
    pub fn version(&self) -> (r: String)
        ensures
            r@ == self.version_renderer().spec_version_text(self@),
    {
        self.version_render.version_text(self)
    }

    /// Whether the help flag is set.
    fn help_exit(&self) -> (r: bool)
        requires
            self.wf(),
        ensures
            r == is_set(self@.flags[0]),
    {
        match self.flags[0].value {
            FlagValue::Bool(value) => value,
            _ => false,
        }
    }

    /// Whether the version flag is set.
    fn version_exit(&self) -> (r: bool)
        requires
            self.wf(),
        ensures
            r == is_set(self@.flags[1]),
    {
        match self.flags[1].value {
            FlagValue::Bool(value) => value,
            _ => false,
        }
    }

    /// Runs the command on the raw argument list `args`, whose first entry is
    /// the program path.
    ///
    /// The entries after the first are partitioned by [`Command::update_flags`];
    /// with no such entry, the single token `-h` is used instead. Then the help
    /// flag, if set, ends the run with the help text; else the version flag, if
    /// set, with the version text; else the handler is due to run on the first
    /// positional token, and with no positional token the run fails.
    pub fn execute(&mut self, args: &Vec<String>) -> (r: Result<Execution, MissingInputError>)
        requires
            old(self).wf(),
        ensures
            final(self).wf(),
            final(self)@ == (CommandView {
                flags: updated_flags(old(self)@.flags, user_tokens(tokens_of(args@))),
                ..old(self)@
            }),
            final(self).help_renderer() == old(self).help_renderer(),
            final(self).version_renderer() == old(self).version_renderer(),
            match r {
                Ok(Execution::HelpShown(text)) => {
                    &&& is_set(final(self)@.flags[0])
                    &&& text@ == final(self).help_renderer().spec_help_text(final(self)@)
                },
                Ok(Execution::VersionShown(text)) => {
                    &&& !is_set(final(self)@.flags[0])
                    &&& is_set(final(self)@.flags[1])
                    &&& text@ == final(self).version_renderer().spec_version_text(final(self)@)
                },
                Ok(Execution::Run(input)) => {
                    let positional = positional_of(user_tokens(tokens_of(args@)));
                    &&& !is_set(final(self)@.flags[0])
                    &&& !is_set(final(self)@.flags[1])
                    &&& positional.len() > 0
                    &&& input@ == positional[0]
                },
                Err(_) => {
                    &&& !is_set(final(self)@.flags[0])
                    &&& !is_set(final(self)@.flags[1])
                    &&& positional_of(user_tokens(tokens_of(args@))).len() == 0
                },
            },
    {
        let tokens = user_args(args);
        let positional = self.update_flags(&tokens);
        if self.help_exit() {
            return Ok(Execution::HelpShown(self.help()));
        }
        if self.version_exit() {
            return Ok(Execution::VersionShown(self.version()));
        }
        if positional.len() == 0 {
            return Err(MissingInputError {});
        }
        proof {
            assert(positional@[0]@ == tokens_of(positional@)[0]);
        }
        Ok(Execution::Run(positional[0].clone()))
    }
}

} // verus!
