use vstd::prelude::*;

verus! {

/// Prefix of a flag given by its short identifier (`-f`).
pub const FLAG_SHORT_START: &'static str = "-";

/// Prefix of a flag given by its long identifier (`--ferris`).
pub const FLAG_LONG_START: &'static str = "--";

/// The value held by a flag. The variant is chosen when the flag is declared.
#[derive(Debug)]
pub enum FlagValue {
    /// A presence flag, `false` until the flag is seen.
    Bool(bool),
    /// A text flag.
    String(Option<String>),
    /// A 32-bit signed integer flag.
    Int(Option<i32>),
    /// A 32-bit floating-point flag, held as its IEEE-754 binary32 bit pattern
    /// (`f32::to_bits` / `f32::from_bits`).
    Float(Option<u32>),
}

/// A declared command flag.
#[derive(Debug)]
pub struct Flag {
    /// Short identifier, matched by `-{short}`.
    pub short: String,
    /// Long identifier, matched by `--{long}`.
    pub long: String,
    /// One-line description shown in the help text.
    pub description: String,
    /// Current value.
    pub value: FlagValue,
}

/// Mathematical model of a [`Flag`].
pub ghost struct FlagView {
    pub short: Seq<char>,
    pub long: Seq<char>,
    pub description: Seq<char>,
    pub value: FlagValue,
}

impl View for Flag {
    type V = FlagView;

    open spec fn view(&self) -> FlagView {
        FlagView {
            short: self.short@,
            long: self.long@,
            description: self.description@,
            value: self.value,
        }
    }
}

/// A token is a flag token when it starts with `-` (and so also when it starts with `--`).
pub open spec fn spec_is_flag(arg: Seq<char>) -> bool {
    arg.len() > 0 && arg[0] == '-'
}

/// A token names a flag when it is `-{short}` or `--{long}`, exactly.
pub open spec fn token_matches(flag: FlagView, arg: Seq<char>) -> bool {
    arg == "-"@ + flag.short || arg == "--"@ + flag.long
}

/// The help-text line of a flag: `  -{short}, --{long}<tab>{description}`.
pub open spec fn flag_line(flag: FlagView) -> Seq<char> {
    "  -"@ + flag.short + ", --"@ + flag.long + "\t"@ + flag.description
}

impl Flag {
    /// Returns a flag with the given identifiers, description and value.
    pub fn new(short: &str, long: &str, description: &str, value: FlagValue) -> (r: Flag)
        ensures
            r@ == (FlagView { short: short@, long: long@, description: description@, value }),
    {
        Flag {
            short: short.to_owned(),
            long: long.to_owned(),
            description: description.to_owned(),
            value,
        }
    }

    /// Returns a boolean flag, `false` until seen.
    pub fn new_bool(short: &str, long: &str, description: &str) -> (r: Flag)
        ensures
            r@ == (FlagView {
                short: short@,
                long: long@,
                description: description@,
                value: FlagValue::Bool(false),
            }),
    {
        Flag::new(short, long, description, FlagValue::Bool(false))
    }

    /// Returns a text flag with no value.
    pub fn new_string(short: &str, long: &str, description: &str) -> (r: Flag)
        ensures
            r@ == (FlagView {
                short: short@,
                long: long@,
                description: description@,
                value: FlagValue::String(None),
            }),
    {
        Flag::new(short, long, description, FlagValue::String(None))
    }

    /// Returns an integer flag with no value.
    pub fn new_int(short: &str, long: &str, description: &str) -> (r: Flag)
        ensures
            r@ == (FlagView {
                short: short@,
                long: long@,
                description: description@,
                value: FlagValue::Int(None),
            }),
    {
        Flag::new(short, long, description, FlagValue::Int(None))
    }

    /// Returns a floating-point flag with no value.
    pub fn new_float(short: &str, long: &str, description: &str) -> (r: Flag)
        ensures
            r@ == (FlagView {
                short: short@,
                long: long@,
                description: description@,
                value: FlagValue::Float(None),
            }),
    {
        Flag::new(short, long, description, FlagValue::Float(None))
    }

    /// Returns whether `arg` is `-{short}` or `--{long}` of this flag.
    pub fn is_match(&self, arg: &str) -> (r: bool)
        ensures
            r == token_matches(self@, arg@),
    {
        let arg = arg.to_owned();
        let mut short_form = FLAG_SHORT_START.to_owned();
        short_form.append(self.short.as_str());
        let mut long_form = FLAG_LONG_START.to_owned();
        long_form.append(self.long.as_str());
        arg == short_form || arg == long_form
    }

    /// Returns the help-text line of this flag.
    pub fn to_string(&self) -> (r: String)
        ensures
            r@ == flag_line(self@),
    {
        let mut line = "  -".to_owned();
        line.append(self.short.as_str());
        line.append(", --");
        line.append(self.long.as_str());
        line.append("\t");
        line.append(self.description.as_str());
        line
    }
}

/// Returns whether `arg` starts with the short or the long flag prefix.
pub fn is_flag(arg: &str) -> (r: bool)
    ensures
        r == spec_is_flag(arg@),
{
    let mut chars = arg.chars();
    match chars.next() {
        Some(c) => c == '-',
        None => false,
    }
}

/// A flag is named by `-{short}` and by `--{long}`; `-{long}` names it only
/// when its short and long identifiers are equal.
pub proof fn lemma_match_forms(flag: FlagView)
    ensures
        token_matches(flag, "-"@ + flag.short),
        token_matches(flag, "--"@ + flag.long),
        token_matches(flag, "-"@ + flag.long) <==> flag.short == flag.long,
{
    reveal_strlit("-");
    reveal_strlit("--");
    let dash_long = "-"@ + flag.long;
    assert("-"@.len() == 1 && "--"@.len() == 2);
    assert(dash_long.len() != ("--"@ + flag.long).len());
    if dash_long == "-"@ + flag.short {
        assert(flag.long =~= dash_long.subrange(1, dash_long.len() as int));
        assert(flag.short =~= ("-"@ + flag.short).subrange(1, dash_long.len() as int));
    }
}

} // verus!
