use vstd::prelude::*;

use crate::flag::{spec_is_flag, token_matches, FlagValue, FlagView};

verus! {

/// The views of a sequence of strings.
pub open spec fn tokens_of(args: Seq<String>) -> Seq<Seq<char>> {
    args.map_values(|s: String| s@)
}

/// The positional tokens of `tokens`: those that are not flag tokens, in order.
pub open spec fn positional_of(tokens: Seq<Seq<char>>) -> Seq<Seq<char>> {
    tokens.filter(|t: Seq<char>| !spec_is_flag(t))
}

/// `flag` after a pass over `tokens`: set to `Bool(true)` when some token
/// names it, unchanged otherwise.
pub open spec fn updated_flag(flag: FlagView, tokens: Seq<Seq<char>>) -> FlagView {
    if exists|k: int| 0 <= k < tokens.len() && token_matches(flag, #[trigger] tokens[k]) {
        FlagView { value: FlagValue::Bool(true), ..flag }
    } else {
        flag
    }
}

/// Each of `flags` after a pass over `tokens`.
pub open spec fn updated_flags(flags: Seq<FlagView>, tokens: Seq<Seq<char>>) -> Seq<FlagView> {
    flags.map_values(|f: FlagView| updated_flag(f, tokens))
}

/// A token that names a flag is a flag token.
pub proof fn lemma_match_is_flag(flag: FlagView, arg: Seq<char>)
    requires
        token_matches(flag, arg),
    ensures
        spec_is_flag(arg),
{
    reveal_strlit("-");
    reveal_strlit("--");
    assert(arg[0] == '-');
}

/// Without flag tokens, a pass keeps every token as positional, in order,
/// and changes no flag.
pub proof fn lemma_partition_without_flags(flags: Seq<FlagView>, tokens: Seq<Seq<char>>)
    requires
        forall|k: int| 0 <= k < tokens.len() ==> !spec_is_flag(#[trigger] tokens[k]),
    ensures
        positional_of(tokens) == tokens,
        updated_flags(flags, tokens) == flags,
    decreases tokens.len(),
{
    if tokens.len() > 0 {
        lemma_partition_without_flags(flags, tokens.drop_last());
        reveal(Seq::filter);
        assert(tokens.drop_last().push(tokens.last()) =~= tokens);
    }
    assert forall|i: int| 0 <= i < flags.len() implies #[trigger] updated_flag(flags[i], tokens)
        == flags[i] by {
        if exists|k: int| 0 <= k < tokens.len() && token_matches(flags[i], #[trigger] tokens[k]) {
            let k = choose|k: int| 0 <= k < tokens.len() && token_matches(flags[i], #[trigger] tokens[k]);
            lemma_match_is_flag(flags[i], tokens[k]);
        }
    }
    assert(updated_flags(flags, tokens) =~= flags);
}

/// A second pass over the positional tokens of a first is a no-op: it keeps
/// them all, in order, and changes no flag.
pub proof fn lemma_partition_idempotent(flags: Seq<FlagView>, tokens: Seq<Seq<char>>)
    ensures
        positional_of(positional_of(tokens)) == positional_of(tokens),
        updated_flags(updated_flags(flags, tokens), positional_of(tokens)) == updated_flags(
            flags,
            tokens,
        ),
{
    broadcast use Seq::lemma_filter_pred;
    let positional = positional_of(tokens);
    assert forall|k: int| 0 <= k < positional.len() implies !spec_is_flag(
        #[trigger] positional[k],
    ) by {
        tokens.lemma_filter_pred(|t: Seq<char>| !spec_is_flag(t), k);
    }
    lemma_partition_without_flags(updated_flags(flags, tokens), positional);
}

/// One more token: a flag is set when the new token names it, and is as
/// before otherwise.
pub(crate) proof fn lemma_updated_flag_step(flag: FlagView, tokens: Seq<Seq<char>>, i: int)
    requires
        0 <= i < tokens.len(),
    ensures
        updated_flag(flag, tokens.take(i + 1)) == (if token_matches(flag, tokens[i]) {
            FlagView { value: FlagValue::Bool(true), ..flag }
        } else {
            updated_flag(flag, tokens.take(i))
        }),
{
    let next = tokens.take(i + 1);
    let prev = tokens.take(i);
    assert(next[i] == tokens[i]);
    assert(forall|m: int| 0 <= m < i ==> next[m] == #[trigger] prev[m]);
    if exists|k: int| 0 <= k < prev.len() && token_matches(flag, #[trigger] prev[k]) {
        let k = choose|k: int| 0 <= k < prev.len() && token_matches(flag, #[trigger] prev[k]);
        assert(token_matches(flag, next[k]));
    }
}

} // verus!
