//! Paths as text: joining a directory and a name, and the supervisor's
//! default folder under the user's home directory.

use vstd::prelude::*;
use vstd::string::*;

verus! {

/// The folder that holds state and logs when the caller names none. The
/// leading tilde stands for the user's home directory.
pub const DEFAULT_PERSIST_PATH: &'static str = "~/.multicrank";

/// The name of the file that holds the persisted registry.
pub const STATE_FILE: &'static str = "state.json";

/// The name of the file that lists the markets to import.
pub const MARKETS_FILE: &'static str = "markets.json";

/// The name of the folder, under the persistence folder, that holds one log
/// directory per market.
pub const LOGS_DIR: &'static str = "logs";

/// `base` extended by `part`, the way a POSIX path is extended: a `part`
/// that starts at the root replaces `base`; otherwise the two are put
/// together with exactly one separator between them, and none after an empty
/// `base`.
pub open spec fn joined(base: Seq<char>, part: Seq<char>) -> Seq<char> {
    if part.len() > 0 && part[0] == '/' {
        part
    } else if base.len() == 0 || base[base.len() - 1] == '/' {
        base + part
    } else {
        base + seq!['/'] + part
    }
}

/// Holds when `text` ends with `tail`.
pub open spec fn ends_with(text: Seq<char>, tail: Seq<char>) -> bool {
    text.len() >= tail.len() && text.skip(text.len() - tail.len()) == tail
}

/// What a tilde expansion of `input` may give: the input itself, or, where
/// the input starts with a tilde, some home directory followed by the rest of
/// the input.
pub open spec fn tilde_outcome(input: Seq<char>, expanded: Seq<char>) -> bool {
    expanded == input || (input.len() > 0 && input[0] == '~' && ends_with(expanded, input.skip(1)))
}

/// Extends the path `base` by `part`.
pub fn join(base: &str, part: &str) -> (r: String)
    ensures
        r@ == joined(base@, part@),
{
    proof {
        reveal_strlit("/");
    }
    let part_len: usize = part.unicode_len();
    if part_len > 0 && part.get_char(0) == '/' {
        return String::from_str(part);
    }
    let base_len: usize = base.unicode_len();
    if base_len == 0 || base.get_char(base_len - 1) == '/' {
        String::from_str(base).concat(part)
    } else {
        let r: String = String::from_str(base).concat("/").concat(part);
        assert("/"@ =~= seq!['/']);
        r
    }
}

/// Tilde expansion by `shellexpand::tilde`. The home directory comes from the
/// environment, so the contract states only what holds whatever it is: the
/// result is the input unchanged (no leading tilde, a tilde followed by a user
/// name, or no home directory known), or the input with its leading tilde
/// replaced by some text.
#[verifier::external_body]
pub(crate) fn expand_tilde(input: &str) -> (expanded: String)
    ensures
        tilde_outcome(input@, expanded@),
{
    shellexpand::tilde(input).into_owned()
}

} // verus!
