//! Screening of free-text input and identifiers before they reach a query.
use vstd::prelude::*;
use crate::text::{concat, occurs_in, regex_match, regex_outcome, str_contains, upper_of, uppercase};

verus! {

/// Accepted characters: ASCII letters and digits, `_`, `-`, `.`, `@` and whitespace.
pub const ALLOWED_CHARS_PATTERN: &'static str = "^[a-zA-Z0-9_\\-\\.@\\s]+$";

/// Start of the message for input that holds a blocked pattern; the pattern follows.
pub const BLOCKED_PATTERN_MESSAGE: &'static str = "Input contains blocked pattern: ";

/// Message for input with a character outside the accepted set.
pub const INVALID_INPUT_MESSAGE: &'static str = "Input contains invalid characters";

/// Message for an identifier with a character outside the accepted set.
pub const INVALID_IDENTIFIER_MESSAGE: &'static str = "Identifier contains invalid characters";

/// `k` is the first index of `patterns` whose pattern occurs in `upper`.
pub open spec fn first_blocked(upper: Seq<char>, patterns: Seq<Seq<char>>, k: int) -> bool {
    &&& 0 <= k < patterns.len()
    &&& occurs_in(upper, patterns[k])
    &&& forall|j: int| 0 <= j < k ==> !occurs_in(upper, #[trigger] patterns[j])
}

/// `r` is the outcome of screening `input`, whose upper-case form is `upper` and whose
/// check against the accepted characters gave `allowed`: blocked patterns are looked
/// for first, in the order of `patterns`, then the characters are checked.
pub open spec fn is_screen_verdict(
    r: Result<String, String>,
    input: Seq<char>,
    upper: Seq<char>,
    allowed: Option<bool>,
    patterns: Seq<Seq<char>>,
) -> bool {
    if exists|k: int| 0 <= k < patterns.len() && occurs_in(upper, #[trigger] patterns[k]) {
        r is Err && exists|k: int| #[trigger]
            first_blocked(upper, patterns, k) && r->Err_0@ == BLOCKED_PATTERN_MESSAGE@
                + patterns[k]
    } else if allowed != Some(true) {
        r is Err && r->Err_0@ == INVALID_INPUT_MESSAGE@
    } else {
        r is Ok && r->Ok_0@ == input
    }
}

/// Rejects input that holds a blocked pattern (in any letter case) or a character
/// outside the accepted set.
pub struct Sanitizer {
    blocked_patterns: Vec<String>,
}

impl Sanitizer {
    /// The blocked patterns, in the order in which they are looked for.
    pub closed spec fn blocked(&self) -> Seq<Seq<char>> {
        self.blocked_patterns@.map_values(|p: String| p@)
    }

    pub fn new() -> (r: Sanitizer)
        ensures
            r.blocked() == seq!["DROP"@, "DELETE"@, "--"@, ";"@],
    {
        let mut blocked_patterns: Vec<String> = Vec::new();
        blocked_patterns.push("DROP".to_owned());
        blocked_patterns.push("DELETE".to_owned());
        blocked_patterns.push("--".to_owned());
        blocked_patterns.push(";".to_owned());
        let r = Sanitizer { blocked_patterns };
        proof {
            assert(r.blocked() =~= seq!["DROP"@, "DELETE"@, "--"@, ";"@]);
        }
        r
    }

    /// Returns `input` unchanged when it passes, else the reason it does not.
    pub fn sanitize_input(&self, input: &str) -> (r: Result<String, String>)
        ensures
            is_screen_verdict(
                r,
                input@,
                upper_of(input@),
                regex_outcome(ALLOWED_CHARS_PATTERN@, input@),
                self.blocked(),
            ),
    {
        let upper = uppercase(input);
        let allowed = regex_match(ALLOWED_CHARS_PATTERN, input);
        self.screen_input(input, upper.as_str(), allowed)
    }

    /// Screens `input` once its upper-case form `upper` and its check against the
    /// accepted characters, `allowed`, are known.
    pub fn screen_input(&self, input: &str, upper: &str, allowed: Option<bool>) -> (r: Result<
        String,
        String,
    >)
        ensures
            is_screen_verdict(r, input@, upper@, allowed, self.blocked()),
    {
        let n = self.blocked_patterns.len();
        let mut i: usize = 0;
        while i < n
            invariant
                n == self.blocked_patterns@.len() == self.blocked().len(),
                i <= n,
                forall|j: int| 0 <= j < i ==> !occurs_in(upper@, #[trigger] self.blocked()[j]),
            decreases n - i,
        {
            let pattern = self.blocked_patterns[i].as_str();
            proof {
                assert(self.blocked()[i as int] == pattern@);
            }
            if str_contains(upper, pattern) {
                let r = concat(BLOCKED_PATTERN_MESSAGE, pattern);
                proof {
                    assert(first_blocked(upper@, self.blocked(), i as int));
                }
                return Err(r);
            }
            i = i + 1;
        }
        if allowed != Some(true) {
            return Err(INVALID_INPUT_MESSAGE.to_owned());
        }
        Ok(input.to_owned())
    }

    /// Returns `identifier` unchanged when every character is accepted.
    pub fn sanitize_identifier(&self, identifier: &str) -> (r: Result<String, String>)
        ensures
            regex_outcome(ALLOWED_CHARS_PATTERN@, identifier@) == Some(true) ==> r is Ok
                && r->Ok_0@ == identifier@,
            regex_outcome(ALLOWED_CHARS_PATTERN@, identifier@) != Some(true) ==> r is Err
                && r->Err_0@ == INVALID_IDENTIFIER_MESSAGE@,
    {
        if regex_match(ALLOWED_CHARS_PATTERN, identifier) != Some(true) {
            return Err(INVALID_IDENTIFIER_MESSAGE.to_owned());
        }
        Ok(identifier.to_owned())
    }
}

} // verus!
