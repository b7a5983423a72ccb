//! Token derivation: each subgraph contributes one `join__Graph` enum value,
//! named by uppercasing the subgraph's name.  The uppercased name must be a
//! legal GraphQL `Name`, or composition fails before any merging starts.

use vstd::prelude::*;
use vstd::string::StrSliceExecFns;

verus! {

/// Whether `c` may start a GraphQL `Name`: an ASCII letter or `_`.
pub open spec fn is_name_start(c: char) -> bool {
    let u = c as u32;
    (0x41 <= u && u <= 0x5A) || (0x61 <= u && u <= 0x7A) || u == 0x5F
}

/// Whether `c` may continue a GraphQL `Name`: a start character or an ASCII
/// digit.
pub open spec fn is_name_continue(c: char) -> bool {
    let u = c as u32;
    is_name_start(c) || (0x30 <= u && u <= 0x39)
}

/// The GraphQL `Name` grammar: `[A-Za-z_][A-Za-z0-9_]*`.
pub open spec fn valid_graphql_name(s: Seq<char>) -> bool {
    s.len() > 0 && is_name_start(s[0]) && (forall|i: int|
        1 <= i < s.len() ==> is_name_continue(#[trigger] s[i]))
}

/// Decides the GraphQL `Name` grammar.
pub fn is_valid_graphql_name(s: &str) -> (r: bool)
    ensures
        r == valid_graphql_name(s@),
{
    let n: usize = s.unicode_len();
    if n == 0 {
        return false;
    }
    let first = s.get_char(0);
    let fu = first as u32;
    if !((0x41 <= fu && fu <= 0x5A) || (0x61 <= fu && fu <= 0x7A) || fu == 0x5F) {
        return false;
    }
    let mut i: usize = 1;
    while i < n
        invariant
            1 <= i <= n,
            n == s@.len(),
            is_name_start(s@[0]),
            forall|j: int| 1 <= j < i ==> is_name_continue(#[trigger] s@[j]),
        decreases n - i,
    {
        let c = s.get_char(i);
        let u = c as u32;
        if !((0x41 <= u && u <= 0x5A) || (0x61 <= u && u <= 0x7A) || u == 0x5F || (0x30 <= u && u
            <= 0x39)) {
            return false;
        }
        i = i + 1;
    }
    true
}

/// The uppercase form of a character sequence, as `str::to_uppercase`
/// computes it.  The mapping depends on the characters alone.
pub uninterp spec fn upper_of(s: Seq<char>) -> Seq<char>;

/// Relies on str::to_uppercase: returns the Unicode uppercase equivalent of
/// the string, a function of its characters alone.
#[verifier::external_body]
fn to_uppercase(s: &str) -> (r: String)
    ensures
        r@ == upper_of(s@),
{
    s.to_uppercase()
}

/// The token a subgraph name yields: its uppercase form when that is a legal
/// GraphQL name, nothing otherwise.
pub open spec fn token_of(name: Seq<char>) -> Option<Seq<char>> {
    if valid_graphql_name(upper_of(name)) {
        Some(upper_of(name))
    } else {
        None
    }
}

/// Uppercases the subgraph name and validates the result as a GraphQL name.
pub fn derive_token(name: &str) -> (r: Option<String>)
    ensures
        r.deep_view() == token_of(name@),
{
    let upper = to_uppercase(name);
    if is_valid_graphql_name(upper.as_str()) {
        Some(upper)
    } else {
        None
    }
}

} // verus!
