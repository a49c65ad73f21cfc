//! How a payload is looked up in the record store.

use crate::query::{AppError, QueryPayload};
use vstd::prelude::*;

verus! {

/// Most records that a display-name lookup returns.
pub const NAME_MATCH_LIMIT: usize = 10;

/// A record-store query.
#[derive(Debug, Clone)]
pub enum Lookup {
    /// The record whose identifier equals `product_id`.
    ById { product_id: String },
    /// Up to `limit` records whose display name holds `fragment`, ignoring case.
    ByName { fragment: String, limit: usize },
}

/// How many records a lookup may return.
pub open spec fn cap_of(l: Lookup) -> nat {
    match l {
        Lookup::ById { .. } => 1,
        Lookup::ByName { limit, .. } => limit as nat,
    }
}

/// Whether `l` is the lookup that payload `p` calls for: by identifier where
/// one is given, else by display-name fragment.
pub open spec fn is_lookup_for(p: QueryPayload, l: Lookup) -> bool {
    match l {
        Lookup::ById { product_id } => p.product_id matches Some(id) && product_id@ == id@,
        Lookup::ByName { fragment, limit } => {
            &&& p.product_id is None
            &&& p.product_display_name matches Some(n) && fragment@ == n@
            &&& limit == NAME_MATCH_LIMIT
        },
    }
}

/// The lookup that a usable payload calls for.
pub open spec fn lookup_of(p: QueryPayload) -> Lookup {
    match p.product_id {
        Some(id) => Lookup::ById { product_id: id },
        None => Lookup::ByName {
            fragment: p.product_display_name->Some_0,
            limit: NAME_MATCH_LIMIT,
        },
    }
}

/// Whether the payload names a field that a lookup can use.
pub open spec fn is_usable(p: QueryPayload) -> bool {
    p.product_id is Some || p.product_display_name is Some
}

/// Picks the record-store query for a payload. The identifier takes
/// precedence over the display name; a payload with neither is invalid.
pub fn lookup_for(payload: &QueryPayload) -> (r: Result<Lookup, AppError>)
    ensures
        match r {
            Ok(l) => is_lookup_for(*payload, l),
            Err(e) => e == AppError::InvalidQuery && !is_usable(*payload),
        },
{
    match &payload.product_id {
        Some(id) => Ok(Lookup::ById { product_id: id.clone() }),
        None => match &payload.product_display_name {
            Some(name) => Ok(Lookup::ByName { fragment: name.clone(), limit: NAME_MATCH_LIMIT }),
            None => Err(AppError::InvalidQuery),
        },
    }
}

/// Characters with a meaning of their own in a regular expression.
pub open spec fn is_regex_meta(c: char) -> bool {
    c == '\\' || c == '^' || c == '$' || c == '.' || c == '|' || c == '?' || c == '*' || c == '+'
        || c == '(' || c == ')' || c == '[' || c == ']' || c == '{' || c == '}'
}

/// The text with a backslash before each regular-expression metacharacter.
pub open spec fn regex_escaped(s: Seq<char>) -> Seq<char>
    decreases s.len(),
{
    if s.len() == 0 {
        Seq::empty()
    } else {
        let c = s.last();
        regex_escaped(s.drop_last()) + if is_regex_meta(c) {
            seq!['\\', c]
        } else {
            seq![c]
        }
    }
}

fn is_meta(c: char) -> (r: bool)
    ensures
        r == is_regex_meta(c),
{
    c == '\\' || c == '^' || c == '$' || c == '.' || c == '|' || c == '?' || c == '*' || c == '+'
        || c == '(' || c == ')' || c == '[' || c == ']' || c == '{' || c == '}'
}

/// The regular expression that matches any text holding `fragment`
/// literally: `.*`, the escaped fragment, `.*`.
pub fn name_pattern(fragment: &str) -> (r: String)
    ensures
        r@ == ".*"@ + regex_escaped(fragment@) + ".*"@,
{
    let n = fragment.unicode_len();
    let mut out = String::from_str(".*");
    let ghost start = out@;
    let mut i: usize = 0;
    while i < n
        invariant
            n == fragment@.len(),
            i <= n,
            start == ".*"@,
            out@ == start + regex_escaped(fragment@.take(i as int)),
        decreases n - i,
    {
        let c = fragment.get_char(i);
        if is_meta(c) {
            out.append("\\");
        }
        let one = fragment.substring_char(i, i + 1);
        out.append(one);
        proof {
            reveal_strlit("\\");
            let t = fragment@.take(i as int + 1);
            assert(t.drop_last() =~= fragment@.take(i as int));
            assert(t.last() == c);
            assert(one@ =~= seq![c]);
        }
        assert(out@ =~= start + regex_escaped(fragment@.take(i as int + 1)));
        i = i + 1;
    }
    assert(fragment@.take(n as int) =~= fragment@);
    out.append(".*");
    out
}

} // verus!
