//! The checks a pipeline configuration must pass before it can run.
use vstd::prelude::*;

use crate::text::{chars_of, string_from_chars};

verus! {

/// The error a pipeline with these many exchanges, streams and symbols is
/// refused with, if any: the first of the three that is empty.
pub open spec fn pipeline_error(num_exchanges: nat, num_streams: nat, num_symbols: nat) -> Option<Seq<char>> {
    if num_exchanges == 0 {
        Some("at least one exchange must be registered"@)
    } else if num_streams == 0 {
        Some("at least one stream must be registered"@)
    } else if num_symbols == 0 {
        Some("symbol must be set"@)
    } else {
        None
    }
}

fn message(s: &str) -> (r: String)
    ensures
        r@ == s@,
{
    let v = chars_of(s);
    string_from_chars(v.as_slice())
}

/// Checks that a pipeline registers at least one exchange, one stream and
/// one symbol; the configuration error otherwise.
pub fn validate_pipeline(num_exchanges: usize, num_streams: usize, num_symbols: usize) -> (r: Result<(), String>)
    ensures
        match r {
            Ok(()) => pipeline_error(num_exchanges as nat, num_streams as nat, num_symbols as nat) is None,
            Err(e) => pipeline_error(num_exchanges as nat, num_streams as nat, num_symbols as nat) == Some(e@),
        },
{
    if num_exchanges == 0 {
        return Err(message("at least one exchange must be registered"));
    }
    if num_streams == 0 {
        return Err(message("at least one stream must be registered"));
    }
    if num_symbols == 0 {
        return Err(message("symbol must be set"));
    }
    Ok(())
}

} // verus!
