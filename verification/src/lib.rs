use vstd::prelude::*;

pub mod endpoint;
pub mod input;
pub mod json;
pub mod output;
pub mod parse;

use crate::output::render_lines;
use crate::output::spec_render;
use crate::parse::ParseError;
use crate::parse::parse_usernames;
use crate::parse::spec_parse_usernames;

verus! {

/// One response body handled end to end: the text whose bytes the output
/// file receives, or the parse error that means no file is written at all.
pub fn process_response(response_data: &str) -> (r: Result<String, ParseError>)
    ensures
        match spec_parse_usernames(response_data@) {
            Ok(names) => r matches Ok(body) && body@ == spec_render(names),
            Err(e) => r matches Err(e2) && e2 == e,
        },
{
    match parse_usernames(response_data) {
        Ok(usernames) => Ok(render_lines(&usernames)),
        Err(e) => Err(e),
    }
}

} // verus!
