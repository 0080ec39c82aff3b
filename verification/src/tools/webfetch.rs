//! Web fetching: the response is fetched by the surrounding binary; the
//! size limit and the truncation note are applied here.

use vstd::prelude::*;
use vstd::string::*;

use crate::strutil::dec_digits;
use crate::strutil::usize_string;

verus! {

pub struct WebFetchArgs {
    pub url: String,
}

pub struct WebFetch;

/// How many characters of a fetched body are kept.
pub const MAX_FETCH_SIZE: usize = 100000;

/// A fetched body, cut down to the size limit with a truncation note when
/// it is over it.
pub open spec fn fetched_report(content: Seq<char>) -> Seq<char> {
    if content.len() > MAX_FETCH_SIZE {
        content.take(MAX_FETCH_SIZE as int) + "... (truncated, total size: "@ + dec_digits(
            content.len() as int,
        ) + " characters)"@
    } else {
        content
    }
}

impl WebFetch {
    /// Bounds a fetched body: content over the size limit is cut and a
    /// note with the full length is appended.
    pub fn render_response(content: String) -> (r: String)
        ensures
            r@ == fetched_report(content@),
    {
        let len = content.as_str().unicode_len();
        if len > MAX_FETCH_SIZE {
            let mut out = content.as_str().substring_char(0, MAX_FETCH_SIZE).to_owned();
            out.append("... (truncated, total size: ");
            let l = usize_string(len);
            out.append(l.as_str());
            out.append(" characters)");
            proof {
                assert(content@.subrange(0, MAX_FETCH_SIZE as int) =~= content@.take(
                    MAX_FETCH_SIZE as int,
                ));
            }
            out
        } else {
            content
        }
    }
}

} // verus!
