//! Where the user's files are.
use vstd::prelude::*;

use crate::text::opt_text;

verus! {

/// The home directory: the first of the two that is known, or else the current directory.
pub open spec fn home(home: Option<Seq<char>>, userprofile: Option<Seq<char>>) -> Seq<char> {
    match home {
        Some(h) => h,
        None => match userprofile {
            Some(u) => u,
            None => "."@,
        },
    }
}

pub fn home_dir_from(home: Option<String>, userprofile: Option<String>) -> (r: String)
    ensures
        r@ == self::home(opt_text(home), opt_text(userprofile)),
{
    match home {
        Some(h) => h,
        None => match userprofile {
            Some(u) => u,
            None => ".".to_owned(),
        },
    }
}

} // verus!
