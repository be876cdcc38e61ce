use vstd::prelude::*;

pub mod config;
pub mod rename;
pub mod text;

use crate::text::{chars_of, string_of, title_case, title_case_chars};

verus! {

/// Upper-cases the first character of `data` and of every word that follows a space.
pub fn uppercase_words(data: &str) -> (r: String)
    ensures
        r@ == title_case(data@),
{
    let v = chars_of(data);
    let t = title_case_chars(&v);
    string_of(&t)
}

} // verus!
