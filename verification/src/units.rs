//! Small string helpers: removal of a single matching prefix or suffix.

use vstd::prelude::*;
use vstd::string::*;
use crate::text::{starts_with_str, ends_with_str};

verus! {

/// The string with one leading occurrence of the pattern removed, where the
/// string starts with it; otherwise the string unchanged.
pub open spec fn trim_prefix_spec(s: Seq<char>, p: Seq<char>) -> Seq<char> {
    if p.len() <= s.len() && s.take(p.len() as int) == p {
        s.skip(p.len() as int)
    } else {
        s
    }
}

/// The string with one trailing occurrence of the pattern removed, where the
/// string ends with it; otherwise the string unchanged.
pub open spec fn trim_suffix_spec(s: Seq<char>, p: Seq<char>) -> Seq<char> {
    if p.len() <= s.len() && s.skip(s.len() - p.len()) == p {
        s.take(s.len() - p.len())
    } else {
        s
    }
}

pub fn trim_start_char_matches<'a>(that: &'a str, pat: &str) -> (r: &'a str)
    ensures
        r@ == trim_prefix_spec(that@, pat@),
{
    let n = that.unicode_len();
    let p = pat.unicode_len();
    if starts_with_str(that, pat) {
        let r = that.substring_char(p, n);
        proof {
            assert(r@ =~= that@.skip(pat@.len() as int));
        }
        r
    } else {
        that
    }
}

pub fn trim_end_char_matches<'a>(that: &'a str, pat: &str) -> (r: &'a str)
    ensures
        r@ == trim_suffix_spec(that@, pat@),
{
    let n = that.unicode_len();
    let p = pat.unicode_len();
    if ends_with_str(that, pat) {
        let r = that.substring_char(0, n - p);
        proof {
            assert(r@ =~= that@.take(that@.len() - pat@.len()));
        }
        r
    } else {
        that
    }
}

/// Removal of a single matching prefix and suffix.
pub trait TrimCharMatches {
    spec fn text(&self) -> Seq<char>;

    /// The value with one leading occurrence of the pattern removed.
    fn trim_start_char_matches<'a>(&'a self, pat: &str) -> (r: &'a str)
        ensures
            r@ == trim_prefix_spec(self.text(), pat@),
    ;

    /// The value with one trailing occurrence of the pattern removed.
    fn trim_end_char_matches<'a>(&'a self, pat: &str) -> (r: &'a str)
        ensures
            r@ == trim_suffix_spec(self.text(), pat@),
    ;

    /// The value with one leading and one trailing occurrence removed.
    fn trim_char_matches<'a>(&'a self, pat: &str) -> (r: &'a str)
        ensures
            r@ == trim_suffix_spec(trim_prefix_spec(self.text(), pat@), pat@),
    ;
}

impl TrimCharMatches for String {
    open spec fn text(&self) -> Seq<char> {
        self@
    }

    fn trim_start_char_matches<'a>(&'a self, pat: &str) -> (r: &'a str) {
        trim_start_char_matches(self.as_str(), pat)
    }

    fn trim_end_char_matches<'a>(&'a self, pat: &str) -> (r: &'a str) {
        trim_end_char_matches(self.as_str(), pat)
    }

    fn trim_char_matches<'a>(&'a self, pat: &str) -> (r: &'a str) {
        let s = trim_start_char_matches(self.as_str(), pat);
        trim_end_char_matches(s, pat)
    }
}

impl TrimCharMatches for str {
    open spec fn text(&self) -> Seq<char> {
        self@
    }

    fn trim_start_char_matches<'a>(&'a self, pat: &str) -> (r: &'a str) {
        trim_start_char_matches(self, pat)
    }

    fn trim_end_char_matches<'a>(&'a self, pat: &str) -> (r: &'a str) {
        trim_end_char_matches(self, pat)
    }

    fn trim_char_matches<'a>(&'a self, pat: &str) -> (r: &'a str) {
        let s = trim_start_char_matches(self, pat);
        trim_end_char_matches(s, pat)
    }
}

} // verus!
