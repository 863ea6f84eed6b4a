//! A summarising trait and a tweet type that implements it.

use vstd::prelude::*;
use vstd::string::StringExecFns;

verus! {

/// Things that can describe themselves in one line.
pub trait Summary {
    /// What the one-line summary says.
    spec fn spec_summary(&self) -> Seq<char>;

    /// The one-line summary.
    fn summarize(&self) -> (r: String)
        ensures
            r@ == self.spec_summary(),
    ;

    /// Who wrote it; unknown unless a type says more.
    fn author_info(&self) -> (r: String)
        ensures
            r@ == "(作者信息未知)"@,
    {
        String::from_str("(作者信息未知)")
    }
}

/// A short message with its author.
#[derive(Debug, PartialEq)]
pub struct Tweet {
    pub username: String,
    pub content: String,
    pub reply: bool,
    pub retweet: bool,
}

impl Summary for Tweet {
    /// A tweet's summary is its author, a separating colon, and the
    /// content.
    open spec fn spec_summary(&self) -> Seq<char> {
        self.username@ + ": "@ + self.content@
    }

    fn summarize(&self) -> (r: String)
        ensures
            r@ == self.spec_summary(),
    {
        let mut r = self.username.clone();
        r.append(": ");
        r.append(self.content.as_str());
        r
    }
}

} // verus!
