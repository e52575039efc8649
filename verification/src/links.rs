//! Extraction of issue links from free text.
//!
//! Used by the bulk-add utility: a text file is scanned for issue web
//! addresses, and each found address names an issue to add to the
//! project.

use vstd::prelude::*;

verus! {

/// The issue web addresses found in a text, in order of appearance: each
/// maximal run of non-whitespace starting with the issue host prefix.
/// The result depends on the text alone.
pub uninterp spec fn github_links_of(s: Seq<char>) -> Seq<Seq<char>>;

/// Relies on regex's `Regex::find_iter`: every non-overlapping match of
/// the fixed pattern `https://github.com/(\S+)`, in order of appearance.
/// The pattern is a valid literal, so compiling it cannot fail, and the
/// result depends on the text alone.
#[verifier::external_body]
fn find_github_links(content: &str) -> (r: Vec<String>)
    ensures
        r@.map_values(|s: String| s@) == github_links_of(content@),
        content@.len() == 0 ==> r@.len() == 0,
{
    let re = regex::Regex::new(r"https://github.com/(\S+)").expect("a literal pattern");
    re.find_iter(content).map(|m| m.as_str().to_string()).collect()
}

/// The issue web addresses found in the text, in order of appearance.
pub fn read_issue_urls(content: &str) -> (r: Vec<String>)
    ensures
        r@.map_values(|s: String| s@) == github_links_of(content@),
        content@.len() == 0 ==> r@.len() == 0,
{
    find_github_links(content)
}

} // verus!
