//! Addresses of the catalog's documents.

use vstd::prelude::*;

verus! {

/// `s` without its trailing slashes.
pub open spec fn trim_trailing_slashes(s: Seq<char>) -> Seq<char>
    decreases s.len(),
{
    if s.len() > 0 && s.last() == '/' {
        trim_trailing_slashes(s.drop_last())
    } else {
        s
    }
}

/// The address of `path` under `endpoint`: both lose their trailing
/// slashes and are joined by one.
pub open spec fn url_of(endpoint: Seq<char>, path: Seq<char>) -> Seq<char> {
    trim_trailing_slashes(endpoint) + seq!['/'] + trim_trailing_slashes(path)
}

fn without_trailing_slashes(s: &str) -> (r: &str)
    ensures
        r@ == trim_trailing_slashes(s@),
{
    let cs = crate::text::chars_of(s);
    let mut b = cs.len();
    assert(cs@.subrange(0, b as int) =~= cs@);
    while b > 0 && cs[b - 1] == '/'
        invariant
            b <= cs@.len(),
            cs@ == s@,
            trim_trailing_slashes(s@) == trim_trailing_slashes(cs@.subrange(0, b as int)),
        decreases b,
    {
        assert(cs@.subrange(0, b as int).drop_last() =~= cs@.subrange(0, b - 1));
        b = b - 1;
    }
    s.substring_char(0, b)
}

/// Joins the catalog's endpoint and a document path into the document's
/// address.
pub fn build_url(endpoint: &str, path: &str) -> (r: String)
    ensures
        r@ == url_of(endpoint@, path@),
{
    proof {
        reveal_strlit("/");
    }
    let mut r = String::from_str(without_trailing_slashes(endpoint));
    r.append("/");
    r.append(without_trailing_slashes(path));
    r
}

} // verus!
