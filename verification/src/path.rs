//! Path expansion: where a destination stands once the home-directory
//! shorthand is written out, and where a source stands inside the
//! repository.

use vstd::prelude::*;

verus! {

/// The path that `Path::join` gives for `spec` adjoined to `root`, on the
/// platform the crate is built for.
pub uninterp spec fn joined(root: Seq<char>, spec: Seq<char>) -> Seq<char>;

/// `spec` begins with the home-directory shorthand: a tilde that is the
/// whole text or is followed by a slash.
pub open spec fn has_home_prefix(spec: Seq<char>) -> bool {
    spec.len() >= 1 && spec[0] == '~' && (spec.len() == 1 || spec[1] == '/')
}

/// `spec` begins with a tilde and a backslash, which only some platforms
/// read as the home-directory shorthand.
pub open spec fn has_backslash_home_prefix(spec: Seq<char>) -> bool {
    spec.len() >= 2 && spec[0] == '~' && spec[1] == '\\'
}

/// `spec` with its leading tilde replaced by `home`.
pub open spec fn substituted(spec: Seq<char>, home: Seq<char>) -> Seq<char> {
    home + spec.skip(1)
}

/// `path` is what `spec` expands to when the home directory is `home`:
/// the shorthand is replaced, a tilde before a backslash is replaced or kept
/// as the platform has it, and any other text is kept as it is.
pub open spec fn expands_to(spec: Seq<char>, home: Seq<char>, path: Seq<char>) -> bool {
    if has_home_prefix(spec) {
        path == substituted(spec, home)
    } else if has_backslash_home_prefix(spec) {
        path == spec || path == substituted(spec, home)
    } else {
        path == spec
    }
}

/// `shellexpand::tilde_with_context`, with `home` as the home directory it
/// is told of. Trusted: a leading tilde that ends the text or stands before
/// a slash is replaced by `home`; one before a backslash is replaced on
/// Windows only; every other text comes back unchanged.
#[verifier::external_body]
fn tilde(input: &str, home: &str) -> (r: String)
    ensures
        expands_to(input@, home@, r@),
{
    shellexpand::tilde_with_context(input, || Some(home)).into_owned()
}

/// `Path::join`, on texts. Trusted: the result is [`joined`] of the two.
#[verifier::external_body]
fn join(root: &str, spec: &str) -> (r: String)
    ensures
        r@ == joined(root@, spec@),
{
    std::path::Path::new(root).join(spec).to_string_lossy().into_owned()
}

/// The destination that `spec` stands for, for the user whose home
/// directory is `home`.
pub fn expand_destination(spec: &str, home: &str) -> (r: String)
    ensures
        expands_to(spec@, home@, r@),
{
    tilde(spec, home)
}

/// The source that `spec` stands for inside the repository at `root`.
pub fn expand_source(spec: &str, root: &str) -> (r: String)
    ensures
        r@ == joined(root@, spec@),
{
    join(root, spec)
}

} // verus!
