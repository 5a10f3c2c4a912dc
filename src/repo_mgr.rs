//! The local repository of packages that the public one does not carry:
//! which files count as packages, and the index from package name to file.

use crate::keyed::KeyedMap;
use crate::text::chars_of;
use std::path::PathBuf;
use vstd::prelude::*;

verus! {

#[verifier::external_type_specification]
#[verifier::external_body]
pub struct ExIoError(std::io::Error);

#[verifier::external_type_specification]
#[verifier::external_body]
pub struct ExAnyhowError(anyhow::Error);

/// What can go wrong with the local repository.
#[derive(Debug)]
pub enum RepoError {
    Io(std::io::Error),
    NotFound(String),
    Other(anyhow::Error),
}

/// The pattern of a package file's name: `<package_name>.deb`.
pub const DEB_NAME_PATTERN: &'static str = r"^([A-Za-z0-9\-\+\.])+(?:\.deb)?$";

/// What the first capture group of `pattern` matches in `haystack`, if the
/// pattern compiles and matches.
pub uninterp spec fn first_group(pattern: Seq<char>, haystack: Seq<char>) -> Option<Seq<char>>;

/// Relies on `regex::Regex::new` and `regex::Regex::captures`: the text of
/// the first group of the leftmost match, which depends on the pattern and
/// the haystack alone.
#[verifier::external_body]
fn regex_first_group(pattern: &str, haystack: &str) -> (r: Option<String>)
    ensures
        match r {
            Some(s) => first_group(pattern@, haystack@) == Some(s@),
            None => first_group(pattern@, haystack@) is None,
        },
{
    regex::Regex::new(pattern).ok()?.captures(haystack)?.get(1).map(|m| m.as_str().to_string())
}

/// The package name that the naming pattern captures in a file name.
pub open spec fn deb_name_of(file_name: Seq<char>) -> Option<Seq<char>> {
    first_group(DEB_NAME_PATTERN@, file_name)
}

/// Reads the package name out of a package file's name.
pub fn extract_name(filename: &str) -> (r: Option<String>)
    ensures
        match r {
            Some(s) => deb_name_of(filename@) == Some(s@),
            None => deb_name_of(filename@) is None,
        },
{
    regex_first_group(DEB_NAME_PATTERN, filename)
}

/// The file name has the extension `deb`, in any ASCII case: it ends in
/// `.deb` after at least one other character, as `Path::extension` reads it.
pub open spec fn has_deb_extension(f: Seq<char>) -> bool {
    let n = f.len() as int;
    &&& n >= 5
    &&& f[n - 4] == '.'
    &&& (f[n - 3] == 'd' || f[n - 3] == 'D')
    &&& (f[n - 2] == 'e' || f[n - 2] == 'E')
    &&& (f[n - 1] == 'b' || f[n - 1] == 'B')
}

/// Whether a file, by its name, is a package file.
pub fn is_deb(file_name: &str) -> (r: bool)
    ensures
        r == has_deb_extension(file_name@),
{
    let cs = chars_of(file_name);
    let n = cs.len();
    n >= 5 && cs[n - 4] == '.' && (cs[n - 3] == 'd' || cs[n - 3] == 'D') && (cs[n - 2] == 'e'
        || cs[n - 2] == 'E') && (cs[n - 1] == 'b' || cs[n - 1] == 'B')
}

/// The file name under which a package is stored: `<package_name>.deb`.
pub fn deb_file_name(package_name: &str) -> (r: String)
    ensures
        r@ == package_name@ + ".deb"@,
{
    let mut r = String::from_str(package_name);
    r.append(".deb");
    r
}

/// The index that a listing of the repository's files gives: each file
/// with a package name and the `deb` extension, under that name, a later file
/// replacing an earlier one of the same name.
pub open spec fn index_of(files: Seq<(String, PathBuf)>) -> Map<Seq<char>, PathBuf>
    decreases files.len(),
{
    if files.len() == 0 {
        Map::empty()
    } else {
        let m = index_of(files.drop_last());
        let name = files.last().0@;
        if has_deb_extension(name) {
            match deb_name_of(name) {
                Some(k) => m.insert(k, files.last().1),
                None => m,
            }
        } else {
            m
        }
    }
}

/// The local repository's index from package name to package file.
pub struct RepoManager {
    packages: KeyedMap<PathBuf>,
}

impl View for RepoManager {
    type V = Map<Seq<char>, PathBuf>;

    closed spec fn view(&self) -> Map<Seq<char>, PathBuf> {
        self.packages@
    }
}

impl RepoManager {
    /// Well-formedness: one file per package name.
    pub closed spec fn wf(&self) -> bool {
        self.packages.wf()
    }

    /// Indexes the repository's files, given as file name and path.
    pub fn from_files(files: Vec<(String, PathBuf)>) -> (r: Self)
        ensures
            r.wf(),
            r@ == index_of(files@),
    {
        let ghost all = files@;
        let mut packages: KeyedMap<PathBuf> = KeyedMap::new();
        let mut rest = files;
        assert(rest@ =~= all.subrange(0, all.len() as int));
        let total = rest.len();
        let mut done: usize = 0;
        while rest.len() > 0
            invariant
                packages.wf(),
                done + rest@.len() == all.len(),
                total == all.len(),
                rest@ =~= all.subrange(done as int, all.len() as int),
                packages@ == index_of(all.subrange(0, done as int)),
            decreases rest@.len(),
        {
            let (name, path) = rest.remove(0);
            let ghost seen = all.subrange(0, done + 1);
            assert(seen.drop_last() =~= all.subrange(0, done as int));
            assert(seen.last() == all[done as int]);
            if is_deb(name.as_str()) {
                if let Some(key) = extract_name(name.as_str()) {
                    let _ = packages.insert(key.as_str(), path);
                }
            }
            done = done + 1;
        }
        assert(all.subrange(0, all.len() as int) =~= all);
        RepoManager { packages }
    }

    /// Records `path` as the file of the package `name`, replacing the
    /// file recorded before, which comes back.
    pub fn insert_package(&mut self, name: &str, path: PathBuf) -> (r: Option<PathBuf>)
        requires
            old(self).wf(),
        ensures
            final(self).wf(),
            final(self)@ == old(self)@.insert(name@, path),
            match r {
                Some(p) => old(self)@.contains_key(name@) && p == old(self)@[name@],
                None => !old(self)@.contains_key(name@),
            },
    {
        self.packages.insert(name, path)
    }

    /// Takes the package `package_name` out of the index and hands back its
    /// file, for the caller to delete; an unknown name is an error.
    pub fn remove_package(&mut self, package_name: &str) -> (r: Result<PathBuf, RepoError>)
        requires
            old(self).wf(),
        ensures
            final(self).wf(),
            final(self)@ == old(self)@.remove(package_name@),
            match r {
                Ok(p) => old(self)@.contains_key(package_name@) && p == old(self)@[package_name@],
                Err(e) => !old(self)@.contains_key(package_name@) && (e matches RepoError::NotFound(
                    n,
                ) && n@ == package_name@),
            },
    {
        match self.packages.remove(package_name) {
            Some(p) => Ok(p),
            None => Err(RepoError::NotFound(String::from_str(package_name))),
        }
    }

    /// Whether the package `name` is in the index.
    pub fn contains_package(&self, name: &str) -> (r: bool)
        requires
            self.wf(),
        ensures
            r == self@.contains_key(name@),
    {
        self.packages.contains_key(name)
    }
}

} // verus!
