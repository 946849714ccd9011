//! The resolver: the installation root and the directories derived from it.
use vstd::prelude::*;

use crate::version::{has_no_candidate, is_latest, latest_version, lemma_latest_unique};

verus! {

/// The registry key, under `HKEY_LOCAL_MACHINE`, that lists installed kits.
pub const INSTALLED_ROOTS_KEY: &'static str = "SOFTWARE\\Microsoft\\Windows Kits\\Installed Roots";

/// The string value under [`INSTALLED_ROOTS_KEY`] that holds the installation root.
pub const KITS_ROOT_VALUE: &'static str = "KitsRoot10";

#[verifier::external_type_specification]
#[verifier::external_body]
pub struct ExIoError(std::io::Error);

/// Why a lookup failed.
#[derive(Debug)]
pub enum Error {
    /// Reading the registry or listing a directory failed.
    IoError(std::io::Error),
    /// The directory was listed, but no entry in it names a version.
    DirectoryNotFound,
}

impl From<std::io::Error> for Error {
    fn from(e: std::io::Error) -> (r: Error)
        ensures
            r == Error::IoError(e),
    {
        Error::IoError(e)
    }
}

impl vstd::std_specs::convert::FromSpecImpl<std::io::Error> for Error {
    open spec fn obeys_from_spec() -> bool {
        true
    }

    open spec fn from_spec(e: std::io::Error) -> Error {
        Error::IoError(e)
    }
}

/// A component category of the kits.
#[derive(Clone, Copy, Debug, PartialEq, Eq, Structural)]
pub enum DirectoryType {
    /// Get the path to the binaries.
    Binaries,
    /// Get the path to the headers.
    Headers,
    /// Get the path to the libraries.
    Libraries,
}

/// The subdirectory of the installation root that holds a category.
pub open spec fn subdir_name(t: DirectoryType) -> Seq<char> {
    match t {
        DirectoryType::Binaries => "bin"@,
        DirectoryType::Headers => "Include"@,
        DirectoryType::Libraries => "Lib"@,
    }
}

/// The path that `std::path::Path::join` makes of `base` and `part`, as text.
pub uninterp spec fn path_join(base: Seq<char>, part: Seq<char>) -> Seq<char>;

/// Relies on std's `Path::join` of `base` with the relative path `part`: the
/// result depends on the two paths alone (the separator is fixed by the
/// target). Both are text, so the joined path is text and reads back whole.
#[verifier::external_body]
fn join_path(base: &str, part: &str) -> (r: String)
    ensures
        r@ == path_join(base@, part@),
{
    std::path::Path::new(base).join(part).to_string_lossy().into_owned()
}

/// The base directory of category `t` under the installation root `root`.
pub open spec fn category_dir(root: Seq<char>, t: DirectoryType) -> Seq<char> {
    path_join(root, subdir_name(t))
}

/// The directory of version `name` in category `t` under `root`.
pub open spec fn version_dir(root: Seq<char>, t: DirectoryType, name: Seq<char>) -> Seq<char> {
    path_join(category_dir(root, t), name)
}

/// A located Windows Kits installation. It holds the installation root,
/// which never changes once set.
pub struct WindowsKits {
    path: String,
}

impl View for WindowsKits {
    type V = Seq<char>;

    closed spec fn view(&self) -> Seq<char> {
        self.path@
    }
}

impl WindowsKits {
    /// Sets up a `WindowsKits` from the outcome of reading the string value
    /// [`KITS_ROOT_VALUE`] under [`INSTALLED_ROOTS_KEY`]: the value read is
    /// the installation root, and a failed read is an [`Error::IoError`].
    pub fn new(root: Result<String, std::io::Error>) -> (r: Result<Self, Error>)
        ensures
            root is Ok ==> r is Ok && r->Ok_0@ == root->Ok_0@,
            root is Err ==> r is Err && r->Err_0 == Error::IoError(root->Err_0),
    {
        match root {
            Ok(dir) => Ok(WindowsKits { path: dir }),
            Err(e) => Err(Error::IoError(e)),
        }
    }

    /// Returns the path to the Windows Kits directory. The default should be
    /// `C:\Program Files (x86)\Windows Kits\10`.
    pub fn path(&self) -> (r: String)
        ensures
            r@ == self@,
    {
        self.path.clone()
    }

    /// Retrieves the path to the directory for the given [`DirectoryType`]:
    /// the root joined with `bin`, `Include` or `Lib`.
    pub fn get_dir(&self, directory_type: DirectoryType) -> (r: String)
        ensures
            r@ == category_dir(self@, directory_type),
    {
        let sub = match directory_type {
            DirectoryType::Binaries => "bin",
            DirectoryType::Headers => "Include",
            DirectoryType::Libraries => "Lib",
        };
        join_path(self.path.as_str(), sub)
    }

    /// Retrieves the path to the directory for the given [`DirectoryType`]
    /// joined by the version directory. `listing` is the outcome of listing
    /// that category's directory: one element per entry, `None` for an entry
    /// that could not be read or whose name is not text. Among the names that
    /// start with `10.` the greatest in ordinal order is taken; a failed
    /// listing is an [`Error::IoError`], and a listing without such a name is
    /// [`Error::DirectoryNotFound`].
    pub fn get_version_dir(
        &self,
        directory_type: DirectoryType,
        listing: Result<Vec<Option<String>>, std::io::Error>,
    ) -> (r: Result<String, Error>)
        ensures
            listing is Err ==> r is Err && r->Err_0 == Error::IoError(listing->Err_0),
            listing is Ok ==> (r is Err <==> has_no_candidate(listing->Ok_0@)),
            listing is Ok && r is Err ==> r->Err_0 is DirectoryNotFound,
            r is Ok ==> listing is Ok && exists|n: Seq<char>|
                is_latest(listing->Ok_0@, n) && r->Ok_0@ == version_dir(
                    self@,
                    directory_type,
                    n,
                ),
    {
        match listing {
            Err(e) => Err(Error::IoError(e)),
            Ok(entries) => match latest_version(&entries) {
                None => Err(Error::DirectoryNotFound),
                Some(name) => {
                    let dir = self.get_dir(directory_type);
                    Ok(join_path(dir.as_str(), name.as_str()))
                },
            },
        }
    }
}

/// The category directory is a function of the root and the category: equal
/// inputs give equal directories, for every category.
pub proof fn lemma_category_dir_deterministic(
    root_a: Seq<char>,
    root_b: Seq<char>,
    t_a: DirectoryType,
    t_b: DirectoryType,
)
    requires
        root_a == root_b,
        t_a == t_b,
    ensures
        category_dir(root_a, t_a) == category_dir(root_b, t_b),
{
}

/// Whatever the root, the category directories are the root joined with
/// `bin`, `Include` and `Lib`.
pub proof fn lemma_category_dirs(root: Seq<char>)
    ensures
        category_dir(root, DirectoryType::Binaries) == path_join(root, "bin"@),
        category_dir(root, DirectoryType::Headers) == path_join(root, "Include"@),
        category_dir(root, DirectoryType::Libraries) == path_join(root, "Lib"@),
{
}

/// Resolving the version directory twice against the same listing gives the
/// same path.
pub proof fn lemma_version_dir_idempotent(
    root: Seq<char>,
    t: DirectoryType,
    entries: Seq<Option<String>>,
    a: Seq<char>,
    b: Seq<char>,
)
    requires
        is_latest(entries, a),
        is_latest(entries, b),
    ensures
        version_dir(root, t, a) == version_dir(root, t, b),
{
    lemma_latest_unique(entries, a, b);
}

} // verus!
