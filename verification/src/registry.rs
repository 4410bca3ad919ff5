//! Where the local registry keeps its files.

use vstd::prelude::*;
use crate::text::text_of;

verus! {

/// The path that `std::path::Path::join` gives for a base and a part, on
/// the platform the library is built for.
pub uninterp spec fn path_join(base: Seq<char>, part: Seq<char>) -> Seq<char>;

/// Calls `std::path::Path::join`, on paths given and returned as text. The
/// result is determined by the two paths alone.
#[verifier::external_body]
pub(crate) fn join_path(base: &str, part: &str) -> (path: String)
    ensures
        path@ == path_join(base@, part@),
{
    std::path::Path::new(base).join(part).to_string_lossy().into_owned()
}

/// Why the local registry could not be found.
#[derive(Clone, Copy, Debug, PartialEq, Eq, Structural)]
pub enum RegistryError {
    /// Neither a cargo home nor a home directory is known.
    NoHomeDir,
    /// The registry holds no download cache.
    NoCargoHome,
}

impl RegistryError {
    /// The text of the error.
    pub open spec fn message_spec(self) -> Seq<char> {
        match self {
            RegistryError::NoHomeDir => "Failed to get home dir"@,
            RegistryError::NoCargoHome => "Cargo home doesn't seem to exist :("@,
        }
    }

    /// The text of the error.
    pub fn message(&self) -> (text: String)
        ensures
            text@ == self.message_spec(),
    {
        match self {
            RegistryError::NoHomeDir => String::from_str("Failed to get home dir"),
            RegistryError::NoCargoHome => String::from_str("Cargo home doesn't seem to exist :("),
        }
    }
}

/// The registry directory: `registry` under the cargo home if one is set,
/// else under `.cargo` in the home directory.
pub open spec fn registry_dir(cargo_home: Option<Seq<char>>, home_dir: Option<Seq<char>>) -> Option<
    Seq<char>,
> {
    match cargo_home {
        Some(home) => Some(path_join(home, "registry"@)),
        None => match home_dir {
            Some(dir) => Some(path_join(path_join(dir, ".cargo"@), "registry"@)),
            None => None,
        },
    }
}

/// The directories of the local registry.
#[derive(Clone, Debug, PartialEq, Eq)]
pub struct CargoRegistry {
    base: String,
    index_name: String,
}

/// The mathematical content of a [`CargoRegistry`].
pub struct RegistryView {
    pub base: Seq<char>,
    pub index_name: Seq<char>,
}

impl RegistryView {
    /// The directory of one kind of files: the kind's directory under the
    /// registry, and in it the index's.
    pub open spec fn sub_dir(self, dir: Seq<char>) -> Seq<char> {
        path_join(path_join(self.base, dir), self.index_name)
    }
}

impl View for CargoRegistry {
    type V = RegistryView;

    closed spec fn view(&self) -> RegistryView {
        RegistryView { base: self.base@, index_name: self.index_name@ }
    }
}

impl CargoRegistry {
    /// Finds the registry directory from the cargo home, if one is set, and
    /// the home directory, if one is known.
    pub fn locate(cargo_home: Option<String>, home_dir: Option<String>) -> (r: Result<
        String,
        RegistryError,
    >)
        ensures
            match r {
                Ok(base) => registry_dir(text_of(cargo_home), text_of(home_dir)) == Some(base@),
                Err(e) => e == RegistryError::NoHomeDir && registry_dir(
                    text_of(cargo_home),
                    text_of(home_dir),
                ) is None,
            },
    {
        match cargo_home {
            Some(home) => Ok(join_path(home.as_str(), "registry")),
            None => match home_dir {
                Some(dir) => {
                    let cargo = join_path(dir.as_str(), ".cargo");
                    Ok(join_path(cargo.as_str(), "registry"))
                },
                None => Err(RegistryError::NoHomeDir),
            },
        }
    }

    /// The directory whose first entry names the index: `cache` under the
    /// registry.
    pub fn cache_home(base: &str) -> (path: String)
        ensures
            path@ == path_join(base@, "cache"@),
    {
        join_path(base, "cache")
    }

    /// The registry at `base` for the index that the first entry of its
    /// download cache names. Without such an entry there is no registry.
    pub fn new(base: String, first_entry: Option<String>) -> (r: Result<
        CargoRegistry,
        RegistryError,
    >)
        ensures
            match r {
                Ok(registry) => first_entry matches Some(name) && registry@ == (RegistryView {
                    base: base@,
                    index_name: name@,
                }),
                Err(e) => e == RegistryError::NoCargoHome && first_entry is None,
            },
    {
        match first_entry {
            Some(index_name) => Ok(CargoRegistry { base, index_name }),
            None => Err(RegistryError::NoCargoHome),
        }
    }

    /// The directory of one kind of files.
    pub fn sub_dir(&self, dir: &str) -> (path: String)
        ensures
            path@ == self@.sub_dir(dir@),
    {
        let kind = join_path(self.base.as_str(), dir);
        join_path(kind.as_str(), self.index_name.as_str())
    }

    /// Where downloaded archives are kept.
    pub fn cache(&self) -> (path: String)
        ensures
            path@ == self@.sub_dir("cache"@),
    {
        self.sub_dir("cache")
    }

    /// Where the index is kept.
    pub fn index(&self) -> (path: String)
        ensures
            path@ == self@.sub_dir("index"@),
    {
        self.sub_dir("index")
    }

    /// Where unpacked packages are kept.
    pub fn src(&self) -> (path: String)
        ensures
            path@ == self@.sub_dir("src"@),
    {
        self.sub_dir("src")
    }
}

} // verus!
