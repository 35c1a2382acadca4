//! Which libraries a running program has imported, and where downloaded
//! packages keep their entry file.
//!
//! Built-in libraries are compiled into the interpreter, which just marks
//! them loaded. Downloaded packages are Akkhara source files under
//! `<libraries_dir>/<name>/`; their `index.json` may name the entry file.
use std::path::PathBuf;

use vstd::prelude::*;

use crate::json::{extract_json_string_field, json_field_spec};
use crate::text::str_eq;

verus! {

/// std's `PathBuf`, declared so that a loader can carry its folder; nothing
/// is assumed of what a path holds.
#[verifier::external_type_specification]
#[verifier::external_body]
pub struct ExPathBuf(PathBuf);

/// The set of loaded library names, and the folder that holds downloaded
/// packages.
pub struct LibraryLoader {
    loaded: Vec<String>,
    libraries_dir: PathBuf,
}

impl View for LibraryLoader {
    type V = Set<Seq<char>>;

    closed spec fn view(&self) -> Set<Seq<char>> {
        self.loaded@.map_values(|s: String| s@).to_set()
    }
}

/// The entry file of a package, relative to its folder, when its manifest
/// holds `manifest` (or when there is none).
pub open spec fn entry_path_spec(manifest: Option<Seq<char>>) -> Seq<char> {
    match manifest {
        Some(m) => match json_field_spec(m, "entry"@) {
            Some(e) => e,
            None => "main/main.akk"@,
        },
        None => "main/main.akk"@,
    }
}

impl LibraryLoader {
    /// The folder that holds downloaded packages.
    pub closed spec fn dir(&self) -> PathBuf {
        self.libraries_dir
    }

    /// A loader with nothing loaded.
    pub fn new(libraries_dir: PathBuf) -> (r: Self)
        ensures
            r@ == Set::<Seq<char>>::empty(),
            r.dir() == libraries_dir,
    {
        let r = LibraryLoader { loaded: Vec::new(), libraries_dir };
        proof {
            assert(r.loaded@.map_values(|s: String| s@) =~= Seq::<Seq<char>>::empty());
            assert(r@ =~= Set::<Seq<char>>::empty());
        }
        r
    }

    /// Records that the library `name` is loaded.
    pub fn mark_loaded(&mut self, name: &str)
        ensures
            final(self)@ == old(self)@.insert(name@),
            final(self).dir() == old(self).dir(),
    {
        if !self.is_loaded(name) {
            let ghost before = self.loaded@;
            self.loaded.push(String::from_str(name));
            proof {
                let f = |s: String| s@;
                assert(self.loaded@.map_values(f) =~= before.map_values(f).push(name@));
                let m = before.map_values(f);
                assert forall|x: Seq<char>| #[trigger] m.push(name@).contains(x) <==> (m.contains(x)
                    || x == name@) by {
                    if m.push(name@).contains(x) {
                        let i = choose|i: int| 0 <= i < m.push(name@).len() && m.push(name@)[i] == x;
                        if i < m.len() {
                            assert(m[i] == x);
                        }
                    }
                    if m.contains(x) {
                        let i = choose|i: int| 0 <= i < m.len() && m[i] == x;
                        assert(m.push(name@)[i] == x);
                    }
                    if x == name@ {
                        assert(m.push(name@)[m.len() as int] == x);
                    }
                }
                assert(m.push(name@).to_set() =~= m.to_set().insert(name@));
            }
        } else {
            proof {
                assert(old(self)@.insert(name@) =~= old(self)@);
            }
        }
    }

    /// Tells whether the library `name` has been loaded.
    pub fn is_loaded(&self, name: &str) -> (r: bool)
        ensures
            r == self@.contains(name@),
    {
        let ghost names = self.loaded@.map_values(|s: String| s@);
        let mut k: usize = 0;
        while k < self.loaded.len()
            invariant
                k <= self.loaded@.len(),
                names == self.loaded@.map_values(|s: String| s@),
                forall|q: int| 0 <= q < k ==> names[q] != name@,
            decreases self.loaded@.len() - k,
        {
            if str_eq(self.loaded[k].as_str(), name) {
                proof {
                    assert(names[k as int] == name@);
                    assert(names.to_set().contains(name@));
                }
                return true;
            }
            k += 1;
        }
        proof {
            assert(!names.contains(name@));
        }
        false
    }

    /// The folder that holds downloaded packages.
    pub fn libraries_dir(&self) -> (r: &PathBuf)
        ensures
            *r == self.dir(),
    {
        &self.libraries_dir
    }

    /// The entry file of a package, relative to its folder: the manifest's
    /// `entry` field, or `main/main.akk` when there is no manifest or no
    /// such field.
    pub fn entry_path(manifest: Option<&str>) -> (r: String)
        ensures
            r@ == entry_path_spec(
                match manifest {
                    Some(m) => Some(m@),
                    None => None,
                },
            ),
    {
        match manifest {
            Some(m) => match extract_json_string_field(m, "entry") {
                Some(e) => e,
                None => String::from_str("main/main.akk"),
            },
            None => String::from_str("main/main.akk"),
        }
    }
}

/// Once a library is marked loaded it is loaded, marking it again changes
/// nothing, and whether any other library is loaded stays as it was.
pub proof fn law_mark_then_loaded(loaded: Set<Seq<char>>, name: Seq<char>, other: Seq<char>)
    ensures
        loaded.insert(name).contains(name),
        loaded.insert(name).insert(name) == loaded.insert(name),
        other != name ==> (loaded.insert(name).contains(other) == loaded.contains(other)),
{
    assert(loaded.insert(name).insert(name) =~= loaded.insert(name));
}

} // verus!
