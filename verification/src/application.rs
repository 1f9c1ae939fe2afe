//! The applications whose paths are relocated, and the defaults that fill
//! what an application leaves open.

use vstd::prelude::*;
use vstd::string::*;

verus! {

/// The path with a leading `~` replaced by the home directory. The `~` has
/// to stand alone or in front of a `/`, and the home directory has to be
/// known; any other path stays as it is.
pub open spec fn tilde_of(path: Seq<char>, home: Option<Seq<char>>) -> Seq<char> {
    match home {
        Some(h) if path.len() > 0 && path[0] == '~' && (path.len() == 1 || path[1] == '/') => h
            + path.skip(1),
        _ => path,
    }
}

/// A string that may be missing, as a sequence of characters.
pub open spec fn text_of(s: Option<String>) -> Option<Seq<char>> {
    match s {
        Some(t) => Some(t@),
        None => None,
    }
}

/// The name of the file of defaults of an application.
pub open spec fn toml_name(name: Seq<char>) -> Seq<char> {
    name + ".toml"@
}

/// The index of the first of `names` at or after `i` that is the file of
/// defaults of `name`, or the length of `names`.
pub open spec fn found_at(names: Seq<String>, name: Seq<char>, i: int) -> int
    decreases names.len() - i,
{
    if i < 0 || i >= names.len() {
        names.len() as int
    } else if names[i]@ == toml_name(name) {
        i
    } else {
        found_at(names, name, i + 1)
    }
}

/// Calls `shellexpand::tilde_with_context` with `home` as the home
/// directory. On a system whose separator is `/` that function puts the
/// home directory in place of a `~` that begins the input and is followed by
/// `/` or by nothing, and returns every other input, and every input where
/// no home directory is given, as it is.
#[verifier::external_body]
fn tilde(path: &str, home: &Option<String>) -> (r: String)
    ensures
        r@ == tilde_of(path@, text_of(*home)),
{
    shellexpand::tilde_with_context(path, || home.as_ref()).into_owned()
}

/// The defaults of an application, as a file of defaults holds them.
#[derive(Debug)]
pub struct ApplicationFile {
    pub name: String,
    pub restart: bool,
    pub paths: Vec<String>,
}

impl ApplicationFile {
    /// The defaults of an application that has no file: no name, no
    /// restart, no paths.
    pub fn empty() -> (r: ApplicationFile)
        ensures
            r.name@.len() == 0,
            !r.restart,
            r.paths@.len() == 0,
    {
        ApplicationFile { name: String::new(), restart: false, paths: Vec::new() }
    }

    /// Which of the files of defaults belongs to the application
    /// `file_name`: the first whose name is `file_name` followed by `.toml`.
    pub fn find(file_name: &str, names: &Vec<String>) -> (r: Option<usize>)
        ensures
            match r {
                Some(k) => k == found_at(names@, file_name@, 0) && k < names@.len(),
                None => found_at(names@, file_name@, 0) == names@.len(),
            },
            r matches Some(k) ==> names@[k as int]@ == toml_name(file_name@),
            r is None ==> forall|j: int| 0 <= j < names@.len() ==> names@[j]@ != toml_name(file_name@),
    {
        let wanted = String::from_str(file_name).concat(".toml");
        let n: usize = names.len();
        let mut i: usize = 0;
        while i < n
            invariant
                n == names@.len(),
                i <= n,
                wanted@ == toml_name(file_name@),
                found_at(names@, file_name@, i as int) == found_at(names@, file_name@, 0),
                forall|j: int| 0 <= j < i ==> names@[j]@ != toml_name(file_name@),
            decreases n - i,
        {
            if names[i] == wanted {
                return Some(i);
            }
            i += 1;
        }
        None
    }
}

/// An application: its name, whether it is restarted, and its paths.
#[derive(Debug)]
pub struct Application {
    pub name: String,
    pub restart: Option<bool>,
    pub paths: Vec<String>,
}

/// The paths of an application as sequences of characters.
pub open spec fn paths_of(app: Application) -> Seq<Seq<char>> {
    app.paths@.map_values(|s: String| s@)
}

/// The paths that an application ends up with: its own, or the defaults
/// where it names none, each with a leading `~` expanded.
pub open spec fn completed_paths(
    own: Seq<Seq<char>>,
    defaults: Seq<Seq<char>>,
    home: Option<Seq<char>>,
) -> Seq<Seq<char>> {
    let chosen = if own.len() == 0 {
        defaults
    } else {
        own
    };
    Seq::new(chosen.len(), |i: int| tilde_of(chosen[i], home))
}

impl Application {
    /// An application with what it leaves open taken from `defaults`: the
    /// restart flag where it has none, the paths where it names none. A
    /// leading `~` of each path is expanded to `home`.
    pub fn with_defaults(self, defaults: &ApplicationFile, home: &Option<String>) -> (r:
        Application)
        ensures
            r.name@ == self.name@,
            r.restart == Some(
                match self.restart {
                    Some(b) => b,
                    None => defaults.restart,
                },
            ),
            paths_of(r) == completed_paths(
                paths_of(self),
                defaults.paths@.map_values(|s: String| s@),
                text_of(*home),
            ),
    {
        let restart: bool = match self.restart {
            Some(b) => b,
            None => defaults.restart,
        };
        let chosen: &Vec<String> = if self.paths.len() == 0 {
            &defaults.paths
        } else {
            &self.paths
        };
        let ghost home_view: Option<Seq<char>> = text_of(*home);
        let n: usize = chosen.len();
        let mut expanded: Vec<String> = Vec::new();
        let mut i: usize = 0;
        while i < n
            invariant
                n == chosen@.len(),
                i <= n,
                expanded@.len() == i,
                home_view == text_of(*home),
                forall|j: int| 0 <= j < i ==> expanded@[j]@ == tilde_of(chosen@[j]@, home_view),
            decreases n - i,
        {
            expanded.push(tilde(chosen[i].as_str(), home));
            i += 1;
        }
        let ghost own = paths_of(self);
        let ghost given = defaults.paths@.map_values(|s: String| s@);
        let r = Application { name: self.name, restart: Some(restart), paths: expanded };
        assert(paths_of(r) =~= completed_paths(own, given, home_view));
        r
    }
}

/// An application as the configuration names it: what it leaves open is
/// missing.
#[derive(Debug)]
pub struct ApplicationConfig {
    pub name: String,
    pub restart: Option<bool>,
    pub paths: Option<Vec<String>>,
}

impl ApplicationConfig {
    /// The paths as sequences of characters, where there are any.
    pub open spec fn path_texts(&self) -> Option<Seq<Seq<char>>> {
        match self.paths {
            Some(v) => Some(v@.map_values(|s: String| s@)),
            None => None,
        }
    }

    /// An application of no name that leaves everything open.
    pub fn new() -> (r: ApplicationConfig)
        ensures
            r.name@.len() == 0,
            r.restart is None,
            r.paths is None,
    {
        ApplicationConfig { name: String::new(), restart: None, paths: None }
    }

    /// Gives the application its name.
    pub fn set_name(&mut self, name: String)
        ensures
            final(self).name@ == name@,
            final(self).restart == old(self).restart,
            final(self).paths == old(self).paths,
    {
        self.name = name;
    }

    /// Says whether the application is restarted.
    pub fn set_restart(&mut self, restart: bool)
        ensures
            final(self).restart == Some(restart),
            final(self).name == old(self).name,
            final(self).paths == old(self).paths,
    {
        self.restart = Some(restart);
    }

    /// Gives the application its paths.
    pub fn set_paths(&mut self, paths: Vec<String>)
        ensures
            final(self).paths == Some(paths),
            final(self).name == old(self).name,
            final(self).restart == old(self).restart,
    {
        self.paths = Some(paths);
    }

    /// The application with what it leaves open taken from `defaults`: the
    /// restart flag where it has none, and the paths where it has none. An
    /// empty list of paths is kept.
    pub fn with_defaults(self, defaults: ApplicationFile) -> (r: ApplicationConfig)
        ensures
            r.name@ == self.name@,
            r.restart == Some(
                match self.restart {
                    Some(b) => b,
                    None => defaults.restart,
                },
            ),
            r.path_texts() == Some(
                match self.path_texts() {
                    Some(own) => own,
                    None => defaults.paths@.map_values(|s: String| s@),
                },
            ),
    {
        let restart: bool = match self.restart {
            Some(b) => b,
            None => defaults.restart,
        };
        let paths: Vec<String> = match self.paths {
            Some(own) => own,
            None => defaults.paths,
        };
        ApplicationConfig { name: self.name, restart: Some(restart), paths: Some(paths) }
    }
}

} // verus!
