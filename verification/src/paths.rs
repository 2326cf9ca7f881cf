//! The XDG-style directory layout of OrbitalOS: where shared data, config,
//! cache and documents live, and each application's directories in them.
//! Paths are held as text; joining follows the rules of a Unix `PathBuf`.

use vstd::prelude::*;
use vstd::string::*;
use crate::app::{display_name_of, slug_of, OrbitalApp};
use crate::error::{OrbitalError, OrbitalResult};
use crate::text::owned;

verus! {

/// `name` appended to `base` as a path component: an absolute `name`
/// replaces `base`; otherwise a `/` separates the two unless `base` is empty
/// or already ends in one.
pub open spec fn path_join(base: Seq<char>, name: Seq<char>) -> Seq<char> {
    if name.len() > 0 && name[0] == '/' {
        name
    } else if base.len() == 0 || base.last() == '/' {
        base + name
    } else {
        base + "/"@ + name
    }
}

/// `name` appended to `base` as a path component, as `Path::join` does it.
pub fn join_path(base: &str, name: &str) -> (p: String)
    ensures
        p@ == path_join(base@, name@),
{
    let n = name.unicode_len();
    if n > 0 && name.get_char(0) == '/' {
        return owned(name);
    }
    let b = base.unicode_len();
    if b == 0 || base.get_char(b - 1) == '/' {
        owned(base).concat(name)
    } else {
        owned(base).concat("/").concat(name)
    }
}

/// The roots of the OrbitalOS directory layout.
#[derive(Debug, Clone, PartialEq, Eq)]
pub struct OrbitalPaths {
    data_root: String,
    config_root: String,
    cache_root: String,
    documents_root: String,
}

/// The roots as plain values.
pub struct PathsView {
    pub data_root: Seq<char>,
    pub config_root: Seq<char>,
    pub cache_root: Seq<char>,
    pub documents_root: Seq<char>,
}

impl View for OrbitalPaths {
    type V = PathsView;

    closed spec fn view(&self) -> PathsView {
        PathsView {
            data_root: self.data_root@,
            config_root: self.config_root@,
            cache_root: self.cache_root@,
            documents_root: self.documents_root@,
        }
    }
}

/// An XDG base directory: the variable's value when it is set and not
/// empty, else the fallback under the home directory (an empty variable
/// counts as unset); then the `orbitalos` directory in it.
pub open spec fn xdg_root(var: Option<Seq<char>>, fallback: Seq<char>) -> Seq<char> {
    let base = match var {
        Some(v) => if v.len() > 0 {
            v
        } else {
            fallback
        },
        None => fallback,
    };
    path_join(base, "orbitalos"@)
}

/// The layout that the home directory and the XDG variables describe.
pub open spec fn discovered_paths(
    home: Seq<char>,
    xdg_data_home: Option<Seq<char>>,
    xdg_config_home: Option<Seq<char>>,
    xdg_cache_home: Option<Seq<char>>,
) -> PathsView {
    PathsView {
        data_root: xdg_root(xdg_data_home, path_join(path_join(home, ".local"@), "share"@)),
        config_root: xdg_root(xdg_config_home, path_join(home, ".config"@)),
        cache_root: xdg_root(xdg_cache_home, path_join(home, ".cache"@)),
        documents_root: path_join(path_join(home, "Documents"@), "OrbitalOS"@),
    }
}

pub open spec fn opt_str_view(o: Option<&str>) -> Option<Seq<char>> {
    match o {
        Some(s) => Some(s@),
        None => None,
    }
}

fn xdg_base(var: Option<&str>, home: &str, fallback_dirs: (&str, Option<&str>)) -> (p: String)
    ensures
        p@ == (match var {
            Some(v) if v@.len() > 0 => v@,
            _ => match fallback_dirs.1 {
                Some(second) => path_join(path_join(home@, fallback_dirs.0@), second@),
                None => path_join(home@, fallback_dirs.0@),
            },
        }),
{
    match var {
        Some(v) if v.unicode_len() > 0 => owned(v),
        _ => {
            let first = join_path(home, fallback_dirs.0);
            match fallback_dirs.1 {
                Some(second) => join_path(first.as_str(), second),
                None => first,
            }
        },
    }
}

impl OrbitalPaths {
    /// The layout for a home directory and the values of `XDG_DATA_HOME`,
    /// `XDG_CONFIG_HOME` and `XDG_CACHE_HOME` (`None` where unset). As the
    /// XDG convention has it, a variable set to the empty text counts as
    /// unset. Without a home directory there is no layout.
    pub fn discover(
        home: Option<&str>,
        xdg_data_home: Option<&str>,
        xdg_config_home: Option<&str>,
        xdg_cache_home: Option<&str>,
    ) -> (r: OrbitalResult<OrbitalPaths>)
        ensures
            match home {
                None => r == Err::<OrbitalPaths, OrbitalError>(OrbitalError::MissingHomeDirectory),
                Some(h) => r is Ok && r->Ok_0@ == discovered_paths(
                    h@,
                    opt_str_view(xdg_data_home),
                    opt_str_view(xdg_config_home),
                    opt_str_view(xdg_cache_home),
                ),
            },
            (home is Some && opt_str_view(xdg_data_home) == Some(Seq::<char>::empty())) ==> r->Ok_0@.data_root
                == path_join(path_join(path_join(home.unwrap()@, ".local"@), "share"@), "orbitalos"@),
            (home is Some && opt_str_view(xdg_config_home) == Some(Seq::<char>::empty())) ==> r->Ok_0@.config_root
                == path_join(path_join(home.unwrap()@, ".config"@), "orbitalos"@),
            (home is Some && opt_str_view(xdg_cache_home) == Some(Seq::<char>::empty())) ==> r->Ok_0@.cache_root
                == path_join(path_join(home.unwrap()@, ".cache"@), "orbitalos"@),
    {
        let home = match home {
            Some(h) => h,
            None => {
                return Err(OrbitalError::MissingHomeDirectory);
            },
        };
        let data_base = xdg_base(xdg_data_home, home, (".local", Some("share")));
        let config_base = xdg_base(xdg_config_home, home, (".config", None));
        let cache_base = xdg_base(xdg_cache_home, home, (".cache", None));
        let documents = join_path(home, "Documents");
        Ok(
            OrbitalPaths {
                data_root: join_path(data_base.as_str(), "orbitalos"),
                config_root: join_path(config_base.as_str(), "orbitalos"),
                cache_root: join_path(cache_base.as_str(), "orbitalos"),
                documents_root: join_path(documents.as_str(), "OrbitalOS"),
            },
        )
    }

    pub fn data_root(&self) -> (p: &str)
        ensures
            p@ == self@.data_root,
    {
        self.data_root.as_str()
    }

    pub fn config_root(&self) -> (p: &str)
        ensures
            p@ == self@.config_root,
    {
        self.config_root.as_str()
    }

    pub fn cache_root(&self) -> (p: &str)
        ensures
            p@ == self@.cache_root,
    {
        self.cache_root.as_str()
    }

    pub fn documents_root(&self) -> (p: &str)
        ensures
            p@ == self@.documents_root,
    {
        self.documents_root.as_str()
    }

    /// The shared SQLite database.
    pub fn database_path(&self) -> (p: String)
        ensures
            p@ == path_join(self@.data_root, "orbital.db"@),
    {
        join_path(self.data_root.as_str(), "orbital.db")
    }

    /// Where attachment files are kept.
    pub fn attachments_dir(&self) -> (p: String)
        ensures
            p@ == path_join(self@.documents_root, "attachments"@),
    {
        join_path(self.documents_root.as_str(), "attachments")
    }

    pub fn app_data_dir(&self, app: OrbitalApp) -> (p: String)
        ensures
            p@ == path_join(self@.data_root, slug_of(app)),
    {
        join_path(self.data_root.as_str(), app.slug())
    }

    pub fn app_config_dir(&self, app: OrbitalApp) -> (p: String)
        ensures
            p@ == path_join(self@.config_root, slug_of(app)),
    {
        join_path(self.config_root.as_str(), app.slug())
    }

    pub fn app_cache_dir(&self, app: OrbitalApp) -> (p: String)
        ensures
            p@ == path_join(self@.cache_root, slug_of(app)),
    {
        join_path(self.cache_root.as_str(), app.slug())
    }

    pub fn app_documents_dir(&self, app: OrbitalApp) -> (p: String)
        ensures
            p@ == path_join(self@.documents_root, display_name_of(app)),
    {
        join_path(self.documents_root.as_str(), app.display_name())
    }

    /// The directories to create, in order, so that the layout exists: the
    /// four roots and the attachments directory.
    pub fn missing_directories(&self) -> (dirs: Vec<String>)
        ensures
            dirs@.len() == 5,
            dirs@[0]@ == self@.data_root,
            dirs@[1]@ == self@.config_root,
            dirs@[2]@ == self@.cache_root,
            dirs@[3]@ == self@.documents_root,
            dirs@[4]@ == path_join(self@.documents_root, "attachments"@),
    {
        let mut dirs: Vec<String> = Vec::new();
        dirs.push(self.data_root.clone());
        dirs.push(self.config_root.clone());
        dirs.push(self.cache_root.clone());
        dirs.push(self.documents_root.clone());
        dirs.push(self.attachments_dir());
        dirs
    }

    /// The settings file of an application, in its config directory.
    pub fn settings_file(&self, app: OrbitalApp) -> (p: String)
        ensures
            p@ == path_join(path_join(self@.config_root, slug_of(app)), SETTINGS_FILE_NAME@),
    {
        let dir = self.app_config_dir(app);
        join_path(dir.as_str(), SETTINGS_FILE_NAME)
    }
}

/// The name of an application's settings file.
pub const SETTINGS_FILE_NAME: &'static str = "settings.conf";

/// Each XDG variable that is set and not empty is the base of its root; an
/// unset or empty one leaves the root under the home directory. The
/// documents root is always under home.
pub proof fn lemma_xdg_variables_choose_roots(
    home: Seq<char>,
    data: Option<Seq<char>>,
    config: Option<Seq<char>>,
    cache: Option<Seq<char>>,
)
    ensures
        ({
            let p = discovered_paths(home, data, config, cache);
            &&& (data is Some && data.unwrap().len() > 0) ==> p.data_root == path_join(data.unwrap(), "orbitalos"@)
            &&& (data is None || data.unwrap().len() == 0) ==> p.data_root == path_join(
                path_join(path_join(home, ".local"@), "share"@),
                "orbitalos"@,
            )
            &&& (config is Some && config.unwrap().len() > 0) ==> p.config_root == path_join(config.unwrap(), "orbitalos"@)
            &&& (config is None || config.unwrap().len() == 0) ==> p.config_root == path_join(
                path_join(home, ".config"@),
                "orbitalos"@,
            )
            &&& (cache is Some && cache.unwrap().len() > 0) ==> p.cache_root == path_join(cache.unwrap(), "orbitalos"@)
            &&& (cache is None || cache.unwrap().len() == 0) ==> p.cache_root == path_join(
                path_join(home, ".cache"@),
                "orbitalos"@,
            )
            &&& p.documents_root == path_join(path_join(home, "Documents"@), "OrbitalOS"@)
        }),
{
}

/// Different applications have different slugs.
pub proof fn lemma_slugs_distinct(a: OrbitalApp, b: OrbitalApp)
    requires
        a != b,
    ensures
        slug_of(a) != slug_of(b),
        slug_of(a).len() > 0,
        slug_of(a)[0] != '/',
{
    reveal_strlit("control");
    reveal_strlit("dock");
    reveal_strlit("drift");
    reveal_strlit("prism");
    reveal_strlit("relay");
    reveal_strlit("vector");
    reveal_strlit("blink");
    assert("control"@.len() == 7);
    assert("dock"@.len() == 4);
    assert("vector"@.len() == 6);
    assert("drift"@[0] == 'd');
    assert("prism"@[0] == 'p');
    assert("relay"@[0] == 'r');
    assert("blink"@[0] == 'b');
    assert("control"@[0] == 'c');
    assert("dock"@[0] == 'd');
    assert("vector"@[0] == 'v');
}

/// Joining different relative names onto one base gives different paths.
pub proof fn lemma_join_injective(base: Seq<char>, a: Seq<char>, b: Seq<char>)
    requires
        a != b,
        a.len() > 0 && a[0] != '/',
        b.len() > 0 && b[0] != '/',
    ensures
        path_join(base, a) != path_join(base, b),
{
    let pre = if base.len() == 0 || base.last() == '/' {
        base
    } else {
        base + "/"@
    };
    assert(path_join(base, a) == pre + a);
    assert(path_join(base, b) == pre + b);
    if pre + a == pre + b {
        assert(a =~= (pre + a).skip(pre.len() as int));
        assert(b =~= (pre + b).skip(pre.len() as int));
    }
}

/// Each application has its own data, config and cache directory.
pub proof fn lemma_app_dirs_distinct(paths: PathsView, a: OrbitalApp, b: OrbitalApp)
    requires
        a != b,
    ensures
        path_join(paths.data_root, slug_of(a)) != path_join(paths.data_root, slug_of(b)),
        path_join(paths.config_root, slug_of(a)) != path_join(paths.config_root, slug_of(b)),
        path_join(paths.cache_root, slug_of(a)) != path_join(paths.cache_root, slug_of(b)),
{
    lemma_slugs_distinct(a, b);
    lemma_slugs_distinct(b, a);
    lemma_join_injective(paths.data_root, slug_of(a), slug_of(b));
    lemma_join_injective(paths.config_root, slug_of(a), slug_of(b));
    lemma_join_injective(paths.cache_root, slug_of(a), slug_of(b));
}

} // verus!
