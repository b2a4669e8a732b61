//! Where this installation keeps its local state.
//!
//! One environment variable, `HRC_HOME`, overrides everything. Otherwise the
//! location follows the platform convention. Resolution is done here rather
//! than through a directory crate so the rules are visible and testable:
//! the caller reads the environment and hands the values in.
use vstd::prelude::*;

use crate::error::CliError;
use crate::text::{chars_of, extend, extend_str, string_of};

verus! {

/// Environment variable that overrides the state directory.
pub const HOME_VARIABLE: &'static str = "HRC_HOME";

/// Paths this installation uses.
pub struct Paths {
    home: String,
}

/// The platform conventions that decide the default state directory.
#[derive(PartialEq, Eq, Structural)]
pub enum Platform {
    /// Windows: `%APPDATA%\hrc`, path components joined with `\`.
    Windows,
    /// macOS: `~/Library/Application Support/hrc`.
    MacOs,
    /// Everything else: `$XDG_DATA_HOME/hrc` or `~/.local/share/hrc`.
    Other,
}

/// The separator a platform puts between path components.
pub open spec fn separator(platform: Platform) -> char {
    if platform == Platform::Windows {
        '\\'
    } else {
        '/'
    }
}

/// Whether a character ends a path component on a platform.
pub open spec fn is_separator(platform: Platform, c: char) -> bool {
    c == '/' || (platform == Platform::Windows && c == '\\')
}

/// `base` joined with the relative path `name` (`PathBuf::join`): a
/// separator is added between them unless `base` is empty or already ends
/// with one.
pub open spec fn joined(platform: Platform, base: Seq<char>, name: Seq<char>) -> Seq<char> {
    if base.len() == 0 || is_separator(platform, base.last()) {
        base + name
    } else {
        base + seq![separator(platform)] + name
    }
}

/// `base` joined with the relative path `name`.
pub fn join(platform: &Platform, base: &str, name: &str) -> (r: String)
    ensures
        r@ == joined(*platform, base@, name@),
{
    let b = chars_of(base);
    let mut out: Vec<char> = Vec::new();
    extend(&mut out, &b);
    let windows = matches!(platform, Platform::Windows);
    if b.len() > 0 && !(b[b.len() - 1] == '/' || (windows && b[b.len() - 1] == '\\')) {
        out.push(
            if windows {
                '\\'
            } else {
                '/'
            },
        );
    }
    extend_str(&mut out, name);
    string_of(out.as_slice())
}

/// The default state directory, from the platform and the environment.
///
/// On Windows `APPDATA` comes first, because a Windows host may also define
/// `HOME`. `XDG_DATA_HOME` is honored only when it is absolute: the XDG
/// specification says a relative value is invalid, and honoring one would put
/// state wherever the process happened to be started.
pub open spec fn default_home_of(
    platform: Platform,
    appdata: Option<Seq<char>>,
    xdg_data_home: Option<(Seq<char>, bool)>,
    home: Option<Seq<char>>,
) -> Option<Seq<char>> {
    if platform == Platform::Windows && appdata is Some {
        Some(joined(platform, appdata.unwrap(), "hrc"@))
    } else if xdg_data_home is Some && xdg_data_home.unwrap().1 {
        Some(joined(platform, xdg_data_home.unwrap().0, "hrc"@))
    } else {
        match home {
            Some(h) => Some(
                joined(
                    platform,
                    h,
                    if platform == Platform::MacOs {
                        "Library/Application Support/hrc"@
                    } else {
                        ".local/share/hrc"@
                    },
                ),
            ),
            None => None,
        }
    }
}

/// The platform's default state directory. `xdg_data_home` carries the
/// value of `XDG_DATA_HOME` and whether it is an absolute path.
pub fn default_home(
    platform: &Platform,
    appdata: Option<&str>,
    xdg_data_home: Option<(&str, bool)>,
    home: Option<&str>,
) -> (r: Option<String>)
    ensures
        r matches Some(s) ==> default_home_of(
            *platform,
            crate::text::opt_str_view(appdata),
            match xdg_data_home {
                Some((x, absolute)) => Some((x@, absolute)),
                None => None,
            },
            crate::text::opt_str_view(home),
        ) == Some(s@),
        r is None ==> default_home_of(
            *platform,
            crate::text::opt_str_view(appdata),
            match xdg_data_home {
                Some((x, absolute)) => Some((x@, absolute)),
                None => None,
            },
            crate::text::opt_str_view(home),
        ) is None,
{
    if matches!(platform, Platform::Windows) {
        if let Some(a) = appdata {
            return Some(join(platform, a, "hrc"));
        }
    }
    if let Some((x, absolute)) = xdg_data_home {
        if absolute {
            return Some(join(platform, x, "hrc"));
        }
    }
    match home {
        Some(h) => Some(
            join(
                platform,
                h,
                if matches!(platform, Platform::MacOs) {
                    "Library/Application Support/hrc"
                } else {
                    ".local/share/hrc"
                },
            ),
        ),
        None => None,
    }
}

impl Paths {
    /// The state directory these paths are rooted at.
    pub closed spec fn home_view(&self) -> Seq<char> {
        self.home@
    }

    /// Resolves paths from `HRC_HOME`, falling back to the platform default.
    ///
    /// A set but empty `HRC_HOME` is refused rather than taken to mean the
    /// current directory.
    pub fn resolve(hrc_home: Option<&str>, default: Option<String>) -> (r: Result<Paths, CliError>)
        ensures
            match hrc_home {
                Some(h) => if h@.len() == 0 {
                    r matches Err(CliError::NoStateDirectory)
                } else {
                    r matches Ok(p) && p.home_view() == h@
                },
                None => match default {
                    Some(d) => r matches Ok(p) && p.home_view() == d@,
                    None => r matches Err(CliError::NoStateDirectory),
                },
            },
    {
        match hrc_home {
            Some(h) => {
                if h.is_empty() {
                    Err(CliError::NoStateDirectory)
                } else {
                    Ok(Paths { home: h.to_owned() })
                }
            },
            None => match default {
                Some(d) => Ok(Paths { home: d }),
                None => Err(CliError::NoStateDirectory),
            },
        }
    }

    /// Uses an explicit directory.
    pub fn at(home: &str) -> (p: Paths)
        ensures
            p.home_view() == home@,
    {
        Paths { home: home.to_owned() }
    }

    /// The state directory.
    pub fn home(&self) -> (r: &str)
        ensures
            r@ == self.home_view(),
    {
        self.home.as_str()
    }

    /// The local state database.
    pub fn database(&self) -> (r: String)
        ensures
            r@ == joined(Platform::Other, self.home_view(), "state.sqlite"@),
    {
        join(&Platform::Other, self.home.as_str(), "state.sqlite")
    }

    /// The directory holding protected key files.
    pub fn keys(&self) -> (r: String)
        ensures
            r@ == joined(Platform::Other, self.home_view(), "keys"@),
    {
        join(&Platform::Other, self.home.as_str(), "keys")
    }
}

/// The environment variable that supplies the key store passphrase.
pub const PASSPHRASE_VARIABLE: &'static str = "HRC_PASSPHRASE";

/// What every command runs with: where state lives, and the passphrase
/// that unlocks the key store when the environment supplied one.
pub struct Context {
    /// Where this installation keeps its state.
    pub paths: Paths,
    /// The key store passphrase, if any.
    pub passphrase: Option<String>,
}

impl Context {
    /// The context of one invocation. `passphrase` is the value of
    /// `HRC_PASSPHRASE`; an empty one counts as none, so that an exported
    /// but blank variable does not try to unlock the store with nothing.
    pub fn from_environment(paths: Paths, passphrase: Option<String>) -> (c: Context)
        ensures
            c.paths == paths,
            match passphrase {
                Some(p) => if p@.len() == 0 {
                    c.passphrase is None
                } else {
                    c.passphrase == Some(p)
                },
                None => c.passphrase is None,
            },
    {
        let passphrase = match passphrase {
            Some(p) => if p.as_str().is_empty() {
                None
            } else {
                Some(p)
            },
            None => None,
        };
        Context { paths, passphrase }
    }

    /// The passphrase to open the key store with, or `NoPassphrase`.
    pub fn key_store_passphrase(&self) -> (r: Result<&str, CliError>)
        ensures
            match self.passphrase {
                Some(p) => r matches Ok(s) && s@ == p@,
                None => r matches Err(CliError::NoPassphrase),
            },
    {
        match &self.passphrase {
            Some(p) => Ok(p.as_str()),
            None => Err(CliError::NoPassphrase),
        }
    }
}

} // verus!
