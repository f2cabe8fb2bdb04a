//! The kernel config file: where it is looked for, and how it is told apart
//! from a gzip-compressed one.

use vstd::prelude::*;

use crate::error::{GetKernelVersionError, LocateConfigError, RequireConfigError};

verus! {

/// A kernel config, known by the path of its file.
pub struct Config {
    path: String,
}

impl View for Config {
    type V = Seq<char>;

    /// The path of the config's file.
    closed spec fn view(&self) -> Seq<char> {
        self.path@
    }
}

impl Config {
    /// Creates a [`Config`] for the file at `path`.
    pub fn new(path: String) -> (c: Self)
        ensures
            c@ == path@,
    {
        Config { path }
    }

    /// The path of the underlying file.
    pub fn path(&self) -> (p: &str)
        ensures
            p@ == self@,
    {
        self.path.as_str()
    }
}

/// A possible value of a [`ConfigEntry`].
#[derive(Debug, Clone, PartialEq, Eq)]
pub enum ConfigValue {
    /// `CONFIG_FOO=y`
    Yes,
    /// `CONFIG_FOO=m`
    Module,
    /// `# CONFIG_FOO is not set`
    No,
    /// `CONFIG_FOO=12345` or `CONFIG_FOO="something something"`
    Value(String),
}

/// An entry in the kernel config: a name and its value.
pub struct ConfigEntry {
    name: String,
    value: ConfigValue,
}

impl ConfigEntry {
    /// The entry's name.
    pub closed spec fn spec_name(&self) -> Seq<char> {
        self.name@
    }

    /// The entry's value.
    pub closed spec fn spec_value(&self) -> ConfigValue {
        self.value
    }

    /// Creates a [`ConfigEntry`] named `name` with the value `value`.
    pub fn new(name: String, value: ConfigValue) -> (e: Self)
        ensures
            e.spec_name() == name@,
            e.spec_value() == value,
    {
        ConfigEntry { name, value }
    }

    /// The name of this entry.
    pub fn name(&self) -> (r: &str)
        ensures
            r@ == self.spec_name(),
    {
        self.name.as_str()
    }

    /// The value of this entry.
    pub fn value(&self) -> (r: &ConfigValue)
        ensures
            *r == self.spec_value(),
    {
        &self.value
    }
}

/// `std::path::Path::exists`: whether a file exists at `path`, following
/// symbolic links (false also where its metadata cannot be read). What is on
/// disk decides, so nothing is stated of the result.
#[verifier::external_body]
fn path_exists(path: &str) -> bool {
    std::path::Path::new(path).exists()
}

/// `nix::sys::utsname::uname`, with the release level that it reports taken
/// as UTF-8 text (`None` where it is not valid UTF-8), or the error code that
/// the system call failed with. The running system decides which, so only
/// this is stated: nix cuts the release at its first NUL byte
/// (`UtsName::release`), so a release that comes back holds no NUL
/// character.
#[verifier::external_body]
fn uname_release() -> (r: Result<Option<String>, nix::errno::Errno>)
    ensures
        r matches Ok(Some(release)) ==> !release@.contains('\0'),
{
    match nix::sys::utsname::uname() {
        Ok(names) => Ok(names.release().to_str().map(str::to_owned)),
        Err(e) => Err(e),
    }
}

/// The kernel release that `uname` gave as `raw`, or why there is none.
pub fn kernel_version_from_uname(raw: Result<Option<String>, nix::errno::Errno>) -> (r: Result<
    String,
    GetKernelVersionError,
>)
    ensures
        match raw {
            Ok(Some(release)) => r == Ok::<String, GetKernelVersionError>(release),
            Ok(None) => r == Err::<String, GetKernelVersionError>(
                GetKernelVersionError::ReleaseMissingFromUname,
            ),
            Err(e) => r == Err::<String, GetKernelVersionError>(
                GetKernelVersionError::UnameError(e),
            ),
        },
{
    match raw {
        Ok(Some(release)) => Ok(release),
        Ok(None) => Err(GetKernelVersionError::ReleaseMissingFromUname),
        Err(e) => Err(GetKernelVersionError::UnameError(e)),
    }
}

/// The release of the running kernel, as `uname -r` prints it; it holds no
/// NUL character.
fn get_linux_kernel_version() -> (r: Result<String, GetKernelVersionError>)
    ensures
        r matches Ok(release) ==> !release@.contains('\0'),
{
    kernel_version_from_uname(uname_release())
}

/// The path at which a distribution installs the config of the kernel
/// `release`: `/boot/config-<release>`.
pub fn boot_config_path(release: &str) -> (p: String)
    ensures
        p@ == "/boot/config-"@ + release@,
{
    let mut p = String::from_str("/boot/config-");
    p.append(release);
    p
}

/// The path at which a kernel built with `CONFIG_IKCONFIG_PROC` exposes its
/// own config.
pub fn proc_config_path() -> (p: String)
    ensures
        p@ == "/proc/config.gz"@,
{
    String::from_str("/proc/config.gz")
}

/// The places where [`locate_config`] may find a config: `default_path`
/// (where one is given), `/proc/config.gz`, or `/boot/config-<release>` for
/// some kernel release.
pub open spec fn known_location(default_path: Option<String>, path: Seq<char>) -> bool {
    ||| (default_path matches Some(d) && path == d@)
    ||| path == "/proc/config.gz"@
    ||| "/boot/config-"@.is_prefix_of(path)
}

/// The decision of [`locate_config`], given what its probes found: whether
/// `default_path` (where one is given) exists, whether `/proc/config.gz`
/// exists (where it was probed), and, where the release was asked for, the
/// release of the running kernel (or why there is none) with whether
/// `/boot/config-<release>` exists.
///
/// The first existing path wins, in the order `default_path`,
/// `/proc/config.gz`, `/boot/config-<release>`; the search fails only where
/// neither of the first two exists and the release cannot be had; it finds
/// nothing where none of the three exists.
pub fn choose_location(
    default_path: Option<String>,
    default_exists: bool,
    proc_exists: bool,
    boot: Option<(Result<String, GetKernelVersionError>, bool)>,
) -> (r: Result<Option<Config>, LocateConfigError>)
    ensures
        default_path is Some && default_exists ==> (r matches Ok(Some(c)) && c@
            == default_path->0@),
        !(default_path is Some && default_exists) && proc_exists ==> (r matches Ok(Some(c)) && c@
            == "/proc/config.gz"@),
        !(default_path is Some && default_exists) && !proc_exists ==> match boot {
            None => r matches Ok(None),
            Some((Err(e), _)) => r == Err::<Option<Config>, LocateConfigError>(
                LocateConfigError::FailedToGetLinuxKernelVersion(e),
            ),
            Some((Ok(release), true)) => (r matches Ok(Some(c)) && c@ == "/boot/config-"@
                + release@),
            Some((Ok(_), false)) => r matches Ok(None),
        },
{
    if let Some(path) = default_path {
        if default_exists {
            return Ok(Some(Config { path }));
        }
    }
    if proc_exists {
        return Ok(Some(Config { path: proc_config_path() }));
    }
    match boot {
        None => Ok(None),
        Some((Err(e), _)) => Err(LocateConfigError::FailedToGetLinuxKernelVersion(e)),
        Some((Ok(release), boot_exists)) => {
            if boot_exists {
                Ok(Some(Config { path: boot_config_path(release.as_str()) }))
            } else {
                Ok(None)
            }
        },
    }
}

/// Looks for the kernel config and returns it where found: first at
/// `default_path` (where one is given), then at `/proc/config.gz`, then at
/// `/boot/config-<release>` for the release of the running kernel.
///
/// Finds no config where none of these files exists (`Ok(None)`), and fails
/// where the release is needed and cannot be had. Which files exist is
/// probed here; what follows from the probes is [`choose_location`].
pub fn locate_config(default_path: Option<String>) -> (r: Result<Option<Config>, LocateConfigError>)
    ensures
        r matches Ok(Some(c)) ==> known_location(default_path, c@),
{
    let default_exists = match &default_path {
        Some(path) => path_exists(path.as_str()),
        None => false,
    };
    let default_found = default_path.is_some() && default_exists;
    let proc_exists = if default_found {
        false
    } else {
        path_exists(proc_config_path().as_str())
    };
    let boot = if default_found || proc_exists {
        None
    } else {
        match get_linux_kernel_version() {
            Ok(release) => {
                let boot_exists = path_exists(boot_config_path(release.as_str()).as_str());
                Some((Ok(release), boot_exists))
            },
            Err(e) => Some((Err(e), false)),
        }
    };
    let ghost probed = boot;
    let r = choose_location(default_path, default_exists, proc_exists, boot);
    proof {
        if let Some((Ok(release), true)) = probed {
            let p = "/boot/config-"@ + release@;
            assert(p.subrange(0, "/boot/config-"@.len() as int) =~= "/boot/config-"@);
        }
    }
    r
}

/// Turns the outcome of [`locate_config`] into a config that must exist: a
/// config that was found is returned; none found is [`RequireConfigError::NotFound`].
pub fn require_found(located: Result<Option<Config>, LocateConfigError>) -> (r: Result<
    Config,
    RequireConfigError,
>)
    ensures
        match located {
            Ok(Some(c)) => r == Ok::<Config, RequireConfigError>(c),
            Ok(None) => r == Err::<Config, RequireConfigError>(RequireConfigError::NotFound),
            Err(e) => r == Err::<Config, RequireConfigError>(
                RequireConfigError::FailedToLocate(e),
            ),
        },
{
    match located {
        Ok(Some(c)) => Ok(c),
        Ok(None) => Err(RequireConfigError::NotFound),
        Err(e) => Err(RequireConfigError::FailedToLocate(e)),
    }
}

/// Same as [`locate_config`], but fails with [`RequireConfigError::NotFound`]
/// where no config was found.
pub fn require_config(default_path: Option<String>) -> (r: Result<Config, RequireConfigError>)
    ensures
        r matches Ok(c) ==> known_location(default_path, c@),
{
    require_found(locate_config(default_path))
}

/// Whether `head`, the bytes read from the start of a file, is the gzip
/// magic number `1f 8b`.
pub fn has_gzip_magic(head: &[u8]) -> (r: bool)
    ensures
        r == (head@ == seq![0x1fu8, 0x8bu8]),
{
    if head.len() == 2 && head[0] == 0x1f && head[1] == 0x8b {
        assert(head@ =~= seq![0x1fu8, 0x8bu8]);
        true
    } else {
        false
    }
}

} // verus!
