//! Value types of the sandbox configuration: bind mounts, directory
//! creations, error kinds, and the snapshot of the host environment the
//! profile constructors read.

use vstd::prelude::*;

verus! {

/// Access mode of a bind mount.  `Dev` additionally grants access to device
/// nodes and never merges with the other two modes.
#[derive(Clone, Copy, Debug, PartialEq, Eq, Structural)]
pub enum BindType {
    ReadOnly,
    ReadWrite,
    Dev,
}

impl Default for BindType {
    fn default() -> (r: Self)
        ensures
            r == BindType::ReadOnly,
    {
        BindType::ReadOnly
    }
}

/// Everything that can go wrong while building, resolving or serializing a
/// sandbox configuration.
#[derive(Debug)]
pub enum Error {
    /// A host environment variable the profile needs is unset.
    MissingRequiredHostEnvVar(String),
    /// A bind source with `allow_missing_src == false` is absent from the
    /// host filesystem.
    PathDoesNotExist(String),
    /// A host path could not be represented as text.
    NonUtf8Path(String),
    /// A bind for the same source tried to change the mode to or from `Dev`.
    BindTypeConflict(String),
    /// The same key was assigned two different values; carries the key, the
    /// value already present, and the rejected new value.
    EnvVarConflict(String, String, String),
    /// Reading a bind source during symlink resolution failed with anything
    /// other than not-found; carries the path and the cause.
    SymlinkResolutionIoError(String, String),
    /// `share_net` was requested without `unshare_all`.
    InvalidNetworkSharingRequest,
    /// No command was supplied to run inside the sandbox.
    EmptyCommand,
}

/// Mathematical abstraction of [`Error`].
pub ghost enum ErrorV {
    MissingRequiredHostEnvVar(Seq<char>),
    PathDoesNotExist(Seq<char>),
    NonUtf8Path(Seq<char>),
    BindTypeConflict(Seq<char>),
    EnvVarConflict(Seq<char>, Seq<char>, Seq<char>),
    SymlinkResolutionIoError(Seq<char>, Seq<char>),
    InvalidNetworkSharingRequest,
    EmptyCommand,
}

impl DeepView for Error {
    type V = ErrorV;

    open spec fn deep_view(&self) -> ErrorV {
        match self {
            Error::MissingRequiredHostEnvVar(name) => ErrorV::MissingRequiredHostEnvVar(name@),
            Error::PathDoesNotExist(path) => ErrorV::PathDoesNotExist(path@),
            Error::NonUtf8Path(path) => ErrorV::NonUtf8Path(path@),
            Error::BindTypeConflict(path) => ErrorV::BindTypeConflict(path@),
            Error::EnvVarConflict(key, have, new) => ErrorV::EnvVarConflict(key@, have@, new@),
            Error::SymlinkResolutionIoError(path, cause) => ErrorV::SymlinkResolutionIoError(
                path@,
                cause@,
            ),
            Error::InvalidNetworkSharingRequest => ErrorV::InvalidNetworkSharingRequest,
            Error::EmptyCommand => ErrorV::EmptyCommand,
        }
    }
}

/// A human-readable description of each error kind.
pub open spec fn spec_message(e: ErrorV) -> Seq<char> {
    match e {
        ErrorV::MissingRequiredHostEnvVar(name) => "missing required host environment variable: "@
            + name,
        ErrorV::PathDoesNotExist(path) => "source for binding does not exist: "@ + path,
        ErrorV::NonUtf8Path(path) => "path is not valid utf-8: "@ + path,
        ErrorV::BindTypeConflict(path) => "tried to change bind type to or from dev: "@ + path,
        ErrorV::EnvVarConflict(key, have, new) => "tried to overwrite env variable '"@ + key
            + "' with '"@ + new + "' (previous: '"@ + have + "')"@,
        ErrorV::SymlinkResolutionIoError(path, cause) => "failed to resolve symlink at "@ + path
            + ": "@ + cause,
        ErrorV::InvalidNetworkSharingRequest => "share-net can only be combined with unshare-all"@,
        ErrorV::EmptyCommand => "please supply a command to run in the sandbox"@,
    }
}

impl Error {
    /// The error as text, for the caller to print.
    pub fn message(&self) -> (r: String)
        ensures
            r@ == spec_message(self.deep_view()),
    {
        match self {
            Error::MissingRequiredHostEnvVar(name) => {
                let mut s = String::from_str("missing required host environment variable: ");
                s.append(name.as_str());
                s
            },
            Error::PathDoesNotExist(path) => {
                let mut s = String::from_str("source for binding does not exist: ");
                s.append(path.as_str());
                s
            },
            Error::NonUtf8Path(path) => {
                let mut s = String::from_str("path is not valid utf-8: ");
                s.append(path.as_str());
                s
            },
            Error::BindTypeConflict(path) => {
                let mut s = String::from_str("tried to change bind type to or from dev: ");
                s.append(path.as_str());
                s
            },
            Error::EnvVarConflict(key, have, new) => {
                let mut s = String::from_str("tried to overwrite env variable '");
                s.append(key.as_str());
                s.append("' with '");
                s.append(new.as_str());
                s.append("' (previous: '");
                s.append(have.as_str());
                s.append("')");
                s
            },
            Error::SymlinkResolutionIoError(path, cause) => {
                let mut s = String::from_str("failed to resolve symlink at ");
                s.append(path.as_str());
                s.append(": ");
                s.append(cause.as_str());
                s
            },
            Error::InvalidNetworkSharingRequest => {
                String::from_str("share-net can only be combined with unshare-all")
            },
            Error::EmptyCommand => {
                String::from_str("please supply a command to run in the sandbox")
            },
        }
    }
}

/// A request to make the host path `source` visible inside the sandbox at
/// `destination` (at `source` itself when `destination` is unset).
#[derive(Debug)]
pub struct Bind {
    pub bind_type: BindType,
    pub source: String,
    /// Defaults to `source` when unset.
    pub destination: Option<String>,
    /// When false, constructing the bind fails unless `source` exists on the
    /// host.
    pub allow_missing_src: bool,
}

/// Mathematical abstraction of [`Bind`].
pub ghost struct BindV {
    pub bind_type: BindType,
    pub source: Seq<char>,
    pub destination: Option<Seq<char>>,
    pub allow_missing_src: bool,
}

impl DeepView for Bind {
    type V = BindV;

    open spec fn deep_view(&self) -> BindV {
        BindV {
            bind_type: self.bind_type,
            source: self.source@,
            destination: self.destination.deep_view(),
            allow_missing_src: self.allow_missing_src,
        }
    }
}

impl Clone for Bind {
    fn clone(&self) -> (r: Self)
        ensures
            r.deep_view() == self.deep_view(),
    {
        Bind {
            bind_type: self.bind_type,
            source: self.source.clone(),
            destination: match &self.destination {
                Some(d) => Some(d.clone()),
                None => None,
            },
            allow_missing_src: self.allow_missing_src,
        }
    }
}

/// Relies on `std::path::Path::exists` to ask the host filesystem whether
/// `path` names something that exists (following symlinks).  The answer
/// depends on the machine's filesystem, so nothing is promised of it.
#[verifier::external_body]
fn path_exists(path: &String) -> bool {
    std::path::Path::new(path.as_str()).exists()
}

impl Bind {
    /// A read-only bind of `source`, after checking the host filesystem for
    /// it.
    pub fn new(source: String) -> (r: Result<Bind, Error>)
        ensures
            r matches Ok(b) ==> b.deep_view() == (BindV {
                bind_type: BindType::ReadOnly,
                source: source@,
                destination: None,
                allow_missing_src: false,
            }),
            r matches Err(e) ==> e.deep_view() == ErrorV::PathDoesNotExist(source@),
    {
        let exists = path_exists(&source);
        Bind::_new_inner(source, None, BindType::default(), false, exists)
    }

    /// A bind of `source` with the given mode, after checking the host
    /// filesystem for it.
    pub fn with_bind_type(source: String, bind_type: BindType) -> (r: Result<Bind, Error>)
        ensures
            r matches Ok(b) ==> b.deep_view() == (BindV {
                bind_type,
                source: source@,
                destination: None,
                allow_missing_src: false,
            }),
            r matches Err(e) ==> e.deep_view() == ErrorV::PathDoesNotExist(source@),
    {
        let exists = path_exists(&source);
        Bind::_new_inner(source, None, bind_type, false, exists)
    }

    /// Assembles a bind from its parts.  `source_exists` is the host
    /// filesystem's answer for `source`; when the source is mandatory and the
    /// answer was no, construction fails with `PathDoesNotExist`.
    pub fn _new_inner(
        source: String,
        destination: Option<String>,
        bind_type: BindType,
        allow_missing_src: bool,
        source_exists: bool,
    ) -> (r: Result<Bind, Error>)
        ensures
            allow_missing_src || source_exists ==> (r matches Ok(b) && b.deep_view() == (BindV {
                bind_type,
                source: source@,
                destination: destination.deep_view(),
                allow_missing_src,
            })),
            !(allow_missing_src || source_exists) ==> (r matches Err(e) && e.deep_view()
                == ErrorV::PathDoesNotExist(source@)),
    {
        if !allow_missing_src && !source_exists {
            Err(Error::PathDoesNotExist(source))
        } else {
            Ok(Bind { bind_type, source, destination, allow_missing_src })
        }
    }
}

/// A request to create an empty directory at `path` inside the sandbox,
/// optionally with a POSIX permission mode given as text (e.g. `"0700"`).
#[derive(Debug)]
pub struct Dir {
    pub permissions: Option<String>,
    pub path: String,
}

/// Mathematical abstraction of [`Dir`].
pub ghost struct DirV {
    pub permissions: Option<Seq<char>>,
    pub path: Seq<char>,
}

impl DeepView for Dir {
    type V = DirV;

    open spec fn deep_view(&self) -> DirV {
        DirV { permissions: self.permissions.deep_view(), path: self.path@ }
    }
}

impl Dir {
    pub fn new(path: String) -> (r: Dir)
        ensures
            r.deep_view() == (DirV { permissions: None, path: path@ }),
    {
        Dir { permissions: None, path }
    }

    pub fn with_perms(path: String, permissions: String) -> (r: Dir)
        ensures
            r.deep_view() == (DirV { permissions: Some(permissions@), path: path@ }),
    {
        Dir { permissions: Some(permissions), path }
    }
}

/// Snapshot of the host environment, taken once by the caller before any
/// profile is built.  A `None` means the value was unavailable: for the
/// variables, that the variable is unset; for `working_dir`, that the current
/// directory could not be read as text.
pub struct HostEnv {
    pub path: Option<String>,
    pub home: Option<String>,
    pub xdg_runtime_dir: Option<String>,
    pub term: Option<String>,
    pub colorterm: Option<String>,
    pub wayland_display: Option<String>,
    pub working_dir: Option<String>,
}

/// Mathematical abstraction of [`HostEnv`].
pub ghost struct HostEnvV {
    pub path: Option<Seq<char>>,
    pub home: Option<Seq<char>>,
    pub xdg_runtime_dir: Option<Seq<char>>,
    pub term: Option<Seq<char>>,
    pub colorterm: Option<Seq<char>>,
    pub wayland_display: Option<Seq<char>>,
    pub working_dir: Option<Seq<char>>,
}

impl DeepView for HostEnv {
    type V = HostEnvV;

    open spec fn deep_view(&self) -> HostEnvV {
        HostEnvV {
            path: self.path.deep_view(),
            home: self.home.deep_view(),
            xdg_runtime_dir: self.xdg_runtime_dir.deep_view(),
            term: self.term.deep_view(),
            colorterm: self.colorterm.deep_view(),
            wayland_display: self.wayland_display.deep_view(),
            working_dir: self.working_dir.deep_view(),
        }
    }
}

} // verus!
