//! Profile constructors: pure builders that populate a configuration for
//! each supported mode by composing a common baseline with mode-specific
//! additions, always through the merge operations.

use vstd::prelude::*;

use crate::config::{
    spec_add_bind, spec_add_env, spec_env_keys_unique, spec_sources_unique, BwrapArgs, ConfigV,
};
use crate::model::{Bind, BindType, BindV, Dir, DirV, Error, ErrorV, HostEnv, HostEnvV};

verus! {

/// A read-only bind of `source`, bound at itself, with a mandatory source.
pub open spec fn spec_ro_bind(source: Seq<char>) -> BindV {
    BindV {
        bind_type: BindType::ReadOnly,
        source,
        destination: None,
        allow_missing_src: false,
    }
}

/// A read-write bind of `source`, bound at itself, with a mandatory source.
pub open spec fn spec_rw_bind(source: Seq<char>) -> BindV {
    BindV {
        bind_type: BindType::ReadWrite,
        source,
        destination: None,
        allow_missing_src: false,
    }
}

/// A command token is treated as a flag when it starts with `-`.
pub open spec fn spec_is_flag(token: Seq<char>) -> bool {
    token.len() > 0 && token[0] == '-'
}

/// Folding read-only binds of every non-flag token into the configuration,
/// one insertion at a time, in token order.
pub open spec fn spec_pass_files(c: ConfigV, input: Seq<Seq<char>>) -> Result<ConfigV, ErrorV>
    decreases input.len(),
{
    if input.len() == 0 {
        Ok(c)
    } else if spec_is_flag(input[0]) {
        spec_pass_files(c, input.skip(1))
    } else {
        match spec_add_bind(c.binds, spec_ro_bind(input[0])) {
            Ok(bs) => spec_pass_files(c.with_binds(bs), input.skip(1)),
            Err(e) => Err(e),
        }
    }
}

/// Whether a token of `input` from position `start` on is a bindable path:
/// not a flag.
pub open spec fn spec_has_path_from(input: Seq<Seq<char>>, start: int) -> bool {
    exists|j: int| start <= j < input.len() && !spec_is_flag(input[j])
}

/// The ways adding binds for `paths` can fail: a path in the list is absent
/// from the host, or the insertion itself conflicts.
pub open spec fn spec_pass_files_err(c: ConfigV, paths: Seq<Seq<char>>, e: ErrorV) -> bool {
    ||| (e matches ErrorV::PathDoesNotExist(p) && (exists|j: int|
        0 <= j < paths.len() && !spec_is_flag(paths[j]) && paths[j] == p))
    ||| spec_pass_files(c, paths) == Err::<ConfigV, ErrorV>(e)
}

/// What binding the Wayland socket adds: the display name is exported and
/// the socket path under the runtime directory is bound read-write.
pub open spec fn spec_wl_socket(c: ConfigV, xdg: Seq<char>, wd: Seq<char>) -> Result<
    ConfigV,
    ErrorV,
> {
    match spec_add_env(c.set_env, "WAYLAND_DISPLAY"@, wd) {
        Ok(es) => {
            let c1 = c.with_set_env(es);
            match spec_add_bind(c1.binds, spec_rw_bind(xdg + "/"@ + wd)) {
                Ok(bs) => Ok(c1.with_binds(bs)),
                Err(e) => Err(e),
            }
        },
        Err(e) => Err(e),
    }
}

/// The editor's support binds under the home directory: configuration
/// read-only, caches and state read-write.
pub open spec fn spec_nvim_paths(home: Seq<char>) -> Seq<BindV> {
    seq![
        spec_ro_bind(home + "/.config/nvim"@),
        spec_rw_bind(home + "/.cache/nvim"@),
        spec_rw_bind(home + "/.local/share/nvim"@),
        spec_rw_bind(home + "/.local/state/nvim"@),
        spec_rw_bind(home + "/.cache/yarn"@),
    ]
}

/// Folding a list of binds into the configuration, in order.
pub open spec fn spec_add_binds(c: ConfigV, bs: Seq<BindV>) -> Result<ConfigV, ErrorV>
    decreases bs.len(),
{
    if bs.len() == 0 {
        Ok(c)
    } else {
        match spec_add_bind(c.binds, bs[0]) {
            Ok(nb) => spec_add_binds(c.with_binds(nb), bs.skip(1)),
            Err(e) => Err(e),
        }
    }
}

/// Everything the editor profile adds, in order: the support binds, the
/// working directory read-write, then the Wayland socket.
pub open spec fn spec_nvim(c: ConfigV, envv: HostEnvV) -> Result<ConfigV, ErrorV> {
    match envv.home {
        None => Err(ErrorV::MissingRequiredHostEnvVar("HOME"@)),
        Some(home) => match spec_add_binds(c, spec_nvim_paths(home)) {
            Err(e) => Err(e),
            Ok(c1) => match envv.working_dir {
                None => Err(ErrorV::NonUtf8Path(Seq::empty())),
                Some(w) => match spec_add_bind(c1.binds, spec_rw_bind(w)) {
                    Err(e) => Err(e),
                    Ok(bs) => {
                        let c2 = c1.with_binds(bs);
                        match envv.wayland_display {
                            None => Err(ErrorV::MissingRequiredHostEnvVar("WAYLAND_DISPLAY"@)),
                            Some(wd) => match envv.xdg_runtime_dir {
                                None => Err(
                                    ErrorV::MissingRequiredHostEnvVar("XDG_RUNTIME_DIR"@),
                                ),
                                Some(xdg) => spec_wl_socket(c2, xdg, wd),
                            },
                        }
                    },
                },
            },
        },
    }
}

/// The host paths whose absence can fail the editor profile.
pub open spec fn spec_nvim_candidate(envv: HostEnvV, p: Seq<char>) -> bool {
    ||| ((envv.home is Some) && (exists|j: int|
        0 <= j < spec_nvim_paths(envv.home->0).len() && spec_nvim_paths(envv.home->0)[j].source
            == p))
    ||| ((envv.working_dir is Some) && envv.working_dir->0 == p)
    ||| ((envv.wayland_display is Some) && (envv.xdg_runtime_dir is Some) && p
        == envv.xdg_runtime_dir->0 + "/"@ + envv.wayland_display->0)
}

/// The baseline jail configuration, fully determined by the host snapshot:
/// every namespace unshared, the environment cleared, fresh proc, dev and
/// tmpfs mounts, the merged-usr symlinks, and read-only binds of the system
/// directories.
pub open spec fn spec_default_config(
    path: Seq<char>,
    xdg: Seq<char>,
    home: Seq<char>,
    term: Option<Seq<char>>,
    colorterm: Option<Seq<char>>,
) -> ConfigV {
    ConfigV {
        unshare_all: true,
        share_net: false,
        clear_env: true,
        new_session: true,
        die_with_parent: true,
        follow_symlinks: true,
        hostname: Some("jail"@),
        proc: Some("/proc"@),
        dev: Some("/dev"@),
        tmp_fs: Some("/tmp"@),
        set_env: seq![("PATH"@, path), ("XDG_RUNTIME_DIR"@, xdg)] + (match term {
            Some(t) => seq![("TERM"@, t)],
            None => Seq::empty(),
        }) + (match colorterm {
            Some(t) => seq![("COLORTERM"@, t)],
            None => Seq::empty(),
        }),
        unset_env: Seq::empty(),
        binds: seq![
            spec_ro_bind("/usr"@),
            spec_ro_bind("/sys"@),
            spec_ro_bind("/etc"@),
            spec_ro_bind(home + "/.cargo/bin"@),
        ],
        dirs: seq![
            DirV { permissions: None, path: "/var"@ },
            DirV { permissions: None, path: "/run"@ },
            DirV { permissions: Some("0700"@), path: xdg },
        ],
        symlinks: seq![
            ("/run"@, "/var/run"@),
            ("/usr/lib"@, "/lib"@),
            ("/usr/lib64"@, "/lib64"@),
            ("/usr/bin"@, "/bin"@),
            ("/usr/sbin"@, "/sbin"@),
        ],
    }
}

/// What a successful listing-profile preparation leaves behind: when `/` is
/// among the paths the whole plan collapses to one read-only bind of `/`
/// with no symlinks, otherwise every path is bound read-only.
pub open spec fn spec_ls_ok(
    c0: ConfigV,
    envv: HostEnvV,
    inputv: Seq<Seq<char>>,
    cf: ConfigV,
) -> bool {
    let has_path = spec_has_path_from(inputv, 0);
    let slashed = c0.with_binds(seq![spec_ro_bind("/"@)]).with_symlinks(Seq::empty());
    &&& (has_path ==> (if inputv.contains("/"@) {
        cf == slashed
    } else {
        spec_pass_files(c0, inputv) == Ok::<ConfigV, ErrorV>(cf)
    }))
    &&& (!has_path ==> ((envv.working_dir is Some) && (if envv.working_dir->0 == "/"@ {
        cf == slashed
    } else {
        spec_pass_files(c0, seq![envv.working_dir->0]) == Ok::<ConfigV, ErrorV>(cf)
    })))
}

/// The ways the listing-profile preparation can fail.
pub open spec fn spec_ls_err(
    c0: ConfigV,
    envv: HostEnvV,
    inputv: Seq<Seq<char>>,
    e: ErrorV,
) -> bool {
    let has_path = spec_has_path_from(inputv, 0);
    ||| (!has_path && (envv.working_dir is None) && e == ErrorV::NonUtf8Path(Seq::empty()))
    ||| (has_path && (if inputv.contains("/"@) {
        e == ErrorV::PathDoesNotExist("/"@)
    } else {
        spec_pass_files_err(c0, inputv, e)
    }))
    ||| (!has_path && ((envv.working_dir is Some) && (if envv.working_dir->0 == "/"@ {
        e == ErrorV::PathDoesNotExist("/"@)
    } else {
        spec_pass_files_err(c0, seq![envv.working_dir->0], e)
    })))
}

/// The baseline configuration satisfies the collection invariants: its four
/// bind sources and its environment keys are pairwise distinct.
pub proof fn lemma_default_config_wf(
    path: Seq<char>,
    xdg: Seq<char>,
    home: Seq<char>,
    term: Option<Seq<char>>,
    colorterm: Option<Seq<char>>,
)
    ensures
        spec_default_config(path, xdg, home, term, colorterm).wf(),
{
    broadcast use vstd::string::group_string_axioms;

    reveal_strlit("/usr");
    reveal_strlit("/sys");
    reveal_strlit("/etc");
    reveal_strlit("/.cargo/bin");
    reveal_strlit("PATH");
    reveal_strlit("XDG_RUNTIME_DIR");
    reveal_strlit("TERM");
    reveal_strlit("COLORTERM");
    let c = spec_default_config(path, xdg, home, term, colorterm);
    assert("/usr"@[1] == 'u' && "/sys"@[1] == 's' && "/etc"@[1] == 'e');
    assert((home + "/.cargo/bin"@).len() >= 11);
    assert(spec_sources_unique(c.binds));
    assert("PATH"@[0] == 'P' && "TERM"@[0] == 'T');
    assert("PATH"@.len() == 4 && "XDG_RUNTIME_DIR"@.len() == 15 && "TERM"@.len() == 4
        && "COLORTERM"@.len() == 9);
    match (term, colorterm) {
        (None, None) => {
            assert(c.set_env =~= seq![("PATH"@, path), ("XDG_RUNTIME_DIR"@, xdg)]);
            assert(spec_env_keys_unique(c.set_env));
        },
        (Some(t), None) => {
            assert(c.set_env =~= seq![("PATH"@, path), ("XDG_RUNTIME_DIR"@, xdg), ("TERM"@, t)]);
            assert(spec_env_keys_unique(c.set_env));
        },
        (None, Some(ct)) => {
            assert(c.set_env =~= seq![
                ("PATH"@, path),
                ("XDG_RUNTIME_DIR"@, xdg),
                ("COLORTERM"@, ct),
            ]);
            assert(spec_env_keys_unique(c.set_env));
        },
        (Some(t), Some(ct)) => {
            assert(c.set_env =~= seq![
                ("PATH"@, path),
                ("XDG_RUNTIME_DIR"@, xdg),
                ("TERM"@, t),
                ("COLORTERM"@, ct),
            ]);
            assert(spec_env_keys_unique(c.set_env));
        },
    }
}

/// Adding binds for a token list preserves the collection invariants.
pub proof fn lemma_pass_files_preserves_wf(c: ConfigV, input: Seq<Seq<char>>, c1: ConfigV)
    requires
        c.wf(),
        spec_pass_files(c, input) == Ok::<ConfigV, ErrorV>(c1),
    ensures
        c1.wf(),
    decreases input.len(),
{
    if input.len() == 0 {
    } else if spec_is_flag(input[0]) {
        lemma_pass_files_preserves_wf(c, input.skip(1), c1);
    } else {
        match spec_add_bind(c.binds, spec_ro_bind(input[0])) {
            Ok(bs) => {
                crate::config::lemma_add_bind_preserves_unique_sources(
                    c.binds,
                    spec_ro_bind(input[0]),
                    bs,
                );
                lemma_pass_files_preserves_wf(c.with_binds(bs), input.skip(1), c1);
            },
            Err(_) => {},
        }
    }
}

/// Folding a bind list preserves the collection invariants.
pub proof fn lemma_add_binds_preserves_wf(c: ConfigV, bs: Seq<BindV>, c1: ConfigV)
    requires
        c.wf(),
        spec_add_binds(c, bs) == Ok::<ConfigV, ErrorV>(c1),
    ensures
        c1.wf(),
    decreases bs.len(),
{
    if bs.len() == 0 {
    } else {
        match spec_add_bind(c.binds, bs[0]) {
            Ok(nb) => {
                crate::config::lemma_add_bind_preserves_unique_sources(c.binds, bs[0], nb);
                lemma_add_binds_preserves_wf(c.with_binds(nb), bs.skip(1), c1);
            },
            Err(_) => {},
        }
    }
}

/// Binding the Wayland socket preserves the collection invariants.
pub proof fn lemma_wl_socket_preserves_wf(c: ConfigV, xdg: Seq<char>, wd: Seq<char>, c1: ConfigV)
    requires
        c.wf(),
        spec_wl_socket(c, xdg, wd) == Ok::<ConfigV, ErrorV>(c1),
    ensures
        c1.wf(),
{
    match spec_add_env(c.set_env, "WAYLAND_DISPLAY"@, wd) {
        Ok(es) => {
            crate::config::lemma_add_env_preserves_unique_keys(
                c.set_env,
                "WAYLAND_DISPLAY"@,
                wd,
                es,
            );
            let c2 = c.with_set_env(es);
            match spec_add_bind(c2.binds, spec_rw_bind(xdg + "/"@ + wd)) {
                Ok(bs) => {
                    crate::config::lemma_add_bind_preserves_unique_sources(
                        c2.binds,
                        spec_rw_bind(xdg + "/"@ + wd),
                        bs,
                    );
                },
                Err(_) => {},
            }
        },
        Err(_) => {},
    }
}

/// The editor profile preserves the collection invariants.
pub proof fn lemma_nvim_preserves_wf(c: ConfigV, envv: HostEnvV, c1: ConfigV)
    requires
        c.wf(),
        spec_nvim(c, envv) == Ok::<ConfigV, ErrorV>(c1),
    ensures
        c1.wf(),
{
    match envv.home {
        None => {},
        Some(home) => match spec_add_binds(c, spec_nvim_paths(home)) {
            Err(_) => {},
            Ok(ca) => {
                lemma_add_binds_preserves_wf(c, spec_nvim_paths(home), ca);
                match envv.working_dir {
                    None => {},
                    Some(w) => match spec_add_bind(ca.binds, spec_rw_bind(w)) {
                        Err(_) => {},
                        Ok(bs) => {
                            crate::config::lemma_add_bind_preserves_unique_sources(
                                ca.binds,
                                spec_rw_bind(w),
                                bs,
                            );
                            let cb = ca.with_binds(bs);
                            match envv.wayland_display {
                                None => {},
                                Some(wd) => match envv.xdg_runtime_dir {
                                    None => {},
                                    Some(xdg) => {
                                        lemma_wl_socket_preserves_wf(cb, xdg, wd, c1);
                                    },
                                },
                            }
                        },
                    },
                }
            },
        },
    }
}

/// The listing profile preserves the collection invariants.
pub proof fn lemma_ls_preserves_wf(
    c: ConfigV,
    envv: HostEnvV,
    inputv: Seq<Seq<char>>,
    c1: ConfigV,
)
    requires
        c.wf(),
        spec_ls_ok(c, envv, inputv, c1),
    ensures
        c1.wf(),
{
    let has_path = spec_has_path_from(inputv, 0);
    let slashed = c.with_binds(seq![spec_ro_bind("/"@)]).with_symlinks(Seq::empty());
    assert(spec_sources_unique(slashed.binds));
    if has_path {
        if !inputv.contains("/"@) {
            lemma_pass_files_preserves_wf(c, inputv, c1);
        }
    } else {
        if !(envv.working_dir->0 == "/"@) {
            lemma_pass_files_preserves_wf(c, seq![envv.working_dir->0], c1);
        }
    }
}

/// Whether `token` starts with `-`.
fn starts_with_dash(token: &String) -> (r: bool)
    ensures
        r == spec_is_flag(token@),
{
    let s = token.as_str();
    if s.unicode_len() == 0 {
        false
    } else {
        s.get_char(0) == '-'
    }
}

/// `base` followed by `suffix`.
fn concat_str(base: &String, suffix: &str) -> (r: String)
    ensures
        r@ == base@ + suffix@,
{
    let mut s = base.clone();
    s.append(suffix);
    s
}

impl BwrapArgs {
    /// Builds the baseline jail from the host snapshot.  `PATH`,
    /// `XDG_RUNTIME_DIR` and `HOME` are required; `TERM` and `COLORTERM`
    /// are carried into the sandbox only when present.
    pub fn default(env: &HostEnv) -> (r: Result<BwrapArgs, Error>)
        ensures
            ({
                let envv = env.deep_view();
                match r {
                    Ok(c) => ((envv.xdg_runtime_dir is Some) && (envv.home is Some) && (
                    envv.path is Some) && c.deep_view() == spec_default_config(
                        envv.path->0,
                        envv.xdg_runtime_dir->0,
                        envv.home->0,
                        envv.term,
                        envv.colorterm,
                    )),
                    Err(e) => ({
                        ||| ((envv.xdg_runtime_dir is None) && e.deep_view()
                            == ErrorV::MissingRequiredHostEnvVar("XDG_RUNTIME_DIR"@))
                        ||| ((envv.xdg_runtime_dir is Some) && (envv.home is None)
                            && e.deep_view() == ErrorV::MissingRequiredHostEnvVar("HOME"@))
                        ||| ((envv.xdg_runtime_dir is Some) && (envv.home is Some) && (
                        envv.path is None) && e.deep_view() == ErrorV::MissingRequiredHostEnvVar(
                            "PATH"@,
                        ))
                        ||| ((envv.xdg_runtime_dir is Some) && (envv.home is Some) && (
                        envv.path is Some) && (e.deep_view() matches ErrorV::PathDoesNotExist(p)
                            && (p == "/usr"@ || p == "/sys"@ || p == "/etc"@ || p == envv.home->0
                            + "/.cargo/bin"@)))
                    }),
                }
            }),
    {
        let xdg_runtime_dir = match &env.xdg_runtime_dir {
            Some(x) => x.clone(),
            None => {
                return Err(
                    Error::MissingRequiredHostEnvVar(String::from_str("XDG_RUNTIME_DIR")),
                );
            },
        };
        let home_dir = match &env.home {
            Some(h) => h.clone(),
            None => {
                return Err(Error::MissingRequiredHostEnvVar(String::from_str("HOME")));
            },
        };
        let path = match &env.path {
            Some(p) => p.clone(),
            None => {
                return Err(Error::MissingRequiredHostEnvVar(String::from_str("PATH")));
            },
        };

        let mut binds: Vec<Bind> = Vec::new();
        let b = match Bind::new(String::from_str("/usr")) {
            Ok(b) => b,
            Err(e) => {
                return Err(e);
            },
        };
        binds.push(b);
        let b = match Bind::new(String::from_str("/sys")) {
            Ok(b) => b,
            Err(e) => {
                return Err(e);
            },
        };
        binds.push(b);
        let b = match Bind::new(String::from_str("/etc")) {
            Ok(b) => b,
            Err(e) => {
                return Err(e);
            },
        };
        binds.push(b);
        let b = match Bind::new(concat_str(&home_dir, "/.cargo/bin")) {
            Ok(b) => b,
            Err(e) => {
                return Err(e);
            },
        };
        binds.push(b);

        let mut set_env: Vec<(String, String)> = Vec::new();
        set_env.push((String::from_str("PATH"), path));
        set_env.push((String::from_str("XDG_RUNTIME_DIR"), xdg_runtime_dir.clone()));
        if let Some(term) = &env.term {
            set_env.push((String::from_str("TERM"), term.clone()));
        }
        if let Some(colorterm) = &env.colorterm {
            set_env.push((String::from_str("COLORTERM"), colorterm.clone()));
        }

        let mut dirs: Vec<Dir> = Vec::new();
        dirs.push(Dir::new(String::from_str("/var")));
        dirs.push(Dir::new(String::from_str("/run")));
        dirs.push(Dir::with_perms(xdg_runtime_dir, String::from_str("0700")));

        let mut symlinks: Vec<(String, String)> = Vec::new();
        symlinks.push((String::from_str("/run"), String::from_str("/var/run")));
        symlinks.push((String::from_str("/usr/lib"), String::from_str("/lib")));
        symlinks.push((String::from_str("/usr/lib64"), String::from_str("/lib64")));
        symlinks.push((String::from_str("/usr/bin"), String::from_str("/bin")));
        symlinks.push((String::from_str("/usr/sbin"), String::from_str("/sbin")));

        let args = BwrapArgs {
            unshare_all: true,
            share_net: false,
            clear_env: true,
            new_session: true,
            die_with_parent: true,
            follow_symlinks: true,
            hostname: Some(String::from_str("jail")),
            proc: Some(String::from_str("/proc")),
            dev: Some(String::from_str("/dev")),
            tmp_fs: Some(String::from_str("/tmp")),
            set_env,
            unset_env: Vec::new(),
            binds,
            dirs,
            symlinks,
        };
        proof {
            let envv = env.deep_view();
            let expected = spec_default_config(
                envv.path->0,
                envv.xdg_runtime_dir->0,
                envv.home->0,
                envv.term,
                envv.colorterm,
            );
            assert(args.deep_view().set_env =~= expected.set_env);
            assert(args.deep_view().unset_env =~= expected.unset_env);
            assert(args.deep_view().binds =~= expected.binds);
            assert(args.deep_view().dirs =~= expected.dirs);
            assert(args.deep_view().symlinks =~= expected.symlinks);
            assert(args.deep_view() == expected);
        }
        Ok(args)
    }

    /// Adds a read-only bind for every non-flag token of `input`, skipping
    /// the first token (the program name) when `skip_first` is set.  Each
    /// token's path must exist on the host.
    pub fn pass_files(&mut self, input: &Vec<String>, skip_first: bool) -> (r: Result<(), Error>)
        ensures
            ({
                let start: int = if skip_first && input.deep_view().len() > 0 {
                    1
                } else {
                    0
                };
                let tokens = input.deep_view().skip(start);
                match r {
                    Ok(()) => spec_pass_files(old(self).deep_view(), tokens) == Ok::<
                        ConfigV,
                        ErrorV,
                    >(final(self).deep_view()),
                    Err(e) => spec_pass_files_err(old(self).deep_view(), tokens, e.deep_view()),
                }
            }),
    {
        let ghost inputv = input.deep_view();
        let mut i: usize = if skip_first && input.len() > 0 {
            1
        } else {
            0
        };
        let ghost start = i as int;
        while i < input.len()
            invariant
                inputv == input.deep_view(),
                start == (if skip_first && inputv.len() > 0 {
                    1int
                } else {
                    0int
                }),
                start <= i <= input.len(),
                spec_pass_files(old(self).deep_view(), inputv.skip(start)) == spec_pass_files(
                    self.deep_view(),
                    inputv.skip(i as int),
                ),
            decreases input.len() - i,
        {
            let token = &input[i];
            proof {
                assert(inputv.skip(i as int)[0] == inputv[i as int]);
                assert(inputv.skip(i as int).skip(1) =~= inputv.skip(i as int + 1));
            }
            if !starts_with_dash(token) {
                let bind = match Bind::new(token.clone()) {
                    Ok(b) => b,
                    Err(e) => {
                        proof {
                            assert(inputv.skip(start)[i - start] == inputv[i as int]);
                        }
                        return Err(e);
                    },
                };
                match self.add_bind(bind) {
                    Ok(()) => {},
                    Err(e) => {
                        return Err(e);
                    },
                }
            }
            i += 1;
        }
        proof {
            assert(inputv.skip(input.len() as int) =~= Seq::<Seq<char>>::empty());
        }
        Ok(())
    }

    /// Prepares the listing profile: binds every non-flag token read-only,
    /// or the working directory when no token is a path.  When the root
    /// path `/` is among the paths, the whole bind and symlink plan
    /// collapses to a single read-only bind of `/`.
    pub fn ls(&mut self, input: &Vec<String>, env: &HostEnv) -> (r: Result<(), Error>)
        ensures
            ({
                let inputv = input.deep_view();
                let c0 = old(self).deep_view();
                let envv = env.deep_view();
                match r {
                    Ok(()) => spec_ls_ok(c0, envv, inputv, final(self).deep_view()),
                    Err(e) => spec_ls_err(c0, envv, inputv, e.deep_view()),
                }
            }),
    {
        let ghost inputv = input.deep_view();
        let mut has_path = false;
        let mut i: usize = 0;
        while i < input.len()
            invariant
                inputv == input.deep_view(),
                i <= input.len(),
                has_path == (exists|j: int| 0 <= j < i && !spec_is_flag(inputv[j])),
            decreases input.len() - i,
        {
            if !starts_with_dash(&input[i]) {
                has_path = true;
                proof {
                    assert(!spec_is_flag(inputv[i as int]));
                    assert(exists|j: int| 0 <= j < i + 1 && !spec_is_flag(inputv[j]));
                }
            }
            i += 1;
        }

        let paths: Vec<String> = if has_path {
            clone_strings(input)
        } else {
            match &env.working_dir {
                Some(w) => {
                    let mut v: Vec<String> = Vec::new();
                    v.push(w.clone());
                    proof {
                        assert(v.deep_view() =~= seq![w@]);
                    }
                    v
                },
                None => {
                    return Err(Error::NonUtf8Path(String::new()));
                },
            }
        };

        let slash = String::from_str("/");
        let mut found = false;
        let mut i: usize = 0;
        while i < paths.len()
            invariant
                i <= paths.len(),
                slash@ == "/"@,
                found == (exists|j: int| 0 <= j < i && paths.deep_view()[j] == "/"@),
            decreases paths.len() - i,
        {
            if paths[i] == slash {
                found = true;
                proof {
                    assert(paths.deep_view()[i as int] == "/"@);
                    assert(exists|j: int| 0 <= j < i + 1 && paths.deep_view()[j] == "/"@);
                }
            }
            i += 1;
        }

        if found {
            let root_bind = match Bind::new(String::from_str("/")) {
                Ok(b) => b,
                Err(e) => {
                    return Err(e);
                },
            };
            let mut new_binds: Vec<Bind> = Vec::new();
            new_binds.push(root_bind);
            self.binds = new_binds;
            self.symlinks = Vec::new();
            proof {
                assert(self.binds.deep_view() =~= seq![spec_ro_bind("/"@)]);
                assert(self.symlinks.deep_view() =~= Seq::<(Seq<char>, Seq<char>)>::empty());
            }
            Ok(())
        } else {
            let res = self.pass_files(&paths, false);
            proof {
                assert(paths.deep_view().skip(0) =~= paths.deep_view());
            }
            res
        }
    }

    /// Binds the working directory read-write.
    fn cur_dir_rw(&mut self, env: &HostEnv) -> (r: Result<(), Error>)
        ensures
            ({
                let c0 = old(self).deep_view();
                let cf = final(self).deep_view();
                let envv = env.deep_view();
                match r {
                    Ok(()) => ((envv.working_dir is Some) && (spec_add_bind(
                        c0.binds,
                        spec_rw_bind(envv.working_dir->0),
                    ) matches Ok(bs) && cf == c0.with_binds(bs))),
                    Err(e) => ({
                        ||| ((envv.working_dir is None) && e.deep_view() == ErrorV::NonUtf8Path(
                            Seq::empty(),
                        ))
                        ||| ((envv.working_dir is Some) && ((e.deep_view()
                            == ErrorV::PathDoesNotExist(envv.working_dir->0)) || spec_add_bind(
                            c0.binds,
                            spec_rw_bind(envv.working_dir->0),
                        ) == Err::<Seq<BindV>, ErrorV>(e.deep_view())))
                    }),
                }
            }),
    {
        let working_dir = match &env.working_dir {
            Some(w) => w.clone(),
            None => {
                return Err(Error::NonUtf8Path(String::new()));
            },
        };
        let bind = match Bind::with_bind_type(working_dir, BindType::ReadWrite) {
            Ok(b) => b,
            Err(e) => {
                return Err(e);
            },
        };
        match self.add_bind(bind) {
            Ok(()) => Ok(()),
            Err(e) => Err(e),
        }
    }

    /// Exports the Wayland display and binds its socket read-write.
    fn wl_socket(&mut self, env: &HostEnv) -> (r: Result<(), Error>)
        ensures
            ({
                let c0 = old(self).deep_view();
                let cf = final(self).deep_view();
                let envv = env.deep_view();
                match r {
                    Ok(()) => ((envv.wayland_display is Some) && (envv.xdg_runtime_dir is Some)
                        && spec_wl_socket(
                        c0,
                        envv.xdg_runtime_dir->0,
                        envv.wayland_display->0,
                    ) == Ok::<ConfigV, ErrorV>(cf)),
                    Err(e) => ({
                        ||| ((envv.wayland_display is None) && e.deep_view()
                            == ErrorV::MissingRequiredHostEnvVar("WAYLAND_DISPLAY"@))
                        ||| ((envv.wayland_display is Some) && (envv.xdg_runtime_dir is None)
                            && e.deep_view() == ErrorV::MissingRequiredHostEnvVar(
                            "XDG_RUNTIME_DIR"@,
                        ))
                        ||| ((envv.wayland_display is Some) && (envv.xdg_runtime_dir is Some) && ((
                        e.deep_view() == ErrorV::PathDoesNotExist(
                            envv.xdg_runtime_dir->0 + "/"@ + envv.wayland_display->0,
                        )) || spec_wl_socket(
                            c0,
                            envv.xdg_runtime_dir->0,
                            envv.wayland_display->0,
                        ) == Err::<ConfigV, ErrorV>(e.deep_view())))
                    }),
                }
            }),
    {
        let wayland_display = match &env.wayland_display {
            Some(w) => w.clone(),
            None => {
                return Err(
                    Error::MissingRequiredHostEnvVar(String::from_str("WAYLAND_DISPLAY")),
                );
            },
        };
        let xdg_runtime_dir = match &env.xdg_runtime_dir {
            Some(x) => x.clone(),
            None => {
                return Err(
                    Error::MissingRequiredHostEnvVar(String::from_str("XDG_RUNTIME_DIR")),
                );
            },
        };
        match self.add_env(String::from_str("WAYLAND_DISPLAY"), wayland_display.clone()) {
            Ok(()) => {},
            Err(e) => {
                return Err(e);
            },
        }
        let socket = concat_str(&xdg_runtime_dir, "/");
        let socket = concat_str(&socket, wayland_display.as_str());
        let bind = match Bind::with_bind_type(socket, BindType::ReadWrite) {
            Ok(b) => b,
            Err(e) => {
                return Err(e);
            },
        };
        match self.add_bind(bind) {
            Ok(()) => Ok(()),
            Err(e) => Err(e),
        }
    }

    /// Prepares the editor profile: the editor's configuration, cache,
    /// state and plugin-cache directories, the working directory read-write,
    /// and the Wayland socket.
    pub fn nvim(&mut self, env: &HostEnv) -> (r: Result<(), Error>)
        ensures
            ({
                let c0 = old(self).deep_view();
                let cf = final(self).deep_view();
                let envv = env.deep_view();
                match r {
                    Ok(()) => spec_nvim(c0, envv) == Ok::<ConfigV, ErrorV>(cf),
                    Err(e) => (((e.deep_view() is PathDoesNotExist) && spec_nvim_candidate(
                        envv,
                        e.deep_view()->PathDoesNotExist_0,
                    )) || spec_nvim(c0, envv) == Err::<ConfigV, ErrorV>(e.deep_view())),
                }
            }),
    {
        let ghost c0 = self.deep_view();
        let home = match &env.home {
            Some(h) => h.clone(),
            None => {
                return Err(Error::MissingRequiredHostEnvVar(String::from_str("HOME")));
            },
        };
        let ghost pathsv = spec_nvim_paths(home@);

        let mut additional: Vec<Bind> = Vec::new();
        let b = match Bind::new(concat_str(&home, "/.config/nvim")) {
            Ok(b) => b,
            Err(e) => {
                proof {
                    assert(pathsv[0].source == home@ + "/.config/nvim"@);
                }
                return Err(e);
            },
        };
        additional.push(b);
        let b = match Bind::with_bind_type(
            concat_str(&home, "/.cache/nvim"),
            BindType::ReadWrite,
        ) {
            Ok(b) => b,
            Err(e) => {
                proof {
                    assert(pathsv[1].source == home@ + "/.cache/nvim"@);
                }
                return Err(e);
            },
        };
        additional.push(b);
        let b = match Bind::with_bind_type(
            concat_str(&home, "/.local/share/nvim"),
            BindType::ReadWrite,
        ) {
            Ok(b) => b,
            Err(e) => {
                proof {
                    assert(pathsv[2].source == home@ + "/.local/share/nvim"@);
                }
                return Err(e);
            },
        };
        additional.push(b);
        let b = match Bind::with_bind_type(
            concat_str(&home, "/.local/state/nvim"),
            BindType::ReadWrite,
        ) {
            Ok(b) => b,
            Err(e) => {
                proof {
                    assert(pathsv[3].source == home@ + "/.local/state/nvim"@);
                }
                return Err(e);
            },
        };
        additional.push(b);
        let b = match Bind::with_bind_type(
            concat_str(&home, "/.cache/yarn"),
            BindType::ReadWrite,
        ) {
            Ok(b) => b,
            Err(e) => {
                proof {
                    assert(pathsv[4].source == home@ + "/.cache/yarn"@);
                }
                return Err(e);
            },
        };
        additional.push(b);
        proof {
            assert(additional.deep_view() =~= pathsv);
            assert(pathsv.skip(0) =~= pathsv);
        }

        let mut i: usize = 0;
        while i < additional.len()
            invariant
                i <= additional.len(),
                additional.deep_view() == pathsv,
                pathsv == spec_nvim_paths(env.deep_view().home.unwrap()),
                env.deep_view().home matches Some(_),
                spec_add_binds(c0, pathsv) == spec_add_binds(
                    self.deep_view(),
                    pathsv.skip(i as int),
                ),
                c0 == old(self).deep_view(),
            decreases additional.len() - i,
        {
            proof {
                assert(pathsv.skip(i as int)[0] == pathsv[i as int]);
                assert(pathsv.skip(i as int).skip(1) =~= pathsv.skip(i as int + 1));
            }
            match self.add_bind(additional[i].clone()) {
                Ok(()) => {},
                Err(e) => {
                    return Err(e);
                },
            }
            i += 1;
        }
        proof {
            assert(pathsv.skip(additional.len() as int) =~= Seq::<BindV>::empty());
        }

        match self.cur_dir_rw(env) {
            Ok(()) => {},
            Err(e) => {
                return Err(e);
            },
        }
        match self.wl_socket(env) {
            Ok(()) => Ok(()),
            Err(e) => Err(e),
        }
    }
}

/// Clones a list of tokens.
fn clone_strings(v: &Vec<String>) -> (r: Vec<String>)
    ensures
        r.deep_view() == v.deep_view(),
{
    let mut out: Vec<String> = Vec::new();
    let mut i: usize = 0;
    while i < v.len()
        invariant
            i <= v.len(),
            out.deep_view() == v.deep_view().take(i as int),
        decreases v.len() - i,
    {
        let ghost pre = out.deep_view();
        out.push(v[i].clone());
        proof {
            assert(out.deep_view() =~= pre.push(v.deep_view()[i as int]));
            assert(pre.push(v.deep_view()[i as int]) =~= v.deep_view().take(i as int + 1));
        }
        i += 1;
    }
    proof {
        assert(v.deep_view().take(v.len() as int) =~= v.deep_view());
    }
    out
}

} // verus!
