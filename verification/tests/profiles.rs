use bwrap_args::config::BwrapArgs;
use bwrap_args::model::{Bind, BindType, Error, HostEnv};

fn empty_config() -> BwrapArgs {
    BwrapArgs {
        unshare_all: false,
        share_net: false,
        clear_env: false,
        new_session: false,
        die_with_parent: false,
        follow_symlinks: false,
        hostname: None,
        proc: None,
        dev: None,
        tmp_fs: None,
        set_env: vec![],
        unset_env: vec![],
        binds: vec![],
        dirs: vec![],
        symlinks: vec![],
    }
}

fn bare_env() -> HostEnv {
    HostEnv {
        path: None,
        home: None,
        xdg_runtime_dir: None,
        term: None,
        colorterm: None,
        wayland_display: None,
        working_dir: None,
    }
}

#[test]
fn pass_files_skips_program_and_flags() {
    let mut c = empty_config();
    let input = vec!["cat".to_string(), "-n".to_string(), "/etc".to_string()];
    c.pass_files(&input, true).unwrap();
    assert_eq!(c.binds.len(), 1);
    assert_eq!(c.binds[0].source, "/etc");
    assert!(matches!(c.binds[0].bind_type, BindType::ReadOnly));
}

#[test]
fn pass_files_missing_path_errors() {
    let mut c = empty_config();
    let input = vec!["/definitely/not/there-for-sure".to_string()];
    let e = c.pass_files(&input, false).unwrap_err();
    assert!(matches!(e, Error::PathDoesNotExist(p) if p == "/definitely/not/there-for-sure"));
    assert!(c.binds.is_empty());
}

#[test]
fn ls_root_collapses_bind_plan() {
    let mut c = empty_config();
    c.binds
        .push(Bind::_new_inner("/usr".to_string(), None, BindType::ReadOnly, false, true).unwrap());
    c.symlinks
        .push(("/run".to_string(), "/var/run".to_string()));
    c.ls(&vec!["/".to_string()], &bare_env()).unwrap();
    assert_eq!(c.binds.len(), 1);
    assert_eq!(c.binds[0].source, "/");
    assert!(matches!(c.binds[0].bind_type, BindType::ReadOnly));
    assert!(c.symlinks.is_empty());
}

#[test]
fn ls_without_paths_binds_working_directory() {
    let mut env = bare_env();
    env.working_dir = Some("/usr".to_string());
    let mut c = empty_config();
    c.ls(&vec![], &env).unwrap();
    assert_eq!(c.binds.len(), 1);
    assert_eq!(c.binds[0].source, "/usr");
    assert!(matches!(c.binds[0].bind_type, BindType::ReadOnly));
}

#[test]
fn ls_with_only_flags_binds_working_directory() {
    let mut env = bare_env();
    env.working_dir = Some("/etc".to_string());
    let mut c = empty_config();
    c.ls(&vec!["-la".to_string()], &env).unwrap();
    assert_eq!(c.binds.len(), 1);
    assert_eq!(c.binds[0].source, "/etc");
}

#[test]
fn ls_without_paths_or_working_directory_errors() {
    let mut c = empty_config();
    let e = c.ls(&vec![], &bare_env()).unwrap_err();
    assert!(matches!(e, Error::NonUtf8Path(_)));
}

#[test]
fn default_requires_runtime_dir_home_and_path() {
    let e = BwrapArgs::default(&bare_env()).unwrap_err();
    assert!(matches!(e, Error::MissingRequiredHostEnvVar(n) if n == "XDG_RUNTIME_DIR"));

    let mut env = bare_env();
    env.xdg_runtime_dir = Some("/run/user/1000".to_string());
    let e = BwrapArgs::default(&env).unwrap_err();
    assert!(matches!(e, Error::MissingRequiredHostEnvVar(n) if n == "HOME"));

    env.home = Some("/root".to_string());
    let e = BwrapArgs::default(&env).unwrap_err();
    assert!(matches!(e, Error::MissingRequiredHostEnvVar(n) if n == "PATH"));
}

#[test]
fn nvim_requires_home() {
    let mut c = empty_config();
    let e = c.nvim(&bare_env()).unwrap_err();
    assert!(matches!(e, Error::MissingRequiredHostEnvVar(n) if n == "HOME"));
}

#[test]
fn error_messages_name_the_subject() {
    let e = Error::EnvVarConflict("K".to_string(), "old".to_string(), "new".to_string());
    assert_eq!(
        e.message(),
        "tried to overwrite env variable 'K' with 'new' (previous: 'old')"
    );
    let e = Error::PathDoesNotExist("/x".to_string());
    assert_eq!(e.message(), "source for binding does not exist: /x");
    let e = Error::InvalidNetworkSharingRequest;
    assert_eq!(e.message(), "share-net can only be combined with unshare-all");
}
