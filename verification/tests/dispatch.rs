use bwrap_args::cli::{Commands, Ls, PassFiles};
use bwrap_args::config::BwrapArgs;
use bwrap_args::model::{Error, HostEnv};

fn empty_config() -> BwrapArgs {
    BwrapArgs {
        unshare_all: false,
        share_net: false,
        clear_env: false,
        new_session: false,
        die_with_parent: false,
        follow_symlinks: false,
        hostname: None,
        proc: None,
        dev: None,
        tmp_fs: None,
        set_env: vec![],
        unset_env: vec![],
        binds: vec![],
        dirs: vec![],
        symlinks: vec![],
    }
}

fn bare_env() -> HostEnv {
    HostEnv {
        path: None,
        home: None,
        xdg_runtime_dir: None,
        term: None,
        colorterm: None,
        wayland_display: None,
        working_dir: None,
    }
}

#[test]
fn dispatch_default_passes_command_through() {
    let mut c = empty_config();
    let cmd = Commands::Default(bwrap_args::cli::Default {
        command: vec!["true".to_string()],
    });
    let words = cmd.apply(&mut c, &bare_env()).unwrap();
    assert_eq!(words, ["true"]);
    assert!(c.binds.is_empty());
}

#[test]
fn dispatch_pass_files_binds_named_files() {
    let mut c = empty_config();
    let cmd = Commands::PassFiles(PassFiles {
        command: vec!["cat".to_string(), "/etc".to_string()],
    });
    let words = cmd.apply(&mut c, &bare_env()).unwrap();
    assert_eq!(words, ["cat", "/etc"]);
    assert_eq!(c.binds.len(), 1);
    assert_eq!(c.binds[0].source, "/etc");
}

#[test]
fn dispatch_ls_prepends_lister() {
    let mut c = empty_config();
    let cmd = Commands::Ls(Ls {
        dirs: vec!["/".to_string()],
    });
    let words = cmd.apply(&mut c, &bare_env()).unwrap();
    assert_eq!(words, ["eza", "/"]);
    assert_eq!(c.binds.len(), 1);
    assert_eq!(c.binds[0].source, "/");
}

#[test]
fn dispatch_nvim_fails_without_home() {
    let mut c = empty_config();
    let cmd = Commands::Nvim(bwrap_args::cli::Nvim { args: vec![] });
    let e = cmd.apply(&mut c, &bare_env()).unwrap_err();
    assert!(matches!(e, Error::MissingRequiredHostEnvVar(n) if n == "HOME"));
}
