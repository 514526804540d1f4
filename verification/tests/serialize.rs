use bwrap_args::config::BwrapArgs;
use bwrap_args::model::{Bind, BindType, Dir, Error};

fn empty_config() -> BwrapArgs {
    BwrapArgs {
        unshare_all: false,
        share_net: false,
        clear_env: false,
        new_session: false,
        die_with_parent: false,
        follow_symlinks: false,
        hostname: None,
        proc: None,
        dev: None,
        tmp_fs: None,
        set_env: vec![],
        unset_env: vec![],
        binds: vec![],
        dirs: vec![],
        symlinks: vec![],
    }
}

fn made_bind(src: &str, t: BindType, allow_missing: bool) -> Bind {
    Bind::_new_inner(src.to_string(), None, t, allow_missing, true).unwrap()
}

#[test]
fn share_net_without_unshare_all_is_fatal() {
    let mut c = empty_config();
    c.share_net = true;
    assert!(matches!(c.args(), Err(Error::InvalidNetworkSharingRequest)));
    assert!(matches!(
        c.full_argv(&vec!["true".to_string()]),
        Err(Error::InvalidNetworkSharingRequest)
    ));
}

#[test]
fn share_net_with_unshare_all_serializes() {
    let mut c = empty_config();
    c.unshare_all = true;
    c.share_net = true;
    assert_eq!(c.args().unwrap(), ["--unshare-all", "--share-net"]);
}

#[test]
fn bind_flags_cover_all_six_combinations() {
    let cases = [
        (BindType::ReadOnly, false, "--ro-bind"),
        (BindType::ReadOnly, true, "--ro-bind-try"),
        (BindType::ReadWrite, false, "--bind"),
        (BindType::ReadWrite, true, "--bind-try"),
        (BindType::Dev, false, "--dev-bind"),
        (BindType::Dev, true, "--dev-bind-try"),
    ];
    let mut seen: Vec<String> = vec![];
    for (t, allow_missing, expected) in cases {
        let mut c = empty_config();
        c.binds.push(made_bind("/src", t, allow_missing));
        let argv = c.args().unwrap();
        assert_eq!(argv, [expected, "/src", "/src"]);
        assert!(!seen.contains(&expected.to_string()));
        seen.push(expected.to_string());
    }
}

#[test]
fn bind_destination_defaults_to_source() {
    let mut c = empty_config();
    c.binds.push(
        Bind::_new_inner(
            "/here".to_string(),
            Some("/there".to_string()),
            BindType::ReadOnly,
            false,
            true,
        )
        .unwrap(),
    );
    assert_eq!(c.args().unwrap(), ["--ro-bind", "/here", "/there"]);
}

#[test]
fn default_shaped_config_argv() {
    let c = BwrapArgs {
        unshare_all: true,
        share_net: false,
        clear_env: true,
        new_session: true,
        die_with_parent: true,
        follow_symlinks: true,
        hostname: Some("jail".to_string()),
        proc: Some("/proc".to_string()),
        dev: Some("/dev".to_string()),
        tmp_fs: Some("/tmp".to_string()),
        set_env: vec![("PATH".to_string(), "/usr/bin".to_string())],
        unset_env: vec![],
        binds: vec![made_bind("/usr", BindType::ReadOnly, false)],
        dirs: vec![],
        symlinks: vec![],
    };
    let argv = c.full_argv(&vec!["true".to_string()]).unwrap();
    assert_eq!(
        argv,
        [
            "--unshare-all",
            "--clearenv",
            "--new-session",
            "--die-with-parent",
            "--hostname",
            "jail",
            "--proc",
            "/proc",
            "--dev",
            "/dev",
            "--tmpfs",
            "/tmp",
            "--setenv",
            "PATH",
            "/usr/bin",
            "--ro-bind",
            "/usr",
            "/usr",
            "--",
            "true",
        ]
    );
    assert_eq!(&argv[argv.len() - 2..], ["--", "true"]);
}

#[test]
fn empty_command_is_refused() {
    let c = empty_config();
    assert!(matches!(c.full_argv(&vec![]), Err(Error::EmptyCommand)));
}

#[test]
fn env_and_unset_env_serialize_in_order() {
    let mut c = empty_config();
    c.set_env.push(("A".to_string(), "1".to_string()));
    c.set_env.push(("B".to_string(), "2".to_string()));
    c.unset_env.push("C".to_string());
    assert_eq!(
        c.args().unwrap(),
        ["--setenv", "A", "1", "--setenv", "B", "2", "--unsetenv", "C"]
    );
}

#[test]
fn dirs_serialize_with_optional_perms() {
    let mut c = empty_config();
    c.dirs.push(Dir::new("/var".to_string()));
    c.dirs
        .push(Dir::with_perms("/run/user".to_string(), "0700".to_string()));
    assert_eq!(
        c.args().unwrap(),
        ["--dir", "/var", "--perms", "0700", "--dir", "/run/user"]
    );
}

#[test]
fn symlinks_serialize_as_target_linkname() {
    let mut c = empty_config();
    c.symlinks
        .push(("/usr/lib".to_string(), "/lib".to_string()));
    assert_eq!(c.args().unwrap(), ["--symlink", "/usr/lib", "/lib"]);
}
