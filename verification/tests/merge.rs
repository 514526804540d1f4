use bwrap_args::config::BwrapArgs;
use bwrap_args::model::{Bind, BindType, Error};

fn empty_config() -> BwrapArgs {
    BwrapArgs {
        unshare_all: false,
        share_net: false,
        clear_env: false,
        new_session: false,
        die_with_parent: false,
        follow_symlinks: false,
        hostname: None,
        proc: None,
        dev: None,
        tmp_fs: None,
        set_env: vec![],
        unset_env: vec![],
        binds: vec![],
        dirs: vec![],
        symlinks: vec![],
    }
}

fn bind(src: &str, t: BindType) -> Bind {
    Bind::_new_inner(src.to_string(), None, t, false, true).unwrap()
}

#[test]
fn merge_keeps_single_read_only_entry() {
    let mut c = empty_config();
    c.add_bind(bind("/usr", BindType::ReadOnly)).unwrap();
    c.add_bind(bind("/usr", BindType::ReadOnly)).unwrap();
    assert_eq!(c.binds.len(), 1);
    assert_eq!(c.binds[0].source, "/usr");
    assert!(matches!(c.binds[0].bind_type, BindType::ReadOnly));
}

#[test]
fn merge_widens_to_read_write_either_order() {
    let cases = [
        (BindType::ReadOnly, BindType::ReadWrite),
        (BindType::ReadWrite, BindType::ReadOnly),
        (BindType::ReadWrite, BindType::ReadWrite),
    ];
    for (a, b) in cases {
        let mut c = empty_config();
        c.add_bind(bind("/usr", a)).unwrap();
        c.add_bind(bind("/usr", b)).unwrap();
        assert_eq!(c.binds.len(), 1);
        assert!(matches!(c.binds[0].bind_type, BindType::ReadWrite));
    }
}

#[test]
fn merge_dev_with_dev_keeps_existing() {
    let mut c = empty_config();
    c.add_bind(bind("/dev/dri", BindType::Dev)).unwrap();
    c.add_bind(bind("/dev/dri", BindType::Dev)).unwrap();
    assert_eq!(c.binds.len(), 1);
    assert!(matches!(c.binds[0].bind_type, BindType::Dev));
}

#[test]
fn merge_dev_with_other_fails_regardless_of_order() {
    let cases = [
        (BindType::Dev, BindType::ReadOnly),
        (BindType::Dev, BindType::ReadWrite),
        (BindType::ReadOnly, BindType::Dev),
        (BindType::ReadWrite, BindType::Dev),
    ];
    for (a, b) in cases {
        let mut c = empty_config();
        c.add_bind(bind("/x", a)).unwrap();
        let e = c.add_bind(bind("/x", b)).unwrap_err();
        assert!(matches!(e, Error::BindTypeConflict(p) if p == "/x"));
        assert_eq!(c.binds.len(), 1);
        assert_eq!(c.binds[0].bind_type, a);
    }
}

#[test]
fn distinct_sources_append_in_order() {
    let mut c = empty_config();
    c.add_bind(bind("/a", BindType::ReadOnly)).unwrap();
    c.add_bind(bind("/b", BindType::ReadWrite)).unwrap();
    c.add_bind(bind("/c", BindType::ReadOnly)).unwrap();
    let sources: Vec<&str> = c.binds.iter().map(|b| b.source.as_str()).collect();
    assert_eq!(sources, ["/a", "/b", "/c"]);
}

#[test]
fn env_identical_value_merges_silently() {
    let mut c = empty_config();
    c.add_env("TERM".to_string(), "xterm".to_string()).unwrap();
    c.add_env("TERM".to_string(), "xterm".to_string()).unwrap();
    assert_eq!(c.set_env.len(), 1);
    assert_eq!(c.set_env[0].0, "TERM");
    assert_eq!(c.set_env[0].1, "xterm");
}

#[test]
fn env_conflicting_value_fails_with_both_values() {
    let mut c = empty_config();
    c.add_env("TERM".to_string(), "xterm".to_string()).unwrap();
    let e = c
        .add_env("TERM".to_string(), "linux".to_string())
        .unwrap_err();
    match e {
        Error::EnvVarConflict(key, previous, rejected) => {
            assert_eq!(key, "TERM");
            assert_eq!(previous, "xterm");
            assert_eq!(rejected, "linux");
        }
        other => panic!("unexpected error: {:?}", other),
    }
    assert_eq!(c.set_env.len(), 1);
    assert_eq!(c.set_env[0].1, "xterm");
}

#[test]
fn env_distinct_keys_append_in_order() {
    let mut c = empty_config();
    c.add_env("A".to_string(), "1".to_string()).unwrap();
    c.add_env("B".to_string(), "2".to_string()).unwrap();
    assert_eq!(c.set_env.len(), 2);
    assert_eq!(c.set_env[0].0, "A");
    assert_eq!(c.set_env[1].0, "B");
}
