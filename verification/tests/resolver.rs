use bwrap_args::config::BwrapArgs;
use bwrap_args::model::{Bind, BindType, Error};
use bwrap_args::resolver::{CanonOutcome, EntryFacts, SourceFacts};

fn empty_config() -> BwrapArgs {
    BwrapArgs {
        unshare_all: false,
        share_net: false,
        clear_env: false,
        new_session: false,
        die_with_parent: false,
        follow_symlinks: false,
        hostname: None,
        proc: None,
        dev: None,
        tmp_fs: None,
        set_env: vec![],
        unset_env: vec![],
        binds: vec![],
        dirs: vec![],
        symlinks: vec![],
    }
}

fn bind(src: &str, t: BindType) -> Bind {
    Bind::_new_inner(src.to_string(), None, t, false, true).unwrap()
}

fn sources(c: &BwrapArgs) -> Vec<&str> {
    c.binds.iter().map(|b| b.source.as_str()).collect()
}

#[test]
fn resolver_registers_symlink_target() {
    let mut c = empty_config();
    c.binds.push(bind("/a", BindType::ReadOnly));
    let facts = vec![SourceFacts::SymlinkSource(CanonOutcome::Resolved(
        "/target".to_string(),
    ))];
    c.add_symlinks(&facts).unwrap();
    assert_eq!(sources(&c), ["/a", "/target"]);
    assert!(matches!(c.binds[1].bind_type, BindType::ReadOnly));
    assert!(c.binds[1].destination.is_none());
}

#[test]
fn resolver_swallows_broken_links() {
    let mut c = empty_config();
    c.binds.push(bind("/a", BindType::ReadOnly));
    let facts = vec![SourceFacts::SymlinkSource(CanonOutcome::NotFound)];
    c.add_symlinks(&facts).unwrap();
    assert_eq!(sources(&c), ["/a"]);
}

#[test]
fn resolver_fatal_on_other_resolution_error() {
    let mut c = empty_config();
    c.binds.push(bind("/a", BindType::ReadOnly));
    let facts = vec![SourceFacts::SymlinkSource(CanonOutcome::Failed(
        "permission denied".to_string(),
    ))];
    let e = c.add_symlinks(&facts).unwrap_err();
    match e {
        Error::SymlinkResolutionIoError(path, cause) => {
            assert_eq!(path, "/a");
            assert_eq!(cause, "permission denied");
        }
        other => panic!("unexpected error: {:?}", other),
    }
}

#[test]
fn resolver_scans_directory_entries_and_skips_mtab() {
    let mut c = empty_config();
    c.binds.push(bind("/etc", BindType::ReadOnly));
    let facts = vec![SourceFacts::DirSource(vec![
        EntryFacts {
            path: "/etc/mtab".to_string(),
            canon: Some(CanonOutcome::Resolved("/proc/mounts".to_string())),
        },
        EntryFacts {
            path: "/etc/localtime".to_string(),
            canon: Some(CanonOutcome::Resolved(
                "/usr/share/zoneinfo/UTC".to_string(),
            )),
        },
        EntryFacts {
            path: "/etc/hosts".to_string(),
            canon: None,
        },
    ])];
    c.add_symlinks(&facts).unwrap();
    assert_eq!(sources(&c), ["/etc", "/usr/share/zoneinfo/UTC"]);
}

#[test]
fn resolver_fatal_on_unreadable_directory() {
    let mut c = empty_config();
    c.binds.push(bind("/locked", BindType::ReadOnly));
    let facts = vec![SourceFacts::DirReadFailed("permission denied".to_string())];
    let e = c.add_symlinks(&facts).unwrap_err();
    assert!(matches!(e, Error::SymlinkResolutionIoError(p, _) if p == "/locked"));
}

#[test]
fn resolver_merges_derived_bind_with_existing() {
    let mut c = empty_config();
    c.binds.push(bind("/a", BindType::ReadWrite));
    c.binds.push(bind("/b", BindType::ReadOnly));
    let facts = vec![
        SourceFacts::SymlinkSource(CanonOutcome::Resolved("/b".to_string())),
        SourceFacts::PlainSource,
    ];
    c.add_symlinks(&facts).unwrap();
    assert_eq!(sources(&c), ["/a", "/b"]);
    assert!(matches!(c.binds[1].bind_type, BindType::ReadWrite));
}

#[test]
fn resolver_is_idempotent_once_settled() {
    let mut c = empty_config();
    c.binds.push(bind("/a", BindType::ReadOnly));
    let facts = vec![SourceFacts::SymlinkSource(CanonOutcome::Resolved(
        "/t".to_string(),
    ))];
    c.add_symlinks(&facts).unwrap();
    let after_first = sources(&c)
        .iter()
        .map(|s| s.to_string())
        .collect::<Vec<_>>();

    // The same filesystem readings, extended to the settled bind list.
    let second_facts = vec![
        SourceFacts::SymlinkSource(CanonOutcome::Resolved("/t".to_string())),
        SourceFacts::PlainSource,
    ];
    c.add_symlinks(&second_facts).unwrap();
    assert_eq!(sources(&c), after_first);
}

#[test]
fn resolver_keeps_destination_of_originating_bind() {
    let mut c = empty_config();
    c.binds.push(
        Bind::_new_inner(
            "/outside".to_string(),
            Some("/inside".to_string()),
            BindType::ReadOnly,
            false,
            true,
        )
        .unwrap(),
    );
    let facts = vec![SourceFacts::SymlinkSource(CanonOutcome::Resolved(
        "/real".to_string(),
    ))];
    c.add_symlinks(&facts).unwrap();
    assert_eq!(sources(&c), ["/outside", "/real"]);
    assert_eq!(c.binds[1].destination.as_deref(), Some("/inside"));
}
