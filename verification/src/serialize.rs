//! Deterministic translation of a configuration into the launcher's flag
//! sequence.  The emission order is a hard contract: the launcher applies
//! mounts sequentially, so the serialized order must match insertion order.

use vstd::prelude::*;

use crate::config::{BwrapArgs, ConfigV};
use crate::model::{BindType, BindV, DirV, Error, ErrorV};
use vstd::seq_lib::lemma_concat_associative;

verus! {

/// The launcher flag chosen for a bind by its mode and its missing-source
/// tolerance.  This table is the single source of truth for the six flags.
pub open spec fn spec_bind_flag(bind_type: BindType, allow_missing_src: bool) -> Seq<char> {
    match (bind_type, allow_missing_src) {
        (BindType::ReadOnly, false) => "--ro-bind"@,
        (BindType::ReadOnly, true) => "--ro-bind-try"@,
        (BindType::ReadWrite, false) => "--bind"@,
        (BindType::ReadWrite, true) => "--bind-try"@,
        (BindType::Dev, false) => "--dev-bind"@,
        (BindType::Dev, true) => "--dev-bind-try"@,
    }
}

/// The inverse reading of a bind flag.
pub open spec fn spec_decode_bind_flag(flag: Seq<char>) -> Option<(BindType, bool)> {
    if flag == "--ro-bind"@ {
        Some((BindType::ReadOnly, false))
    } else if flag == "--ro-bind-try"@ {
        Some((BindType::ReadOnly, true))
    } else if flag == "--bind"@ {
        Some((BindType::ReadWrite, false))
    } else if flag == "--bind-try"@ {
        Some((BindType::ReadWrite, true))
    } else if flag == "--dev-bind"@ {
        Some((BindType::Dev, false))
    } else if flag == "--dev-bind-try"@ {
        Some((BindType::Dev, true))
    } else {
        None
    }
}

/// The six bind flags and the six (mode, tolerance) pairs correspond one to
/// one: decoding the flag chosen for a bind gives back exactly that pair.
pub proof fn lemma_bind_flag_round_trip(bind_type: BindType, allow_missing_src: bool)
    ensures
        spec_decode_bind_flag(spec_bind_flag(bind_type, allow_missing_src)) == Some(
            (bind_type, allow_missing_src),
        ),
{
    broadcast use vstd::string::group_string_axioms;

    reveal_strlit("--ro-bind");
    reveal_strlit("--ro-bind-try");
    reveal_strlit("--bind");
    reveal_strlit("--bind-try");
    reveal_strlit("--dev-bind");
    reveal_strlit("--dev-bind-try");
    match (bind_type, allow_missing_src) {
        (BindType::ReadOnly, false) => {
            assert(spec_bind_flag(bind_type, allow_missing_src) == "--ro-bind"@);
            assert(spec_decode_bind_flag("--ro-bind"@) == Some((BindType::ReadOnly, false)));
        },
        (BindType::ReadOnly, true) => {
            assert(spec_bind_flag(bind_type, allow_missing_src) == "--ro-bind-try"@);
            assert(spec_decode_bind_flag("--ro-bind-try"@) == Some((BindType::ReadOnly, true)));
        },
        (BindType::ReadWrite, false) => {
            assert(spec_bind_flag(bind_type, allow_missing_src) == "--bind"@);
            assert(spec_decode_bind_flag("--bind"@) == Some((BindType::ReadWrite, false)));
        },
        (BindType::ReadWrite, true) => {
            assert(spec_bind_flag(bind_type, allow_missing_src) == "--bind-try"@);
            assert(spec_decode_bind_flag("--bind-try"@) == Some((BindType::ReadWrite, true)));
        },
        (BindType::Dev, false) => {
            assert(spec_bind_flag(bind_type, allow_missing_src) == "--dev-bind"@);
            assert("--dev-bind"@[2] == 'd');
            assert("--bind-try"@[2] == 'b');
            assert(spec_decode_bind_flag("--dev-bind"@) == Some((BindType::Dev, false)));
        },
        (BindType::Dev, true) => {
            assert(spec_bind_flag(bind_type, allow_missing_src) == "--dev-bind-try"@);
            assert(spec_decode_bind_flag("--dev-bind-try"@) == Some((BindType::Dev, true)));
        },
    }
}

/// No two distinct (mode, tolerance) pairs share a flag.
pub proof fn lemma_bind_flag_injective(a: (BindType, bool), b: (BindType, bool))
    ensures
        spec_bind_flag(a.0, a.1) == spec_bind_flag(b.0, b.1) ==> a == b,
{
    lemma_bind_flag_round_trip(a.0, a.1);
    lemma_bind_flag_round_trip(b.0, b.1);
}

/// One boolean switch contributing its flag when set.
pub open spec fn spec_switch_args(on: bool, flag: Seq<char>) -> Seq<Seq<char>> {
    if on {
        seq![flag]
    } else {
        Seq::empty()
    }
}

/// One optional value contributing its flag and the value when present.
pub open spec fn spec_opt_args(value: Option<Seq<char>>, flag: Seq<char>) -> Seq<Seq<char>> {
    match value {
        Some(v) => seq![flag, v],
        None => Seq::empty(),
    }
}

/// The namespace switches: `--share-net` only ever follows `--unshare-all`.
pub open spec fn spec_unshare_args(c: ConfigV) -> Seq<Seq<char>> {
    if c.unshare_all {
        seq!["--unshare-all"@] + spec_switch_args(c.share_net, "--share-net"@)
    } else {
        Seq::empty()
    }
}

/// The leading switches and special mounts, in their fixed order.
pub open spec fn spec_head_args(c: ConfigV) -> Seq<Seq<char>> {
    spec_unshare_args(c) + spec_switch_args(c.clear_env, "--clearenv"@) + spec_switch_args(
        c.new_session,
        "--new-session"@,
    ) + spec_switch_args(c.die_with_parent, "--die-with-parent"@) + spec_opt_args(
        c.hostname,
        "--hostname"@,
    ) + spec_opt_args(c.proc, "--proc"@) + spec_opt_args(c.dev, "--dev"@) + spec_opt_args(
        c.tmp_fs,
        "--tmpfs"@,
    )
}

/// `--setenv key value` for each assignment, in insertion order.
pub open spec fn spec_set_env_args(set_env: Seq<(Seq<char>, Seq<char>)>) -> Seq<Seq<char>>
    decreases set_env.len(),
{
    if set_env.len() == 0 {
        Seq::empty()
    } else {
        spec_set_env_args(set_env.drop_last()) + seq![
            "--setenv"@,
            set_env.last().0,
            set_env.last().1,
        ]
    }
}

/// `--unsetenv key` for each key, in insertion order.
pub open spec fn spec_unset_env_args(unset_env: Seq<Seq<char>>) -> Seq<Seq<char>>
    decreases unset_env.len(),
{
    if unset_env.len() == 0 {
        Seq::empty()
    } else {
        spec_unset_env_args(unset_env.drop_last()) + seq!["--unsetenv"@, unset_env.last()]
    }
}

/// Where a bind appears inside the sandbox: its destination, defaulting to
/// its source.
pub open spec fn spec_bind_dest(b: BindV) -> Seq<char> {
    match b.destination {
        Some(d) => d,
        None => b.source,
    }
}

/// `flag source destination` for each bind, in insertion order.
pub open spec fn spec_bind_args(binds: Seq<BindV>) -> Seq<Seq<char>>
    decreases binds.len(),
{
    if binds.len() == 0 {
        Seq::empty()
    } else {
        spec_bind_args(binds.drop_last()) + seq![
            spec_bind_flag(binds.last().bind_type, binds.last().allow_missing_src),
            binds.last().source,
            spec_bind_dest(binds.last()),
        ]
    }
}

/// An optional `--perms mode` directly before each `--dir path`, in
/// insertion order.
pub open spec fn spec_dir_args(dirs: Seq<DirV>) -> Seq<Seq<char>>
    decreases dirs.len(),
{
    if dirs.len() == 0 {
        Seq::empty()
    } else {
        spec_dir_args(dirs.drop_last()) + spec_opt_args(dirs.last().permissions, "--perms"@)
            + seq!["--dir"@, dirs.last().path]
    }
}

/// `--symlink target linkname` for each symlink, in insertion order.
pub open spec fn spec_symlink_args(symlinks: Seq<(Seq<char>, Seq<char>)>) -> Seq<Seq<char>>
    decreases symlinks.len(),
{
    if symlinks.len() == 0 {
        Seq::empty()
    } else {
        spec_symlink_args(symlinks.drop_last()) + seq![
            "--symlink"@,
            symlinks.last().0,
            symlinks.last().1,
        ]
    }
}

/// Whether the network-sharing request is legal: `share_net` is only
/// meaningful under `unshare_all`.
pub open spec fn spec_net_valid(c: ConfigV) -> bool {
    c.share_net ==> c.unshare_all
}

/// The launcher's whole argument list for a configuration, group by group in
/// the fixed emission order.
pub open spec fn spec_args(c: ConfigV) -> Seq<Seq<char>> {
    spec_head_args(c) + spec_set_env_args(c.set_env) + spec_unset_env_args(c.unset_env)
        + spec_bind_args(c.binds) + spec_dir_args(c.dirs) + spec_symlink_args(c.symlinks)
}

/// Appends one token, relating the vector's abstraction to its old value.
fn push_token(args: &mut Vec<String>, token: String)
    ensures
        final(args).deep_view() == old(args).deep_view().push(token@),
{
    let ghost pre = args.deep_view();
    args.push(token);
    proof {
        assert(args.deep_view() =~= pre.push(token@));
    }
}

/// The launcher flag for a bind, as an executable value.
pub fn bind_flag(bind_type: BindType, allow_missing_src: bool) -> (r: String)
    ensures
        r@ == spec_bind_flag(bind_type, allow_missing_src),
{
    match (bind_type, allow_missing_src) {
        (BindType::ReadOnly, false) => String::from_str("--ro-bind"),
        (BindType::ReadOnly, true) => String::from_str("--ro-bind-try"),
        (BindType::ReadWrite, false) => String::from_str("--bind"),
        (BindType::ReadWrite, true) => String::from_str("--bind-try"),
        (BindType::Dev, false) => String::from_str("--dev-bind"),
        (BindType::Dev, true) => String::from_str("--dev-bind-try"),
    }
}

/// Emits one boolean switch.
fn emit_switch(args: &mut Vec<String>, on: bool, flag: &str)
    ensures
        final(args).deep_view() == old(args).deep_view() + spec_switch_args(on, flag@),
{
    if on {
        push_token(args, flag.to_owned());
    }
    proof {
        assert(args.deep_view() =~= old(args).deep_view() + spec_switch_args(on, flag@));
    }
}

/// Emits one optional value with its flag.
fn emit_opt(args: &mut Vec<String>, value: &Option<String>, flag: &str)
    ensures
        final(args).deep_view() == old(args).deep_view() + spec_opt_args(
            value.deep_view(),
            flag@,
        ),
{
    if let Some(v) = value {
        push_token(args, flag.to_owned());
        push_token(args, v.clone());
    }
    proof {
        assert(args.deep_view() =~= old(args).deep_view() + spec_opt_args(
            value.deep_view(),
            flag@,
        ));
    }
}

impl BwrapArgs {
    /// Emits the namespace switches.
    fn emit_unshare(&self, args: &mut Vec<String>)
        ensures
            final(args).deep_view() == old(args).deep_view() + spec_unshare_args(
                self.deep_view(),
            ),
    {
        if self.unshare_all {
            push_token(args, String::from_str("--unshare-all"));
            if self.share_net {
                push_token(args, String::from_str("--share-net"));
            }
        }
        proof {
            assert(args.deep_view() =~= old(args).deep_view() + spec_unshare_args(
                self.deep_view(),
            ));
        }
    }

    /// Emits the leading switches and special mounts.
    fn emit_head(&self, args: &mut Vec<String>)
        ensures
            final(args).deep_view() == old(args).deep_view() + spec_head_args(self.deep_view()),
    {
        let ghost c = self.deep_view();
        self.emit_unshare(args);
        emit_switch(args, self.clear_env, "--clearenv");
        emit_switch(args, self.new_session, "--new-session");
        emit_switch(args, self.die_with_parent, "--die-with-parent");
        emit_opt(args, &self.hostname, "--hostname");
        emit_opt(args, &self.proc, "--proc");
        emit_opt(args, &self.dev, "--dev");
        emit_opt(args, &self.tmp_fs, "--tmpfs");
        proof {
            let d0 = old(args).deep_view();
            let g1 = spec_unshare_args(c);
            let g2 = spec_switch_args(c.clear_env, "--clearenv"@);
            let g3 = spec_switch_args(c.new_session, "--new-session"@);
            let g4 = spec_switch_args(c.die_with_parent, "--die-with-parent"@);
            let g5 = spec_opt_args(c.hostname, "--hostname"@);
            let g6 = spec_opt_args(c.proc, "--proc"@);
            let g7 = spec_opt_args(c.dev, "--dev"@);
            let g8 = spec_opt_args(c.tmp_fs, "--tmpfs"@);
            lemma_concat_associative(d0, g1, g2);
            lemma_concat_associative(d0, g1 + g2, g3);
            lemma_concat_associative(d0, g1 + g2 + g3, g4);
            lemma_concat_associative(d0, g1 + g2 + g3 + g4, g5);
            lemma_concat_associative(d0, g1 + g2 + g3 + g4 + g5, g6);
            lemma_concat_associative(d0, g1 + g2 + g3 + g4 + g5 + g6, g7);
            lemma_concat_associative(d0, g1 + g2 + g3 + g4 + g5 + g6 + g7, g8);
            assert(args.deep_view() == d0 + spec_head_args(c));
        }
    }

    /// Emits the environment assignments.
    #[verifier::loop_isolation(false)]
    fn emit_set_env(&self, args: &mut Vec<String>)
        ensures
            final(args).deep_view() == old(args).deep_view() + spec_set_env_args(
                self.deep_view().set_env,
            ),
    {
        let ghost c = self.deep_view();
        let ghost done = old(args).deep_view();
        let mut i: usize = 0;
        while i < self.set_env.len()
            invariant
                i <= self.set_env.len(),
                args.deep_view() == done + spec_set_env_args(c.set_env.take(i as int)),
            decreases self.set_env.len() - i,
        {
            push_token(args, String::from_str("--setenv"));
            push_token(args, self.set_env[i].0.clone());
            push_token(args, self.set_env[i].1.clone());
            proof {
                assert(c.set_env.take(i as int + 1).drop_last() =~= c.set_env.take(i as int));
                assert(c.set_env.take(i as int + 1).last() == c.set_env[i as int]);
                assert(args.deep_view() =~= done + spec_set_env_args(c.set_env.take(i as int + 1)));
            }
            i += 1;
        }
        proof {
            assert(c.set_env.take(self.set_env.len() as int) =~= c.set_env);
        }
    }

    /// Emits the keys to unset.
    #[verifier::loop_isolation(false)]
    fn emit_unset_env(&self, args: &mut Vec<String>)
        ensures
            final(args).deep_view() == old(args).deep_view() + spec_unset_env_args(
                self.deep_view().unset_env,
            ),
    {
        let ghost c = self.deep_view();
        let ghost done = old(args).deep_view();
        let mut i: usize = 0;
        while i < self.unset_env.len()
            invariant
                i <= self.unset_env.len(),
                args.deep_view() == done + spec_unset_env_args(c.unset_env.take(i as int)),
            decreases self.unset_env.len() - i,
        {
            push_token(args, String::from_str("--unsetenv"));
            push_token(args, self.unset_env[i].clone());
            proof {
                assert(c.unset_env.take(i as int + 1).drop_last() =~= c.unset_env.take(i as int));
                assert(c.unset_env.take(i as int + 1).last() == c.unset_env[i as int]);
                assert(args.deep_view() =~= done + spec_unset_env_args(
                    c.unset_env.take(i as int + 1),
                ));
            }
            i += 1;
        }
        proof {
            assert(c.unset_env.take(self.unset_env.len() as int) =~= c.unset_env);
        }
    }

    /// Emits the binds.
    #[verifier::loop_isolation(false)]
    fn emit_binds(&self, args: &mut Vec<String>)
        ensures
            final(args).deep_view() == old(args).deep_view() + spec_bind_args(
                self.deep_view().binds,
            ),
    {
        let ghost c = self.deep_view();
        let ghost done = old(args).deep_view();
        let mut i: usize = 0;
        while i < self.binds.len()
            invariant
                i <= self.binds.len(),
                args.deep_view() == done + spec_bind_args(c.binds.take(i as int)),
            decreases self.binds.len() - i,
        {
            let bind = &self.binds[i];
            push_token(args, bind_flag(bind.bind_type, bind.allow_missing_src));
            push_token(args, bind.source.clone());
            let destination = match &bind.destination {
                Some(d) => d.clone(),
                None => bind.source.clone(),
            };
            push_token(args, destination);
            proof {
                assert(c.binds.take(i as int + 1).drop_last() =~= c.binds.take(i as int));
                assert(c.binds.take(i as int + 1).last() == c.binds[i as int]);
                assert(args.deep_view() =~= done + spec_bind_args(c.binds.take(i as int + 1)));
            }
            i += 1;
        }
        proof {
            assert(c.binds.take(self.binds.len() as int) =~= c.binds);
        }
    }

    /// Emits the directory creations.
    #[verifier::loop_isolation(false)]
    fn emit_dirs(&self, args: &mut Vec<String>)
        ensures
            final(args).deep_view() == old(args).deep_view() + spec_dir_args(
                self.deep_view().dirs,
            ),
    {
        let ghost c = self.deep_view();
        let ghost done = old(args).deep_view();
        let mut i: usize = 0;
        while i < self.dirs.len()
            invariant
                i <= self.dirs.len(),
                args.deep_view() == done + spec_dir_args(c.dirs.take(i as int)),
            decreases self.dirs.len() - i,
        {
            let dir = &self.dirs[i];
            if let Some(permissions) = &dir.permissions {
                push_token(args, String::from_str("--perms"));
                push_token(args, permissions.clone());
            }
            push_token(args, String::from_str("--dir"));
            push_token(args, dir.path.clone());
            proof {
                assert(c.dirs.take(i as int + 1).drop_last() =~= c.dirs.take(i as int));
                assert(c.dirs.take(i as int + 1).last() == c.dirs[i as int]);
                assert(args.deep_view() =~= done + spec_dir_args(c.dirs.take(i as int + 1)));
            }
            i += 1;
        }
        proof {
            assert(c.dirs.take(self.dirs.len() as int) =~= c.dirs);
        }
    }

    /// Emits the symlink creations.
    #[verifier::loop_isolation(false)]
    fn emit_symlinks(&self, args: &mut Vec<String>)
        ensures
            final(args).deep_view() == old(args).deep_view() + spec_symlink_args(
                self.deep_view().symlinks,
            ),
    {
        let ghost c = self.deep_view();
        let ghost done = old(args).deep_view();
        let mut i: usize = 0;
        while i < self.symlinks.len()
            invariant
                i <= self.symlinks.len(),
                args.deep_view() == done + spec_symlink_args(c.symlinks.take(i as int)),
            decreases self.symlinks.len() - i,
        {
            push_token(args, String::from_str("--symlink"));
            push_token(args, self.symlinks[i].0.clone());
            push_token(args, self.symlinks[i].1.clone());
            proof {
                assert(c.symlinks.take(i as int + 1).drop_last() =~= c.symlinks.take(i as int));
                assert(c.symlinks.take(i as int + 1).last() == c.symlinks[i as int]);
                assert(args.deep_view() =~= done + spec_symlink_args(
                    c.symlinks.take(i as int + 1),
                ));
            }
            i += 1;
        }
        proof {
            assert(c.symlinks.take(self.symlinks.len() as int) =~= c.symlinks);
        }
    }

    /// Serializes the configuration into the launcher's argument list, in
    /// the fixed emission order.  A network-sharing request without
    /// `unshare_all` is a fatal configuration error, never a flag sequence.
    pub fn args(&self) -> (r: Result<Vec<String>, Error>)
        ensures
            spec_net_valid(self.deep_view()) ==> (r matches Ok(v) && v.deep_view() == spec_args(
                self.deep_view(),
            )),
            !spec_net_valid(self.deep_view()) ==> (r matches Err(e) && e.deep_view()
                == ErrorV::InvalidNetworkSharingRequest),
    {
        let ghost c = self.deep_view();
        if self.share_net && !self.unshare_all {
            return Err(Error::InvalidNetworkSharingRequest);
        }
        let mut args: Vec<String> = Vec::new();
        self.emit_head(&mut args);
        self.emit_set_env(&mut args);
        self.emit_unset_env(&mut args);
        self.emit_binds(&mut args);
        self.emit_dirs(&mut args);
        self.emit_symlinks(&mut args);
        proof {
            assert(Seq::<Seq<char>>::empty() + spec_head_args(c) =~= spec_head_args(c));
            assert(args.deep_view() == spec_args(c));
        }
        Ok(args)
    }

    /// The complete vector handed to the launcher: the serialized
    /// configuration, the `--` separator, then the user's command words.
    /// An empty command is refused.
    #[verifier::loop_isolation(false)]
    pub fn full_argv(&self, command: &Vec<String>) -> (r: Result<Vec<String>, Error>)
        ensures
            command@.len() == 0 ==> (r matches Err(e) && e.deep_view() == ErrorV::EmptyCommand),
            command@.len() > 0 && !spec_net_valid(self.deep_view()) ==> (r matches Err(e)
                && e.deep_view() == ErrorV::InvalidNetworkSharingRequest),
            command@.len() > 0 && spec_net_valid(self.deep_view()) ==> (r matches Ok(v)
                && v.deep_view() == spec_args(self.deep_view()) + seq!["--"@]
                + command.deep_view()),
    {
        if command.len() == 0 {
            return Err(Error::EmptyCommand);
        }
        match self.args() {
            Ok(mut argv) => {
                let ghost serialized = argv.deep_view();
                push_token(&mut argv, String::from_str("--"));
                let mut i: usize = 0;
                while i < command.len()
                    invariant
                        i <= command.len(),
                        argv.deep_view() == serialized + seq!["--"@] + command.deep_view().take(
                            i as int,
                        ),
                    decreases command.len() - i,
                {
                    push_token(&mut argv, command[i].clone());
                    proof {
                        assert(argv.deep_view() =~= serialized + seq!["--"@]
                            + command.deep_view().take(i as int + 1));
                    }
                    i += 1;
                }
                proof {
                    assert(command.deep_view().take(command@.len() as int) =~= command.deep_view());
                }
                Ok(argv)
            },
            Err(e) => Err(e),
        }
    }
}

} // verus!
