//! The sandbox configuration aggregate and the merge operations that keep
//! its bind and environment collections free of conflicts.

use vstd::prelude::*;

use crate::model::{Bind, BindType, BindV, Dir, DirV, Error, ErrorV};

verus! {

/// The full description of one sandbox: isolation switches, special mounts,
/// environment assignments, bind mounts, directories and symlinks to create.
/// Consumed by the serializer in the exact order the collections hold.
#[derive(Debug)]
pub struct BwrapArgs {
    /// Unshare every namespace supported by default.
    pub unshare_all: bool,
    /// Retain the network namespace (only meaningful with `unshare_all`).
    pub share_net: bool,
    /// Unset all environment variables.
    pub clear_env: bool,
    pub new_session: bool,
    pub die_with_parent: bool,
    /// Run the symlink resolver after the profile is built.
    pub follow_symlinks: bool,
    /// Hostname inside the sandbox.
    pub hostname: Option<String>,
    /// Mount a new procfs here.
    pub proc: Option<String>,
    /// Mount a new dev here.
    pub dev: Option<String>,
    /// Mount a new tmpfs here.
    pub tmp_fs: Option<String>,
    /// Environment variables to set, in insertion order; keys are unique.
    pub set_env: Vec<(String, String)>,
    /// Environment variables to unset, in insertion order.
    pub unset_env: Vec<String>,
    /// Bind mounts, in insertion order; sources are unique.
    pub binds: Vec<Bind>,
    /// Directories to create, in insertion order.
    pub dirs: Vec<Dir>,
    /// Symlinks to create inside the sandbox, as (target, linkname) pairs.
    pub symlinks: Vec<(String, String)>,
}

/// Mathematical abstraction of [`BwrapArgs`].
pub ghost struct ConfigV {
    pub unshare_all: bool,
    pub share_net: bool,
    pub clear_env: bool,
    pub new_session: bool,
    pub die_with_parent: bool,
    pub follow_symlinks: bool,
    pub hostname: Option<Seq<char>>,
    pub proc: Option<Seq<char>>,
    pub dev: Option<Seq<char>>,
    pub tmp_fs: Option<Seq<char>>,
    pub set_env: Seq<(Seq<char>, Seq<char>)>,
    pub unset_env: Seq<Seq<char>>,
    pub binds: Seq<BindV>,
    pub dirs: Seq<DirV>,
    pub symlinks: Seq<(Seq<char>, Seq<char>)>,
}

impl DeepView for BwrapArgs {
    type V = ConfigV;

    open spec fn deep_view(&self) -> ConfigV {
        ConfigV {
            unshare_all: self.unshare_all,
            share_net: self.share_net,
            clear_env: self.clear_env,
            new_session: self.new_session,
            die_with_parent: self.die_with_parent,
            follow_symlinks: self.follow_symlinks,
            hostname: self.hostname.deep_view(),
            proc: self.proc.deep_view(),
            dev: self.dev.deep_view(),
            tmp_fs: self.tmp_fs.deep_view(),
            set_env: self.set_env.deep_view(),
            unset_env: self.unset_env.deep_view(),
            binds: self.binds.deep_view(),
            dirs: self.dirs.deep_view(),
            symlinks: self.symlinks.deep_view(),
        }
    }
}

impl ConfigV {
    /// The same configuration with its bind list replaced.
    pub open spec fn with_binds(self, binds: Seq<BindV>) -> ConfigV {
        ConfigV { binds, ..self }
    }

    /// The same configuration with its environment assignments replaced.
    pub open spec fn with_set_env(self, set_env: Seq<(Seq<char>, Seq<char>)>) -> ConfigV {
        ConfigV { set_env, ..self }
    }

    /// The same configuration with its symlink declarations replaced.
    pub open spec fn with_symlinks(self, symlinks: Seq<(Seq<char>, Seq<char>)>) -> ConfigV {
        ConfigV { symlinks, ..self }
    }

    /// The collection invariants: bind sources and environment keys are
    /// unique.
    pub open spec fn wf(self) -> bool {
        spec_sources_unique(self.binds) && spec_env_keys_unique(self.set_env)
    }
}

/// The merge table for two binds of the same source: `Dev` only merges with
/// `Dev`, `ReadWrite` widens anything else, `ReadOnly` keeps `ReadOnly`.
/// `None` is a `BindTypeConflict`.
pub open spec fn spec_merge_bind_types(existing: BindType, incoming: BindType) -> Option<
    BindType,
> {
    match (existing, incoming) {
        (BindType::Dev, BindType::Dev) => Some(BindType::Dev),
        (BindType::Dev, _) => None,
        (_, BindType::Dev) => None,
        (BindType::ReadWrite, _) => Some(BindType::ReadWrite),
        (_, BindType::ReadWrite) => Some(BindType::ReadWrite),
        _ => Some(BindType::ReadOnly),
    }
}

/// The bind `existing` after a bind of the same source with mode `t` was
/// merged into it.
pub open spec fn spec_widened(existing: BindV, t: BindType) -> BindV {
    BindV {
        bind_type: t,
        source: existing.source,
        destination: existing.destination,
        allow_missing_src: existing.allow_missing_src,
    }
}

/// What inserting `b` into `binds` yields: the first bind with the same
/// source absorbs it by the merge table, and with no such bind `b` is
/// appended.
pub open spec fn spec_add_bind(binds: Seq<BindV>, b: BindV) -> Result<Seq<BindV>, ErrorV>
    decreases binds.len(),
{
    if binds.len() == 0 {
        Ok(seq![b])
    } else if binds[0].source == b.source {
        match spec_merge_bind_types(binds[0].bind_type, b.bind_type) {
            Some(t) => Ok(seq![spec_widened(binds[0], t)] + binds.skip(1)),
            None => Err(ErrorV::BindTypeConflict(b.source)),
        }
    } else {
        match spec_add_bind(binds.skip(1), b) {
            Ok(rest) => Ok(seq![binds[0]] + rest),
            Err(e) => Err(e),
        }
    }
}

/// What assigning `key = value` on top of `set_env` yields: a repeated
/// assignment with the same value changes nothing, one with a different
/// value is a conflict, and a fresh key is appended.
pub open spec fn spec_add_env(
    set_env: Seq<(Seq<char>, Seq<char>)>,
    key: Seq<char>,
    value: Seq<char>,
) -> Result<Seq<(Seq<char>, Seq<char>)>, ErrorV>
    decreases set_env.len(),
{
    if set_env.len() == 0 {
        Ok(seq![(key, value)])
    } else if set_env[0].0 == key {
        if set_env[0].1 == value {
            Ok(set_env)
        } else {
            Err(ErrorV::EnvVarConflict(key, set_env[0].1, value))
        }
    } else {
        match spec_add_env(set_env.skip(1), key, value) {
            Ok(rest) => Ok(seq![set_env[0]] + rest),
            Err(e) => Err(e),
        }
    }
}

/// When the first bind sharing `b`'s source sits at index `k`, insertion
/// resolves there by the merge table: in place on a merge, with a
/// `BindTypeConflict` otherwise.
pub proof fn lemma_spec_add_bind_first_match(binds: Seq<BindV>, b: BindV, k: int)
    requires
        0 <= k < binds.len(),
        binds[k].source == b.source,
        forall|j: int| 0 <= j < k ==> binds[j].source != b.source,
    ensures
        match spec_merge_bind_types(binds[k].bind_type, b.bind_type) {
            Some(t) => spec_add_bind(binds, b) == Ok::<Seq<BindV>, ErrorV>(
                binds.update(k, spec_widened(binds[k], t)),
            ),
            None => spec_add_bind(binds, b) == Err::<Seq<BindV>, ErrorV>(
                ErrorV::BindTypeConflict(b.source),
            ),
        },
    decreases k,
{
    if k == 0 {
        match spec_merge_bind_types(binds[0].bind_type, b.bind_type) {
            Some(t) => {
                assert(seq![spec_widened(binds[0], t)] + binds.skip(1) =~= binds.update(
                    0,
                    spec_widened(binds[0], t),
                ));
            },
            None => {},
        }
    } else {
        lemma_spec_add_bind_first_match(binds.skip(1), b, k - 1);
        match spec_merge_bind_types(binds[k].bind_type, b.bind_type) {
            Some(t) => {
                assert(seq![binds[0]] + binds.skip(1).update(k - 1, spec_widened(binds[k], t))
                    =~= binds.update(k, spec_widened(binds[k], t)));
            },
            None => {},
        }
    }
}

/// With no bind sharing `b`'s source, insertion appends `b`.
pub proof fn lemma_spec_add_bind_append(binds: Seq<BindV>, b: BindV)
    requires
        forall|j: int| 0 <= j < binds.len() ==> binds[j].source != b.source,
    ensures
        spec_add_bind(binds, b) == Ok::<Seq<BindV>, ErrorV>(binds.push(b)),
    decreases binds.len(),
{
    if binds.len() == 0 {
        assert(seq![b] =~= binds.push(b));
    } else {
        lemma_spec_add_bind_append(binds.skip(1), b);
        assert(seq![binds[0]] + binds.skip(1).push(b) =~= binds.push(b));
    }
}

/// When the first assignment of `key` sits at index `k`, the insertion
/// resolves there: silently on an identical value, with an `EnvVarConflict`
/// carrying both values otherwise.
pub proof fn lemma_spec_add_env_first_match(
    set_env: Seq<(Seq<char>, Seq<char>)>,
    key: Seq<char>,
    value: Seq<char>,
    k: int,
)
    requires
        0 <= k < set_env.len(),
        set_env[k].0 == key,
        forall|j: int| 0 <= j < k ==> set_env[j].0 != key,
    ensures
        set_env[k].1 == value ==> spec_add_env(set_env, key, value) == Ok::<
            Seq<(Seq<char>, Seq<char>)>,
            ErrorV,
        >(set_env),
        set_env[k].1 != value ==> spec_add_env(set_env, key, value) == Err::<
            Seq<(Seq<char>, Seq<char>)>,
            ErrorV,
        >(ErrorV::EnvVarConflict(key, set_env[k].1, value)),
    decreases k,
{
    if k == 0 {
    } else {
        lemma_spec_add_env_first_match(set_env.skip(1), key, value, k - 1);
        if set_env[k].1 == value {
            assert(seq![set_env[0]] + set_env.skip(1) =~= set_env);
        }
    }
}

/// With `key` unassigned, the insertion appends `(key, value)`.
pub proof fn lemma_spec_add_env_append(
    set_env: Seq<(Seq<char>, Seq<char>)>,
    key: Seq<char>,
    value: Seq<char>,
)
    requires
        forall|j: int| 0 <= j < set_env.len() ==> set_env[j].0 != key,
    ensures
        spec_add_env(set_env, key, value) == Ok::<Seq<(Seq<char>, Seq<char>)>, ErrorV>(
            set_env.push((key, value)),
        ),
    decreases set_env.len(),
{
    if set_env.len() == 0 {
        assert(seq![(key, value)] =~= set_env.push((key, value)));
    } else {
        lemma_spec_add_env_append(set_env.skip(1), key, value);
        assert(seq![set_env[0]] + set_env.skip(1).push((key, value)) =~= set_env.push(
            (key, value),
        ));
    }
}

/// The uniqueness invariant of the bind collection: no two binds share a
/// source.
pub open spec fn spec_sources_unique(binds: Seq<BindV>) -> bool {
    forall|i: int, j: int| 0 <= i < j < binds.len() ==> binds[i].source != binds[j].source
}

/// The uniqueness invariant of the environment assignments: no two share a
/// key.
pub open spec fn spec_env_keys_unique(set_env: Seq<(Seq<char>, Seq<char>)>) -> bool {
    forall|i: int, j: int| 0 <= i < j < set_env.len() ==> set_env[i].0 != set_env[j].0
}

/// Inserting a bind preserves the uniqueness of sources.
pub proof fn lemma_add_bind_preserves_unique_sources(binds: Seq<BindV>, b: BindV, bs: Seq<BindV>)
    requires
        spec_sources_unique(binds),
        spec_add_bind(binds, b) == Ok::<Seq<BindV>, ErrorV>(bs),
    ensures
        spec_sources_unique(bs),
{
    if exists|k: int| 0 <= k < binds.len() && binds[k].source == b.source {
        let k = choose|k: int| 0 <= k < binds.len() && binds[k].source == b.source;
        assert(forall|j: int| 0 <= j < k ==> binds[j].source != b.source);
        lemma_spec_add_bind_first_match(binds, b, k);
        match spec_merge_bind_types(binds[k].bind_type, b.bind_type) {
            Some(t) => {
                assert(forall|j: int|
                    0 <= j < bs.len() ==> bs[j].source == binds[j].source);
            },
            None => {},
        }
    } else {
        lemma_spec_add_bind_append(binds, b);
    }
}

/// Assigning a variable preserves the uniqueness of keys.
pub proof fn lemma_add_env_preserves_unique_keys(
    set_env: Seq<(Seq<char>, Seq<char>)>,
    key: Seq<char>,
    value: Seq<char>,
    es: Seq<(Seq<char>, Seq<char>)>,
)
    requires
        spec_env_keys_unique(set_env),
        spec_add_env(set_env, key, value) == Ok::<Seq<(Seq<char>, Seq<char>)>, ErrorV>(es),
    ensures
        spec_env_keys_unique(es),
{
    if exists|k: int| 0 <= k < set_env.len() && set_env[k].0 == key {
        let k = choose|k: int| 0 <= k < set_env.len() && set_env[k].0 == key;
        assert(forall|j: int| 0 <= j < k ==> set_env[j].0 != key);
        lemma_spec_add_env_first_match(set_env, key, value, k);
    } else {
        lemma_spec_add_env_append(set_env, key, value);
    }
}

/// Insertion never removes a bind: the result is the same list with at most
/// one bind appended, and every existing position keeps its source,
/// destination and tolerance.
pub proof fn lemma_spec_add_bind_grows(binds: Seq<BindV>, b: BindV, bs: Seq<BindV>)
    requires
        spec_add_bind(binds, b) == Ok::<Seq<BindV>, ErrorV>(bs),
    ensures
        binds.len() <= bs.len() <= binds.len() + 1,
        forall|j: int| 0 <= j < binds.len() ==> (bs[j].source == binds[j].source
            && bs[j].destination == binds[j].destination && bs[j].allow_missing_src
            == binds[j].allow_missing_src),
    decreases binds.len(),
{
    if binds.len() == 0 {
    } else if binds[0].source == b.source {
    } else {
        match spec_add_bind(binds.skip(1), b) {
            Ok(rest) => {
                lemma_spec_add_bind_grows(binds.skip(1), b, rest);
            },
            Err(_) => {},
        }
    }
}

/// The merge table is symmetric, and it fails exactly when one side is `Dev`
/// and the other is not — regardless of order.
pub proof fn lemma_merge_bind_types_symmetric(a: BindType, b: BindType)
    ensures
        spec_merge_bind_types(a, b) == spec_merge_bind_types(b, a),
        spec_merge_bind_types(a, b) matches None <==> ((a matches BindType::Dev) != (
        b matches BindType::Dev)),
{
}

/// The merge table, cell by cell.
pub proof fn lemma_merge_table()
    ensures
        spec_merge_bind_types(BindType::Dev, BindType::Dev) == Some(BindType::Dev),
        spec_merge_bind_types(BindType::Dev, BindType::ReadOnly) matches None,
        spec_merge_bind_types(BindType::Dev, BindType::ReadWrite) matches None,
        spec_merge_bind_types(BindType::ReadOnly, BindType::Dev) matches None,
        spec_merge_bind_types(BindType::ReadWrite, BindType::Dev) matches None,
        spec_merge_bind_types(BindType::ReadWrite, BindType::ReadOnly) == Some(
            BindType::ReadWrite,
        ),
        spec_merge_bind_types(BindType::ReadWrite, BindType::ReadWrite) == Some(
            BindType::ReadWrite,
        ),
        spec_merge_bind_types(BindType::ReadOnly, BindType::ReadWrite) == Some(
            BindType::ReadWrite,
        ),
        spec_merge_bind_types(BindType::ReadOnly, BindType::ReadOnly) == Some(BindType::ReadOnly),
{
}

/// Inserting the same bind twice is the same as inserting it once: a second
/// insertion into the merged list changes nothing.
pub proof fn lemma_add_bind_idempotent(binds: Seq<BindV>, b: BindV, merged: Seq<BindV>)
    requires
        spec_add_bind(binds, b) == Ok::<Seq<BindV>, ErrorV>(merged),
    ensures
        spec_add_bind(merged, b) == Ok::<Seq<BindV>, ErrorV>(merged),
    decreases binds.len(),
{
    if binds.len() == 0 {
        assert(merged == seq![b]);
        assert(seq![spec_widened(b, b.bind_type)] + merged.skip(1) =~= merged);
        assert(spec_widened(b, b.bind_type) == b);
    } else if binds[0].source == b.source {
        match spec_merge_bind_types(binds[0].bind_type, b.bind_type) {
            Some(t) => {
                let w = spec_widened(binds[0], t);
                assert(merged == seq![w] + binds.skip(1));
                assert(merged[0] == w);
                assert(spec_merge_bind_types(t, b.bind_type) == Some(t));
                assert(spec_widened(w, t) == w);
                assert(seq![w] + merged.skip(1) =~= merged);
            },
            None => {},
        }
    } else {
        match spec_add_bind(binds.skip(1), b) {
            Ok(rest) => {
                lemma_add_bind_idempotent(binds.skip(1), b, rest);
                assert(merged == seq![binds[0]] + rest);
                assert(merged[0] == binds[0]);
                assert(merged.skip(1) =~= rest);
                assert(seq![merged[0]] + rest =~= merged);
            },
            Err(_) => {},
        }
    }
}

/// Assigning the same key and value twice is the same as assigning them
/// once: a second assignment on the merged list changes nothing.
pub proof fn lemma_add_env_idempotent(
    set_env: Seq<(Seq<char>, Seq<char>)>,
    key: Seq<char>,
    value: Seq<char>,
    merged: Seq<(Seq<char>, Seq<char>)>,
)
    requires
        spec_add_env(set_env, key, value) == Ok::<Seq<(Seq<char>, Seq<char>)>, ErrorV>(merged),
    ensures
        spec_add_env(merged, key, value) == Ok::<Seq<(Seq<char>, Seq<char>)>, ErrorV>(merged),
    decreases set_env.len(),
{
    if set_env.len() == 0 {
        assert(merged == seq![(key, value)]);
    } else if set_env[0].0 == key {
    } else {
        match spec_add_env(set_env.skip(1), key, value) {
            Ok(rest) => {
                lemma_add_env_idempotent(set_env.skip(1), key, value, rest);
                assert(merged == seq![set_env[0]] + rest);
                assert(merged[0] == set_env[0]);
                assert(merged.skip(1) =~= rest);
                assert(seq![merged[0]] + rest =~= merged);
            },
            Err(_) => {},
        }
    }
}

impl BwrapArgs {
    /// Adds a bind, deduplicated by source.  A bind of an already-bound
    /// source merges by the table in [`spec_merge_bind_types`]; changing the
    /// mode to or from `Dev` fails and leaves the configuration unchanged.
    pub fn add_bind(&mut self, bind: Bind) -> (r: Result<(), Error>)
        ensures
            ({
                let pre = old(self).deep_view();
                let post = final(self).deep_view();
                let res = spec_add_bind(pre.binds, bind.deep_view());
                match r {
                    Ok(()) => (res matches Ok(bs) && post == pre.with_binds(bs)),
                    Err(e) => (res == Err::<Seq<BindV>, ErrorV>(e.deep_view()) && post == pre),
                }
            }),
    {
        let n = self.binds.len();
        let mut i: usize = 0;
        while i < n
            invariant
                n == self.binds.len(),
                *self == *old(self),
                forall|j: int| 0 <= j < i ==> self.binds.deep_view()[j].source
                    != bind.deep_view().source,
            decreases n - i,
        {
            if self.binds[i].source == bind.source {
                let merged: Option<BindType> = match (self.binds[i].bind_type, bind.bind_type) {
                    (BindType::Dev, BindType::Dev) => Some(BindType::Dev),
                    (BindType::Dev, _) => None,
                    (_, BindType::Dev) => None,
                    (BindType::ReadWrite, _) => Some(BindType::ReadWrite),
                    (_, BindType::ReadWrite) => Some(BindType::ReadWrite),
                    _ => Some(BindType::ReadOnly),
                };
                proof {
                    lemma_spec_add_bind_first_match(
                        old(self).deep_view().binds,
                        bind.deep_view(),
                        i as int,
                    );
                }
                match merged {
                    Some(t) => {
                        self.binds[i].bind_type = t;
                        proof {
                            assert(self.binds.deep_view() =~= old(self).deep_view().binds.update(
                                i as int,
                                spec_widened(old(self).deep_view().binds[i as int], t),
                            ));
                        }
                        return Ok(());
                    },
                    None => {
                        return Err(Error::BindTypeConflict(bind.source));
                    },
                }
            }
            i += 1;
        }
        proof {
            lemma_spec_add_bind_append(old(self).deep_view().binds, bind.deep_view());
        }
        self.binds.push(bind);
        proof {
            assert(self.binds.deep_view() =~= old(self).deep_view().binds.push(bind.deep_view()));
        }
        Ok(())
    }

    /// Assigns an environment variable, deduplicated by key.  Re-assigning an
    /// identical value changes nothing; a different value fails with a
    /// conflict carrying both values and leaves the configuration unchanged.
    pub fn add_env(&mut self, key: String, value: String) -> (r: Result<(), Error>)
        ensures
            ({
                let pre = old(self).deep_view();
                let post = final(self).deep_view();
                let res = spec_add_env(pre.set_env, key@, value@);
                match r {
                    Ok(()) => (res matches Ok(es) && post == pre.with_set_env(es)),
                    Err(e) => (res == Err::<Seq<(Seq<char>, Seq<char>)>, ErrorV>(e.deep_view())
                        && post == pre),
                }
            }),
    {
        let n = self.set_env.len();
        let mut i: usize = 0;
        while i < n
            invariant
                n == self.set_env.len(),
                *self == *old(self),
                forall|j: int| 0 <= j < i ==> self.set_env.deep_view()[j].0 != key@,
            decreases n - i,
        {
            if self.set_env[i].0 == key {
                proof {
                    lemma_spec_add_env_first_match(
                        old(self).deep_view().set_env,
                        key@,
                        value@,
                        i as int,
                    );
                }
                if self.set_env[i].1 == value {
                    return Ok(());
                } else {
                    let existing = self.set_env[i].1.clone();
                    return Err(Error::EnvVarConflict(key, existing, value));
                }
            }
            i += 1;
        }
        proof {
            lemma_spec_add_env_append(old(self).deep_view().set_env, key@, value@);
        }
        self.set_env.push((key, value));
        proof {
            assert(self.set_env.deep_view() =~= old(self).deep_view().set_env.push((key@, value@)));
        }
        Ok(())
    }
}

} // verus!
