//! The symlink resolver: a post-processing pass over the finished bind set
//! that registers the extra binds needed so symlinked sources stay
//! resolvable inside the sandbox.
//!
//! The pass itself is pure: the caller snapshots the bind list, reads the
//! host filesystem once for every snapshotted source — is it a symlink, and
//! where does it lead; is it a directory, and which of its entries are
//! symlinks — and hands those readings in as [`SourceFacts`].  Everything
//! the pass decides from the readings is verified here.

use vstd::prelude::*;

use crate::config::{lemma_spec_add_bind_grows, spec_add_bind, BwrapArgs, ConfigV};
use crate::model::{Bind, BindV, Error, ErrorV};

verus! {

/// What canonicalizing a symlink yielded.
#[derive(Debug)]
pub enum CanonOutcome {
    /// The canonical target, as text.
    Resolved(String),
    /// The link is broken: its target does not exist.  Swallowed, since
    /// broken symlinks are common and non-fatal.
    NotFound,
    /// Any other failure (an access error, a target that is not valid
    /// text), with its cause.  Fatal.
    Failed(String),
}

/// Mathematical abstraction of [`CanonOutcome`].
pub ghost enum CanonOutcomeV {
    Resolved(Seq<char>),
    NotFound,
    Failed(Seq<char>),
}

impl DeepView for CanonOutcome {
    type V = CanonOutcomeV;

    open spec fn deep_view(&self) -> CanonOutcomeV {
        match self {
            CanonOutcome::Resolved(target) => CanonOutcomeV::Resolved(target@),
            CanonOutcome::NotFound => CanonOutcomeV::NotFound,
            CanonOutcome::Failed(cause) => CanonOutcomeV::Failed(cause@),
        }
    }
}

/// What the host filesystem says about one entry of a scanned directory.
#[derive(Debug)]
pub struct EntryFacts {
    /// The entry's full path.
    pub path: String,
    /// The canonicalization outcome when the entry is a symlink; `None`
    /// otherwise.
    pub canon: Option<CanonOutcome>,
}

/// Mathematical abstraction of [`EntryFacts`].
pub ghost struct EntryFactsV {
    pub path: Seq<char>,
    pub canon: Option<CanonOutcomeV>,
}

impl DeepView for EntryFacts {
    type V = EntryFactsV;

    open spec fn deep_view(&self) -> EntryFactsV {
        EntryFactsV { path: self.path@, canon: self.canon.deep_view() }
    }
}

/// What the host filesystem says about one bind source.
#[derive(Debug)]
pub enum SourceFacts {
    /// The source is itself a symlink.
    SymlinkSource(CanonOutcome),
    /// The source is a directory with these immediate entries.
    DirSource(Vec<EntryFacts>),
    /// The source is a directory whose listing failed, with the cause.
    /// Fatal.
    DirReadFailed(String),
    /// Anything else: nothing to resolve.
    PlainSource,
}

/// Mathematical abstraction of [`SourceFacts`].
pub ghost enum SourceFactsV {
    SymlinkSource(CanonOutcomeV),
    DirSource(Seq<EntryFactsV>),
    DirReadFailed(Seq<char>),
    PlainSource,
}

impl DeepView for SourceFacts {
    type V = SourceFactsV;

    open spec fn deep_view(&self) -> SourceFactsV {
        match self {
            SourceFacts::SymlinkSource(canon) => SourceFactsV::SymlinkSource(canon.deep_view()),
            SourceFacts::DirSource(entries) => SourceFactsV::DirSource(entries.deep_view()),
            SourceFacts::DirReadFailed(cause) => SourceFactsV::DirReadFailed(cause@),
            SourceFacts::PlainSource => SourceFactsV::PlainSource,
        }
    }
}

/// The bind registered for a resolved symlink: the canonical target, under
/// the originating bind's destination, mode and tolerance.
pub open spec fn spec_derived_bind(b: BindV, target: Seq<char>) -> BindV {
    BindV {
        bind_type: b.bind_type,
        source: target,
        destination: b.destination,
        allow_missing_src: b.allow_missing_src,
    }
}

/// What registering one canonicalization outcome does: a resolved target is
/// inserted through the merge rules, a broken link is skipped, any other
/// failure is fatal, carrying the link's path.
pub open spec fn spec_apply_canon(
    c: ConfigV,
    link: Seq<char>,
    canon: CanonOutcomeV,
    b: BindV,
) -> Result<ConfigV, ErrorV> {
    match canon {
        CanonOutcomeV::Resolved(target) => match spec_add_bind(
            c.binds,
            spec_derived_bind(b, target),
        ) {
            Ok(bs) => Ok(c.with_binds(bs)),
            Err(e) => Err(e),
        },
        CanonOutcomeV::NotFound => Ok(c),
        CanonOutcomeV::Failed(cause) => Err(ErrorV::SymlinkResolutionIoError(link, cause)),
    }
}

/// Registering the symlink entries of a scanned directory, in order,
/// skipping the procfs compatibility entry whose target is meaningless
/// inside the sandbox.
pub open spec fn spec_apply_entries(
    c: ConfigV,
    entries: Seq<EntryFactsV>,
    b: BindV,
) -> Result<ConfigV, ErrorV>
    decreases entries.len(),
{
    if entries.len() == 0 {
        Ok(c)
    } else {
        let step = if entries[0].path == "/etc/mtab"@ {
            Ok(c)
        } else {
            match entries[0].canon {
                Some(canon) => spec_apply_canon(c, entries[0].path, canon, b),
                None => Ok(c),
            }
        };
        match step {
            Ok(c1) => spec_apply_entries(c1, entries.skip(1), b),
            Err(e) => Err(e),
        }
    }
}

/// Registering whatever one source's facts require.
pub open spec fn spec_apply_source(c: ConfigV, b: BindV, f: SourceFactsV) -> Result<
    ConfigV,
    ErrorV,
> {
    match f {
        SourceFactsV::SymlinkSource(canon) => spec_apply_canon(c, b.source, canon, b),
        SourceFactsV::DirSource(entries) => spec_apply_entries(c, entries, b),
        SourceFactsV::DirReadFailed(cause) => Err(
            ErrorV::SymlinkResolutionIoError(b.source, cause),
        ),
        SourceFactsV::PlainSource => Ok(c),
    }
}

/// One pass over the snapshot, from position `i` on.  Each step reads the
/// bind currently at its snapshot position — earlier steps may have widened
/// it — and registers what its facts require.
pub open spec fn spec_resolve_from(c: ConfigV, facts: Seq<SourceFactsV>, i: int) -> Result<
    ConfigV,
    ErrorV,
>
    decreases facts.len() - i,
    when 0 <= i <= facts.len()
{
    if i >= facts.len() {
        Ok(c)
    } else {
        match spec_apply_source(c, c.binds[i], facts[i]) {
            Ok(c1) => spec_resolve_from(c1, facts, i + 1),
            Err(e) => Err(e),
        }
    }
}

/// The whole resolver pass over a snapshot of `facts.len()` binds.
pub open spec fn spec_add_symlinks(c: ConfigV, facts: Seq<SourceFactsV>) -> Result<
    ConfigV,
    ErrorV,
> {
    spec_resolve_from(c, facts, 0)
}

impl BwrapArgs {
    /// Registers one symlink resolution outcome: the canonical target is
    /// bound exactly like the originating bind, through the merge rules.
    pub fn add_symlink_dst(&mut self, link: &String, canon: &CanonOutcome, bind: &Bind) -> (r:
        Result<(), Error>)
        ensures
            ({
                let res = spec_apply_canon(
                    old(self).deep_view(),
                    link@,
                    canon.deep_view(),
                    bind.deep_view(),
                );
                match r {
                    Ok(()) => res == Ok::<ConfigV, ErrorV>(final(self).deep_view()),
                    Err(e) => res == Err::<ConfigV, ErrorV>(e.deep_view()),
                }
            }),
    {
        match canon {
            CanonOutcome::Resolved(target) => {
                // The canonical target was just resolved on the host, so no
                // further existence check is needed whatever the
                // originating bind tolerates.
                let derived = Bind {
                    bind_type: bind.bind_type,
                    source: target.clone(),
                    destination: match &bind.destination {
                        Some(d) => Some(d.clone()),
                        None => None,
                    },
                    allow_missing_src: bind.allow_missing_src,
                };
                match self.add_bind(derived) {
                    Ok(()) => Ok(()),
                    Err(e) => Err(e),
                }
            },
            CanonOutcome::NotFound => Ok(()),
            CanonOutcome::Failed(cause) => Err(
                Error::SymlinkResolutionIoError(link.clone(), cause.clone()),
            ),
        }
    }

    /// Registers the symlink entries of one scanned directory for the bind
    /// that covers it.
    fn apply_dir_entries(&mut self, entries: &Vec<EntryFacts>, bind: &Bind) -> (r: Result<
        (),
        Error,
    >)
        ensures
            ({
                let res = spec_apply_entries(
                    old(self).deep_view(),
                    entries.deep_view(),
                    bind.deep_view(),
                );
                match r {
                    Ok(()) => res == Ok::<ConfigV, ErrorV>(final(self).deep_view()),
                    Err(e) => res == Err::<ConfigV, ErrorV>(e.deep_view()),
                }
            }),
    {
        let ghost entriesv = entries.deep_view();
        let ghost bindv = bind.deep_view();
        let skipped = String::from_str("/etc/mtab");
        proof {
            assert(entriesv.skip(0) =~= entriesv);
        }
        let mut j: usize = 0;
        while j < entries.len()
            invariant
                entriesv == entries.deep_view(),
                bindv == bind.deep_view(),
                skipped@ == "/etc/mtab"@,
                j <= entries.len(),
                spec_apply_entries(old(self).deep_view(), entriesv, bindv) == spec_apply_entries(
                    self.deep_view(),
                    entriesv.skip(j as int),
                    bindv,
                ),
            decreases entries.len() - j,
        {
            proof {
                assert(entriesv.skip(j as int)[0] == entriesv[j as int]);
                assert(entriesv.skip(j as int).skip(1) =~= entriesv.skip(j as int + 1));
            }
            let entry = &entries[j];
            if !(entry.path == skipped) {
                match &entry.canon {
                    Some(canon) => {
                        match self.add_symlink_dst(&entry.path, canon, bind) {
                            Ok(()) => {},
                            Err(e) => {
                                return Err(e);
                            },
                        }
                    },
                    None => {},
                }
            }
            j += 1;
        }
        proof {
            assert(entriesv.skip(entries.len() as int) =~= Seq::<EntryFactsV>::empty());
        }
        Ok(())
    }

    /// Discovers the binds that symlinked sources require, from the host
    /// filesystem readings for the first `facts.len()` binds (the snapshot
    /// taken before the pass), and registers them in snapshot order through
    /// the merge rules.
    pub fn add_symlinks(&mut self, facts: &Vec<SourceFacts>) -> (r: Result<(), Error>)
        requires
            facts.deep_view().len() <= old(self).deep_view().binds.len(),
        ensures
            ({
                let res = spec_add_symlinks(old(self).deep_view(), facts.deep_view());
                match r {
                    Ok(()) => res == Ok::<ConfigV, ErrorV>(final(self).deep_view()),
                    Err(e) => res == Err::<ConfigV, ErrorV>(e.deep_view()),
                }
            }),
    {
        let ghost c0 = self.deep_view();
        let ghost factsv = facts.deep_view();
        let n = facts.len();
        let mut i: usize = 0;
        while i < n
            invariant
                n == facts.len(),
                factsv == facts.deep_view(),
                c0 == old(self).deep_view(),
                i <= n,
                n <= self.binds.len(),
                spec_resolve_from(c0, factsv, 0) == spec_resolve_from(
                    self.deep_view(),
                    factsv,
                    i as int,
                ),
            decreases n - i,
        {
            let ghost pre = self.deep_view();
            let bind = self.binds[i].clone();
            let step: Result<(), Error> = match &facts[i] {
                SourceFacts::SymlinkSource(canon) => {
                    let link = bind.source.clone();
                    self.add_symlink_dst(&link, canon, &bind)
                },
                SourceFacts::DirSource(entries) => self.apply_dir_entries(entries, &bind),
                SourceFacts::DirReadFailed(cause) => Err(
                    Error::SymlinkResolutionIoError(bind.source.clone(), cause.clone()),
                ),
                SourceFacts::PlainSource => Ok(()),
            };
            match step {
                Ok(()) => {
                    proof {
                        assert(spec_apply_source(pre, pre.binds[i as int], factsv[i as int])
                            == Ok::<ConfigV, ErrorV>(self.deep_view()));
                        lemma_apply_source_grows(
                            pre,
                            pre.binds[i as int],
                            factsv[i as int],
                            self.deep_view(),
                        );
                    }
                },
                Err(e) => {
                    return Err(e);
                },
            }
            i += 1;
        }
        Ok(())
    }
}

/// Whether one canonicalization outcome is already absorbed: its target is
/// already bound, with a mode the merge table keeps unchanged.
pub open spec fn spec_canon_settled(c: ConfigV, canon: CanonOutcomeV, b: BindV) -> bool {
    match canon {
        CanonOutcomeV::Resolved(target) => spec_add_bind(c.binds, spec_derived_bind(b, target))
            == Ok::<Seq<BindV>, ErrorV>(c.binds),
        CanonOutcomeV::NotFound => true,
        CanonOutcomeV::Failed(_) => false,
    }
}

/// Whether one directory entry is already absorbed.
pub open spec fn spec_entry_settled(c: ConfigV, entry: EntryFactsV, b: BindV) -> bool {
    entry.path == "/etc/mtab"@ || (match entry.canon {
        Some(canon) => spec_canon_settled(c, canon, b),
        None => true,
    })
}

/// Whether one source's facts are already absorbed.
pub open spec fn spec_source_settled(c: ConfigV, b: BindV, f: SourceFactsV) -> bool {
    match f {
        SourceFactsV::SymlinkSource(canon) => spec_canon_settled(c, canon, b),
        SourceFactsV::DirSource(entries) => forall|j: int|
            0 <= j < entries.len() ==> spec_entry_settled(c, entries[j], b),
        SourceFactsV::DirReadFailed(_) => false,
        SourceFactsV::PlainSource => true,
    }
}

/// A configuration is resolved for given facts when every bind they could
/// register is already absorbed silently: every candidate source is already
/// present with a mode the merge table keeps.
pub open spec fn spec_resolved(c: ConfigV, facts: Seq<SourceFactsV>) -> bool {
    forall|i: int| 0 <= i < facts.len() ==> spec_source_settled(c, c.binds[i], facts[i])
}

proof fn lemma_apply_canon_settled(c: ConfigV, link: Seq<char>, canon: CanonOutcomeV, b: BindV)
    requires
        spec_canon_settled(c, canon, b),
    ensures
        spec_apply_canon(c, link, canon, b) == Ok::<ConfigV, ErrorV>(c),
{
    match canon {
        CanonOutcomeV::Resolved(_) => {
            assert(c.with_binds(c.binds) == c);
        },
        CanonOutcomeV::NotFound => {},
        CanonOutcomeV::Failed(_) => {},
    }
}

proof fn lemma_apply_entries_settled(c: ConfigV, entries: Seq<EntryFactsV>, b: BindV)
    requires
        forall|j: int| 0 <= j < entries.len() ==> spec_entry_settled(c, entries[j], b),
    ensures
        spec_apply_entries(c, entries, b) == Ok::<ConfigV, ErrorV>(c),
    decreases entries.len(),
{
    if entries.len() == 0 {
    } else {
        assert(spec_entry_settled(c, entries[0], b));
        if !(entries[0].path == "/etc/mtab"@) {
            match entries[0].canon {
                Some(canon) => {
                    lemma_apply_canon_settled(c, entries[0].path, canon, b);
                },
                None => {},
            }
        }
        assert(forall|j: int|
            0 <= j < entries.skip(1).len() ==> spec_entry_settled(c, entries.skip(1)[j], b));
        lemma_apply_entries_settled(c, entries.skip(1), b);
    }
}

proof fn lemma_apply_source_settled(c: ConfigV, b: BindV, f: SourceFactsV)
    requires
        spec_source_settled(c, b, f),
    ensures
        spec_apply_source(c, b, f) == Ok::<ConfigV, ErrorV>(c),
{
    match f {
        SourceFactsV::SymlinkSource(canon) => {
            lemma_apply_canon_settled(c, b.source, canon, b);
        },
        SourceFactsV::DirSource(entries) => {
            lemma_apply_entries_settled(c, entries, b);
        },
        SourceFactsV::DirReadFailed(_) => {},
        SourceFactsV::PlainSource => {},
    }
}

proof fn lemma_resolve_from_fixpoint(c: ConfigV, facts: Seq<SourceFactsV>, i: int)
    requires
        0 <= i <= facts.len(),
        spec_resolved(c, facts),
    ensures
        spec_resolve_from(c, facts, i) == Ok::<ConfigV, ErrorV>(c),
    decreases facts.len() - i,
{
    if i < facts.len() {
        lemma_apply_source_settled(c, c.binds[i], facts[i]);
        lemma_resolve_from_fixpoint(c, facts, i + 1);
    }
}

/// The resolver is idempotent on a resolved configuration: a pass whose
/// every candidate is already absorbed silently returns the configuration
/// unchanged, so running the resolver again once its additions have
/// settled adds no new binds.
pub proof fn lemma_resolver_fixpoint(c: ConfigV, facts: Seq<SourceFactsV>)
    requires
        spec_resolved(c, facts),
    ensures
        spec_add_symlinks(c, facts) == Ok::<ConfigV, ErrorV>(c),
{
    lemma_resolve_from_fixpoint(c, facts, 0);
}

proof fn lemma_apply_canon_preserves_wf(
    c: ConfigV,
    link: Seq<char>,
    canon: CanonOutcomeV,
    b: BindV,
    c1: ConfigV,
)
    requires
        c.wf(),
        spec_apply_canon(c, link, canon, b) == Ok::<ConfigV, ErrorV>(c1),
    ensures
        c1.wf(),
{
    match canon {
        CanonOutcomeV::Resolved(target) => {
            match spec_add_bind(c.binds, spec_derived_bind(b, target)) {
                Ok(bs) => {
                    crate::config::lemma_add_bind_preserves_unique_sources(
                        c.binds,
                        spec_derived_bind(b, target),
                        bs,
                    );
                },
                Err(_) => {},
            }
        },
        CanonOutcomeV::NotFound => {},
        CanonOutcomeV::Failed(_) => {},
    }
}

proof fn lemma_apply_entries_preserves_wf(
    c: ConfigV,
    entries: Seq<EntryFactsV>,
    b: BindV,
    c1: ConfigV,
)
    requires
        c.wf(),
        spec_apply_entries(c, entries, b) == Ok::<ConfigV, ErrorV>(c1),
    ensures
        c1.wf(),
    decreases entries.len(),
{
    if entries.len() == 0 {
    } else {
        let step = if entries[0].path == "/etc/mtab"@ {
            Ok::<ConfigV, ErrorV>(c)
        } else {
            match entries[0].canon {
                Some(canon) => spec_apply_canon(c, entries[0].path, canon, b),
                None => Ok(c),
            }
        };
        match step {
            Ok(cm) => {
                if !(entries[0].path == "/etc/mtab"@) {
                    match entries[0].canon {
                        Some(canon) => {
                            lemma_apply_canon_preserves_wf(c, entries[0].path, canon, b, cm);
                        },
                        None => {},
                    }
                }
                lemma_apply_entries_preserves_wf(cm, entries.skip(1), b, c1);
            },
            Err(_) => {},
        }
    }
}

proof fn lemma_apply_source_preserves_wf(c: ConfigV, b: BindV, f: SourceFactsV, c1: ConfigV)
    requires
        c.wf(),
        spec_apply_source(c, b, f) == Ok::<ConfigV, ErrorV>(c1),
    ensures
        c1.wf(),
{
    match f {
        SourceFactsV::SymlinkSource(canon) => {
            lemma_apply_canon_preserves_wf(c, b.source, canon, b, c1);
        },
        SourceFactsV::DirSource(entries) => {
            lemma_apply_entries_preserves_wf(c, entries, b, c1);
        },
        SourceFactsV::DirReadFailed(_) => {},
        SourceFactsV::PlainSource => {},
    }
}

proof fn lemma_resolve_from_preserves_wf(
    c: ConfigV,
    facts: Seq<SourceFactsV>,
    i: int,
    c1: ConfigV,
)
    requires
        0 <= i <= facts.len(),
        c.wf(),
        spec_resolve_from(c, facts, i) == Ok::<ConfigV, ErrorV>(c1),
    ensures
        c1.wf(),
    decreases facts.len() - i,
{
    if i < facts.len() {
        match spec_apply_source(c, c.binds[i], facts[i]) {
            Ok(cm) => {
                lemma_apply_source_preserves_wf(c, c.binds[i], facts[i], cm);
                lemma_resolve_from_preserves_wf(cm, facts, i + 1, c1);
            },
            Err(_) => {},
        }
    }
}

/// The resolver pass preserves the collection invariants: every bind it
/// registers goes through the merge rules, so sources stay unique.
pub proof fn lemma_resolver_preserves_wf(c: ConfigV, facts: Seq<SourceFactsV>, c1: ConfigV)
    requires
        c.wf(),
        spec_add_symlinks(c, facts) == Ok::<ConfigV, ErrorV>(c1),
    ensures
        c1.wf(),
{
    lemma_resolve_from_preserves_wf(c, facts, 0, c1);
}

/// A successful registration step never shrinks the bind list.
proof fn lemma_apply_canon_grows(c: ConfigV, link: Seq<char>, canon: CanonOutcomeV, b: BindV, c1: ConfigV)
    requires
        spec_apply_canon(c, link, canon, b) == Ok::<ConfigV, ErrorV>(c1),
    ensures
        c.binds.len() <= c1.binds.len(),
{
    match canon {
        CanonOutcomeV::Resolved(target) => {
            match spec_add_bind(c.binds, spec_derived_bind(b, target)) {
                Ok(bs) => {
                    lemma_spec_add_bind_grows(c.binds, spec_derived_bind(b, target), bs);
                },
                Err(_) => {},
            }
        },
        CanonOutcomeV::NotFound => {},
        CanonOutcomeV::Failed(_) => {},
    }
}

/// Registering a directory's entries never shrinks the bind list.
proof fn lemma_apply_entries_grows(c: ConfigV, entries: Seq<EntryFactsV>, b: BindV, c1: ConfigV)
    requires
        spec_apply_entries(c, entries, b) == Ok::<ConfigV, ErrorV>(c1),
    ensures
        c.binds.len() <= c1.binds.len(),
    decreases entries.len(),
{
    if entries.len() == 0 {
    } else {
        let step = if entries[0].path == "/etc/mtab"@ {
            Ok::<ConfigV, ErrorV>(c)
        } else {
            match entries[0].canon {
                Some(canon) => spec_apply_canon(c, entries[0].path, canon, b),
                None => Ok(c),
            }
        };
        match step {
            Ok(cm) => {
                if !(entries[0].path == "/etc/mtab"@) {
                    match entries[0].canon {
                        Some(canon) => {
                            lemma_apply_canon_grows(c, entries[0].path, canon, b, cm);
                        },
                        None => {},
                    }
                }
                lemma_apply_entries_grows(cm, entries.skip(1), b, c1);
            },
            Err(_) => {},
        }
    }
}

/// A whole source step never shrinks the bind list.
proof fn lemma_apply_source_grows(c: ConfigV, b: BindV, f: SourceFactsV, c1: ConfigV)
    requires
        spec_apply_source(c, b, f) == Ok::<ConfigV, ErrorV>(c1),
    ensures
        c.binds.len() <= c1.binds.len(),
{
    match f {
        SourceFactsV::SymlinkSource(canon) => {
            lemma_apply_canon_grows(c, b.source, canon, b, c1);
        },
        SourceFactsV::DirSource(entries) => {
            lemma_apply_entries_grows(c, entries, b, c1);
        },
        SourceFactsV::DirReadFailed(_) => {},
        SourceFactsV::PlainSource => {},
    }
}

} // verus!
