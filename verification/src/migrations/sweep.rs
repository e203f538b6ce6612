//! The sweep that brings a data directory up to the layout the engine
//! expects.
//!
//! Each migration knows whether it has work to do and how to do it; the
//! sweep asks each one in declaration order, snapshots the data directory
//! the first time a migration has work, and applies the required ones in
//! order. Finding out whether a migration is required, taking the
//! snapshot and applying a migration touch the disk; the sweep here is the
//! decision procedure between those steps: it is told what happened and
//! answers with the next thing to do.
use vstd::prelude::*;

use crate::migrations::error::{MigrationError, MigrationErrorView};
use crate::text::name_views;

verus! {

/// The result of a sweep: nothing needed doing, or these migrations were
/// applied after the data directory was copied to `backup_path`.
#[derive(Debug)]
pub enum MigrationOutcome {
    AlreadyCurrent,
    Migrated { applied: Vec<String>, backup_path: String },
}

/// The view of a sweep result.
pub enum OutcomeView {
    AlreadyCurrent,
    Migrated(Seq<Seq<char>>, Seq<char>),
}

impl View for MigrationOutcome {
    type V = OutcomeView;

    open spec fn view(&self) -> OutcomeView {
        match self {
            MigrationOutcome::AlreadyCurrent => OutcomeView::AlreadyCurrent,
            MigrationOutcome::Migrated { applied, backup_path } => OutcomeView::Migrated(
                name_views(applied@),
                backup_path@,
            ),
        }
    }
}

/// The names of the migrations found required, in declaration order:
/// `answers[i]` is whether migration `i` was required.
pub open spec fn required_names(names: Seq<Seq<char>>, answers: Seq<bool>) -> Seq<Seq<char>>
    decreases answers.len(),
{
    if answers.len() == 0 {
        Seq::empty()
    } else {
        let front = required_names(names, answers.drop_last());
        if answers.last() {
            front.push(names[answers.len() - 1])
        } else {
            front
        }
    }
}

/// What the sweep reports when it finishes: `AlreadyCurrent` when no
/// migration was required, else the required ones and the backup.
pub open spec fn finished_outcome(
    names: Seq<Seq<char>>,
    answers: Seq<bool>,
    backup: Option<Seq<char>>,
) -> OutcomeView {
    if required_names(names, answers).len() == 0 {
        OutcomeView::AlreadyCurrent
    } else {
        OutcomeView::Migrated(required_names(names, answers), backup.unwrap())
    }
}

proof fn lemma_required_names_empty(names: Seq<Seq<char>>, answers: Seq<bool>)
    ensures
        (required_names(names, answers).len() == 0) == (forall|i: int|
            0 <= i < answers.len() ==> !#[trigger] answers[i]),
    decreases answers.len(),
{
    if answers.len() > 0 {
        let front = answers.drop_last();
        lemma_required_names_empty(names, front);
        if forall|i: int| 0 <= i < answers.len() ==> !#[trigger] answers[i] {
            assert forall|i: int| 0 <= i < front.len() implies !#[trigger] front[i] by {
                assert(front[i] == answers[i]);
            }
        }
        if !answers.last() && required_names(names, front).len() == 0 {
            assert forall|i: int| 0 <= i < answers.len() implies !#[trigger] answers[i] by {
                if i < front.len() {
                    assert(front[i] == answers[i]);
                }
            }
        }
    }
}

/// A sweep finishes with `AlreadyCurrent` exactly when every migration
/// answered that it had no work.
pub proof fn already_current_exactly_when_nothing_required(
    names: Seq<Seq<char>>,
    answers: Seq<bool>,
    backup: Option<Seq<char>>,
)
    ensures
        (finished_outcome(names, answers, backup) == OutcomeView::AlreadyCurrent) == (forall|i: int|
            0 <= i < answers.len() ==> !#[trigger] answers[i]),
{
    lemma_required_names_empty(names, answers);
}

/// Where a sweep stands.
#[derive(Debug, Clone, Copy, PartialEq, Eq, Structural)]
pub enum SweepPhase {
    /// Waiting to hear whether migration `i` is required.
    Checking(usize),
    /// Migration `i` is required and the snapshot is being taken.
    BackingUp(usize),
    /// Migration `i` is being applied.
    Applying(usize),
    /// The sweep has finished.
    Done,
    /// The sweep has stopped on an error.
    Failed,
}

/// What happened since the sweep asked for its last action.
#[derive(Debug)]
pub enum SweepEvent {
    /// Whether the migration asked about is required.
    Required(bool),
    /// The snapshot was taken, at this path.
    BackedUp(String),
    /// The migration was applied.
    Applied,
    /// Finding out whether the migration is required failed.
    CheckFailed(MigrationError),
    /// Taking the snapshot failed.
    BackupFailed(MigrationError),
    /// Applying the migration failed, for this reason.
    ApplyFailed(String),
}

/// The next thing to do.
#[derive(Debug)]
pub enum SweepAction {
    /// Find out whether migration `i` is required.
    Check(usize),
    /// Snapshot the data directory.
    Backup,
    /// Apply migration `i`.
    Apply(usize),
    /// Stop: the sweep is complete.
    Finish(MigrationOutcome),
    /// Stop: the sweep failed.
    Fail(MigrationError),
}

/// The view of a sweep action.
pub enum ActionView {
    Check(nat),
    Backup,
    Apply(nat),
    Finish(OutcomeView),
    Fail(MigrationErrorView),
}

impl View for SweepAction {
    type V = ActionView;

    open spec fn view(&self) -> ActionView {
        match self {
            SweepAction::Check(i) => ActionView::Check(*i as nat),
            SweepAction::Backup => ActionView::Backup,
            SweepAction::Apply(i) => ActionView::Apply(*i as nat),
            SweepAction::Finish(o) => ActionView::Finish(o@),
            SweepAction::Fail(e) => ActionView::Fail(e@),
        }
    }
}

/// Whether `event` is an answer to what a sweep in `phase` asked for.
pub open spec fn answers_phase(phase: SweepPhase, event: SweepEvent) -> bool {
    match phase {
        SweepPhase::Checking(_) => event is Required || event is CheckFailed,
        SweepPhase::BackingUp(_) => event is BackedUp || event is BackupFailed,
        SweepPhase::Applying(_) => event is Applied || event is ApplyFailed,
        _ => false,
    }
}

/// The migration sweep over a list of migrations, named in declaration
/// order.
pub struct MigrationSweep {
    names: Vec<String>,
    phase: SweepPhase,
    backup: Option<String>,
    applied: Vec<String>,
    answers: Ghost<Seq<bool>>,
}

impl MigrationSweep {
    #[verifier::type_invariant]
    spec fn consistent(&self) -> bool {
        let n = self.names@.len();
        let a = self.answers@;
        let names = name_views(self.names@);
        let applied = name_views(self.applied@);
        match self.phase {
            SweepPhase::Checking(i) => {
                &&& i < n
                &&& a.len() == i
                &&& applied == required_names(names, a)
                &&& (self.backup is Some <==> applied.len() > 0)
            },
            SweepPhase::BackingUp(i) => {
                &&& i < n
                &&& a.len() == i + 1
                &&& a[i as int]
                &&& applied == required_names(names, a.take(i as int))
                &&& applied.len() == 0
                &&& self.backup is None
            },
            SweepPhase::Applying(i) => {
                &&& i < n
                &&& a.len() == i + 1
                &&& a[i as int]
                &&& applied == required_names(names, a.take(i as int))
                &&& self.backup is Some
            },
            _ => true,
        }
    }

    /// The names of the migrations, in declaration order.
    pub closed spec fn migration_names(&self) -> Seq<Seq<char>> {
        name_views(self.names@)
    }

    /// Where the sweep stands.
    pub closed spec fn phase(&self) -> SweepPhase {
        self.phase
    }

    /// The answers heard so far: `answers()[i]` is whether migration `i`
    /// was found required.
    pub closed spec fn answers(&self) -> Seq<bool> {
        self.answers@
    }

    /// The path of the snapshot, once it is taken.
    pub closed spec fn backup(&self) -> Option<Seq<char>> {
        match self.backup {
            Some(p) => Some(p@),
            None => None,
        }
    }

    /// The names of the migrations applied so far.
    pub closed spec fn applied(&self) -> Seq<Seq<char>> {
        name_views(self.applied@)
    }

    /// Starts a sweep over the named migrations: it asks about the first
    /// one, or, when there is none, finishes at once with nothing to do.
    pub fn start(names: Vec<String>) -> (r: (Self, SweepAction))
        ensures
            r.0.migration_names() == name_views(names@),
            r.0.answers() == Seq::<bool>::empty(),
            r.0.backup() is None,
            r.0.applied() == Seq::<Seq<char>>::empty(),
            names@.len() == 0 ==> r.0.phase() == SweepPhase::Done && r.1@ == ActionView::Finish(
                OutcomeView::AlreadyCurrent,
            ),
            names@.len() > 0 ==> r.0.phase() == SweepPhase::Checking(0) && r.1@ == ActionView::Check(
                0,
            ),
    {
        let applied: Vec<String> = Vec::new();
        proof {
            assert(name_views(applied@) =~= Seq::<Seq<char>>::empty());
            assert(required_names(name_views(names@), Seq::<bool>::empty()) =~= Seq::<
                Seq<char>,
            >::empty());
        }
        if names.len() == 0 {
            let sweep = MigrationSweep {
                names,
                phase: SweepPhase::Done,
                backup: None,
                applied,
                answers: Ghost(Seq::empty()),
            };
            (sweep, SweepAction::Finish(MigrationOutcome::AlreadyCurrent))
        } else {
            let sweep = MigrationSweep {
                names,
                phase: SweepPhase::Checking(0),
                backup: None,
                applied,
                answers: Ghost(Seq::empty()),
            };
            (sweep, SweepAction::Check(0))
        }
    }

    /// Whether `event` answers what the sweep last asked for.
    pub fn expects(&self, event: &SweepEvent) -> (r: bool)
        ensures
            r == answers_phase(self.phase(), *event),
    {
        match self.phase {
            SweepPhase::Checking(_) => match event {
                SweepEvent::Required(_) | SweepEvent::CheckFailed(_) => true,
                _ => false,
            },
            SweepPhase::BackingUp(_) => match event {
                SweepEvent::BackedUp(_) | SweepEvent::BackupFailed(_) => true,
                _ => false,
            },
            SweepPhase::Applying(_) => match event {
                SweepEvent::Applied | SweepEvent::ApplyFailed(_) => true,
                _ => false,
            },
            _ => false,
        }
    }

    /// A spent sweep, standing in while a sweep is rebuilt.
    fn spent() -> (r: Self)
        ensures
            r.phase() == SweepPhase::Done,
    {
        MigrationSweep {
            names: Vec::new(),
            phase: SweepPhase::Done,
            backup: None,
            applied: Vec::new(),
            answers: Ghost(Seq::empty()),
        }
    }

    /// Moves past migration `i`, whose answer is the last one heard: asks
    /// about the next migration, or finishes.
    fn next_after(
        names: Vec<String>,
        i: usize,
        backup: Option<String>,
        applied: Vec<String>,
        answers: Ghost<Seq<bool>>,
    ) -> (r: (Self, SweepAction))
        requires
            i < names@.len(),
            answers@.len() == i + 1,
            name_views(applied@) == required_names(name_views(names@), answers@),
            backup is Some <==> applied@.len() > 0,
        ensures
            r.0.migration_names() == name_views(names@),
            r.0.answers() == answers@,
            r.0.applied() == name_views(applied@),
            r.0.backup() == (match backup {
                Some(p) => Some(p@),
                None => None::<Seq<char>>,
            }),
            i + 1 < names@.len() ==> r.0.phase() == SweepPhase::Checking((i + 1) as usize)
                && r.1@ == ActionView::Check((i + 1) as nat),
            i + 1 == names@.len() ==> r.0.phase() == SweepPhase::Done && r.1@ == ActionView::Finish(
                finished_outcome(name_views(names@), answers@, r.0.backup()),
            ),
    {
        if i < names.len() - 1 {
            let sweep = MigrationSweep {
                names,
                phase: SweepPhase::Checking(i + 1),
                backup,
                applied,
                answers,
            };
            (sweep, SweepAction::Check(i + 1))
        } else {
            let outcome = match &backup {
                Some(path) => MigrationOutcome::Migrated {
                    applied: clone_names(&applied),
                    backup_path: path.clone(),
                },
                None => MigrationOutcome::AlreadyCurrent,
            };
            let sweep = MigrationSweep { names, phase: SweepPhase::Done, backup, applied, answers };
            (sweep, SweepAction::Finish(outcome))
        }
    }

    /// Takes in what happened and answers with the next thing to do.
    ///
    /// The snapshot is asked for at most once, on the first migration
    /// found required, and before any migration is applied; when the sweep
    /// finishes it reports exactly the migrations found required, in
    /// declaration order, or `AlreadyCurrent` when there was none.
    pub fn advance(&mut self, event: SweepEvent) -> (r: SweepAction)
        requires
            answers_phase(old(self).phase(), event),
        ensures
            final(self).migration_names() == old(self).migration_names(),
            old(self).backup() is Some ==> final(self).backup() == old(self).backup(),
            r@ is Apply ==> final(self).backup() is Some,
            r@ is Backup ==> old(self).backup() is None,
            r@ is Finish ==> r@ == ActionView::Finish(
                finished_outcome(
                    final(self).migration_names(),
                    final(self).answers(),
                    final(self).backup(),
                ),
            ),
            r@ is Finish ==> final(self).answers().len() == final(self).migration_names().len(),
            match (old(self).phase(), event) {
                (SweepPhase::Checking(i), SweepEvent::Required(false)) => {
                    &&& final(self).answers() == old(self).answers().push(false)
                    &&& final(self).applied() == old(self).applied()
                    &&& final(self).backup() == old(self).backup()
                    &&& if i + 1 < old(self).migration_names().len() {
                        final(self).phase() == SweepPhase::Checking((i + 1) as usize)
                            && r@ == ActionView::Check((i + 1) as nat)
                    } else {
                        final(self).phase() == SweepPhase::Done && r@ is Finish
                    }
                },
                (SweepPhase::Checking(i), SweepEvent::Required(true)) => {
                    &&& final(self).answers() == old(self).answers().push(true)
                    &&& final(self).applied() == old(self).applied()
                    &&& final(self).backup() == old(self).backup()
                    &&& if old(self).backup() is None {
                        final(self).phase() == SweepPhase::BackingUp(i) && r@ == ActionView::Backup
                    } else {
                        final(self).phase() == SweepPhase::Applying(i) && r@ == ActionView::Apply(
                            i as nat,
                        )
                    }
                },
                (SweepPhase::BackingUp(i), SweepEvent::BackedUp(path)) => {
                    &&& final(self).answers() == old(self).answers()
                    &&& final(self).applied() == old(self).applied()
                    &&& final(self).backup() == Some(path@)
                    &&& final(self).phase() == SweepPhase::Applying(i)
                    &&& r@ == ActionView::Apply(i as nat)
                },
                (SweepPhase::Applying(i), SweepEvent::Applied) => {
                    &&& final(self).answers() == old(self).answers()
                    &&& final(self).applied() == old(self).applied().push(
                        old(self).migration_names()[i as int],
                    )
                    &&& final(self).backup() == old(self).backup()
                    &&& if i + 1 < old(self).migration_names().len() {
                        final(self).phase() == SweepPhase::Checking((i + 1) as usize)
                            && r@ == ActionView::Check((i + 1) as nat)
                    } else {
                        final(self).phase() == SweepPhase::Done && r@ is Finish
                    }
                },
                (SweepPhase::Applying(i), SweepEvent::ApplyFailed(reason)) => {
                    &&& final(self).phase() == SweepPhase::Failed
                    &&& r@ == ActionView::Fail(
                        MigrationErrorView::Step(old(self).migration_names()[i as int], reason@),
                    )
                },
                (_, SweepEvent::CheckFailed(e)) => {
                    &&& final(self).phase() == SweepPhase::Failed
                    &&& r@ == ActionView::Fail(e@)
                },
                (_, SweepEvent::BackupFailed(e)) => {
                    &&& final(self).phase() == SweepPhase::Failed
                    &&& r@ == ActionView::Fail(e@)
                },
                _ => true,
            },
    {
        proof {
            use_type_invariant(&*self);
        }
        let mut current = MigrationSweep::spent();
        std::mem::swap(self, &mut current);
        let ghost before = current;
        let MigrationSweep { names, phase, backup, mut applied, answers } = current;
        let ghost nv = name_views(names@);
        match event {
            SweepEvent::Required(required) => {
                let i = match phase {
                    SweepPhase::Checking(i) => i,
                    _ => 0,
                };
                let ghost a = answers@.push(required);
                proof {
                    assert(a.drop_last() =~= answers@);
                    assert(a.take(i as int) =~= answers@);
                }
                if !required {
                    let (sweep, action) = Self::next_after(names, i, backup, applied, Ghost(a));
                    *self = sweep;
                    action
                } else if backup.is_none() {
                    *self = MigrationSweep {
                        names,
                        phase: SweepPhase::BackingUp(i),
                        backup,
                        applied,
                        answers: Ghost(a),
                    };
                    SweepAction::Backup
                } else {
                    *self = MigrationSweep {
                        names,
                        phase: SweepPhase::Applying(i),
                        backup,
                        applied,
                        answers: Ghost(a),
                    };
                    SweepAction::Apply(i)
                }
            },
            SweepEvent::BackedUp(path) => {
                let i = match phase {
                    SweepPhase::BackingUp(i) => i,
                    _ => 0,
                };
                *self = MigrationSweep {
                    names,
                    phase: SweepPhase::Applying(i),
                    backup: Some(path),
                    applied,
                    answers,
                };
                SweepAction::Apply(i)
            },
            SweepEvent::Applied => {
                let i = match phase {
                    SweepPhase::Applying(i) => i,
                    _ => 0,
                };
                let name = names[i].clone();
                proof {
                    let a = answers@;
                    assert(a.take(i + 1) =~= a);
                    assert(a.take(i as int) =~= a.drop_last());
                    assert(required_names(nv, a) == required_names(nv, a.drop_last()).push(nv[i as int]));
                }
                applied.push(name);
                proof {
                    assert(name_views(applied@) =~= name_views(before.applied@).push(nv[i as int]));
                }
                let (sweep, action) = Self::next_after(names, i, backup, applied, answers);
                *self = sweep;
                action
            },
            SweepEvent::ApplyFailed(reason) => {
                let i = match phase {
                    SweepPhase::Applying(i) => i,
                    _ => 0,
                };
                let name = names[i].clone();
                *self = MigrationSweep {
                    names,
                    phase: SweepPhase::Failed,
                    backup,
                    applied,
                    answers,
                };
                SweepAction::Fail(MigrationError::Step { name, reason })
            },
            SweepEvent::CheckFailed(e) => {
                *self = MigrationSweep {
                    names,
                    phase: SweepPhase::Failed,
                    backup,
                    applied,
                    answers,
                };
                SweepAction::Fail(e)
            },
            SweepEvent::BackupFailed(e) => {
                *self = MigrationSweep {
                    names,
                    phase: SweepPhase::Failed,
                    backup,
                    applied,
                    answers,
                };
                SweepAction::Fail(e)
            },
        }
    }
}

/// A copy of a list of names.
fn clone_names(names: &Vec<String>) -> (r: Vec<String>)
    ensures
        name_views(r@) == name_views(names@),
{
    let mut out: Vec<String> = Vec::new();
    let mut i: usize = 0;
    while i < names.len()
        invariant
            i <= names@.len(),
            name_views(out@) == name_views(names@).take(i as int),
        decreases names@.len() - i,
    {
        let name = names[i].clone();
        let ghost before = out@;
        out.push(name);
        proof {
            assert(out@ == before.push(names@[i as int]));
            assert(name_views(out@) =~= name_views(before).push(names@[i as int]@));
            assert(name_views(names@).take(i + 1) =~= name_views(names@).take(i as int).push(
                names@[i as int]@,
            ));
        }
        i += 1;
    }
    proof {
        assert(name_views(names@).take(names@.len() as int) =~= name_views(names@));
    }
    out
}

} // verus!
