//! Replacing a picture by its crop, step by step, so that it is never lost.

use vstd::prelude::*;

verus! {

/// A step of replacing a picture.
#[derive(Clone, Copy, Debug, PartialEq, Eq, Structural)]
pub enum ReplaceStep {
    /// Crop the picture and write the result to a temporary file.
    WriteTemporary,
    /// Remove a backup that was left behind, if there is one.
    DropStaleBackup,
    /// Rename the picture to the backup.
    SetAside,
    /// Rename the temporary file to the picture.
    MoveIn,
    /// Rename the backup to the picture again.
    PutBack,
    /// Remove the backup.
    Forget,
    /// Nothing is left to do: the picture has been replaced.
    Replaced,
    /// Nothing is left to do: the picture could not be replaced.
    Kept,
}

/// The step that comes first.
pub fn first_step() -> (r: ReplaceStep)
    ensures
        r == ReplaceStep::WriteTemporary,
{
    ReplaceStep::WriteTemporary
}

/// The step after one that worked or did not. Once the picture is set aside, a
/// failure puts it back; whether the backup can be removed at the end does not
/// matter.
pub open spec fn step_after(step: ReplaceStep, worked: bool) -> ReplaceStep {
    match step {
        ReplaceStep::WriteTemporary => if worked {
            ReplaceStep::DropStaleBackup
        } else {
            ReplaceStep::Kept
        },
        ReplaceStep::DropStaleBackup => if worked {
            ReplaceStep::SetAside
        } else {
            ReplaceStep::Kept
        },
        ReplaceStep::SetAside => if worked {
            ReplaceStep::MoveIn
        } else {
            ReplaceStep::Kept
        },
        ReplaceStep::MoveIn => if worked {
            ReplaceStep::Forget
        } else {
            ReplaceStep::PutBack
        },
        ReplaceStep::PutBack => ReplaceStep::Kept,
        ReplaceStep::Forget => ReplaceStep::Replaced,
        ReplaceStep::Replaced => ReplaceStep::Replaced,
        ReplaceStep::Kept => ReplaceStep::Kept,
    }
}

/// The step after one that worked or did not.
pub fn next_step(step: ReplaceStep, worked: bool) -> (r: ReplaceStep)
    ensures
        r == step_after(step, worked),
{
    match step {
        ReplaceStep::WriteTemporary => if worked {
            ReplaceStep::DropStaleBackup
        } else {
            ReplaceStep::Kept
        },
        ReplaceStep::DropStaleBackup => if worked {
            ReplaceStep::SetAside
        } else {
            ReplaceStep::Kept
        },
        ReplaceStep::SetAside => if worked {
            ReplaceStep::MoveIn
        } else {
            ReplaceStep::Kept
        },
        ReplaceStep::MoveIn => if worked {
            ReplaceStep::Forget
        } else {
            ReplaceStep::PutBack
        },
        ReplaceStep::PutBack => ReplaceStep::Kept,
        ReplaceStep::Forget => ReplaceStep::Replaced,
        ReplaceStep::Replaced => ReplaceStep::Replaced,
        ReplaceStep::Kept => ReplaceStep::Kept,
    }
}

// ---------------------------------------------------------------------------
// What happens to the files
// ---------------------------------------------------------------------------

/// What a file holds.
pub ghost enum Content {
    /// The picture as it was.
    Whole,
    /// The crop.
    Cropped,
    /// Something else.
    Other,
}

/// The three files, as far as they exist.
pub ghost struct Files {
    pub picture: Option<Content>,
    pub temporary: Option<Content>,
    pub backup: Option<Content>,
}

/// A step may turn one state of the files into another. What does not work
/// changes nothing, except that a crop that cannot be written may leave
/// anything in the temporary file.
pub open spec fn may_turn(step: ReplaceStep, worked: bool, before: Files, after: Files) -> bool {
    if !worked {
        if step == ReplaceStep::WriteTemporary {
            after == Files { temporary: after.temporary, ..before }
        } else {
            after == before
        }
    } else {
        after == match step {
            ReplaceStep::WriteTemporary => Files { temporary: Some(Content::Cropped), ..before },
            ReplaceStep::DropStaleBackup => Files { backup: None, ..before },
            ReplaceStep::SetAside => Files { picture: None, backup: before.picture, ..before },
            ReplaceStep::MoveIn => Files { picture: before.temporary, temporary: None, ..before },
            ReplaceStep::PutBack => Files { picture: before.backup, backup: None, ..before },
            ReplaceStep::Forget => Files { backup: None, ..before },
            ReplaceStep::Replaced => before,
            ReplaceStep::Kept => before,
        }
    }
}

/// What the files hold when a step comes.
pub open spec fn holds_before(step: ReplaceStep, files: Files) -> bool {
    let whole = Some(Content::Whole);
    let cropped = Some(Content::Cropped);
    match step {
        ReplaceStep::WriteTemporary => files.picture == whole,
        ReplaceStep::DropStaleBackup => files.picture == whole && files.temporary == cropped,
        ReplaceStep::SetAside => files.picture == whole && files.temporary == cropped,
        ReplaceStep::MoveIn => files.picture is None && files.temporary == cropped && files.backup
            == whole,
        ReplaceStep::PutBack => files.picture is None && files.backup == whole,
        ReplaceStep::Forget => files.picture == cropped && files.temporary is None,
        ReplaceStep::Replaced => files.picture == cropped && files.temporary is None,
        ReplaceStep::Kept => files.picture == whole || (files.picture is None && files.backup
            == whole),
    }
}

/// The steps with what became of each lead from one step and state of the
/// files to another.
pub open spec fn leads_to(
    step: ReplaceStep,
    files: Files,
    outcomes: Seq<(bool, Files)>,
    last_step: ReplaceStep,
    last_files: Files,
) -> bool
    decreases outcomes.len(),
{
    if outcomes.len() == 0 {
        step == last_step && files == last_files
    } else {
        let (worked, after) = outcomes[0];
        may_turn(step, worked, files, after) && leads_to(
            step_after(step, worked),
            after,
            outcomes.drop_first(),
            last_step,
            last_files,
        )
    }
}

/// The picture is never lost: whatever fails, at every moment the picture is
/// whole, or its crop has taken its place, or the backup holds the whole one.
pub proof fn law_picture_is_never_lost(
    files: Files,
    outcomes: Seq<(bool, Files)>,
    last_step: ReplaceStep,
    last_files: Files,
)
    requires
        files.picture == Some(Content::Whole),
        leads_to(ReplaceStep::WriteTemporary, files, outcomes, last_step, last_files),
    ensures
        last_files.picture == Some(Content::Whole) || last_files.picture == Some(Content::Cropped)
            || last_files.backup == Some(Content::Whole),
        last_step == ReplaceStep::Replaced ==> last_files.picture == Some(Content::Cropped),
        last_step == ReplaceStep::Kept ==> last_files.picture != Some(Content::Cropped),
{
    lemma_steps_hold(ReplaceStep::WriteTemporary, files, outcomes, last_step, last_files);
}

proof fn lemma_steps_hold(
    step: ReplaceStep,
    files: Files,
    outcomes: Seq<(bool, Files)>,
    last_step: ReplaceStep,
    last_files: Files,
)
    requires
        holds_before(step, files),
        leads_to(step, files, outcomes, last_step, last_files),
    ensures
        holds_before(last_step, last_files),
    decreases outcomes.len(),
{
    if outcomes.len() > 0 {
        let (worked, after) = outcomes[0];
        lemma_steps_hold(
            step_after(step, worked),
            after,
            outcomes.drop_first(),
            last_step,
            last_files,
        );
    }
}

/// If every step works, the crop takes the picture's place in five steps and
/// no other file is left.
pub proof fn law_replacement_without_failure(files: Files)
    requires
        files.picture == Some(Content::Whole),
    ensures
        ({
            let done = Files { picture: Some(Content::Cropped), temporary: None, backup: None };
            exists|outcomes: Seq<(bool, Files)>|
                outcomes.len() == 5 && #[trigger] leads_to(
                    ReplaceStep::WriteTemporary,
                    files,
                    outcomes,
                    ReplaceStep::Replaced,
                    done,
                )
        }),
{
    reveal_with_fuel(leads_to, 6);
    let f1 = Files { temporary: Some(Content::Cropped), ..files };
    let f2 = Files { backup: None, ..f1 };
    let f3 = Files { picture: None, backup: f2.picture, ..f2 };
    let f4 = Files { picture: f3.temporary, temporary: None, ..f3 };
    let f5 = Files { backup: None, ..f4 };
    let outcomes = seq![(true, f1), (true, f2), (true, f3), (true, f4), (true, f5)];
    assert(outcomes.drop_first() =~= seq![(true, f2), (true, f3), (true, f4), (true, f5)]);
    assert(seq![(true, f2), (true, f3), (true, f4), (true, f5)].drop_first() =~= seq![
        (true, f3),
        (true, f4),
        (true, f5),
    ]);
    assert(seq![(true, f3), (true, f4), (true, f5)].drop_first() =~= seq![(true, f4), (true, f5)]);
    assert(seq![(true, f4), (true, f5)].drop_first() =~= seq![(true, f5)]);
    assert(seq![(true, f5)].drop_first() =~= Seq::<(bool, Files)>::empty());
    assert(leads_to(ReplaceStep::WriteTemporary, files, outcomes, ReplaceStep::Replaced, f5));
}

/// No more than one of the outcomes is a failure.
pub open spec fn at_most_one_fails(outcomes: Seq<(bool, Files)>) -> bool {
    forall|i: int, j: int|
        0 <= i < j < outcomes.len() ==> (#[trigger] outcomes[i]).0 || (#[trigger] outcomes[j]).0
}

/// None of the outcomes is a failure.
pub open spec fn none_fails(outcomes: Seq<(bool, Files)>) -> bool {
    forall|i: int| 0 <= i < outcomes.len() ==> (#[trigger] outcomes[i]).0
}

/// A single failure is made good: if the picture is not replaced and no more than
/// one step failed, the whole picture is in its place.
pub proof fn law_one_failure_is_made_good(
    files: Files,
    outcomes: Seq<(bool, Files)>,
    last_files: Files,
)
    requires
        files.picture == Some(Content::Whole),
        leads_to(ReplaceStep::WriteTemporary, files, outcomes, ReplaceStep::Kept, last_files),
        at_most_one_fails(outcomes),
    ensures
        last_files.picture == Some(Content::Whole),
{
    lemma_made_good(ReplaceStep::WriteTemporary, files, outcomes, last_files);
}

proof fn lemma_made_good(
    step: ReplaceStep,
    files: Files,
    outcomes: Seq<(bool, Files)>,
    last_files: Files,
)
    requires
        holds_before(step, files),
        step == ReplaceStep::Kept ==> files.picture == Some(Content::Whole),
        step == ReplaceStep::PutBack ==> none_fails(outcomes),
        at_most_one_fails(outcomes),
        leads_to(step, files, outcomes, ReplaceStep::Kept, last_files),
    ensures
        last_files.picture == Some(Content::Whole),
    decreases outcomes.len(),
{
    if outcomes.len() > 0 {
        let (worked, after) = outcomes[0];
        let rest = outcomes.drop_first();
        assert forall|i: int, j: int| 0 <= i < j < rest.len() implies (#[trigger] rest[i]).0 || (
        #[trigger] rest[j]).0 by {
            assert(outcomes[i + 1] == rest[i] && outcomes[j + 1] == rest[j]);
        }
        assert(!worked || step == ReplaceStep::PutBack ==> none_fails(rest)) by {
            assert forall|i: int|
                0 <= i < rest.len() && (!worked || step == ReplaceStep::PutBack) implies (
            #[trigger] rest[i]).0 by {
                assert(outcomes[i + 1] == rest[i]);
                assert(outcomes[0].0 || outcomes[i + 1].0);
            }
        }
        lemma_made_good(step_after(step, worked), after, rest, last_files);
    }
}

/// The steps come to an end, whatever fails: after six of them nothing is left to
/// do. If none fails the picture has been replaced; whether the backup can be
/// removed makes no difference to that.
pub proof fn law_replacing_ends(a: bool, b: bool, c: bool, d: bool, e: bool, f: bool)
    ensures
        ({
            let s1 = step_after(ReplaceStep::WriteTemporary, a);
            let s2 = step_after(s1, b);
            let s3 = step_after(s2, c);
            let s4 = step_after(s3, d);
            let s5 = step_after(s4, e);
            let s6 = step_after(s5, f);
            &&& s6 == ReplaceStep::Replaced || s6 == ReplaceStep::Kept
            &&& step_after(s6, a) == s6
            &&& s6 == ReplaceStep::Replaced <==> a && b && c && d
            &&& a ==> s1 == ReplaceStep::DropStaleBackup
            &&& a && b ==> s2 == ReplaceStep::SetAside
            &&& a && b && c ==> s3 == ReplaceStep::MoveIn
            &&& a && b && c && d ==> s4 == ReplaceStep::Forget
            &&& a && b && c && !d ==> s4 == ReplaceStep::PutBack && s5 == ReplaceStep::Kept
            &&& !a ==> s1 == ReplaceStep::Kept
            &&& a && !b ==> s2 == ReplaceStep::Kept
            &&& a && b && !c ==> s3 == ReplaceStep::Kept
        }),
{
}

} // verus!
