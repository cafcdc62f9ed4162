//! Putting a transcript where the user is typing.

use crate::config::PasteMethod;
use vstd::prelude::*;

verus! {

/// Milliseconds until text put on the clipboard can be pasted.
pub const SETTLE_MILLIS: u64 = 80;

/// Milliseconds until pasted text has been taken from the clipboard.
pub const TAKE_MILLIS: u64 = 120;

/// A step of pasting a text.
#[derive(Clone, Copy, Debug, PartialEq, Eq, Structural)]
pub enum PasteStep {
    /// Remember what text is on the clipboard.
    Save,
    /// Put the text on the clipboard. If that fails, pasting has failed.
    Put,
    /// Wait some milliseconds.
    Wait(u64),
    /// Press the keys that paste, with or without the shift key. If that
    /// fails, pasting has failed.
    Press(bool),
    /// Put the remembered text back, or clear the clipboard if there was none.
    Restore,
}

/// The steps of pasting with the keys.
pub open spec fn key_steps(shift: bool, restore: bool) -> Seq<PasteStep> {
    let paste = seq![
        PasteStep::Put,
        PasteStep::Wait(SETTLE_MILLIS),
        PasteStep::Press(shift),
        PasteStep::Wait(TAKE_MILLIS),
    ];
    if restore {
        seq![PasteStep::Save] + paste + seq![PasteStep::Restore]
    } else {
        paste
    }
}

/// The steps of pasting by that method.
pub open spec fn steps_of(method: PasteMethod, restore: bool) -> Seq<PasteStep> {
    match method {
        PasteMethod::Off => Seq::empty(),
        PasteMethod::Clipboard => seq![PasteStep::Put],
        PasteMethod::Immediate => key_steps(false, restore),
        PasteMethod::CtrlV => key_steps(false, restore),
        PasteMethod::CtrlShiftV => key_steps(true, restore),
    }
}

fn with_keys(shift: bool, restore: bool) -> (r: Vec<PasteStep>)
    ensures
        r@ == key_steps(shift, restore),
{
    let mut r: Vec<PasteStep> = Vec::new();
    if restore {
        r.push(PasteStep::Save);
    }
    r.push(PasteStep::Put);
    r.push(PasteStep::Wait(SETTLE_MILLIS));
    r.push(PasteStep::Press(shift));
    r.push(PasteStep::Wait(TAKE_MILLIS));
    if restore {
        r.push(PasteStep::Restore);
    }
    assert(r@ =~= key_steps(shift, restore));
    r
}

/// The steps of pasting a text.
pub fn paste_text(method: &PasteMethod, restore_clipboard: bool) -> (r: Vec<PasteStep>)
    ensures
        r@ == steps_of(*method, restore_clipboard),
{
    let mut r: Vec<PasteStep> = Vec::new();
    match method {
        PasteMethod::Off => {
            assert(r@ =~= steps_of(*method, restore_clipboard));
        },
        PasteMethod::Clipboard => {
            r.push(PasteStep::Put);
            assert(r@ =~= steps_of(*method, restore_clipboard));
        },
        PasteMethod::Immediate => {
            return with_keys(false, restore_clipboard);
        },
        PasteMethod::CtrlV => {
            return with_keys(false, restore_clipboard);
        },
        PasteMethod::CtrlShiftV => {
            return with_keys(true, restore_clipboard);
        },
    }
    r
}

// ---------------------------------------------------------------------------
// What pasting does
// ---------------------------------------------------------------------------

/// What there is while a text is pasted: the text on the clipboard, the
/// remembered one, and all that has been pasted.
#[verifier::ext_equal]
pub ghost struct Desk {
    pub clipboard: Option<Seq<char>>,
    pub saved: Option<Seq<char>>,
    pub pasted: Seq<Seq<char>>,
}

impl Desk {
    /// After a step, if it does not fail. The keys paste what is on the
    /// clipboard.
    pub open spec fn after_step(self, step: PasteStep, text: Seq<char>) -> Desk {
        match step {
            PasteStep::Save => Desk { saved: self.clipboard, ..self },
            PasteStep::Put => Desk { clipboard: Some(text), ..self },
            PasteStep::Wait(_) => self,
            PasteStep::Press(_) => match self.clipboard {
                Some(t) => Desk { pasted: self.pasted.push(t), ..self },
                None => self,
            },
            PasteStep::Restore => Desk { clipboard: self.saved, ..self },
        }
    }

    /// After some steps.
    pub open spec fn after(self, steps: Seq<PasteStep>, text: Seq<char>) -> Desk
        decreases steps.len(),
    {
        if steps.len() == 0 {
            self
        } else {
            self.after_step(steps[0], text).after(steps.drop_first(), text)
        }
    }
}

/// The method presses keys.
pub open spec fn uses_keys(method: PasteMethod) -> bool {
    method is Immediate || method is CtrlV || method is CtrlShiftV
}

/// Methods that press keys paste the text once; the others paste nothing. What
/// was on the clipboard is there again where the keys are pressed and it is to
/// be restored; else the text is on it, unless nothing is done at all.
pub proof fn law_paste(method: PasteMethod, restore: bool, desk: Desk, text: Seq<char>)
    ensures
        desk.after(steps_of(method, restore), text).pasted == (if uses_keys(method) {
            desk.pasted.push(text)
        } else {
            desk.pasted
        }),
        desk.after(steps_of(method, restore), text).clipboard == (if method is Off || (uses_keys(
            method,
        ) && restore) {
            desk.clipboard
        } else {
            Some(text)
        }),
{
    reveal_with_fuel(Desk::after, 7);
    let steps = steps_of(method, restore);
    if uses_keys(method) {
        let s1 = steps.drop_first();
        let s2 = s1.drop_first();
        let s3 = s2.drop_first();
        let s4 = s3.drop_first();
        if restore {
            let s5 = s4.drop_first();
            assert(s5.drop_first().len() == 0);
        } else {
            assert(s4.len() == 0);
        }
    } else if method is Clipboard {
        assert(steps.drop_first().len() == 0);
    }
}

/// Where keys are pressed, the text is put on the clipboard and given 80 ms to
/// settle, the keys are pressed, with the shift key just for that method, and
/// given 120 ms to take the text. What was there is remembered before all that
/// and put back after it, just if it is to be.
pub proof fn law_paste_steps(method: PasteMethod, restore: bool)
    ensures
        ({
            let steps = steps_of(method, restore);
            let from = if restore {
                1int
            } else {
                0int
            };
            &&& method is Off ==> steps.len() == 0
            &&& method is Clipboard ==> steps == seq![PasteStep::Put]
            &&& uses_keys(method) ==> {
                &&& steps.len() == 4 + 2 * from
                &&& steps[from] == PasteStep::Put
                &&& steps[from + 1] == PasteStep::Wait(80)
                &&& steps[from + 2] == PasteStep::Press(method is CtrlShiftV)
                &&& steps[from + 3] == PasteStep::Wait(120)
                &&& restore ==> steps[0] == PasteStep::Save && steps.last() == PasteStep::Restore
            }
        }),
{
}

} // verus!
