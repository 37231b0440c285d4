//! One step of the clipboard watcher: from what the clipboard holds now, decide
//! whether a new text is to be recorded.
use vstd::prelude::*;

use crate::text::{lemma_trim_idempotent, trim, trim_spec};

verus! {

/// The last text the watcher saw: the last one handed on to the history, or
/// one seen while recording was paused.
pub struct ClipboardWatch {
    last_text: Option<String>,
}

impl View for ClipboardWatch {
    type V = Option<Seq<char>>;

    closed spec fn view(&self) -> Option<Seq<char>> {
        match self.last_text {
            Some(t) => Some(t@),
            None => None,
        }
    }
}

/// What a step records for clipboard text `text` (if any was read), given the
/// last seen text: the trimmed text when recording is not paused, it is not
/// empty and it differs from the last one.
pub open spec fn observed_spec(last: Option<Seq<char>>, paused: bool, text: Option<Seq<char>>) -> Option<
    Seq<char>,
> {
    match text {
        None => None,
        Some(t) => {
            let trimmed = trim_spec(t);
            if paused || trimmed.len() == 0 || last == Some(trimmed) {
                None
            } else {
                Some(trimmed)
            }
        },
    }
}

/// The last seen text after a step: the trimmed text when it is not empty
/// (whether recorded or seen while paused), else the previous one.
pub open spec fn next_last_spec(last: Option<Seq<char>>, text: Option<Seq<char>>) -> Option<
    Seq<char>,
> {
    match text {
        None => last,
        Some(t) => if trim_spec(t).len() == 0 {
            last
        } else {
            Some(trim_spec(t))
        },
    }
}

/// A recorded text is never empty and has no whitespace to trim; while paused
/// nothing is recorded; the same clipboard text read again right after it
/// was recorded is not recorded a second time.
pub proof fn lemma_observed(last: Option<Seq<char>>, paused: bool, text: Option<Seq<char>>)
    ensures
        observed_spec(last, paused, text) matches Some(t) ==> t.len() > 0 && trim_spec(t) == t,
        paused ==> observed_spec(last, paused, text) is None,
        observed_spec(last, paused, text) matches Some(t) ==> observed_spec(
            next_last_spec(last, text),
            paused,
            text,
        ) is None,
{
    if let Some(t) = text {
        lemma_trim_idempotent(t);
    }
}

/// When recording is not paused, every clipboard text whose trimmed form is
/// not blank and differs from the last seen text is recorded, as that trimmed
/// form, and becomes the last seen text; one equal to the last seen text is
/// not recorded.
pub proof fn lemma_changed_text_is_recorded(last: Option<Seq<char>>, t: Seq<char>)
    ensures
        trim_spec(t).len() > 0 && last != Some(trim_spec(t)) ==> observed_spec(last, false, Some(t))
            == Some(trim_spec(t)) && next_last_spec(last, Some(t)) == Some(trim_spec(t)),
        last == Some(trim_spec(t)) ==> observed_spec(last, false, Some(t)) is None,
{
}

/// A text seen while recording is paused is not recorded when the pause ends
/// while it is still on the clipboard.
pub proof fn lemma_paused_text_not_recorded_later(last: Option<Seq<char>>, text: Option<Seq<char>>)
    ensures
        observed_spec(next_last_spec(last, text), false, text) is None,
{
}

impl ClipboardWatch {
    /// A watcher that has seen nothing yet.
    pub fn new() -> (r: Self)
        ensures
            r@ == None::<Seq<char>>,
    {
        ClipboardWatch { last_text: None }
    }

    /// Looks at the clipboard's text (`None` when it could not be read as
    /// text) and returns the text to record, if any. A non-empty trimmed text
    /// becomes the last seen one, also while paused, so that it is not
    /// recorded once the pause ends.
    pub fn observe(&mut self, paused: bool, text: Option<&str>) -> (r: Option<String>)
        ensures
            (match r {
                Some(t) => Some(t@),
                None => None,
            }) == observed_spec(
                old(self)@,
                paused,
                match text {
                    Some(s) => Some(s@),
                    None => None,
                },
            ),
            final(self)@ == next_last_spec(
                old(self)@,
                match text {
                    Some(s) => Some(s@),
                    None => None,
                },
            ),
    {
        match text {
            None => None,
            Some(raw) => {
                let trimmed = trim(raw);
                if trimmed.as_str().is_empty() {
                    return None;
                }
                if paused {
                    self.last_text = Some(trimmed);
                    return None;
                }
                let changed = match &self.last_text {
                    Some(last) => !(*last == trimmed),
                    None => true,
                };
                if changed {
                    self.last_text = Some(trimmed.clone());
                    Some(trimmed)
                } else {
                    None
                }
            },
        }
    }
}

} // verus!
