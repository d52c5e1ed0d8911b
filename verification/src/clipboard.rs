//! What goes on the clipboard, and when it is scrubbed again.
//!
//! The clipboard itself belongs to the host. This module decides what is
//! put on it and for how long, keeps the set of scrubs that are pending, and
//! decides, when a timer fires, whether the clipboard is cleared.

use vstd::prelude::*;

verus! {

/// Seconds a secret stays on the clipboard before it is scrubbed.
pub const EXPIRATION_INTERVAL: u64 = 45;

/// A text for the clipboard, and the seconds after which it is scrubbed, if
/// it is scrubbed at all.
#[derive(Debug, Clone, PartialEq, Eq)]
pub struct ClipboardCopy {
    pub text: String,
    pub expiry: Option<u64>,
}

/// A text on the clipboard that is to be scrubbed at `deadline`.
#[derive(Debug, Clone, PartialEq, Eq)]
pub struct ClipboardExposure {
    pub text: String,
    pub deadline: u64,
}

/// `ClipboardExposure` as plain values.
pub struct Exposure {
    pub text: Seq<char>,
    pub deadline: nat,
}

impl View for ClipboardExposure {
    type V = Exposure;

    open spec fn view(&self) -> Exposure {
        Exposure { text: self.text@, deadline: self.deadline as nat }
    }
}

/// The window of a copy that expires or not.
pub open spec fn window(expires: bool) -> Option<u64> {
    if expires {
        Some(EXPIRATION_INTERVAL)
    } else {
        None
    }
}

/// Whether the timer of `text` clears a clipboard that holds `current`, or
/// cannot be read where `current` is `None`: only if it still holds exactly
/// that text.
pub open spec fn must_clear(text: Seq<char>, current: Option<Seq<char>>) -> bool {
    current == Some(text)
}

/// The exposures of `pending` whose text is `text`, in their order.
pub open spec fn of_text(pending: Seq<Exposure>, text: Seq<char>) -> Seq<Exposure> {
    pending.filter(|e: Exposure| e.text == text)
}

/// The copy of `text` to the clipboard: scrubbed after
/// `EXPIRATION_INTERVAL` seconds where it `expires`, never where not.
pub fn copy_to_clipboard(text: &str, expires: bool) -> (copy: ClipboardCopy)
    ensures
        copy.text@ == text@,
        copy.expiry == window(expires),
{
    let expiry = if expires {
        Some(EXPIRATION_INTERVAL)
    } else {
        None
    };
    ClipboardCopy { text: text.to_owned(), expiry }
}

/// The scrubs that are pending.
pub struct ClipboardExpiryScheduler {
    pending: Vec<ClipboardExposure>,
}

impl ClipboardExpiryScheduler {
    /// The pending exposures, oldest first.
    pub closed spec fn pending(&self) -> Seq<Exposure> {
        self.pending@.map_values(|e: ClipboardExposure| e@)
    }

    /// All pending exposures are of one text, the one copied last.
    pub open spec fn wf(&self) -> bool {
        forall|i: int, j: int|
            0 <= i < self.pending().len() && 0 <= j < self.pending().len() ==> (
            #[trigger] self.pending()[i]).text == (#[trigger] self.pending()[j]).text
    }

    /// A scheduler with nothing pending.
    pub fn new() -> (scheduler: Self)
        ensures
            scheduler.pending() == Seq::<Exposure>::empty(),
            scheduler.wf(),
    {
        let scheduler = ClipboardExpiryScheduler { pending: Vec::new() };
        assert(scheduler.pending() =~= Seq::<Exposure>::empty());
        scheduler
    }

    /// How many scrubs are pending.
    pub fn pending_count(&self) -> (count: usize)
        ensures
            count == self.pending().len(),
    {
        self.pending.len()
    }

    /// Records that `text` went to the clipboard at `now` and is to be
    /// scrubbed `ttl` seconds later. Pending exposures of another text are
    /// superseded and leave the set; those of the same text stay, and the
    /// new one comes last. The result is the timer for the host to arm.
    pub fn expose(&mut self, text: &str, now: u64, ttl: u64) -> (exposure: ClipboardExposure)
        requires
            now + ttl <= u64::MAX,
        ensures
            exposure@ == (Exposure { text: text@, deadline: (now + ttl) as nat }),
            final(self).pending() == of_text(old(self).pending(), text@).push(exposure@),
            final(self).wf(),
    {
        let wanted = text.to_owned();
        let ghost before = self.pending();
        let ghost same = |e: Exposure| e.text == text@;
        let mut kept: Vec<ClipboardExposure> = Vec::new();
        let mut i: usize = 0;
        assert(before.take(0) =~= Seq::<Exposure>::empty());
        assert(Seq::<Exposure>::empty().filter(same) =~= Seq::<Exposure>::empty()) by {
            reveal(Seq::filter);
        }
        while i < self.pending.len()
            invariant
                i <= self.pending@.len(),
                wanted@ == text@,
                before == self.pending(),
                before.len() == self.pending@.len(),
                same == |e: Exposure| e.text == text@,
                kept@.map_values(|e: ClipboardExposure| e@) == before.take(i as int).filter(same),
            decreases self.pending.len() - i,
        {
            let entry = &self.pending[i];
            proof {
                assert(before[i as int] == entry@);
                assert(before.take(i + 1) =~= before.take(i as int).push(entry@));
                before.take(i as int).lemma_filter_push(entry@, same);
            }
            if entry.text == wanted {
                let copy = ClipboardExposure { text: entry.text.clone(), deadline: entry.deadline };
                assert(kept@.push(copy).map_values(|e: ClipboardExposure| e@) =~= kept@.map_values(
                    |e: ClipboardExposure| e@,
                ).push(entry@));
                kept.push(copy);
            }
            i += 1;
        }
        assert(before.take(i as int) =~= before);
        let exposure = ClipboardExposure { text: wanted, deadline: now + ttl };
        let armed = ClipboardExposure { text: exposure.text.clone(), deadline: exposure.deadline };
        proof {
            assert(kept@.push(exposure).map_values(|e: ClipboardExposure| e@) =~= of_text(
                before,
                text@,
            ).push(exposure@));
            assert forall|k: int| 0 <= k < of_text(before, text@).len() implies (
            #[trigger] of_text(before, text@)[k]).text == text@ by {
                before.lemma_filter_pred(same, k);
            }
        }
        kept.push(exposure);
        self.pending = kept;
        armed
    }

    /// Records that `copy` went to the clipboard at `now`. A copy with a
    /// window is exposed for it, and the result is the timer to arm. A copy
    /// without one is never scrubbed: nothing is recorded and no timer
    /// comes back.
    pub fn schedule(&mut self, copy: &ClipboardCopy, now: u64) -> (armed: Option<ClipboardExposure>)
        requires
            copy.expiry matches Some(ttl) ==> now + ttl <= u64::MAX,
        ensures
            match copy.expiry {
                Some(ttl) => {
                    &&& armed matches Some(exposure)
                    &&& exposure@ == (Exposure { text: copy.text@, deadline: (now + ttl) as nat })
                    &&& final(self).pending() == of_text(old(self).pending(), copy.text@).push(
                        exposure@,
                    )
                    &&& final(self).wf()
                },
                None => {
                    &&& armed is None
                    &&& final(self).pending() == old(self).pending()
                    &&& old(self).wf() ==> final(self).wf()
                },
            },
    {
        match copy.expiry {
            Some(ttl) => Some(self.expose(copy.text.as_str(), now, ttl)),
            None => None,
        }
    }

    /// The timer of `exposure` fired while the clipboard held `current`, or
    /// could not be read (`None`). The clipboard is to be cleared only if it
    /// still holds exactly the text of the exposure; a text that came later
    /// is never cleared by an earlier timer. The exposure leaves the pending
    /// set, once, if it is there.
    pub fn fire(&mut self, exposure: &ClipboardExposure, current: Option<&str>) -> (clear: bool)
        ensures
            clear == must_clear(
                exposure.text@,
                match current {
                    Some(held) => Some(held@),
                    None => None,
                },
            ),
            final(self).pending() == old(self).pending().remove_value(exposure@),
            old(self).wf() ==> final(self).wf(),
    {
        let ghost before = self.pending();
        let mut i: usize = 0;
        let mut found = false;
        while i < self.pending.len() && !found
            invariant
                i <= self.pending@.len(),
                before == self.pending(),
                before.len() == self.pending@.len(),
                forall|j: int| 0 <= j < i ==> before[j] != exposure@,
                found ==> i < before.len() && before[i as int] == exposure@,
            decreases self.pending.len() - i + if found { 0int } else { 1int },
        {
            let entry = &self.pending[i];
            assert(before[i as int] == entry@);
            if entry.deadline == exposure.deadline && entry.text == exposure.text {
                found = true;
            } else {
                i += 1;
            }
        }
        proof {
            before.index_of_first_ensures(exposure@);
        }
        if found {
            self.pending.remove(i);
            assert(self.pending() =~= before.remove(i as int));
        }
        match current {
            Some(held) => held.to_owned() == exposure.text,
            None => false,
        }
    }
}

} // verus!
