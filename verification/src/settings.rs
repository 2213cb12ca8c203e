//! Choices of the batch run around the conversions: how many conversions
//! run at once, which files are picked up, what the run reports at the end.

use vstd::prelude::*;
use crate::text::{decimal, decimal_string, same_text};

verus! {

/// The number of conversions run at once: the number asked for, or else
/// one less than the processors available (at least one); 4 processors are
/// assumed where their number is unknown.
pub open spec fn core_count_spec(requested: Option<usize>, available: Option<usize>) -> usize {
    let max = match available {
        Some(n) => n,
        None => 4,
    };
    match requested {
        Some(n) => n,
        None => if max > 1 { (max - 1) as usize } else { 1 },
    }
}

/// The number of conversions run at once.
pub fn core_count(requested: Option<usize>, available: Option<usize>) -> (r: usize)
    ensures
        r == core_count_spec(requested, available),
        forall|n: usize| requested == Some(n) ==> r == n,
        requested is None ==> r >= 1,
{
    let max: usize = match available {
        Some(n) => n,
        None => 4,
    };
    match requested {
        Some(n) => n,
        None => if max > 1 {
            max - 1
        } else {
            1
        },
    }
}

/// Whether another conversion must finish before the next one starts.
pub fn slots_full(running: usize, cores: usize) -> (r: bool)
    ensures
        r == slots_full_spec(running, cores),
{
    running >= cores
}

/// The file extensions of the sources that are converted.
pub open spec fn is_audio_extension(ext: Seq<char>) -> bool {
    ||| ext == "wav"@
    ||| ext == "flac"@
    ||| ext == "aiff"@
    ||| ext == "mp3"@
    ||| ext == "m4a"@
}

/// Whether a file with the extension `ext` (as written, case included) is a source.
pub fn is_supported_audio_extension(ext: &str) -> (r: bool)
    ensures
        r == is_audio_extension(ext@),
        r <==> (ext@ == "wav"@ || ext@ == "flac"@ || ext@ == "aiff"@ || ext@ == "mp3"@ || ext@ == "m4a"@),
{
    same_text(ext, "wav") || same_text(ext, "flac") || same_text(ext, "aiff") || same_text(
        ext,
        "mp3",
    ) || same_text(ext, "m4a")
}

/// The note that ends a run with warnings: `Processed with N warnings.`;
/// `None` when there were none.
pub fn summary_note(warnings: usize) -> (r: Option<String>)
    ensures
        match r {
            Some(s) => warnings > 0 && s@ == "Processed with "@ + decimal(warnings as nat) + " warnings."@,
            None => warnings == 0,
        },
{
    if warnings > 0 {
        let mut s = String::from_str("Processed with ");
        let n = decimal_string(warnings as u64);
        s.append(n.as_str());
        s.append(" warnings.");
        Some(s)
    } else {
        None
    }
}

/// Left to itself the run uses at least one conversion slot, and keeps one
/// processor free when more than one is available.
pub proof fn lemma_default_core_count(available: Option<usize>)
    ensures
        core_count_spec(None, available) >= 1,
        forall|n: usize| n > 1 && available == Some(n) ==> core_count_spec(None, available) == n - 1,
        core_count_spec(None, None) == 3,
{
}

/// What happens to the conversion slots: a conversion starts or one finishes.
#[derive(Clone, Copy, PartialEq, Eq, Structural, Debug)]
pub enum SlotEvent {
    Start,
    Finish,
}

/// The number of running conversions after `events`, starting from `running`.
pub open spec fn running_after(running: int, events: Seq<SlotEvent>) -> int
    decreases events.len(),
{
    if events.len() == 0 {
        running
    } else {
        let next = match events[0] {
            SlotEvent::Start => running + 1,
            SlotEvent::Finish => running - 1,
        };
        running_after(next, events.skip(1))
    }
}

/// Whether `events` start a conversion only when the slots are not full
/// (`slots_full` is false) and finish only running conversions.
pub open spec fn follows_slots(running: int, events: Seq<SlotEvent>, cores: usize) -> bool
    decreases events.len(),
{
    if events.len() == 0 {
        true
    } else {
        match events[0] {
            SlotEvent::Start => !(running >= cores) && follows_slots(running + 1, events.skip(1), cores),
            SlotEvent::Finish => running > 0 && follows_slots(running - 1, events.skip(1), cores),
        }
    }
}

/// A conversion started while the slots are not full keeps the count within
/// the core count.
pub proof fn lemma_start_fits(running: usize, cores: usize)
    ensures
        !slots_full_spec(running, cores) ==> running + 1 <= cores,
{
}

/// Whether the slots are full, as `slots_full` decides it.
pub open spec fn slots_full_spec(running: usize, cores: usize) -> bool {
    running >= cores
}

/// Starting within the core count and starting conversions only when the
/// slots are not full, at no moment do more conversions run than there are cores.
pub proof fn lemma_running_within_cores(running: int, events: Seq<SlotEvent>, cores: usize)
    requires
        0 <= running <= cores,
        follows_slots(running, events, cores),
    ensures
        forall|k: int| 0 <= k <= events.len() ==> 0 <= #[trigger] running_after(running, events.take(k)) <= cores,
    decreases events.len(),
{
    assert forall|k: int| 0 <= k <= events.len() implies 0 <= #[trigger] running_after(running, events.take(k)) <= cores by {
        if k > 0 {
            let next = match events[0] {
                SlotEvent::Start => running + 1,
                SlotEvent::Finish => running - 1,
            };
            lemma_running_within_cores(next, events.skip(1), cores);
            assert(events.take(k).skip(1) =~= events.skip(1).take(k - 1));
            assert(events.take(k)[0] == events[0]);
            assert(0 <= running_after(next, events.skip(1).take(k - 1)) <= cores);
        } else {
            assert(events.take(0).len() == 0);
        }
    }
}

/// A requested number of conversions is used as given, whatever the number
/// of processors; only without a request is one less than the processors taken.
pub proof fn lemma_requested_cores_used(requested: Option<usize>, available: Option<usize>)
    ensures
        forall|n: usize| requested == Some(n) ==> core_count_spec(requested, available) == n,
        forall|m: usize| requested is None && available == Some(m) ==> core_count_spec(requested, available) == if m > 1 { m - 1 } else { 1 },
{
}

/// The slots are full exactly when as many conversions run as there are cores or more.
pub proof fn lemma_slots_full_meaning(running: usize, cores: usize)
    ensures
        running < cores ==> !slots_full_spec(running, cores),
        running >= cores ==> slots_full_spec(running, cores),
{
}

} // verus!
