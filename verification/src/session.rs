//! Turning what the audio source says of one session into a reading.

use crate::sample::SampleResult;
use crate::target::WindowHandle;
use crate::window::CallbackCollector;
use vstd::prelude::*;

verus! {

/// One reading of the session of the target `id`.
#[derive(Clone, Copy, Debug, PartialEq, Eq, Structural)]
pub struct Reading {
    /// The target the reading belongs to.
    pub id: u32,
    /// What was read.
    pub sample: SampleResult,
}

/// An audible session of the wanted application, with its window.
#[derive(Debug)]
pub struct OutputVolume {
    /// Window of the process that owns the session.
    pub hwnd: WindowHandle,
    /// Title of that window.
    pub name: String,
    /// Process that owns the session.
    pub pid: u32,
    /// Peak level of the session, in millionths of full scale.
    pub volume: u32,
}

/// The lower-case form of a text.
pub uninterp spec fn lowercase_of(text: Seq<char>) -> Seq<char>;

/// Calls `str::to_lowercase`. Trusted: the result depends on the text
/// alone, so it is the lower-case form of `text` under the name
/// [`lowercase_of`].
#[verifier::external_body]
fn lowercase(text: &str) -> (lowered: String)
    ensures
        lowered@ == lowercase_of(text@),
{
    text.to_lowercase()
}

/// `needle` stands in `haystack` from position `at` on, character for
/// character.
pub open spec fn stands_at(needle: Seq<char>, haystack: Seq<char>, at: int) -> bool {
    &&& 0 <= at
    &&& at + needle.len() <= haystack.len()
    &&& haystack.subrange(at, at + needle.len()) == needle
}

/// `needle` stands somewhere in `haystack`.
pub open spec fn occurs_in(needle: Seq<char>, haystack: Seq<char>) -> bool {
    exists|at: int| stands_at(needle, haystack, at)
}

/// The characters of a text.
fn chars_of(text: &str) -> (chars: Vec<char>)
    ensures
        chars@ == text@,
{
    let mut chars: Vec<char> = Vec::new();
    for c in it: text.chars()
        invariant
            it.seq() == text@,
            chars@ == text@.take(it.index() as int),
    {
        chars.push(c);
    }
    assert(text@.take(text@.len() as int) == text@);
    chars
}

/// Tells whether `needle` stands at position `at` of `haystack`.
fn matches_at(haystack: &Vec<char>, needle: &Vec<char>, at: usize) -> (same: bool)
    requires
        at + needle.len() <= haystack.len(),
    ensures
        same == stands_at(needle@, haystack@, at as int),
{
    let mut k: usize = 0;
    while k < needle.len()
        invariant
            0 <= k <= needle.len(),
            at + needle.len() <= haystack.len(),
            forall|j: int| 0 <= j < k ==> haystack@[at + j] == needle@[j],
        decreases needle@.len() - k,
    {
        if haystack[at + k] != needle[k] {
            assert(haystack@.subrange(at as int, at + needle@.len())[k as int] != needle@[k as int]);
            return false;
        }
        k = k + 1;
    }
    assert(haystack@.subrange(at as int, at + needle@.len()) =~= needle@);
    true
}

/// Tells whether `needle` stands somewhere in `haystack`.
pub fn contains_text(haystack: &str, needle: &str) -> (found: bool)
    ensures
        found == occurs_in(needle@, haystack@),
{
    let hay = chars_of(haystack);
    let pin = chars_of(needle);
    if pin.len() > hay.len() {
        return false;
    }
    let last: usize = hay.len() - pin.len();
    let mut at: usize = 0;
    while at < last
        invariant
            0 <= at <= last,
            last == hay@.len() - pin@.len(),
            hay@ == haystack@,
            pin@ == needle@,
            forall|k: int| 0 <= k < at ==> !stands_at(pin@, hay@, k),
        decreases last - at,
    {
        if matches_at(&hay, &pin, at) {
            return true;
        }
        at = at + 1;
    }
    matches_at(&hay, &pin, last)
}

/// Tells whether a session identifier names the application `marker`,
/// whatever the case of its letters. `marker` is given in lower case.
pub fn mentions(session_id: &str, marker: &str) -> (named: bool)
    ensures
        named == occurs_in(marker@, lowercase_of(session_id@)),
{
    let lowered = lowercase(session_id);
    contains_text(lowered.as_str(), marker)
}

/// What a session yields: it counts only if it is active, if it belongs to
/// the wanted application, and if a window of its process was found.
pub open spec fn session_output(
    active: bool,
    named: bool,
    peak: u32,
    collector: CallbackCollector,
) -> Option<OutputVolume> {
    match collector.hwnd {
        Some((hwnd, name)) if active && named => Some(
            OutputVolume { hwnd, name, pid: collector.process_id, volume: peak },
        ),
        _ => None,
    }
}

/// Turns what was read of one session into its output: whether it is
/// `active`, whether its identifier names the wanted application, its
/// `peak` level, and the search for a window of its process.
pub fn process_session_audio(
    active: bool,
    named: bool,
    peak: u32,
    collector: CallbackCollector,
) -> (output: Option<OutputVolume>)
    ensures
        output == session_output(active, named, peak, collector),
{
    if !active {
        return None;
    }
    if !named {
        return None;
    }
    let pid = collector.process_id;
    match collector.hwnd {
        Some((hwnd, name)) => Some(OutputVolume { hwnd, name, pid, volume: peak }),
        None => None,
    }
}

impl OutputVolume {
    /// The reading that this output is for the engine.
    pub fn reading(&self) -> (reading: Reading)
        ensures
            reading == (Reading { id: self.pid, sample: SampleResult::Active(self.volume) }),
    {
        Reading { id: self.pid, sample: SampleResult::Active(self.volume) }
    }
}

} // verus!
