//! Finding the window of a process among the windows on screen.

use crate::target::WindowHandle;
use vstd::prelude::*;

verus! {

/// What a window search is after, and what it has found so far.
#[derive(Debug)]
pub struct CallbackCollector {
    /// The window found and its title.
    pub hwnd: Option<(WindowHandle, String)>,
    /// The process whose window is wanted.
    pub process_id: u32,
}

/// The text that a sequence of UTF-16 code units stands for, and nothing
/// where the sequence is not valid UTF-16.
pub uninterp spec fn utf16_decoded(units: Seq<u16>) -> Option<Seq<char>>;

/// Calls `String::from_utf16`. Trusted: the outcome depends on the code
/// units alone, so it is the decoding of `units` under the name
/// [`utf16_decoded`]; an error becomes `None`.
#[verifier::external_body]
fn decode_utf16(units: &Vec<u16>) -> (text: Option<String>)
    ensures
        match text {
            Some(text) => utf16_decoded(units@) == Some(text@),
            None => utf16_decoded(units@) is None,
        },
{
    String::from_utf16(units).ok()
}

/// The verdict on one window: it is the one wanted if its title could be
/// read and it belongs to the wanted process.
pub open spec fn is_wanted(collector: CallbackCollector, process_id: u32, title: Option<String>)
    -> bool {
    title is Some && process_id == collector.process_id
}

/// Looks at one window, given with its title as text, or with none where
/// the title could not be read. Keeps the window if it is the one wanted,
/// and tells whether the search has to go on.
pub fn collect(
    collector: &mut CallbackCollector,
    hwnd: WindowHandle,
    process_id: u32,
    title: Option<String>,
) -> (go_on: bool)
    ensures
        go_on == !is_wanted(*old(collector), process_id, title),
        final(collector).process_id == old(collector).process_id,
        final(collector).hwnd == if go_on {
            old(collector).hwnd
        } else {
            Some((hwnd, title->0))
        },
{
    let Some(name) = title else {
        return true;
    };
    if process_id != collector.process_id {
        return true;
    }
    collector.hwnd = Some((hwnd, name));
    false
}

/// Looks at one window, given with the code units of its title. A window
/// whose title is not valid UTF-16 is passed over, whatever its process.
/// Keeps the window if it is the one wanted, and tells whether the search
/// has to go on.
pub fn callback(
    collector: &mut CallbackCollector,
    hwnd: WindowHandle,
    process_id: u32,
    title: &Vec<u16>,
) -> (go_on: bool)
    ensures
        go_on == !(utf16_decoded(title@) is Some && process_id == old(collector).process_id),
        final(collector).process_id == old(collector).process_id,
        go_on ==> final(collector).hwnd == old(collector).hwnd,
        !go_on ==> {
            &&& final(collector).hwnd matches Some((found, name))
            &&& found == hwnd
            &&& Some(name@) == utf16_decoded(title@)
        },
{
    let name = decode_utf16(title);
    collect(collector, hwnd, process_id, name)
}

impl CallbackCollector {
    /// A search for the window of `process_id` that has found nothing yet.
    pub fn new(process_id: u32) -> (collector: CallbackCollector)
        ensures
            collector.hwnd is None,
            collector.process_id == process_id,
    {
        CallbackCollector { hwnd: None, process_id }
    }
}

} // verus!
