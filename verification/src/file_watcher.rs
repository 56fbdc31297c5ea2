//! File-system change events, as the watcher reports them to the display
//! surface.
//!
//! The watcher itself — platform notification plumbing — lives with the
//! caller; the decision of whether and how an observed change is reported
//! is made here.

use vstd::prelude::*;

use crate::text::to_chars;

verus! {

/// One reported file-system change: its kind (`create`, `delete`,
/// `rename`) and the path it concerns.
#[derive(Debug, Clone)]
pub struct FileSystemEvent {
    pub event_type: String,
    pub path: String,
}

/// The event to report for an observed change, if any: changes to hidden
/// files and folders — those whose name starts with a dot — are kept
/// quiet, every other change is reported as it came.
pub fn file_event(event_type: String, path: String, file_name: Option<String>) -> (r: Option<
    FileSystemEvent,
>)
    ensures
        (match file_name {
            Some(n) => n@.len() > 0 && n@[0] == '.',
            None => false,
        }) ==> r is None,
        !(match file_name {
            Some(n) => n@.len() > 0 && n@[0] == '.',
            None => false,
        }) ==> (r matches Some(ev) && ev.event_type@ == event_type@ && ev.path@ == path@),
{
    let hidden = match &file_name {
        Some(n) => {
            let cs = to_chars(n.as_str());
            cs.len() > 0 && cs[0] == '.'
        },
        None => false,
    };
    if hidden {
        None
    } else {
        Some(FileSystemEvent { event_type, path })
    }
}

} // verus!
