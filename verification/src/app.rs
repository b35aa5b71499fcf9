//! The data of the main window that is not drawing: the channel bundles
//! handed to the GUI and ffmpeg threads, and how answers of the directory
//! dialogs and edits of the path fields change the chosen paths.
use vstd::prelude::*;

verus! {

/// What the GUI thread keeps of the channels it shares with the ffmpeg
/// thread (nothing, so far).
#[derive(Debug, Default)]
pub struct ChannelsForGuiThread {}

/// What the ffmpeg thread keeps of the channels it shares with the GUI
/// thread (nothing, so far).
#[derive(Debug, Default)]
pub struct ChannelsForFfmpegThread {}

/// The path after a look at a directory dialog that gave `answer`: a chosen
/// path replaces `current`; no answer yet, a dialog closed without a choice,
/// and a failed dialog all keep `current`.
pub fn chosen_path<P, E>(current: P, answer: Option<Result<Option<P>, E>>) -> (p: P)
    ensures
        p == (match answer {
            Some(Ok(Some(chosen))) => chosen,
            _ => current,
        }),
{
    match answer {
        Some(Ok(Some(chosen))) => chosen,
        _ => current,
    }
}

/// The new text of a path field: the text `edited` when it differs from the
/// text `shown` the field was drawn with, and nothing when it is unchanged.
pub fn edited_path(shown: &String, edited: String) -> (r: Option<String>)
    ensures
        r == (if edited@ == shown@ {
            None::<String>
        } else {
            Some(edited)
        }),
{
    if edited == *shown {
        None
    } else {
        Some(edited)
    }
}

} // verus!
