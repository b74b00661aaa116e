//! Where a download goes, and what each piece of it leads to.

use vstd::prelude::*;
use vstd::string::*;

use crate::installed;
use crate::text;

verus! {

/// What the stream of a download gives.
#[derive(Debug)]
pub enum StreamItem {
    /// A piece of the file.
    Chunk,
    /// The transfer failed.
    Failure,
    /// The file is complete.
    End,
}

/// What a download does next.
#[derive(Debug)]
pub enum DownloadStep {
    /// Write the piece to the partial file and report the progress.
    Write,
    /// Delete the partial file and end as cancelled.
    Discard,
    /// End with the transfer's failure.
    Fail,
    /// Rename the partial file to the final one.
    Complete,
}

/// How far a download has come.
#[derive(Debug)]
pub struct Progress {
    pub downloaded: u64,
    pub total: Option<u64>,
}

// ---------------------------------------------------------------------------
// Places
// ---------------------------------------------------------------------------

/// The name of the file behind a URL.
pub fn download_file_name(url: &str) -> (name: String)
    ensures
        name@ == text::after_last(url@, '/'),
{
    text::last_part(url, '/')
}

/// The name of a file while it is not complete.
pub fn partial_file_name(name: &str) -> (partial: String)
    ensures
        partial@ == name@ + ".part"@,
{
    name.to_owned().concat(".part")
}

/// The steps from the hub cache to the directory that a model is downloaded to.
pub fn download_dir(model_id: &str) -> (steps: Vec<String>)
    ensures
        text::texts(steps@) == seq![installed::folder_of(model_id@), "snapshots"@, "download"@],
{
    let mut steps: Vec<String> = Vec::new();
    text::push_text(&mut steps, installed::repo_folder(model_id));
    text::push_text(&mut steps, "snapshots".to_owned());
    text::push_text(&mut steps, "download".to_owned());
    assert(text::texts(steps@) =~= seq![
        installed::folder_of(model_id@),
        "snapshots"@,
        "download"@,
    ]);
    steps
}

// ---------------------------------------------------------------------------
// Pieces
// ---------------------------------------------------------------------------

/// What a download does next. A request to cancel is looked at after every
/// piece, before anything else.
pub open spec fn next_step(cancelled: bool, item: StreamItem) -> DownloadStep {
    if cancelled {
        DownloadStep::Discard
    } else {
        match item {
            StreamItem::Chunk => DownloadStep::Write,
            StreamItem::Failure => DownloadStep::Fail,
            StreamItem::End => DownloadStep::Complete,
        }
    }
}

/// What a download does next.
pub fn download_step(cancelled: bool, item: &StreamItem) -> (step: DownloadStep)
    ensures
        step == next_step(cancelled, *item),
{
    if cancelled {
        return DownloadStep::Discard;
    }
    match item {
        StreamItem::Chunk => DownloadStep::Write,
        StreamItem::Failure => DownloadStep::Fail,
        StreamItem::End => DownloadStep::Complete,
    }
}

impl Progress {
    /// A download of which nothing is there yet.
    pub fn start(total: Option<u64>) -> (p: Progress)
        ensures
            p == (Progress { downloaded: 0, total }),
    {
        Progress { downloaded: 0, total }
    }

    /// Counts a piece that was written.
    pub fn advance(&mut self, len: u64)
        requires
            old(self).downloaded + len <= u64::MAX,
        ensures
            final(self).downloaded == old(self).downloaded + len,
            final(self).total == old(self).total,
    {
        self.downloaded = self.downloaded + len;
    }
}

// ---------------------------------------------------------------------------
// Laws
// ---------------------------------------------------------------------------

/// A request to cancel is met whatever comes next, be it the end of the file:
/// the partial file is deleted and no complete one is left.
pub proof fn law_cancelled_download_is_discarded(item: StreamItem)
    ensures
        next_step(true, item) is Discard,
        !(next_step(false, item) is Discard),
        next_step(false, item) is Complete <==> item is End,
{
}

/// Without a request to cancel each kind of news leads to its own step.
pub proof fn law_step_for_each_kind_of_news(cancelled: bool)
    ensures
        next_step(cancelled, StreamItem::Chunk) is Write <==> !cancelled,
        next_step(cancelled, StreamItem::Failure) is Fail <==> !cancelled,
        next_step(cancelled, StreamItem::End) is Complete <==> !cancelled,
        cancelled ==> next_step(cancelled, StreamItem::Chunk) is Discard && next_step(
            cancelled,
            StreamItem::Failure,
        ) is Discard && next_step(cancelled, StreamItem::End) is Discard,
{
}

} // verus!
