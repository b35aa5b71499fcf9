//! Fetching the ffmpeg archive: the progress reports, and the decisions of
//! the download as a state machine.
//!
//! The download alternates outside work (looking at the disk, an HTTP
//! request, reading the body stream, writing the archive) with decisions.
//! [`FfmpegDownload::step`] makes the decisions: it takes what the last piece
//! of outside work gave ([`DownloadEvent`]) and says what to do next
//! ([`DownloadAction`]); the caller performs the action and reports back.
use vstd::prelude::*;
use vstd::string::StringExecFns;

verus! {

/// The URL that the ffmpeg archive is downloaded from.
pub fn ffmpeg_download_url() -> (s: String)
    ensures
        s@ == "https://www.gyan.dev/ffmpeg/builds/ffmpeg-release-essentials.zip"@,
{
    "https://www.gyan.dev/ffmpeg/builds/ffmpeg-release-essentials.zip".to_owned()
}

/// The file name of the downloaded archive, which is kept in the program's
/// own directory (where ffmpeg is unpacked and run from as well).
pub fn ffmpeg_archive_name() -> (s: &'static str)
    ensures
        s@ == "ffmpeg.zip"@,
{
    "ffmpeg.zip"
}

/// The placeholder of a second ffmpeg fetch: it does nothing and succeeds.
pub fn get_ffmpet() -> (r: Result<(), String>)
    ensures
        r is Ok,
{
    Ok(())
}

/// A progress report of the download.
#[derive(Debug, Clone, Copy, PartialEq, Eq, Structural)]
pub struct DownloadInfo {
    /// The size of the archive that the server announced.
    pub content_length: u64,
    /// The bytes that the report accounts for.
    pub downloaded: u64,
}

impl Default for DownloadInfo {
    /// A report of nothing: both counts are zero.
    fn default() -> (d: Self)
        ensures
            d.content_length == 0,
            d.downloaded == 0,
    {
        DownloadInfo { content_length: 0, downloaded: 0 }
    }
}

/// Where the download stands.
#[derive(Debug, Clone, Copy, PartialEq, Eq, Structural)]
pub enum DownloadStage {
    /// Not started.
    Idle,
    /// Waiting to hear whether the archive is on disk already.
    CheckingArchive,
    /// Waiting for the server's answer to the request.
    Requesting,
    /// Waiting for the archive file to be created.
    CreatingArchive { content_length: u64 },
    /// Waiting for the next chunk of the body.
    Reading { content_length: u64 },
    /// Waiting for a chunk of `chunk_len` bytes to be written.
    Writing { content_length: u64, chunk_len: u64 },
    /// Waiting for a progress report to be delivered.
    Reporting { content_length: u64 },
    /// Finished, well or not.
    Done,
}

/// What the last piece of outside work gave.
#[derive(Debug, Clone, Copy, PartialEq, Eq, Structural)]
pub enum DownloadEvent {
    /// The download is asked for.
    Start,
    /// Whether a file is at the archive's location.
    ArchiveChecked { exists: bool },
    /// The request could not be sent or answered.
    RequestFailed,
    /// The server answered, announcing the body's length if it did.
    Responded { content_length: Option<u64> },
    /// Whether the archive file could be created.
    ArchiveCreated { created: bool },
    /// The next chunk of the body has `len` bytes.
    ChunkReceived { len: usize },
    /// The body stream failed.
    ChunkFailed,
    /// The body stream has ended.
    StreamEnded,
    /// Whether the chunk could be written to the archive.
    ChunkWritten { written: bool },
    /// The progress report has been delivered.
    Reported,
}

/// What to do next.
#[derive(Debug)]
pub enum DownloadAction {
    /// Look whether a file is at the archive's location.
    CheckArchive,
    /// Send the GET request for the download's URL.
    SendRequest,
    /// Create the archive file at its location.
    CreateArchive,
    /// Read the next chunk of the body.
    ReadChunk,
    /// Write the chunk just read to the archive.
    WriteChunk,
    /// Deliver this progress report.
    Report(DownloadInfo),
    /// The download is over, with this outcome.
    Finish(Result<(), String>),
}

/// Message of a request that failed.
pub open spec fn request_failed_text() -> Seq<char> {
    "Could not download ffmpeg!"@
}

/// Message of an answer without a length, for the URL `url`.
pub open spec fn no_length_text(url: Seq<char>) -> Seq<char> {
    "Failed to get content length from '"@ + url + "'"@
}

/// Message of an archive that could not be created at `location`.
pub open spec fn no_archive_text(location: Seq<char>) -> Seq<char> {
    "Could not create archive file: '"@ + location + "', do you have the right permissions?"@
}

/// Message of a failed body stream.
pub open spec fn stream_failed_text() -> Seq<char> {
    "Error while downloading ffmpeg!"@
}

/// Message of a chunk that could not be written.
pub open spec fn write_failed_text() -> Seq<char> {
    "Error while writing to file!"@
}

/// `a` ends the download with an error whose message is `message`.
pub open spec fn fails_with(a: DownloadAction, message: Seq<char>) -> bool {
    a matches DownloadAction::Finish(Err(m)) && m@ == message
}

/// The download of the ffmpeg archive from `url` to the file `location`.
pub struct FfmpegDownload {
    url: String,
    location: String,
    stage: DownloadStage,
}

impl FfmpegDownload {
    pub closed spec fn url(self) -> Seq<char> {
        self.url@
    }

    pub closed spec fn location(self) -> Seq<char> {
        self.location@
    }

    pub closed spec fn stage(self) -> DownloadStage {
        self.stage
    }

    /// `event` answers what the download is waiting for.
    pub open spec fn awaits(self, event: DownloadEvent) -> bool {
        match self.stage() {
            DownloadStage::Idle => event == DownloadEvent::Start,
            DownloadStage::CheckingArchive => event is ArchiveChecked,
            DownloadStage::Requesting => event is RequestFailed || event is Responded,
            DownloadStage::CreatingArchive { .. } => event is ArchiveCreated,
            DownloadStage::Reading { .. } => event is ChunkReceived || event is ChunkFailed
                || event is StreamEnded,
            DownloadStage::Writing { .. } => event is ChunkWritten,
            DownloadStage::Reporting { .. } => event == DownloadEvent::Reported,
            DownloadStage::Done => false,
        }
    }

    /// A download from `url` to `location` that has not started.
    pub fn new(url: String, location: String) -> (d: FfmpegDownload)
        ensures
            d.url() == url@,
            d.location() == location@,
            d.stage() == DownloadStage::Idle,
    {
        FfmpegDownload { url, location, stage: DownloadStage::Idle }
    }

    /// Where the download stands.
    pub fn current_stage(&self) -> (s: DownloadStage)
        ensures
            s == self.stage(),
    {
        self.stage
    }

    /// Ends the download with `outcome`.
    fn finish(&mut self, outcome: Result<(), String>) -> (a: DownloadAction)
        ensures
            final(self).stage() == DownloadStage::Done,
            final(self).url() == old(self).url(),
            final(self).location() == old(self).location(),
            a == DownloadAction::Finish(outcome),
    {
        self.stage = DownloadStage::Done;
        DownloadAction::Finish(outcome)
    }

    /// Moves on to `stage`, asking for `action`.
    fn advance(&mut self, stage: DownloadStage, action: DownloadAction) -> (a: DownloadAction)
        ensures
            final(self).stage() == stage,
            final(self).url() == old(self).url(),
            final(self).location() == old(self).location(),
            a == action,
    {
        self.stage = stage;
        action
    }

    /// Takes the outcome `event` of the last action and decides the next.
    ///
    /// The archive is looked for first; when it is there the download is
    /// over. Otherwise the URL is requested; a failed request, or an answer
    /// without a length, ends it with an error. Then the archive file is
    /// created (an error ends it) and the body is read chunk by chunk: each
    /// chunk is written to the archive and reported, the report carrying the
    /// announced length and the chunk's own size. A failed stream or write
    /// ends the download with an error, the end of the stream ends it well.
    pub fn step(&mut self, event: DownloadEvent) -> (a: DownloadAction)
        requires
            old(self).awaits(event),
        ensures
            final(self).url() == old(self).url(),
            final(self).location() == old(self).location(),
            match (old(self).stage(), event) {
                (DownloadStage::Idle, _) => a == DownloadAction::CheckArchive
                    && final(self).stage() == DownloadStage::CheckingArchive,
                (DownloadStage::CheckingArchive, DownloadEvent::ArchiveChecked { exists }) => if exists {
                    a == DownloadAction::Finish(Ok(())) && final(self).stage() == DownloadStage::Done
                } else {
                    a == DownloadAction::SendRequest && final(self).stage() == DownloadStage::Requesting
                },
                (DownloadStage::Requesting, DownloadEvent::RequestFailed) => final(self).stage()
                    == DownloadStage::Done && fails_with(a, request_failed_text()),
                (DownloadStage::Requesting, DownloadEvent::Responded { content_length }) =>
                    match content_length {
                    Some(n) => a == DownloadAction::CreateArchive && final(self).stage()
                        == (DownloadStage::CreatingArchive { content_length: n }),
                    None => final(self).stage() == DownloadStage::Done
                        && fails_with(a, no_length_text(old(self).url())),
                },
                (DownloadStage::CreatingArchive { content_length }, DownloadEvent::ArchiveCreated {
                    created,
                }) => if created {
                    a == DownloadAction::ReadChunk && final(self).stage() == (DownloadStage::Reading {
                        content_length,
                    })
                } else {
                    final(self).stage() == DownloadStage::Done
                        && fails_with(a, no_archive_text(old(self).location()))
                },
                (DownloadStage::Reading { content_length }, DownloadEvent::ChunkReceived { len }) =>
                    a == DownloadAction::WriteChunk && final(self).stage() == (DownloadStage::Writing {
                    content_length,
                    chunk_len: len as u64,
                }),
                (DownloadStage::Reading { .. }, DownloadEvent::ChunkFailed) => final(self).stage()
                    == DownloadStage::Done && fails_with(a, stream_failed_text()),
                (DownloadStage::Reading { .. }, DownloadEvent::StreamEnded) => a
                    == DownloadAction::Finish(Ok(())) && final(self).stage() == DownloadStage::Done,
                (DownloadStage::Writing { content_length, chunk_len }, DownloadEvent::ChunkWritten {
                    written,
                }) => if written {
                    a == DownloadAction::Report(DownloadInfo { content_length, downloaded: chunk_len })
                        && final(self).stage() == (DownloadStage::Reporting { content_length })
                } else {
                    final(self).stage() == DownloadStage::Done
                        && fails_with(a, write_failed_text())
                },
                (DownloadStage::Reporting { content_length }, _) => a == DownloadAction::ReadChunk
                    && final(self).stage() == (DownloadStage::Reading { content_length }),
                _ => false,
            },
    {
        match (self.stage, event) {
            (DownloadStage::Idle, _) => self.advance(
                DownloadStage::CheckingArchive,
                DownloadAction::CheckArchive,
            ),
            (DownloadStage::CheckingArchive, DownloadEvent::ArchiveChecked { exists }) => {
                if exists {
                    self.finish(Ok(()))
                } else {
                    self.advance(DownloadStage::Requesting, DownloadAction::SendRequest)
                }
            },
            (DownloadStage::Requesting, DownloadEvent::RequestFailed) => {
                self.finish(Err("Could not download ffmpeg!".to_owned()))
            },
            (DownloadStage::Requesting, DownloadEvent::Responded { content_length }) => {
                match content_length {
                    Some(n) => self.advance(
                        DownloadStage::CreatingArchive { content_length: n },
                        DownloadAction::CreateArchive,
                    ),
                    None => {
                        let mut m = "Failed to get content length from '".to_owned();
                        m.append(self.url.as_str());
                        m.append("'");
                        self.finish(Err(m))
                    },
                }
            },
            (DownloadStage::CreatingArchive { content_length }, DownloadEvent::ArchiveCreated {
                created,
            }) => {
                if created {
                    self.advance(DownloadStage::Reading { content_length }, DownloadAction::ReadChunk)
                } else {
                    let mut m = "Could not create archive file: '".to_owned();
                    m.append(self.location.as_str());
                    m.append("', do you have the right permissions?");
                    self.finish(Err(m))
                }
            },
            (DownloadStage::Reading { content_length }, DownloadEvent::ChunkReceived { len }) => {
                self.advance(
                    DownloadStage::Writing { content_length, chunk_len: len as u64 },
                    DownloadAction::WriteChunk,
                )
            },
            (DownloadStage::Reading { .. }, DownloadEvent::ChunkFailed) => {
                self.finish(Err("Error while downloading ffmpeg!".to_owned()))
            },
            (DownloadStage::Reading { .. }, DownloadEvent::StreamEnded) => self.finish(Ok(())),
            (DownloadStage::Writing { content_length, chunk_len }, DownloadEvent::ChunkWritten {
                written,
            }) => {
                if written {
                    let mut info = DownloadInfo { content_length, downloaded: 0 };
                    info.downloaded = info.downloaded + chunk_len;
                    self.advance(DownloadStage::Reporting { content_length }, DownloadAction::Report(info))
                } else {
                    self.finish(Err("Error while writing to file!".to_owned()))
                }
            },
            (DownloadStage::Reporting { content_length }, _) => {
                self.advance(DownloadStage::Reading { content_length }, DownloadAction::ReadChunk)
            },
            _ => {
                proof {
                    assert(false);
                }
                DownloadAction::ReadChunk
            },
        }
    }
}

/// A finished download waits for nothing more, and every unfinished one
/// waits for some outcome.
pub proof fn law_only_done_is_final(d: FfmpegDownload)
    ensures
        d.stage() == DownloadStage::Done <==> forall|e: DownloadEvent| !d.awaits(e),
{
    if d.stage() != DownloadStage::Done {
        let e = match d.stage() {
            DownloadStage::Idle => DownloadEvent::Start,
            DownloadStage::CheckingArchive => DownloadEvent::ArchiveChecked { exists: true },
            DownloadStage::Requesting => DownloadEvent::RequestFailed,
            DownloadStage::CreatingArchive { .. } => DownloadEvent::ArchiveCreated { created: true },
            DownloadStage::Reading { .. } => DownloadEvent::StreamEnded,
            DownloadStage::Writing { .. } => DownloadEvent::ChunkWritten { written: true },
            DownloadStage::Reporting { .. } => DownloadEvent::Reported,
            DownloadStage::Done => DownloadEvent::Start,
        };
        assert(d.awaits(e));
    }
}

} // verus!
