use fuse::ffmpeg::{ffmpeg_archive_name, ffmpeg_download_url, get_ffmpet, DownloadAction, DownloadEvent, DownloadInfo, DownloadStage, FfmpegDownload};

fn started(url: &str, location: &str) -> FfmpegDownload {
    let mut d = FfmpegDownload::new(url.to_string(), location.to_string());
    assert!(matches!(d.step(DownloadEvent::Start), DownloadAction::CheckArchive));
    d
}

fn error_of(a: DownloadAction) -> String {
    match a {
        DownloadAction::Finish(Err(m)) => m,
        other => panic!("expected an error, got {:?}", other),
    }
}

#[test]
fn download_info_default_is_zero() {
    let d = DownloadInfo::default();
    assert_eq!(d, DownloadInfo { content_length: 0, downloaded: 0 });
}

#[test]
fn present_archive_ends_the_download() {
    let mut d = started("http://x/ff.zip", "/tmp/ff.zip");
    let a = d.step(DownloadEvent::ArchiveChecked { exists: true });
    assert!(matches!(a, DownloadAction::Finish(Ok(()))));
    assert_eq!(d.current_stage(), DownloadStage::Done);
}

#[test]
fn full_download_reports_each_chunk() {
    let mut d = started("http://x/ff.zip", "/tmp/ff.zip");
    assert!(matches!(d.step(DownloadEvent::ArchiveChecked { exists: false }), DownloadAction::SendRequest));
    assert!(matches!(
        d.step(DownloadEvent::Responded { content_length: Some(1000) }),
        DownloadAction::CreateArchive
    ));
    assert_eq!(d.current_stage(), DownloadStage::CreatingArchive { content_length: 1000 });
    assert!(matches!(d.step(DownloadEvent::ArchiveCreated { created: true }), DownloadAction::ReadChunk));
    for len in [400usize, 600] {
        assert!(matches!(d.step(DownloadEvent::ChunkReceived { len }), DownloadAction::WriteChunk));
        match d.step(DownloadEvent::ChunkWritten { written: true }) {
            DownloadAction::Report(info) => {
                assert_eq!(info, DownloadInfo { content_length: 1000, downloaded: len as u64 })
            },
            other => panic!("expected a report, got {:?}", other),
        }
        assert!(matches!(d.step(DownloadEvent::Reported), DownloadAction::ReadChunk));
    }
    assert!(matches!(d.step(DownloadEvent::StreamEnded), DownloadAction::Finish(Ok(()))));
    assert_eq!(d.current_stage(), DownloadStage::Done);
}

#[test]
fn failed_request_is_reported() {
    let mut d = started("http://x/ff.zip", "/tmp/ff.zip");
    d.step(DownloadEvent::ArchiveChecked { exists: false });
    assert_eq!(error_of(d.step(DownloadEvent::RequestFailed)), "Could not download ffmpeg!");
}

#[test]
fn missing_length_names_the_url() {
    let mut d = started("http://x/ff.zip", "/tmp/ff.zip");
    d.step(DownloadEvent::ArchiveChecked { exists: false });
    let m = error_of(d.step(DownloadEvent::Responded { content_length: None }));
    assert_eq!(m, "Failed to get content length from 'http://x/ff.zip'");
}

#[test]
fn uncreatable_archive_names_the_location() {
    let mut d = started("http://x/ff.zip", "/tmp/ff.zip");
    d.step(DownloadEvent::ArchiveChecked { exists: false });
    d.step(DownloadEvent::Responded { content_length: Some(5) });
    let m = error_of(d.step(DownloadEvent::ArchiveCreated { created: false }));
    assert_eq!(m, "Could not create archive file: '/tmp/ff.zip', do you have the right permissions?");
}

#[test]
fn stream_and_write_failures_are_reported() {
    let mut d = started("u", "l");
    d.step(DownloadEvent::ArchiveChecked { exists: false });
    d.step(DownloadEvent::Responded { content_length: Some(5) });
    d.step(DownloadEvent::ArchiveCreated { created: true });
    assert_eq!(error_of(d.step(DownloadEvent::ChunkFailed)), "Error while downloading ffmpeg!");

    let mut d = started("u", "l");
    d.step(DownloadEvent::ArchiveChecked { exists: false });
    d.step(DownloadEvent::Responded { content_length: Some(5) });
    d.step(DownloadEvent::ArchiveCreated { created: true });
    d.step(DownloadEvent::ChunkReceived { len: 5 });
    assert_eq!(error_of(d.step(DownloadEvent::ChunkWritten { written: false })), "Error while writing to file!");
    assert_eq!(d.current_stage(), DownloadStage::Done);
}

#[test]
fn placeholder_fetch_succeeds() {
    assert_eq!(get_ffmpet(), Ok(()));
}

#[test]
fn ffmpeg_source_and_archive() {
    assert_eq!(ffmpeg_download_url(), "https://www.gyan.dev/ffmpeg/builds/ffmpeg-release-essentials.zip");
    assert_eq!(ffmpeg_archive_name(), "ffmpeg.zip");
}
