use fuse::app::{chosen_path, edited_path, ChannelsForFfmpegThread, ChannelsForGuiThread};
use fuse::gui::FGui;
use std::path::PathBuf;

#[test]
fn fgui_keeps_its_title() {
    let g = FGui::new("Fuse".to_string());
    assert_eq!(g.title, "Fuse");
}

#[test]
fn dialog_choice_replaces_path() {
    let current = PathBuf::from("/old");
    let answer: Option<Result<Option<PathBuf>, String>> = Some(Ok(Some(PathBuf::from("/new"))));
    assert_eq!(chosen_path(current, answer), PathBuf::from("/new"));
}

#[test]
fn no_choice_keeps_path() {
    let none: Option<Result<Option<PathBuf>, String>> = None;
    assert_eq!(chosen_path(PathBuf::from("/a"), none), PathBuf::from("/a"));
    let cancelled: Option<Result<Option<PathBuf>, String>> = Some(Ok(None));
    assert_eq!(chosen_path(PathBuf::from("/a"), cancelled), PathBuf::from("/a"));
    let failed: Option<Result<Option<PathBuf>, String>> = Some(Err("x".to_string()));
    assert_eq!(chosen_path(PathBuf::from("/a"), failed), PathBuf::from("/a"));
}

#[test]
fn edited_text_only_when_changed() {
    let shown = "/a".to_string();
    assert_eq!(edited_path(&shown, "/a".to_string()), None);
    assert_eq!(edited_path(&shown, "/ab".to_string()), Some("/ab".to_string()));
}

#[test]
fn channel_bundles_are_empty() {
    let _g = ChannelsForGuiThread::default();
    let _f = ChannelsForFfmpegThread::default();
}
