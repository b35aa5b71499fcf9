use fuse::filedialog::{answer_channel, ImNativeDialogError, ImNativeFileDialog, Poll};
use std::path::PathBuf;

type PathDialog = ImNativeFileDialog<Option<PathBuf>, u32>;

#[test]
fn new_dialog_is_closed() {
    let mut d = PathDialog::default();
    assert!(!d.is_open());
    assert!(d.check().is_none());
    assert!(!d.is_open());
}

#[test]
fn show_opens_and_second_show_is_refused() {
    let mut d = PathDialog::new();
    let (_sender, callback) = d.show().unwrap();
    assert!(callback.is_none());
    assert!(d.is_open());
    let again = d.show().map(|_| ());
    assert_eq!(again, Err(ImNativeDialogError::AlreadyOpen));
    assert_eq!(ImNativeDialogError::AlreadyOpen.message(), "The dialog is already open.");
}

#[test]
fn show_hands_out_the_callback_once() {
    let mut d = PathDialog::new();
    d.with_callback(7).with_callback(8);
    let (sender, callback) = d.show().unwrap();
    assert_eq!(callback, Some(8));
    sender.into_sender().send(Ok(None)).unwrap();
    assert!(d.check().is_some());
    let (_sender, callback) = d.show().unwrap();
    assert_eq!(callback, None);
}

#[test]
fn check_waits_for_the_answer() {
    let mut d = PathDialog::new();
    let (sender, _) = d.show().unwrap();
    assert!(d.check().is_none());
    assert!(d.is_open());
    sender.into_sender().send(Ok(Some(PathBuf::from("/tmp/in")))).unwrap();
    let answer = d.check().unwrap().unwrap();
    assert_eq!(answer, Some(PathBuf::from("/tmp/in")));
    assert!(!d.is_open());
    assert!(d.check().is_none());
}

#[test]
fn vanished_worker_counts_as_default_answer() {
    let mut d = PathDialog::new();
    let (sender, _) = d.show().unwrap();
    drop(sender);
    let answer = d.check().unwrap().unwrap();
    assert_eq!(answer, None);
    assert!(!d.is_open());
}

#[test]
fn dialog_errors_are_passed_on() {
    let mut d = PathDialog::new();
    let (sender, _) = d.show().unwrap();
    sender.into_sender().send(Err(native_dialog::Error::NoImplementation)).unwrap();
    let answer = d.check().unwrap();
    assert!(matches!(answer, Err(native_dialog::Error::NoImplementation)));
}

#[test]
fn settle_each_outcome() {
    let mut d: ImNativeFileDialog<Vec<PathBuf>, u32> = ImNativeFileDialog::new();
    let (s1, r1) = answer_channel();
    assert!(d.settle(r1, Poll::Empty).is_none());
    assert!(d.is_open());
    let (_s2, r2) = answer_channel();
    let got = d.settle(r2, Poll::Ready(Ok(vec![PathBuf::from("a")]))).unwrap().unwrap();
    assert_eq!(got, vec![PathBuf::from("a")]);
    assert!(!d.is_open());
    let (_s3, r3) = answer_channel();
    let got = d.settle(r3, Poll::Disconnected).unwrap().unwrap();
    assert!(got.is_empty());
    assert!(!d.is_open());
    drop(s1);
}

#[test]
fn answer_channel_has_one_slot() {
    let (sender, _receiver) = answer_channel::<u8>();
    let sender = sender.into_sender();
    assert_eq!(sender.capacity(), Some(1));
    sender.try_send(1).unwrap();
    assert!(sender.try_send(2).is_err());
}

#[test]
fn open_only_between_show_and_answer() {
    let mut d = PathDialog::new();
    d.with_callback(1);
    assert!(!d.is_open());
    let (sender, _) = d.show().unwrap();
    assert!(d.is_open());
    d.with_callback(2);
    assert!(d.check().is_none());
    assert!(d.is_open());
    assert!(d.show().is_err());
    assert!(d.is_open());
    sender.into_sender().send(Ok(None)).unwrap();
    assert!(d.check().is_some());
    assert!(!d.is_open());
}
