# fuse

The core of Fuse, a small GUI front end for ffmpeg, as a verified library.

- `src/instancing.rs`: named single-instance locks (abstract Unix sockets)
  kept in a map from names to lock descriptors.
- `src/filedialog.rs`: the open/closed state of a native file dialog whose
  worker answers over a one-slot channel.
- `src/ffmpeg.rs`: the decisions of the ffmpeg download as a state machine,
  and its progress reports.
- `src/app.rs`, `src/gui.rs`: the plain data of the main window.

`app/` holds the program around it: the egui window, the dialog worker
threads, the HTTP download loop and the self-updater.
