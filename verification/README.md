# workfile_backupper

A desktop tool that watches a folder and keeps time-stamped copies of the
files saved in it. This crate holds its decisions, proved with Verus:

- `path`, `text`: a model of path syntax (components, file name, stem,
  extension, parent, prefix stripping, joining), for Unix and for Windows
  with its drive prefixes and backslashes, and the character helpers it
  rests on.
- `models`: the settings and their check, the settings held by the running
  application, and what the user is told about each event (payloads with a
  level and a range, and the level-only messages).
- `services`: which changed paths are backed up, the name and folder of each
  copy, the wait until a file is written, the unsaved-time timer, the
  bookkeeping of files in process, and the start/stop of the watch.

`app/` is the program around it: the window, tray and commands, the settings
file, the debouncer, the tasks, and the file-system calls between the steps
that the library decides.
