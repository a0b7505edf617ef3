# wclip

An `xclip`-style clipboard tool for Wayland. It reads data into a selection or
prints the current selection, over the `ext-data-control-v1` protocol or, where
a compositor lacks that, over `wlr-data-control-unstable-v1`.

```sh
echo "hello" | wclip -sel c      # copy some text to the clipboard
wclip -o -sel c                  # paste the clipboard to stdout
wclip -o -sel c -t TARGETS       # list the MIME types that it offers
```

Like `xclip`, the default selection is PRIMARY, not the clipboard.

## Layout

* `src/` is the library, written in Verus. It decides and computes everything:
  the command line, the wire format, the event loop, the two conversations.
  It does no I/O. `Copy::step` and `Paste::step` say what to do next, and the
  caller does it.
* `src/laws.rs` holds what is proved of the client as a whole: which manager is
  bound, which type is requested, that paste requests are answered with the data
  that was given to copy from the moment its source exists, and when the service
  ends.
* `app/` is the program around the library: the socket, the files, the pipe, the
  background process.
* `tests/` runs the library, against a mock compositor among others.

## What is trusted

Two calls into the standard library are taken at their word: `u32::to_ne_bytes`,
which tells the byte order of the machine, and `String::from_utf8_lossy`, which
decodes the text of events.
