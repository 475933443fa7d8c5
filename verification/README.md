# windows_tray

Tray icons for Windows, with the decisions proved in Verus.

A tray icon takes a long row of calls to the system: a window, an icon made of a
PNG file, a message to the shell, a menu that is built anew each time it is shown.
The library decides which call comes next and what to make of each reply. It makes
none of the calls itself: an operation such as `TrayCreation`, `IconUpdate` or
`PopupMenu` has `next`, which gives a `SystemCall` or the result, and `reply`, which
takes what the system answered.

```text
loop {
    match operation.next() {
        Step::Call(call) => operation.reply(perform(call)),
        Step::Done(result) => return result,
    }
}
```

## Layout

- `src/` is the library.
  - `model`: what a tray shows.
  - `system`: the calls and the replies.
  - `wide`: text in UTF-16.
  - `decode`, `pixels`: from the bytes of a PNG file to the pixels of a bitmap. The
    decoder is the `png` crate; four functions call it.
  - `icon`: from pixels to an icon.
  - `menu`, `popup`: filling a menu, and showing it.
  - `tooltip`: the text shown over an icon.
  - `tray`: a tray that is shown, the messages to its window, and its end.
  - `create`, `update`: making a tray, and giving it another icon.
  - `ledger`, `lifetime`: what is taken from the system and given back, by one
    operation and from the making of a tray to its end.
- `app/` makes the calls with `windows-sys` and runs the application's functions.
- `tests/` runs the library against a stand-in for the system.

## What is proved

Each operation gives exactly the calls and the result that its run describes, for
every row of replies. On top of that stand the proof functions whose names begin
with `law_`: that a tray which could not be made leaves nothing behind, that the
entry which was selected is the one whose command runs, that a tooltip always ends,
and others. Two things can stay behind, and the laws name them: a submenu that the
system would not put into its menu, and a bitmap that came without a place for its
pixels.

Some icons can be neither decoded nor found to be bad: the decoder would panic on
them, or their image is too large for a bitmap. With such an icon the making of a
tray stops once its window is made, and an update does not start.
