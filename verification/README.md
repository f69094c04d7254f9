# kbdgen

Generates keyboard layout packages for several platforms (macOS, Windows,
iOS, Android, ChromeOS) from one description of a keyboard.

The library in `src/` holds the generators' logic, each function with a
contract that Verus proves: the layout model and its key lists, the macOS
key transition tables and `.keylayout` contents, the Windows `.klc` text, the
edits of an Xcode project file and its text form, and the smaller
converters and command lines the platform builds use. `tests/` runs the
library on concrete layouts.

`app/` is the command-line program around the library: it reads the
keyboard bundle, writes files, runs the platform tools and converts the
library's values to and from the formats of the outside crates.

Build and check the library with Verus; `cargo test` runs the tests.
