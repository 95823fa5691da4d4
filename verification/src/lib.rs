//! The editing core of a small terminal text editor: lines with tab
//! expansion, a document buffer with cursor and viewport, incremental
//! search, and the decoder that turns terminal bytes into key events.

pub mod buffer;
pub mod editor;
pub mod line;
pub mod model;
pub mod terminal;
pub mod text;
pub mod window;

use crate::text::blanks;
use vstd::prelude::*;
use vstd::string::{StrSliceExecFns, StringExecFns};

verus! {

/// The text of the banner: the editor's name and version.
pub const BANNER: &'static str = "milo -- version 0.1.0";

/// The banner line for a screen `cols` columns wide: the banner text cut to
/// the width and, where there is room, centred behind a `~` at the margin.
pub open spec fn banner_line(cols: nat) -> Seq<char> {
    let text = if cols < BANNER@.len() { BANNER@.take(cols as int) } else { BANNER@ };
    let padding = (cols - text.len()) / 2;
    if padding == 0 {
        text
    } else {
        "~"@ + blanks((padding - 1) as nat) + text
    }
}

/// The first `count` lines of the home screen for `rows` rows and `cols`
/// columns: a `~` on every line but the one a third of the way down, which
/// holds the banner; each line ends with the sequence that clears the rest
/// of the screen line and ends it.
pub open spec fn home_screen_rows(count: nat, rows: nat, cols: nat) -> Seq<char>
    decreases count,
{
    if count == 0 {
        Seq::empty()
    } else {
        let line = if count - 1 == rows / 3 { banner_line(cols) } else { "~"@ };
        home_screen_rows((count - 1) as nat, rows, cols) + line + "\x1b[K\r\n"@
    }
}

/// The screen shown for an empty document, `rows` lines for a screen `cols`
/// columns wide.
pub fn editor_home_screen(rows: usize, cols: usize) -> (screen: String)
    ensures
        screen@ == home_screen_rows(rows as nat, rows as nat, cols as nat),
{
    let width = BANNER.unicode_len();
    let text: &str = if cols < width {
        BANNER.substring_char(0, cols)
    } else {
        BANNER
    };
    let padding: usize = (cols - text.unicode_len()) / 2;
    let mut banner = String::new();
    if padding != 0 {
        banner.append("~");
        let mut k: usize = 1;
        let ghost margin = banner@;
        while k < padding
            invariant
                1 <= k <= padding,
                banner@ == margin + blanks((k - 1) as nat),
            decreases padding - k,
        {
            banner.push(' ');
            k += 1;
        }
    }
    banner.append(text);
    let mut screen = String::new();
    let mut n: usize = 0;
    while n < rows
        invariant
            n <= rows,
            banner@ == banner_line(cols as nat),
            screen@ == home_screen_rows(n as nat, rows as nat, cols as nat),
        decreases rows - n,
    {
        if n == rows / 3 {
            screen.append(banner.as_str());
        } else {
            screen.append("~");
        }
        screen.append("\x1b[K\r\n");
        n += 1;
    }
    screen
}

} // verus!
