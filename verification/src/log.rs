//! The terminal window's size and the status line at its bottom.

use vstd::prelude::*;

verus! {

/// Size of the terminal, in columns and rows.
pub struct Window {
    pub width: usize,
    pub height: usize,
}

/// The status line: a main message, and additional info (such as "File
/// saved") with a lifetime.
pub struct Log<'a> {
    /// (main message, additional info).
    pub contents: (String, String),
    /// Updates for which the additional info is still shown; 0 means that it
    /// is shown with no limit.
    pub add_info_lifetime: u8,
    /// The window whose bottom row holds the status line.
    pub window: &'a Window,
}

impl<'a> Log<'a> {
    /// The screen row of the status line: the bottom row of the window, the
    /// one that the editor keeps free below its editing area.
    pub open spec fn row(&self) -> int {
        self.window.height - 1
    }

    /// The main message.
    pub open spec fn message(&self) -> Seq<char> {
        self.contents.0@
    }

    /// The additional info.
    pub open spec fn info(&self) -> Seq<char> {
        self.contents.1@
    }

    /// Updates left for the additional info (0: no limit).
    pub open spec fn lifetime(&self) -> u8 {
        self.add_info_lifetime
    }

    pub fn new(window: &'a Window) -> (r: Self)
        ensures
            r.message() == Seq::<char>::empty(),
            r.info() == Seq::<char>::empty(),
            r.lifetime() == 0,
            r.window == window,
    {
        Log { contents: (String::new(), String::new()), add_info_lifetime: 0, window }
    }

    /// Notes that the file was saved: "File saved" is shown for the next
    /// five updates.
    pub fn note_saved(&mut self)
        ensures
            final(self).message() == old(self).message(),
            final(self).info() == seq!['F', 'i', 'l', 'e', ' ', 's', 'a', 'v', 'e', 'd'],
            final(self).lifetime() == 5,
            final(self).window == old(self).window,
    {
        let text = "File saved";
        proof {
            reveal_strlit("File saved");
            assert(text@ =~= seq!['F', 'i', 'l', 'e', ' ', 's', 'a', 'v', 'e', 'd']);
        }
        let mut info = String::new();
        info.append(text);
        self.contents.1 = info;
        self.add_info_lifetime = 5;
    }

    /// One update of the status line: returns the row to draw it on, the
    /// main message framed as `| .. |`, and the additional info after a space
    /// while it has lifetime left, or with no limit when there is info (empty
    /// otherwise). A limited lifetime goes down by one; when
    /// it runs out the additional info is dropped, so that it was shown for
    /// exactly as many updates as its lifetime said. With lifetime 0 the info
    /// stays.
    pub fn update(&mut self) -> (r: (usize, String, String))
        requires
            old(self).window.height >= 1,
        ensures
            r.0 == old(self).row(),
            r.1@ == seq!['|', ' '] + old(self).message() + seq![' ', '|'],
            r.2@ == if old(self).lifetime() > 0 || old(self).info().len() > 0 {
                seq![' '] + old(self).info()
            } else {
                Seq::<char>::empty()
            },
            final(self).window == old(self).window,
            final(self).message() == old(self).message(),
            final(self).info() == if old(self).lifetime() == 1 {
                Seq::<char>::empty()
            } else {
                old(self).info()
            },
            final(self).lifetime() == if old(self).lifetime() > 0 {
                old(self).lifetime() - 1
            } else {
                0
            },
    {
        let open = "| ";
        let close = " |";
        let space = " ";
        proof {
            reveal_strlit("| ");
            reveal_strlit(" |");
            reveal_strlit(" ");
        }
        let mut main = String::new();
        main.append(open);
        main.append(self.contents.0.as_str());
        main.append(close);
        let mut info = String::new();
        if self.add_info_lifetime > 0 || !self.contents.1.as_str().is_empty() {
            info.append(space);
            info.append(self.contents.1.as_str());
        }
        proof {
            assert(main@ =~= seq!['|', ' '] + self.contents.0@ + seq![' ', '|']);
        }
        if self.add_info_lifetime == 1 {
            self.contents.1 = String::new();
        }
        if self.add_info_lifetime > 0 {
            self.add_info_lifetime = self.add_info_lifetime - 1;
        }
        (self.window.height - 1, main, info)
    }
}

} // verus!
