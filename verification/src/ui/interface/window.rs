//! The interface's window: a title bar, framed lines of content, and a
//! status bar at the bottom.
use vstd::prelude::*;

use super::titlebar::TitleBar;
use crate::text::{push_repeat, push_str, string_from, views};
use crate::ui::window::{border, frame_lines, push_frame_lines};
use crate::ui::Error;

verus! {

/// The window that the interface is drawn in.
pub struct Window {
    /// Whether the window is drawn without borders.
    borderless: bool,
    /// The title bar of the window.
    pub titlebar: TitleBar,
    /// The bottom bar, which does not change once the window is made.
    pub statusbar: String,
    /// The inner width of the window.
    width: usize,
    /// Whether lines are padded to the window's width.
    spaced: bool,
    /// Whether each line is wrapped in reset sequences.
    fancy: bool,
}

/// The bottom bar of a window: empty when borderless.
pub open spec fn status(width: nat, borderless: bool) -> Seq<char> {
    if borderless {
        Seq::empty()
    } else {
        border('└', width, '┘')
    }
}

impl Window {
    /// The inner width of the window.
    pub closed spec fn inner_width(&self) -> nat {
        self.width as nat
    }

    /// Whether the window is borderless.
    pub closed spec fn is_borderless(&self) -> bool {
        self.borderless
    }

    /// Whether lines are padded to the window's width.
    pub closed spec fn is_spaced(&self) -> bool {
        self.spaced
    }

    /// Whether lines are wrapped in reset sequences.
    pub closed spec fn is_fancy(&self) -> bool {
        self.fancy
    }

    /// The rendered title bar.
    pub closed spec fn top(&self) -> Seq<char> {
        self.titlebar.text()
    }

    /// The status bar.
    pub closed spec fn bottom(&self) -> Seq<char> {
        self.statusbar@
    }

    /// Initializes a window `width` characters wide inside.
    pub fn new(width: usize, borderless: bool, spaced: bool, fancy: bool) -> (r: Self)
        requires
            width + 2 <= usize::MAX,
        ensures
            r.inner_width() == width,
            r.is_borderless() == borderless,
            r.is_spaced() == spaced,
            r.is_fancy() == fancy,
            r.top() == super::titlebar::blank(width as nat, borderless),
            r.bottom() == status(width as nat, borderless),
    {
        let statusbar = if borderless {
            String::new()
        } else {
            let mut v: Vec<char> = vec!['└'];
            push_repeat(&mut v, '─', width + 2);
            v.push('┘');
            assert(v@ =~= border('└', width as nat, '┘'));
            string_from(v.as_slice())
        };
        Self {
            spaced,
            statusbar,
            borderless,
            width,
            fancy,
            titlebar: TitleBar::new(width, borderless),
        }
    }

    /// Renders the window around `content`, one element per line, and
    /// returns it with its height, without drawing it.
    pub fn render(&self, content: Vec<String>) -> (r: Result<(String, u16), Error>)
        requires
            content.len() <= 65533 || content.len() > 65535,
        ensures
            content.len() > 65535 ==> (r matches Err(e) && e is Conversion),
            content.len() <= 65535 ==> (r matches Ok(out) && out.1 == content.len() + 2 && out.0@
                == self.top() + seq!['\r', '\n'] + frame_lines(
                views(content@),
                self.is_borderless(),
                self.inner_width(),
                self.is_spaced(),
                self.is_fancy(),
                seq!['\r', '\n'],
            ) + self.bottom()),
    {
        let newline = "\r\n";
        proof {
            reveal_strlit("\r\n");
        }
        let len: u16 = match u16::try_from(content.len()) {
            Ok(n) => n,
            Err(e) => return Err(Error::Conversion(e)),
        };
        let mut out: Vec<char> = Vec::new();
        push_str(&mut out, self.titlebar.rendered());
        push_str(&mut out, newline);
        push_frame_lines(
            &mut out,
            &content,
            self.borderless,
            self.width,
            self.spaced,
            self.fancy,
            newline,
        );
        push_str(&mut out, self.statusbar.as_str());
        assert(newline@ == seq!['\r', '\n']);
        assert(out@ =~= self.top() + seq!['\r', '\n'] + frame_lines(
            views(content@),
            self.is_borderless(),
            self.inner_width(),
            self.is_spaced(),
            self.is_fancy(),
            seq!['\r', '\n'],
        ) + self.bottom());
        Ok((string_from(out.as_slice()), len + 2))
    }
}

} // verus!
