//! The title bar: the top border of the window, which can carry a message.
use vstd::prelude::*;

use crate::text::{
    concat, grapheme_count, graphemes, push_repeat, push_str, repeat, spec_graphemes,
    string_from, views,
};
use crate::ui::window::border;

verus! {

/// The title bar, which is the entire top of the window.
pub struct TitleBar {
    /// The rendered title bar.
    pub content: String,
    /// The width of the title bar, the same as its window's.
    width: usize,
    /// Whether the title bar is drawn without borders.
    borderless: bool,
}

/// The title bar with no message.
pub open spec fn blank(width: nat, borderless: bool) -> Seq<char> {
    if borderless {
        Seq::empty()
    } else {
        border('┌', width, '┐')
    }
}

/// The message as shown in a title bar with `inner` columns: cut to
/// `inner - 3` grapheme clusters followed by "..." when it is wider.
pub open spec fn shown(d: Seq<char>, inner: nat) -> Seq<char> {
    let gs = spec_graphemes(d);
    if gs.len() > inner {
        concat(gs.subrange(0, inner - 3)) + seq!['.', '.', '.']
    } else {
        d
    }
}

/// The width of the message as shown.
pub open spec fn shown_len(d: Seq<char>, inner: nat) -> nat {
    let n = spec_graphemes(d).len();
    if n > inner {
        inner
    } else {
        n
    }
}

/// The title bar showing `d`.
pub open spec fn titled(d: Seq<char>, width: nat, borderless: bool) -> Seq<char> {
    let inner = (width - 2) as nat;
    let (prefix, middle, suffix) = if borderless {
        (seq![' ', ' '], ' ', seq![' ', ' '])
    } else {
        (seq!['┌', '─'], '─', seq!['─', '┐'])
    };
    prefix + seq![' '] + shown(d, inner) + seq![' '] + repeat(
        middle,
        (inner - shown_len(d, inner)) as nat,
    ) + suffix
}

/// Whether `d` can be shown in a title bar `width` wide: the bar has room
/// for its two corners, and for "..." when `d` has to be cut.
pub open spec fn fits(d: Seq<char>, width: nat) -> bool {
    width >= 2 && (spec_graphemes(d).len() > width - 2 ==> width >= 5)
}

impl TitleBar {
    /// The width of the title bar.
    pub closed spec fn bar_width(&self) -> nat {
        self.width as nat
    }

    /// Whether the title bar is borderless.
    pub closed spec fn is_borderless(&self) -> bool {
        self.borderless
    }

    /// The rendered title bar.
    pub closed spec fn text(&self) -> Seq<char> {
        self.content@
    }

    /// The rendered title bar.
    pub fn rendered(&self) -> (r: &str)
        ensures
            r@ == self.text(),
    {
        self.content.as_str()
    }

    /// A blank title bar.
    fn blank_content(width: usize, borderless: bool) -> (r: String)
        requires
            width + 2 <= usize::MAX,
        ensures
            r@ == blank(width as nat, borderless),
    {
        if borderless {
            String::new()
        } else {
            let mut v: Vec<char> = vec!['┌'];
            push_repeat(&mut v, '─', width + 2);
            v.push('┐');
            assert(v@ =~= border('┌', width as nat, '┐'));
            string_from(v.as_slice())
        }
    }

    /// Empties the title bar.
    pub fn empty(&mut self)
        requires
            old(self).bar_width() + 2 <= usize::MAX,
        ensures
            final(self).text() == blank(old(self).bar_width(), old(self).is_borderless()),
            final(self).bar_width() == old(self).bar_width(),
            final(self).is_borderless() == old(self).is_borderless(),
    {
        self.content = Self::blank_content(self.width, self.borderless);
    }

    /// Shows `display` in the title bar, cut short with "..." when it is
    /// wider than the bar.
    pub fn display(&mut self, display: &str)
        requires
            fits(display@, old(self).bar_width()),
        ensures
            final(self).text() == titled(
                display@,
                old(self).bar_width(),
                old(self).is_borderless(),
            ),
            final(self).bar_width() == old(self).bar_width(),
            final(self).is_borderless() == old(self).is_borderless(),
    {
        let gs = graphemes(display);
        let len = gs.len();
        let inner = self.width - 2;
        let mut out: Vec<char> = Vec::new();
        if self.borderless {
            out.push(' ');
            out.push(' ');
        } else {
            out.push('┌');
            out.push('─');
        }
        out.push(' ');
        let shown_width = if len > inner {
            let mut i: usize = 0;
            let ghost start = out@;
            while i < inner - 3
                invariant
                    i <= inner - 3,
                    inner - 3 <= gs.len(),
                    out@ == start + concat(views(gs@).subrange(0, i as int)),
                decreases inner - 3 - i,
            {
                let ghost ys = views(gs@).subrange(0, i + 1);
                assert(ys.drop_last() =~= views(gs@).subrange(0, i as int));
                push_str(&mut out, gs[i].as_str());
                assert(out@ =~= start + concat(ys));
                i = i + 1;
            }
            out.push('.');
            out.push('.');
            out.push('.');
            inner
        } else {
            push_str(&mut out, display);
            len
        };
        out.push(' ');
        let middle = if self.borderless {
            ' '
        } else {
            '─'
        };
        push_repeat(&mut out, middle, inner - shown_width);
        if self.borderless {
            out.push(' ');
            out.push(' ');
        } else {
            out.push('─');
            out.push('┐');
        }
        assert(out@ =~= titled(display@, self.width as nat, self.borderless));
        self.content = string_from(out.as_slice());
    }

    /// Shows `display` when it fits the bar (see [`fits`]) and returns
    /// whether it did; otherwise leaves the bar unchanged.
    pub fn display_checked(&mut self, display: &str) -> (r: bool)
        ensures
            r == fits(display@, old(self).bar_width()),
            r ==> final(self).text() == titled(
                display@,
                old(self).bar_width(),
                old(self).is_borderless(),
            ),
            !r ==> final(self).text() == old(self).text(),
            final(self).bar_width() == old(self).bar_width(),
            final(self).is_borderless() == old(self).is_borderless(),
    {
        let len = grapheme_count(display);
        if self.width < 2 || (len > self.width - 2 && self.width < 5) {
            return false;
        }
        self.display(display);
        true
    }

    /// A blank title bar `width` wide.
    pub fn new(width: usize, borderless: bool) -> (r: Self)
        requires
            width + 2 <= usize::MAX,
        ensures
            r.text() == blank(width as nat, borderless),
            r.bar_width() == width,
            r.is_borderless() == borderless,
    {
        Self { content: Self::blank_content(width, borderless), width, borderless }
    }
}

} // verus!
