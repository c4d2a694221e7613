//! The window that frames the interface: a border around each line of
//! content, with prerendered top and bottom borders.
use vstd::prelude::*;

use super::Error;
use super::style::{reset_color_code, reset_text, set_reset_code};
use crate::text::{
    grapheme_count, push_repeat, push_str, repeat, spec_graphemes,
    string_from,
};

verus! {

/// Text with the reset attribute, as `crossterm`'s `Stylize::reset` prints
/// it on a terminal that takes ANSI sequences.
pub(crate) fn reset_styled(s: &str) -> (r: String)
    ensures
        r@ == reset_text(s@),
{
    let mut out = set_reset_code();
    out.append(s);
    let reset = reset_color_code();
    out.append(reset.as_str());
    out
}

/// The padding at each end of a line: a vertical border, or a space when
/// borderless.
pub open spec fn padding(borderless: bool) -> Seq<char> {
    if borderless {
        seq![' ']
    } else {
        seq!['│']
    }
}

/// The number of spaces that pad a line with `w` grapheme clusters to a
/// window `width` wide (`usize::saturating_sub`), when spacing is on.
pub open spec fn fill(w: nat, width: nat, space: bool) -> nat {
    if space && w < width {
        (width - w) as nat
    } else {
        0
    }
}

/// One framed line of content.
pub open spec fn frame_line(
    x: Seq<char>,
    borderless: bool,
    width: nat,
    space: bool,
    styled: bool,
    linefeed: Seq<char>,
) -> Seq<char> {
    let center = if styled {
        reset_text(x)
    } else {
        x
    };
    padding(borderless) + seq![' '] + center + repeat(
        ' ',
        fill(spec_graphemes(x).len(), width, space),
    ) + seq![' '] + padding(borderless) + linefeed
}

/// All lines of content, framed one after another.
pub open spec fn frame_lines(
    xs: Seq<Seq<char>>,
    borderless: bool,
    width: nat,
    space: bool,
    styled: bool,
    linefeed: Seq<char>,
) -> Seq<char>
    decreases xs.len(),
{
    if xs.len() == 0 {
        Seq::empty()
    } else {
        frame_lines(xs.drop_last(), borderless, width, space, styled, linefeed) + frame_line(
            xs.last(),
            borderless,
            width,
            space,
            styled,
            linefeed,
        )
    }
}

/// A horizontal border `width + 2` long between two corners.
pub open spec fn border(left: char, width: nat, right: char) -> Seq<char> {
    seq![left] + repeat('─', width + 2) + seq![right]
}

/// Appends the framed lines of `content` to `out`.
pub(crate) fn push_frame_lines(
    out: &mut Vec<char>,
    content: &Vec<String>,
    borderless: bool,
    width: usize,
    space: bool,
    styled: bool,
    linefeed: &str,
)
    ensures
        final(out)@ == old(out)@ + frame_lines(
            crate::text::views(content@),
            borderless,
            width as nat,
            space,
            styled,
            linefeed@,
        ),
{
    let ghost start = out@;
    let ghost xs = crate::text::views(content@);
    let pad = if borderless {
        ' '
    } else {
        '│'
    };
    let mut i: usize = 0;
    while i < content.len()
        invariant
            i <= content.len(),
            xs == crate::text::views(content@),
            pad == padding(borderless)[0],
            padding(borderless) == seq![pad],
            out@ == start + frame_lines(
                xs.subrange(0, i as int),
                borderless,
                width as nat,
                space,
                styled,
                linefeed@,
            ),
        decreases content.len() - i,
    {
        let x = content[i].as_str();
        push_frame_line(out, x, pad, borderless, width, space, styled, linefeed);
        let ghost ys = xs.subrange(0, i + 1);
        assert(ys.drop_last() =~= xs.subrange(0, i as int));
        assert(ys.last() == x@);
        i = i + 1;
    }
    assert(xs.subrange(0, content.len() as int) =~= xs);
}

/// Appends the framed line of `x` to `out`.
fn push_frame_line(
    out: &mut Vec<char>,
    x: &str,
    pad: char,
    borderless: bool,
    width: usize,
    space: bool,
    styled: bool,
    linefeed: &str,
)
    requires
        padding(borderless) == seq![pad],
    ensures
        final(out)@ == old(out)@ + frame_line(x@, borderless, width as nat, space, styled, linefeed@),
{
    let w = grapheme_count(x);
    let n = if space && w < width {
        width - w
    } else {
        0
    };
    out.push(pad);
    out.push(' ');
    if styled {
        let center = reset_styled(x);
        push_str(out, center.as_str());
    } else {
        push_str(out, x);
    }
    push_repeat(out, ' ', n);
    out.push(' ');
    out.push(pad);
    push_str(out, linefeed);
    assert(out@ =~= old(out)@ + frame_line(x@, borderless, width as nat, space, styled, linefeed@));
}

/// The window around the interface.
pub struct Window {
    /// Whether the window is drawn without borders.
    borderless: bool,
    /// The top and bottom borders, empty when borderless.
    pub borders: [String; 2],
    /// The inner width of the window.
    width: usize,
}

impl Window {
    /// Whether the window is drawn without borders.
    pub closed spec fn is_borderless(&self) -> bool {
        self.borderless
    }

    /// The inner width of the window.
    pub closed spec fn inner_width(&self) -> nat {
        self.width as nat
    }

    /// The top border.
    pub closed spec fn top(&self) -> Seq<char> {
        self.borders@[0]@
    }

    /// The bottom border.
    pub closed spec fn bottom(&self) -> Seq<char> {
        self.borders@[1]@
    }

    /// Initializes a window `width` characters wide inside, with or without
    /// borders.
    pub fn new(width: usize, borderless: bool) -> (r: Self)
        requires
            width + 2 <= usize::MAX,
        ensures
            r.is_borderless() == borderless,
            r.inner_width() == width,
            borderless ==> r.top().len() == 0 && r.bottom().len() == 0,
            !borderless ==> r.top() == border('┌', width as nat, '┐') && r.bottom()
                == border('└', width as nat, '┘'),
    {
        let borders = if borderless {
            [String::new(), String::new()]
        } else {
            let mut top: Vec<char> = vec!['┌'];
            push_repeat(&mut top, '─', width + 2);
            top.push('┐');
            let mut bottom: Vec<char> = vec!['└'];
            push_repeat(&mut bottom, '─', width + 2);
            bottom.push('┘');
            assert(top@ =~= border('┌', width as nat, '┐'));
            assert(bottom@ =~= border('└', width as nat, '┘'));
            [string_from(top.as_slice()), string_from(bottom.as_slice())]
        };
        Window { borders, borderless, width }
    }

    /// Shows `display`, whose width is `len`, in the top border.
    pub fn display(&mut self, display: &str, len: usize)
        requires
            len + 2 <= old(self).inner_width(),
        ensures
            final(self).is_borderless() == old(self).is_borderless(),
            final(self).inner_width() == old(self).inner_width(),
            final(self).bottom() == old(self).bottom(),
            final(self).top() == seq!['┌', '─', ' '] + display@ + seq![' '] + repeat(
                '─',
                (old(self).inner_width() - len - 2) as nat,
            ) + seq!['─', '┐'],
    {
        let mut top: Vec<char> = vec!['┌', '─', ' '];
        push_str(&mut top, display);
        top.push(' ');
        push_repeat(&mut top, '─', self.width - len - 2);
        top.push('─');
        top.push('┐');
        let bottom = self.borders[1].clone();
        self.borders = [string_from(top.as_slice()), bottom];
    }

    /// Renders the window around `content`, one element per line, without
    /// drawing it: the top border, the framed lines, the bottom border.
    /// Lines are padded to the window's width when `space` is set; outside
    /// of `testing`, each line is wrapped in reset sequences and lines end
    /// with a carriage return. Also returns the height of the result.
    pub fn render(&self, content: Vec<String>, space: bool, testing: bool) -> (r: Result<
        (String, u16),
        Error,
    >)
        requires
            content.len() <= 65533 || content.len() > 65535,
        ensures
            content.len() > 65535 ==> (r matches Err(e) && e is Conversion),
            content.len() <= 65535 ==> (r matches Ok(out) && out.1 == content.len() + 2 && out.0@
                == self.top() + linefeed(testing) + frame_lines(
                crate::text::views(content@),
                self.is_borderless(),
                self.inner_width(),
                space,
                !testing,
                linefeed(testing),
            ) + self.bottom()),
    {
        let lf = if testing {
            "\n"
        } else {
            "\r\n"
        };
        proof {
            reveal_strlit("\n");
            reveal_strlit("\r\n");
        }
        let len: u16 = match u16::try_from(content.len()) {
            Ok(n) => n,
            Err(e) => return Err(Error::Conversion(e)),
        };
        let mut out: Vec<char> = Vec::new();
        push_str(&mut out, self.borders[0].as_str());
        push_str(&mut out, lf);
        push_frame_lines(&mut out, &content, self.borderless, self.width, space, !testing, lf);
        push_str(&mut out, self.borders[1].as_str());
        assert(lf@ == linefeed(testing));
        assert(len == content.len());
        assert(out@ =~= self.top() + linefeed(testing) + frame_lines(
            crate::text::views(content@),
            self.is_borderless(),
            self.inner_width(),
            space,
            !testing,
            linefeed(testing),
        ) + self.bottom());
        Ok((string_from(out.as_slice()), len + 2))
    }
}

/// The line feed of rendered output: a bare newline in tests, a carriage
/// return and newline on a terminal in raw mode.
pub open spec fn linefeed(testing: bool) -> Seq<char> {
    if testing {
        seq!['\n']
    } else {
        seq!['\r', '\n']
    }
}

} // verus!
