//! The individual components of the interface, like the progress bar.
use vstd::prelude::*;

use crate::text::{
    concat, decimal, grapheme_count, graphemes, push_padded, push_repeat, push_str,
    repeat, spec_graphemes, string_from, views, zero_pad,
};
use crate::player::Current;
use crate::ui::style::{
    bold_text, lemma_unstyled_bold, lemma_unstyled_plain, plain, reset_color_code, set_bold_code,
    unstyled,
};
use crate::tracks::{same_info, Info};
use crate::text::{lemma_decimal_ascii, lemma_decimal_short};
use vstd::utf8::{is_ascii_chars, is_ascii_chars_encode_utf8};

verus! {

/// Text styled bold, as `crossterm`'s `Stylize::bold` prints it on a
/// terminal that takes ANSI sequences.
pub(crate) fn bold(s: &str) -> (r: String)
    ensures
        r@ == bold_text(s@),
{
    let mut out = set_bold_code();
    out.append(s);
    let reset = reset_color_code();
    out.append(reset.as_str());
    out
}

/// `mm:ss` for a duration of `secs` seconds; minutes are not wrapped into
/// hours.
pub open spec fn duration_text(secs: nat) -> Seq<char> {
    zero_pad(decimal(secs / 60), 2) + seq![':'] + zero_pad(decimal(secs % 60), 2)
}

/// Formats a duration given in whole seconds as `mm:ss`.
pub fn format_duration(secs: u64) -> (r: String)
    ensures
        r@ == duration_text(secs as nat),
{
    let mut out: Vec<char> = Vec::new();
    push_padded(&mut out, secs / 60, 2);
    out.push(':');
    push_padded(&mut out, secs % 60, 2);
    assert(out@ =~= duration_text(secs as nat));
    string_from(out.as_slice())
}

/// `a - b`, or 0 when `b` exceeds `a` (`usize::saturating_sub`).
pub open spec fn sat_sub(a: nat, b: nat) -> nat {
    if b <= a {
        (a - b) as nat
    } else {
        0
    }
}

/// A bar `width` wide with its first `filled` places filled.
pub open spec fn bar(filled: nat, width: nat) -> Seq<char> {
    seq!['['] + repeat('/', filled) + repeat(' ', sat_sub(width, filled)) + seq![']']
}

/// The progress bar: the bar, then the elapsed time and the duration.
pub open spec fn progress_text(elapsed: nat, duration: nat, filled: nat, width: nat) -> Seq<char> {
    seq![' '] + bar(filled, width) + seq![' '] + duration_text(elapsed) + seq!['/']
        + duration_text(duration) + seq![' ']
}

/// Creates the progress bar with all of its padding, given the seconds
/// played, the track's duration in seconds, and how many of the bar's
/// `width` places are filled.
pub fn progress_bar(elapsed: u64, duration: u64, filled: usize, width: usize) -> (r: String)
    ensures
        r@ == progress_text(elapsed as nat, duration as nat, filled as nat, width as nat),
{
    let mut out: Vec<char> = vec![' ', '['];
    push_bar_body(&mut out, filled, width);
    out.push(' ');
    let e = format_duration(elapsed);
    push_str(&mut out, e.as_str());
    out.push('/');
    let d = format_duration(duration);
    push_str(&mut out, d.as_str());
    out.push(' ');
    assert(out@ =~= progress_text(elapsed as nat, duration as nat, filled as nat, width as nat));
    string_from(out.as_slice())
}

/// Appends the filled and empty places of a bar and its closing bracket.
fn push_bar_body(out: &mut Vec<char>, filled: usize, width: usize)
    ensures
        final(out)@ == old(out)@ + repeat('/', filled as nat) + repeat(
            ' ',
            sat_sub(width as nat, filled as nat),
        ) + seq![']'],
{
    push_repeat(out, '/', filled);
    let empty = if filled <= width {
        width - filled
    } else {
        0
    };
    push_repeat(out, ' ', empty);
    out.push(']');
    assert(out@ =~= old(out)@ + repeat('/', filled as nat) + repeat(
        ' ',
        sat_sub(width as nat, filled as nat),
    ) + seq![']']);
}

/// The volume bar: the bar, then the percentage right-aligned in four
/// places (its length counted in bytes).
pub open spec fn audio_text(filled: nat, percentage: Seq<char>, bytes: nat, width: nat) -> Seq<
    char,
> {
    seq![' ', 'v', 'o', 'l', 'u', 'm', 'e', ':', ' '] + bar(filled, width) + seq![' '] + repeat(
        ' ',
        sat_sub(4, bytes),
    ) + percentage + seq![' ']
}

/// Creates the volume bar with all of its padding, given how many of the
/// bar's `width` places are filled and the percentage to show.
pub fn audio_bar(filled: usize, percentage: &str, width: usize) -> (r: String)
    ensures
        r@ == audio_text(filled as nat, percentage@, percentage.len() as nat, width as nat),
{
    let mut out: Vec<char> = vec![' ', 'v', 'o', 'l', 'u', 'm', 'e', ':', ' ', '['];
    push_bar_body(&mut out, filled, width);
    out.push(' ');
    let bytes = percentage.len();
    let pad = if bytes <= 4 {
        4 - bytes
    } else {
        0
    };
    push_repeat(&mut out, ' ', pad);
    push_str(&mut out, percentage);
    out.push(' ');
    assert(out@ =~= audio_text(filled as nat, percentage@, bytes as nat, width as nat));
    string_from(out.as_slice())
}

/// The width taken by the control labels without their spacing.
pub open spec fn controls_len() -> nat {
    19
}

/// The bottom control bar: the three controls, spaced to fill `width`.
pub open spec fn controls_text(width: nat) -> Seq<char> {
    let sp = repeat(' ', ((width - controls_len()) / 2) as nat);
    bold_text(seq!['[', 's', ']']) + seq!['k', 'i', 'p'] + sp + bold_text(seq!['[', 'p', ']'])
        + seq!['a', 'u', 's', 'e'] + sp + bold_text(seq!['[', 'q', ']']) + seq!['u', 'i', 't'] + (
    if width % 2 == 0 {
        seq![' ']
    } else {
        Seq::empty()
    })
}

/// The text that the control bar shows: the controls without their bold
/// styling.
pub open spec fn controls_shown(width: nat) -> Seq<char> {
    let sp = repeat(' ', ((width - controls_len()) / 2) as nat);
    seq!['[', 's', ']', 'k', 'i', 'p'] + sp + seq!['[', 'p', ']', 'a', 'u', 's', 'e'] + sp + seq![
        '[',
        'q',
        ']',
        'u',
        'i',
        't',
    ] + (if width % 2 == 0 {
        seq![' ']
    } else {
        Seq::empty()
    })
}

/// The control bar shows the three controls, spaced so that what the
/// terminal shows is exactly `width` characters wide.
pub proof fn law_controls_fill_width(width: nat)
    requires
        width >= controls_len(),
    ensures
        unstyled(controls_text(width)) == controls_shown(width),
        controls_shown(width).len() == width,
{
    let sp = repeat(' ', ((width - controls_len()) / 2) as nat);
    let tail = if width % 2 == 0 {
        seq![' ']
    } else {
        Seq::<char>::empty()
    };
    let s = seq!['[', 's', ']'];
    let p = seq!['[', 'p', ']'];
    let q = seq!['[', 'q', ']'];
    let p1 = seq!['k', 'i', 'p'] + sp;
    let p2 = seq!['a', 'u', 's', 'e'] + sp;
    let p3 = seq!['u', 'i', 't'] + tail;
    assert(plain(s) && plain(p) && plain(q));
    assert(plain(p1)) by {
        assert forall|i: int| 0 <= i < p1.len() implies p1[i] != '\x1b' by {
            if i >= 3 {
                assert(p1[i] == sp[i - 3]);
            }
        }
    }
    assert(plain(p2)) by {
        assert forall|i: int| 0 <= i < p2.len() implies p2[i] != '\x1b' by {
            if i >= 4 {
                assert(p2[i] == sp[i - 4]);
            }
        }
    }
    assert(plain(p3));
    let r5 = bold_text(q) + p3;
    let r4 = p2 + r5;
    let r3 = bold_text(p) + r4;
    let r2 = p1 + r3;
    let whole = bold_text(s) + r2;
    assert(controls_text(width) =~= whole);
    assert(p3 + Seq::<char>::empty() =~= p3);
    lemma_unstyled_plain(p3, Seq::empty());
    assert(unstyled(Seq::<char>::empty()) == Seq::<char>::empty());
    lemma_unstyled_bold(q, p3);
    lemma_unstyled_plain(p2, r5);
    lemma_unstyled_bold(p, r4);
    lemma_unstyled_plain(p1, r3);
    lemma_unstyled_bold(s, r2);
    assert(unstyled(whole) =~= s + (p1 + (p + (p2 + (q + p3)))));
    assert(controls_shown(width) =~= s + (p1 + (p + (p2 + (q + p3)))));
}

/// Creates the bottom control bar, spaced to fill `width`.
pub fn controls(width: usize) -> (r: String)
    requires
        width >= controls_len(),
    ensures
        r@ == controls_text(width as nat),
{
    let gap = (width - 19) / 2;
    let mut out: Vec<char> = Vec::new();
    let s = bold("[s]");
    let p = bold("[p]");
    let q = bold("[q]");
    proof {
        reveal_strlit("[s]");
        reveal_strlit("[p]");
        reveal_strlit("[q]");
        assert("[s]"@ =~= seq!['[', 's', ']']);
        assert("[p]"@ =~= seq!['[', 'p', ']']);
        assert("[q]"@ =~= seq!['[', 'q', ']']);
    }
    push_str(&mut out, s.as_str());
    out.push('k');
    out.push('i');
    out.push('p');
    push_repeat(&mut out, ' ', gap);
    push_str(&mut out, p.as_str());
    out.push('a');
    out.push('u');
    out.push('s');
    out.push('e');
    push_repeat(&mut out, ' ', gap);
    push_str(&mut out, q.as_str());
    out.push('u');
    out.push('i');
    out.push('t');
    if width % 2 == 0 {
        out.push(' ');
    }
    assert(out@ =~= controls_text(width as nat));
    string_from(out.as_slice())
}

/// The state shown in the main, top bar of the interface.
pub enum ActionBar {
    /// The player is paused.
    Paused(Info),
    /// The player is playing.
    Playing(Info),
    /// The player is loading; the download progress in percent, when a
    /// download is under way.
    Loading(Option<u8>),
    /// The player is muted.
    Muted,
}

/// `text` padded with spaces to `width`, given that its visible length is
/// `visible`.
pub open spec fn padded(text: Seq<char>, visible: nat, width: nat) -> Seq<char> {
    if visible < width {
        text + repeat(' ', (width - visible) as nat)
    } else {
        text
    }
}

/// A simple status message: the prefix, a space, and the content in bold,
/// padded to `width`; lengths are counted in bytes.
pub open spec fn simple_text(
    prefix: Seq<char>,
    prefix_bytes: nat,
    content: Seq<char>,
    content_bytes: nat,
    width: nat,
) -> Seq<char> {
    padded(prefix + seq![' '] + bold_text(content), prefix_bytes + 1 + content_bytes, width)
}

/// The first `n` grapheme clusters of `s`, or all of them if it has fewer.
pub open spec fn take_graphemes(s: Seq<char>, n: nat) -> Seq<char> {
    let gs = spec_graphemes(s);
    if n <= gs.len() {
        concat(gs.subrange(0, n as int))
    } else {
        s
    }
}

/// `text` cut to fit `max` places with "..." at its end.
pub open spec fn ellipsis_text(text: Seq<char>, max: nat) -> Seq<char> {
    if max <= 3 {
        seq!['.', '.', '.']
    } else {
        take_graphemes(text, (max - 3) as nat) + seq!['.', '.', '.']
    }
}

/// `text` cut to fit `max` places, padded with spaces, and ending in "...".
pub open spec fn ellipsis_padded_text(text: Seq<char>, max: nat) -> Seq<char> {
    if max <= 3 {
        seq!['.', '.', '.']
    } else {
        let t = take_graphemes(text, (max - 3) as nat);
        t + repeat(' ', sat_sub((max - 3) as nat, spec_graphemes(t).len())) + seq!['.', '.', '.']
    }
}

/// The display name in bold, cut short when it is wider than `available`;
/// with the width it takes.
pub open spec fn display_name_text(display: Seq<char>, width: nat, available: nat) -> (
    Seq<char>,
    nat,
) {
    if width <= available {
        (bold_text(display), width)
    } else {
        (bold_text(ellipsis_padded_text(display, available)), available)
    }
}

/// The status word of a track bar.
pub open spec fn status_prefix(is_playing: bool, star: bool) -> Seq<char> {
    (if is_playing {
        seq!['p', 'l', 'a', 'y', 'i', 'n', 'g']
    } else {
        seq!['p', 'a', 'u', 's', 'e', 'd']
    }) + seq![' '] + (if star {
        seq!['*']
    } else {
        Seq::empty()
    })
}

/// The bar of a playing or paused track.
pub open spec fn track_text(
    is_playing: bool,
    display: Seq<char>,
    display_width: nat,
    star: bool,
    width: nat,
) -> Seq<char> {
    let prefix = status_prefix(is_playing, star);
    let prefix_len = spec_graphemes(prefix).len();
    let available = sat_sub(width, prefix_len);
    let (name, len) = display_name_text(display, display_width, available);
    padded(prefix + name, prefix_len + len, width)
}

/// The loading percentage, at most 99, left-aligned in two places, then `%`.
pub open spec fn percent_text(progress: nat) -> Seq<char> {
    let p = if progress < 99 {
        progress
    } else {
        99
    };
    let d = decimal(p);
    (if d.len() < 2 {
        d + seq![' ']
    } else {
        d
    }) + seq!['%']
}

impl ActionBar {
    /// The text of the bar `width` wide; `star` marks a bookmarked track.
    pub open spec fn text(&self, star: bool, width: nat) -> Seq<char> {
        match self {
            ActionBar::Playing(info) => track_text(true, info.display@, info.width as nat, star, width),
            ActionBar::Paused(info) => track_text(false, info.display@, info.width as nat, star, width),
            ActionBar::Loading(None) => padded(seq!['l', 'o', 'a', 'd', 'i', 'n', 'g'], 7, width),
            ActionBar::Loading(Some(p)) => simple_text(
                seq!['l', 'o', 'a', 'd', 'i', 'n', 'g'],
                7,
                percent_text(*p as nat),
                percent_text(*p as nat).len(),
                width,
            ),
            ActionBar::Muted => simple_text(
                seq!['m', 'u', 't', 'e', 'd', ','],
                6,
                seq![
                    '+',
                    ' ',
                    't',
                    'o',
                    ' ',
                    'i',
                    'n',
                    'c',
                    'r',
                    'e',
                    'a',
                    's',
                    'e',
                    ' ',
                    'v',
                    'o',
                    'l',
                    'u',
                    'm',
                    'e',
                ],
                20,
                width,
            ),
        }
    }

    /// Formats the bar `width` wide; `star` marks a bookmarked track.
    pub fn format(&self, star: bool, width: usize) -> (r: String)
        ensures
            r@ == self.text(star, width as nat),
    {
        match self {
            ActionBar::Playing(info) => Self::format_track_info(true, info, star, width),
            ActionBar::Paused(info) => Self::format_track_info(false, info, star, width),
            ActionBar::Loading(None) => {
                let loading = string_from(vec!['l', 'o', 'a', 'd', 'i', 'n', 'g'].as_slice());
                Self::pad_to_width(loading, 7, width)
            },
            ActionBar::Loading(Some(progress)) => {
                let p = if *progress < 99 {
                    *progress
                } else {
                    99
                };
                let mut v: Vec<char> = Vec::new();
                crate::text::push_decimal(&mut v, p as u64);
                proof {
                    crate::text::lemma_decimal_nonempty(p as nat);
                    lemma_decimal_short(p as nat);
                }
                if v.len() < 2 {
                    v.push(' ');
                }
                v.push('%');
                assert(v@ =~= percent_text(*progress as nat));
                let s = string_from(v.as_slice());
                proof {
                    reveal_strlit("loading");
                    lemma_decimal_ascii(p as nat);
                    assert(is_ascii_chars(s@));
                    is_ascii_chars_encode_utf8(s@);
                    assert(is_ascii_chars("loading"@));
                    is_ascii_chars_encode_utf8("loading"@);
                }
                Self::format_simple("loading", s.as_str(), width)
            },
            ActionBar::Muted => {
                proof {
                    reveal_strlit("muted,");
                    reveal_strlit("+ to increase volume");
                    assert(is_ascii_chars("muted,"@));
                    is_ascii_chars_encode_utf8("muted,"@);
                    assert(is_ascii_chars("+ to increase volume"@));
                    is_ascii_chars_encode_utf8("+ to increase volume"@);
                    assert("+ to increase volume"@ =~= seq![
                        '+', ' ', 't', 'o', ' ', 'i', 'n', 'c', 'r', 'e', 'a', 's', 'e', ' ', 'v',
                        'o', 'l', 'u', 'm', 'e',
                    ]);
                    assert("muted,"@ =~= seq!['m', 'u', 't', 'e', 'd', ',']);
                }
                Self::format_simple("muted,", "+ to increase volume", width)
            },
        }
    }

    /// Formats a simple status message padded to `width`.
    pub fn format_simple(prefix: &str, content: &str, width: usize) -> (r: String)
        ensures
            r@ == simple_text(
                prefix@,
                prefix.len() as nat,
                content@,
                content.len() as nat,
                width as nat,
            ),
    {
        let mut v: Vec<char> = Vec::new();
        push_str(&mut v, prefix);
        v.push(' ');
        let b = bold(content);
        push_str(&mut v, b.as_str());
        let visible = prefix.len() as u128 + 1 + content.len() as u128;
        if visible < width as u128 {
            push_repeat(&mut v, ' ', (width as u128 - visible) as usize);
        }
        assert(v@ =~= simple_text(
            prefix@,
            prefix.len() as nat,
            content@,
            content.len() as nat,
            width as nat,
        ));
        string_from(v.as_slice())
    }

    /// Formats the bar of a playing or paused track, padded to `width`.
    pub fn format_track_info(is_playing: bool, info: &Info, star: bool, width: usize) -> (r:
        String)
        ensures
            r@ == track_text(is_playing, info.display@, info.width as nat, star, width as nat),
    {
        let mut prefix: Vec<char> = if is_playing {
            vec!['p', 'l', 'a', 'y', 'i', 'n', 'g', ' ']
        } else {
            vec!['p', 'a', 'u', 's', 'e', 'd', ' ']
        };
        if star {
            prefix.push('*');
        }
        assert(prefix@ =~= status_prefix(is_playing, star));
        let prefix_str = string_from(prefix.as_slice());
        let prefix_len = grapheme_count(prefix_str.as_str());
        let available = if prefix_len <= width {
            width - prefix_len
        } else {
            0
        };
        let mut result = prefix.clone();
        assert(result@ == prefix@);
        let content_len = Self::format_display_name(
            &mut result,
            info.display.as_str(),
            info.width,
            available,
        );
        let visible = prefix_len as u128 + content_len as u128;
        if visible < width as u128 {
            push_repeat(&mut result, ' ', (width as u128 - visible) as usize);
        }
        assert(result@ =~= track_text(
            is_playing,
            info.display@,
            info.width as nat,
            star,
            width as nat,
        ));
        string_from(result.as_slice())
    }

    /// Appends the display name in bold to `result`, cut short with "..."
    /// when it is wider than `available`; returns the width it takes.
    pub fn format_display_name(
        result: &mut Vec<char>,
        display_name: &str,
        width: usize,
        available: usize,
    ) -> (r: usize)
        ensures
            final(result)@ == old(result)@ + display_name_text(
                display_name@,
                width as nat,
                available as nat,
            ).0,
            r == display_name_text(display_name@, width as nat, available as nat).1,
    {
        if width <= available {
            let b = bold(display_name);
            push_str(result, b.as_str());
            width
        } else {
            let truncated = Self::truncate_with_ellipsis_padded(display_name, available);
            let b = bold(truncated.as_str());
            push_str(result, b.as_str());
            available
        }
    }

    /// The first `n` grapheme clusters of `text`, or all of it.
    fn take(text: &str, n: usize) -> (r: String)
        ensures
            r@ == take_graphemes(text@, n as nat),
    {
        let gs = graphemes(text);
        if n > gs.len() {
            return text.to_owned();
        }
        let mut out: Vec<char> = Vec::new();
        let mut i: usize = 0;
        while i < n
            invariant
                i <= n <= gs.len(),
                out@ == concat(views(gs@).subrange(0, i as int)),
            decreases n - i,
        {
            let ghost ys = views(gs@).subrange(0, i + 1);
            assert(ys.drop_last() =~= views(gs@).subrange(0, i as int));
            push_str(&mut out, gs[i].as_str());
            assert(out@ =~= concat(ys));
            i = i + 1;
        }
        string_from(out.as_slice())
    }

    /// `text` cut to fit `max_width` places with "..." at its end.
    pub fn truncate_with_ellipsis(text: &str, max_width: usize) -> (r: String)
        ensures
            r@ == ellipsis_text(text@, max_width as nat),
    {
        if max_width <= 3 {
            let r = "...".to_owned();
            proof {
                reveal_strlit("...");
            }
            return r;
        }
        let truncated = Self::take(text, max_width - 3);
        let mut v: Vec<char> = Vec::new();
        push_str(&mut v, truncated.as_str());
        v.push('.');
        v.push('.');
        v.push('.');
        assert(v@ =~= ellipsis_text(text@, max_width as nat));
        string_from(v.as_slice())
    }

    /// `text` cut to fit `max_width` places, padded with spaces, and ending
    /// in "...". The padding counts the clusters of the cut text anew, and
    /// is empty should that count exceed the room left.
    pub fn truncate_with_ellipsis_padded(text: &str, max_width: usize) -> (r: String)
        ensures
            r@ == ellipsis_padded_text(text@, max_width as nat),
    {
        if max_width <= 3 {
            let r = "...".to_owned();
            proof {
                reveal_strlit("...");
            }
            return r;
        }
        let truncate_len = max_width - 3;
        let truncated = Self::take(text, truncate_len);
        let truncated_len = grapheme_count(truncated.as_str());
        let padding_len = if truncated_len <= truncate_len {
            truncate_len - truncated_len
        } else {
            0
        };
        let mut v: Vec<char> = Vec::new();
        push_str(&mut v, truncated.as_str());
        push_repeat(&mut v, ' ', padding_len);
        v.push('.');
        v.push('.');
        v.push('.');
        assert(v@ =~= ellipsis_padded_text(text@, max_width as nat));
        string_from(v.as_slice())
    }

    /// Pads `text`, whose visible length is `visible_len`, with spaces to
    /// `width`.
    pub fn pad_to_width(text: String, visible_len: usize, width: usize) -> (r: String)
        ensures
            r@ == padded(text@, visible_len as nat, width as nat),
    {
        if visible_len < width {
            let mut v: Vec<char> = crate::text::chars_of(text.as_str());
            push_repeat(&mut v, ' ', width - visible_len);
            string_from(v.as_slice())
        } else {
            text
        }
    }
}

/// The action bar for the player's state: while a track loads, the loading
/// percentage when a download is under way; otherwise muted when the volume is off, else paused or
/// playing.
pub open spec fn action_is(a: ActionBar, current: Current, muted: bool, paused: bool, percent: u8) -> bool {
    match current {
        Current::Loading(None) => a == ActionBar::Loading(None),
        Current::Loading(Some(_)) => a == ActionBar::Loading(Some(percent)),
        Current::Track(info) => if muted {
            a is Muted
        } else if paused {
            a matches ActionBar::Paused(i) && same_info(i, info)
        } else {
            a matches ActionBar::Playing(i) && same_info(i, info)
        },
    }
}

/// The action bar for the player's state, given whether the volume is off,
/// whether playback is paused, and the download's percentage.
pub fn action(current: &Current, muted: bool, paused: bool, percent: u8) -> (r: ActionBar)
    ensures
        action_is(r, *current, muted, paused, percent),
{
    match current {
        Current::Loading(None) => ActionBar::Loading(None),
        Current::Loading(Some(_)) => ActionBar::Loading(Some(percent)),
        Current::Track(info) => if muted {
            ActionBar::Muted
        } else if paused {
            ActionBar::Paused(info.copy())
        } else {
            ActionBar::Playing(info.copy())
        },
    }
}

} // verus!
