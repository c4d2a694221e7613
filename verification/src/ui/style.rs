//! The ANSI sequences that style text in the interface, as `crossterm`
//! writes them.
use vstd::prelude::*;

use crossterm::Command;

verus! {

/// `ESC [ 1 m`: the Select Graphic Rendition sequence that turns on bold.
pub open spec fn bold_code() -> Seq<char> {
    seq!['\x1b', '[', '1', 'm']
}

/// `ESC [ 0 m`: the Select Graphic Rendition sequence that resets every
/// attribute and colour.
pub open spec fn reset_code() -> Seq<char> {
    seq!['\x1b', '[', '0', 'm']
}

/// `Command::write_ansi` of `SetAttribute(Attribute::Bold)` into a new
/// string. Claimed, as its source writes it: `ESC [`, the attribute's SGR
/// number `1`, then `m`.
#[verifier::external_body]
pub(crate) fn set_bold_code() -> (r: String)
    ensures
        r@ == bold_code(),
{
    let mut s = String::new();
    let _ = crossterm::style::SetAttribute(crossterm::style::Attribute::Bold).write_ansi(&mut s);
    s
}

/// `Command::write_ansi` of `SetAttribute(Attribute::Reset)` into a new
/// string. Claimed, as its source writes it: `ESC [`, the attribute's SGR
/// number `0`, then `m`.
#[verifier::external_body]
pub(crate) fn set_reset_code() -> (r: String)
    ensures
        r@ == reset_code(),
{
    let mut s = String::new();
    let _ = crossterm::style::SetAttribute(crossterm::style::Attribute::Reset).write_ansi(&mut s);
    s
}

/// `Command::write_ansi` of `ResetColor` into a new string. Claimed, as its
/// source writes it: `ESC [ 0 m`.
#[verifier::external_body]
pub(crate) fn reset_color_code() -> (r: String)
    ensures
        r@ == reset_code(),
{
    let mut s = String::new();
    let _ = crossterm::style::ResetColor.write_ansi(&mut s);
    s
}

/// What `crossterm` prints for text styled bold, on a terminal that takes
/// ANSI sequences: the bold sequence, the text, then a reset.
pub open spec fn bold_text(s: Seq<char>) -> Seq<char> {
    bold_code() + s + reset_code()
}

/// What `crossterm` prints for text styled with the reset attribute, on a
/// terminal that takes ANSI sequences: a reset, the text, then a reset.
pub open spec fn reset_text(s: Seq<char>) -> Seq<char> {
    reset_code() + s + reset_code()
}

/// Whether `s` holds no escape character, so that no styling sequence
/// begins in it.
pub open spec fn plain(s: Seq<char>) -> bool {
    forall|i: int| 0 <= i < s.len() ==> s[i] != '\x1b'
}

/// `s` without its bold and reset sequences: the text that a terminal
/// shows of it.
pub open spec fn unstyled(s: Seq<char>) -> Seq<char>
    decreases s.len(),
{
    if s.len() >= 4 && (s.subrange(0, 4) == bold_code() || s.subrange(0, 4) == reset_code()) {
        unstyled(s.subrange(4, s.len() as int))
    } else if s.len() == 0 {
        Seq::empty()
    } else {
        seq![s[0]] + unstyled(s.drop_first())
    }
}

/// Lemma: plain text before the rest is shown as it is.
pub proof fn lemma_unstyled_plain(x: Seq<char>, rest: Seq<char>)
    requires
        plain(x),
    ensures
        unstyled(x + rest) == x + unstyled(rest),
    decreases x.len(),
{
    if x.len() == 0 {
        assert(x + rest =~= rest);
        assert(x + unstyled(rest) =~= unstyled(rest));
    } else {
        let s = x + rest;
        assert(s[0] == x[0]);
        if s.len() >= 4 {
            assert(s.subrange(0, 4)[0] == x[0]);
        }
        assert(plain(x.drop_first()));
        lemma_unstyled_plain(x.drop_first(), rest);
        assert(s.drop_first() =~= x.drop_first() + rest);
        assert(seq![x[0]] + (x.drop_first() + unstyled(rest)) =~= x + unstyled(rest));
    }
}

/// Lemma: text styled bold, before the rest, is shown as the text.
pub proof fn lemma_unstyled_bold(x: Seq<char>, rest: Seq<char>)
    requires
        plain(x),
    ensures
        unstyled(bold_text(x) + rest) == x + unstyled(rest),
{
    let s = bold_text(x) + rest;
    assert(s.subrange(0, 4) =~= bold_code());
    assert(s.subrange(4, s.len() as int) =~= x + (reset_code() + rest));
    lemma_unstyled_plain(x, reset_code() + rest);
    let t = reset_code() + rest;
    assert(t.subrange(0, 4) =~= reset_code());
    assert(t.subrange(4, t.len() as int) =~= rest);
}

} // verus!
