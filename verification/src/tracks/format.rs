//! Turning a track's path into the name shown to the listener.
//!
//! The stem of the file name is URL-decoded, lower-cased with underscores
//! turned into spaces, stripped of a trailing "master" and of an id prefix
//! such as "a1 ", title-cased, and finally stripped of the numbers that most
//! lofi tracks carry in front of their name.
use vstd::prelude::*;

use super::error::{Error, Kind};
use crate::text::{
    trim_start,
    ends_with, ends_with_chars, has_char, starts_with, push_str, string_from, trim, trim_end, trim_end_len,
    trim_start_len,
};

verus! {

/// `i` is the position of the last `c` in `s`.
pub open spec fn is_last_index(s: Seq<char>, c: char, i: int) -> bool {
    &&& 0 <= i < s.len()
    &&& s[i] == c
    &&& forall|j: int| i < j < s.len() ==> s[j] != c
}

/// The part of `p` after its last `/`; all of `p` when it has none.
pub open spec fn last_segment(p: Seq<char>) -> Seq<char> {
    if has_char(p, '/') {
        let i = choose|i: int| is_last_index(p, '/', i);
        p.subrange(i + 1, p.len() as int)
    } else {
        p
    }
}

/// Whether `p` starts with a Windows drive prefix such as `C:`.
pub open spec fn has_drive_prefix(p: Seq<char>) -> bool {
    p.len() >= 2 && (('a' <= p[0] <= 'z') || ('A' <= p[0] <= 'Z')) && p[1] == ':'
}

/// Whether `p` is separated by `/` alone on every platform: it holds no `\`,
/// does not start with a drive prefix, and does not start with `//`, which
/// Windows may read as the prefix of a network share; so it has no Windows
/// prefix and its components are its `/`-separated segments.
pub open spec fn slash_separated(p: Seq<char>) -> bool {
    !has_char(p, '\\') && !has_drive_prefix(p) && !starts_with(p, seq!['/', '/'])
}

/// The file name of a `/`-separated path (`Path::file_name`): its last
/// segment that is neither empty nor `.`, unless that segment is `..` or
/// there is none.
pub open spec fn slash_file_name(p: Seq<char>) -> Option<Seq<char>>
    decreases p.len(),
{
    if p.len() == 0 {
        None
    } else if p.last() == '/' {
        slash_file_name(p.drop_last())
    } else if p.len() >= 2 && p.last() == '.' && p[p.len() - 2] == '/' {
        slash_file_name(p.drop_last())
    } else if p == seq!['.'] || last_segment(p) == seq!['.', '.'] {
        None
    } else {
        Some(last_segment(p))
    }
}

/// The stem of a plain file name: the whole name when it has no `.` other
/// than a leading one, otherwise the part before the last `.`.
pub open spec fn plain_stem(s: Seq<char>) -> Seq<char> {
    if has_char(s, '.') {
        let d = choose|d: int| is_last_index(s, '.', d);
        if d == 0 {
            s
        } else {
            s.subrange(0, d)
        }
    } else {
        s
    }
}

/// The stem of the file name of a `/`-separated path (`Path::file_stem`),
/// if it has a file name.
pub open spec fn slash_file_stem(p: Seq<char>) -> Option<Seq<char>> {
    match slash_file_name(p) {
        Some(n) => Some(plain_stem(n)),
        None => None,
    }
}

/// The (name, value) pairs that `form_urlencoded::parse` decodes from `s`.
pub uninterp spec fn spec_urlencoded_pairs(s: Seq<char>) -> Seq<(Seq<char>, Seq<char>)>;

/// Each name followed by its value, pair after pair.
pub open spec fn concat_pairs(ps: Seq<(Seq<char>, Seq<char>)>) -> Seq<char>
    decreases ps.len(),
{
    if ps.len() == 0 {
        Seq::empty()
    } else {
        concat_pairs(ps.drop_last()) + ps.last().0 + ps.last().1
    }
}

/// `s` URL-decoded: the decoded pairs with their names and values joined.
pub open spec fn decode_url(s: Seq<char>) -> Seq<char> {
    concat_pairs(spec_urlencoded_pairs(s))
}

/// Whether `s` holds none of the characters that URL decoding acts on.
pub open spec fn no_url_escapes(s: Seq<char>) -> bool {
    !has_char(s, '&') && !has_char(s, '=') && !has_char(s, '%') && !has_char(s, '+')
}

/// ASCII upper-case letters to lower case, other characters unchanged.
pub open spec fn ascii_lower(c: char) -> char {
    if 'A' <= c <= 'Z' {
        (((c as u32) + 32) as u8) as char
    } else {
        c
    }
}

/// ASCII lower-case letters to upper case, other characters unchanged.
pub open spec fn ascii_upper(c: char) -> char {
    if 'a' <= c <= 'z' {
        (((c as u32) - 32) as u8) as char
    } else {
        c
    }
}

/// Lower case, with underscores as spaces.
pub open spec fn normalize(s: Seq<char>) -> Seq<char> {
    s.map_values(|c: char| if c == '_' { ' ' } else { ascii_lower(c) })
}

/// The word "master".
pub open spec fn master() -> Seq<char> {
    seq!['m', 'a', 's', 't', 'e', 'r']
}

/// `s` without trailing whitespace and without a trailing word "master".
pub open spec fn strip_master(s: Seq<char>) -> Seq<char> {
    let t = trim_end(s);
    if ends_with(t, master()) && (t.len() == 6 || t[t.len() - 7] == ' ') {
        trim_end(t.subrange(0, t.len() - 6))
    } else {
        t
    }
}

/// `s` without an id prefix: a lower-case letter, a digit, and a space or dot.
pub open spec fn strip_id(s: Seq<char>) -> Seq<char> {
    if s.len() >= 3 && 'a' <= s[0] <= 'z' && '0' <= s[1] <= '9' && (s[2] == ' ' || s[2] == '.') {
        s.subrange(3, s.len() as int)
    } else {
        s
    }
}

/// Title case of `s` given the state of the scan: whether the last
/// character read belongs to a word, and whether a word was written yet.
/// Words are separated by spaces; each starts with an upper-case letter and
/// words are joined by a single space.
pub open spec fn title_from(s: Seq<char>, in_word: bool, started: bool) -> Seq<char>
    decreases s.len(),
{
    if s.len() == 0 {
        Seq::empty()
    } else if s[0] == ' ' {
        title_from(s.drop_first(), false, started)
    } else if in_word {
        seq![s[0]] + title_from(s.drop_first(), true, true)
    } else if started {
        seq![' ', ascii_upper(s[0])] + title_from(s.drop_first(), true, true)
    } else {
        seq![ascii_upper(s[0])] + title_from(s.drop_first(), true, true)
    }
}

/// Title case of `s`.
pub open spec fn title_case(s: Seq<char>) -> Seq<char> {
    title_from(s, false, false)
}

/// A character of the numbering that precedes most track names.
pub open spec fn is_number_char(c: char) -> bool {
    ('0' <= c <= '9') || c == '.' || c == ')' || c == '('
}

/// The length of the run of numbering characters at the start of `s`.
pub open spec fn number_prefix_len(s: Seq<char>) -> nat
    decreases s.len(),
{
    if s.len() > 0 && is_number_char(s[0]) {
        1 + number_prefix_len(s.drop_first())
    } else {
        0
    }
}

/// `s` trimmed, and without its leading numbering unless it is all numbering.
pub open spec fn strip_number(s: Seq<char>) -> Seq<char> {
    let k = number_prefix_len(s);
    if k == s.len() {
        trim(s)
    } else {
        trim(s.subrange(k as int, s.len() as int))
    }
}

/// The display name formatted from an already decoded stem.
pub open spec fn format_decoded(s: Seq<char>) -> Seq<char> {
    strip_number(title_case(strip_id(strip_master(normalize(s)))))
}

/// The display name formatted from a file stem.
pub open spec fn format_stem_spec(stem: Seq<char>) -> Seq<char> {
    format_decoded(decode_url(stem))
}

/// `Path::file_stem`, for a path given as text.
///
/// Claims what the standard library documents for a path without a Windows
/// prefix and with `/` as its only separator (see [`slash_separated`]): the
/// file name is the final normal component, which [`slash_file_name`]
/// describes (empty and `.` components are not normal ones, a final `..` has
/// no file name), and the stem is the one [`plain_stem`] describes. Of other
/// paths nothing is stated, as their components follow each platform's
/// rules.
#[verifier::external_body]
pub(crate) fn file_stem_of(path: &str) -> (r: Option<String>)
    ensures
        slash_separated(path@) ==> crate::tracks::list::opt_view(r) == slash_file_stem(path@),
{
    std::path::Path::new(path).file_stem().and_then(|x| x.to_str()).map(|x| x.to_owned())
}

/// `url::form_urlencoded::parse` on the text's bytes, with each decoded pair
/// made owned.
///
/// Claims: the pairs are `spec_urlencoded_pairs(text@)`; and, as its source
/// shows, empty input gives no pairs, while non-empty input holding none of
/// `&`, `=`, `%`, `+` gives one pair whose name is the input and whose value
/// is empty.
#[verifier::external_body]
fn urlencoded_pairs(text: &str) -> (r: Vec<(String, String)>)
    ensures
        r@.map_values(|p: (String, String)| (p.0@, p.1@)) == spec_urlencoded_pairs(text@),
        text@.len() == 0 ==> r@.len() == 0,
        text@.len() > 0 && no_url_escapes(text@) ==> r@.len() == 1 && r@[0].0@ == text@
            && r@[0].1@.len() == 0,
{
    url::form_urlencoded::parse(text.as_bytes()).into_owned().collect()
}

/// Decodes a URL-encoded string into plain text.
fn decode(text: &str) -> (r: Vec<char>)
    ensures
        r@ == decode_url(text@),
        no_url_escapes(text@) ==> r@ == text@,
{
    let pairs = urlencoded_pairs(text);
    let ghost ps = pairs@.map_values(|p: (String, String)| (p.0@, p.1@));
    let mut out: Vec<char> = Vec::new();
    let mut i: usize = 0;
    while i < pairs.len()
        invariant
            i <= pairs.len(),
            ps == pairs@.map_values(|p: (String, String)| (p.0@, p.1@)),
            out@ == concat_pairs(ps.subrange(0, i as int)),
        decreases pairs.len() - i,
    {
        let (k, v) = &pairs[i];
        push_str(&mut out, k.as_str());
        push_str(&mut out, v.as_str());
        assert(ps.subrange(0, i + 1).drop_last() =~= ps.subrange(0, i as int));
        i = i + 1;
    }
    assert(ps.subrange(0, pairs.len() as int) =~= ps);
    proof {
        if text@.len() > 0 && no_url_escapes(text@) {
            assert(ps[0].1 =~= Seq::<char>::empty());
            assert(ps[0] == (text@, Seq::<char>::empty()));
            assert(ps =~= seq![(text@, Seq::<char>::empty())]);
        }
        lemma_plain_decode(text@);
    }
    out
}

/// Lower-cases ASCII letters and turns underscores into spaces.
fn normalize_chars(s: &[char]) -> (r: Vec<char>)
    ensures
        r@ == normalize(s@),
{
    let mut out: Vec<char> = Vec::new();
    let mut i: usize = 0;
    while i < s.len()
        invariant
            i <= s.len(),
            out@ == normalize(s@.subrange(0, i as int)),
        decreases s.len() - i,
    {
        let c = s[i];
        let d = if c == '_' {
            ' '
        } else if 'A' <= c && c <= 'Z' {
            ((c as u8) + 32) as char
        } else {
            c
        };
        out.push(d);
        i = i + 1;
        assert(out@ =~= normalize(s@.subrange(0, i as int)));
    }
    assert(s@.subrange(0, s.len() as int) =~= s@);
    out
}

/// Drops trailing whitespace and a trailing word "master".
fn strip_master_chars(s: &[char]) -> (r: Vec<char>)
    ensures
        r@ == strip_master(s@),
{
    let t_len = trim_end_len(s);
    let t = vec_of_range(s, 0, t_len);
    let m = vec!['m', 'a', 's', 't', 'e', 'r'];
    assert(m@ =~= master());
    if ends_with_chars(t.as_slice(), m.as_slice()) && (t_len == 6 || t[t_len - 7] == ' ') {
        let head = vec_of_range(t.as_slice(), 0, t_len - 6);
        let k = trim_end_len(head.as_slice());
        vec_of_range(head.as_slice(), 0, k)
    } else {
        t
    }
}

/// `s[from..to]` as a vector.
fn vec_of_range(s: &[char], from: usize, to: usize) -> (r: Vec<char>)
    requires
        from <= to <= s.len(),
    ensures
        r@ == s@.subrange(from as int, to as int),
{
    let mut v: Vec<char> = Vec::new();
    let mut i = from;
    while i < to
        invariant
            from <= i <= to <= s.len(),
            v@ == s@.subrange(from as int, i as int),
        decreases to - i,
    {
        v.push(s[i]);
        i = i + 1;
        assert(v@ =~= s@.subrange(from as int, i as int));
    }
    v
}

/// Drops an id prefix such as "a1 " or "b2.".
fn strip_id_chars(s: Vec<char>) -> (r: Vec<char>)
    ensures
        r@ == strip_id(s@),
{
    if s.len() >= 3 && 'a' <= s[0] && s[0] <= 'z' && '0' <= s[1] && s[1] <= '9' && (s[2] == ' '
        || s[2] == '.') {
        vec_of_range(s.as_slice(), 3, s.len())
    } else {
        s
    }
}

/// Title-cases `s`: words separated by single spaces, each capitalized.
fn title_case_chars(s: &[char]) -> (r: Vec<char>)
    ensures
        r@ == title_case(s@),
{
    let mut out: Vec<char> = Vec::new();
    let mut in_word = false;
    let mut started = false;
    let mut i: usize = 0;
    assert(s@.subrange(0, s.len() as int) =~= s@);
    assert(out@ + title_case(s@) =~= title_case(s@));
    while i < s.len()
        invariant
            i <= s.len(),
            in_word ==> started,
            out@ + title_from(s@.subrange(i as int, s.len() as int), in_word, started) == title_case(
                s@,
            ),
        decreases s.len() - i,
    {
        let ghost rest = s@.subrange(i as int, s.len() as int);
        let ghost before = out@;
        let ghost old_in = in_word;
        let ghost old_st = started;
        assert(rest.drop_first() =~= s@.subrange(i + 1, s.len() as int));
        let c = s[i];
        assert(rest[0] == c);
        assert(rest.len() > 0);
        if c == ' ' {
            in_word = false;
            assert(title_from(rest, old_in, old_st) == title_from(rest.drop_first(), false, old_st));
            assert(out@ + title_from(rest.drop_first(), in_word, started) == before + title_from(
                rest,
                old_in,
                old_st,
            ));
        } else if in_word {
            assert(title_from(rest, old_in, old_st) == seq![c] + title_from(rest.drop_first(), true, true));
            out.push(c);
            assert(out@ + title_from(rest.drop_first(), true, true) =~= before + (seq![c]
                + title_from(rest.drop_first(), true, true)));
            assert(out@ + title_from(rest.drop_first(), in_word, started) == before + title_from(
                rest,
                old_in,
                old_st,
            ));
        } else {
            let u = if 'a' <= c && c <= 'z' {
                ((c as u8) - 32) as char
            } else {
                c
            };
            assert(u == ascii_upper(c));
            assert(old_st ==> title_from(rest, old_in, old_st) == seq![' ', u] + title_from(rest.drop_first(), true, true));
            assert(!old_st ==> title_from(rest, old_in, old_st) == seq![u] + title_from(rest.drop_first(), true, true));
            if started {
                out.push(' ');
                out.push(u);
                assert(out@ + title_from(rest.drop_first(), true, true) =~= before + (seq![' ', u]
                    + title_from(rest.drop_first(), true, true)));
            } else {
                out.push(u);
                assert(out@ + title_from(rest.drop_first(), true, true) =~= before + (seq![u]
                    + title_from(rest.drop_first(), true, true)));
            }
            in_word = true;
            started = true;
            assert(out@ + title_from(rest.drop_first(), in_word, started) == before + title_from(
                rest,
                old_in,
                old_st,
            ));
        }
        i = i + 1;
    }
    assert(s@.subrange(s.len() as int, s.len() as int) =~= Seq::<char>::empty());
    assert(out@ + Seq::<char>::empty() =~= out@);
    out
}

/// Drops the leading numbering and trims.
fn strip_number_chars(s: &[char]) -> (r: Vec<char>)
    ensures
        r@ == strip_number(s@),
{
    let mut k: usize = 0;
    assert(s@.subrange(0, s.len() as int) =~= s@);
    while k < s.len() && is_number(s[k])
        invariant
            k <= s.len(),
            number_prefix_len(s@) == k + number_prefix_len(s@.subrange(k as int, s.len() as int)),
        decreases s.len() - k,
    {
        assert(s@.subrange(k as int, s.len() as int).drop_first() =~= s@.subrange(
            k + 1,
            s.len() as int,
        ));
        k = k + 1;
    }
    assert(s@.subrange(0, s.len() as int) =~= s@);
    let from = if k == s.len() {
        0
    } else {
        k
    };
    let body = vec_of_range(s, from, s.len());
    let a = trim_start_len(body.as_slice());
    let rest = vec_of_range(body.as_slice(), a, body.len());
    let b = trim_end_len(rest.as_slice());
    vec_of_range(rest.as_slice(), 0, b)
}

/// Exec counterpart of [`is_number_char`].
fn is_number(c: char) -> (r: bool)
    ensures
        r == is_number_char(c),
{
    ('0' <= c && c <= '9') || c == '.' || c == ')' || c == '('
}

/// Formats an already URL-decoded stem.
pub fn format_decoded_chars(s: &[char]) -> (r: Vec<char>)
    ensures
        r@ == format_decoded(s@),
{
    let a = normalize_chars(s);
    let b = strip_master_chars(a.as_slice());
    let c = strip_id_chars(b);
    let d = title_case_chars(c.as_slice());
    strip_number_chars(d.as_slice())
}

/// Formats a file stem into the display name: decodes it, then applies the
/// steps described in this module's documentation.
pub fn format_stem(stem: &str) -> (r: String)
    ensures
        r@ == format_stem_spec(stem@),
        no_url_escapes(stem@) ==> r@ == format_decoded(stem@),
{
    let decoded = decode(stem);
    let formatted = format_decoded_chars(decoded.as_slice());
    string_from(formatted.as_slice())
}

/// Formats the name of a track from its path.
///
/// The stem of the file name is decoded and formatted by [`format_stem`];
/// a path without a file name is an [`Kind::InvalidName`] error naming it.
pub fn name(path: &str) -> (r: super::error::Result<String>)
    ensures
        r matches Ok(x) ==> exists|stem: Seq<char>| x@ == #[trigger] format_stem_spec(stem),
        r matches Err(e) ==> e.kind is InvalidName && (e.track matches Some(t) && t@ == path@),
        slash_separated(path@) ==> (r is Err <==> slash_file_stem(path@) is None),
        slash_separated(path@) && slash_file_stem(path@) is Some ==> (r matches Ok(x) && x@
            == format_stem_spec(slash_file_stem(path@)->0)),
        slash_separated(path@) && slash_file_stem(path@) is Some && no_url_escapes(
            slash_file_stem(path@)->0,
        ) ==> (r matches Ok(x) && x@ == format_decoded(slash_file_stem(path@)->0)),
{
    match file_stem_of(path) {
        Some(stem) => {
            let formatted = format_stem(stem.as_str());
            Ok(formatted)
        },
        None => Err(Error { track: Some(path.to_owned()), kind: Kind::InvalidName }),
    }
}

/// Lemma: decoding leaves text without escapes unchanged, given what the
/// decoder is claimed to do on such text.
proof fn lemma_plain_decode(s: Seq<char>)
    requires
        s.len() == 0 ==> spec_urlencoded_pairs(s).len() == 0,
        s.len() > 0 && no_url_escapes(s) ==> spec_urlencoded_pairs(s) == seq![
            (s, Seq::<char>::empty()),
        ],
    ensures
        no_url_escapes(s) ==> decode_url(s) == s,
{
    if no_url_escapes(s) {
        if s.len() == 0 {
            assert(decode_url(s) =~= s);
        } else {
            let ps = spec_urlencoded_pairs(s);
            assert(ps.drop_last() =~= Seq::<(Seq<char>, Seq<char>)>::empty());
            assert(concat_pairs(ps.drop_last()) == Seq::<char>::empty());
            assert(ps.last() == (s, Seq::<char>::empty()));
            assert(decode_url(s) == Seq::<char>::empty() + s + Seq::<char>::empty());
            assert(decode_url(s) =~= s);
        }
    }
}


/// Whether every character of `w` is an ASCII lower-case letter.
pub open spec fn lower_word(w: Seq<char>) -> bool {
    forall|i: int| 0 <= i < w.len() ==> 'a' <= #[trigger] w[i] <= 'z'
}

/// Lemma: title-casing inside a word copies a part without spaces.
proof fn lemma_title_copies(a: Seq<char>, b: Seq<char>)
    requires
        forall|i: int| 0 <= i < a.len() ==> #[trigger] a[i] != ' ',
    ensures
        title_from(a + b, true, true) == a + title_from(b, true, true),
    decreases a.len(),
{
    if a.len() == 0 {
        assert(a + b =~= b);
        assert(a + title_from(b, true, true) =~= title_from(b, true, true));
    } else {
        let s = a + b;
        assert(s[0] == a[0]);
        assert(s.drop_first() =~= a.drop_first() + b);
        assert(forall|i: int| 0 <= i < a.drop_first().len() ==> #[trigger] a.drop_first()[i] == a[i + 1]);
        lemma_title_copies(a.drop_first(), b);
        assert(seq![a[0]] + (a.drop_first() + title_from(b, true, true)) =~= a + title_from(
            b,
            true,
            true,
        ));
    }
}

/// Lemma: the numbering run at the start of `a + b` spans `a` when `a` is
/// all numbering.
proof fn lemma_number_prefix(a: Seq<char>, b: Seq<char>)
    requires
        forall|i: int| 0 <= i < a.len() ==> is_number_char(#[trigger] a[i]),
    ensures
        number_prefix_len(a + b) == a.len() + number_prefix_len(b),
    decreases a.len(),
{
    if a.len() == 0 {
        assert(a + b =~= b);
    } else {
        let s = a + b;
        assert(s[0] == a[0]);
        assert(s.drop_first() =~= a.drop_first() + b);
        assert(forall|i: int| 0 <= i < a.drop_first().len() ==> #[trigger] a.drop_first()[i] == a[i + 1]);
        lemma_number_prefix(a.drop_first(), b);
    }
}

/// A name of the form "12 word" or "01. word", track numbering (digits,
/// possibly with dots) first, is formatted as the word alone with its first
/// letter capitalised: the numbering and the space after it are stripped
/// and nothing of the word is lost. A track file "12 word.mp3" has that name
/// as its stem, which holds nothing that URL
/// decoding acts on, so by [`name`]'s contract it is named so. (The one word
/// it fails for is "master", which is stripped as a mastering mark.)
pub proof fn law_track_number_stripped(n: Seq<char>, w: Seq<char>)
    requires
        n.len() > 0,
        '0' <= n[0] <= '9',
        forall|i: int| 0 <= i < n.len() ==> ('0' <= #[trigger] n[i] <= '9') || n[i] == '.',
        w.len() > 0,
        lower_word(w),
        w != master(),
    ensures
        format_decoded(n + seq![' '] + w) == seq![ascii_upper(w[0])] + w.drop_first(),
        slash_separated(n + seq![' '] + w + ".mp3"@),
        slash_file_stem(n + seq![' '] + w + ".mp3"@) == Some(n + seq![' '] + w),
        no_url_escapes(n + seq![' '] + w),
{
    let x = n + seq![' '] + w;
    let sp = n.len() as int;
    assert(forall|i: int| 0 <= i < n.len() ==> #[trigger] x[i] == n[i]);
    assert(x[sp] == ' ');
    assert(forall|i: int| 0 <= i < w.len() ==> #[trigger] x[sp + 1 + i] == w[i]);
    assert forall|i: int| 0 <= i < x.len() implies ('0' <= #[trigger] x[i] <= '9') || x[i] == ' '
        || ('a' <= x[i] <= 'z') || x[i] == '.' by {
        if i < sp {
            assert(x[i] == n[i]);
        } else if i > sp {
            assert(x[i] == w[i - sp - 1]);
        }
    }
    // Lower-casing changes nothing.
    assert(normalize(x) =~= x);
    // There is no mastering mark to strip.
    let lastc = x[x.len() - 1];
    assert(lastc == w[w.len() - 1]);
    assert(trim_end(x) == x);
    if ends_with(x, master()) && (x.len() == 6 || x[x.len() - 7] == ' ') {
        assert(x.subrange(x.len() - 6, x.len() as int) == master());
        assert(x[x.len() - 6] == 'm');
        if x.len() == 6 {
            assert(x[0] == 'm');
            assert(x[0] == n[0]);
        } else {
            let p = x.len() - 7;
            if p < sp {
                assert(x[p] == n[p]);
            } else if p > sp {
                assert(x[p] == w[p - sp - 1]);
            }
            assert(p == sp);
            assert(w =~= x.subrange(x.len() - 6, x.len() as int));
        }
    }
    assert(strip_master(x) == x);
    // There is no id prefix: the name starts with a digit.
    assert(x[0] == n[0]);
    assert(strip_id(x) == x);
    // Title case: the number is copied, the word gets a capital.
    let rest_n = n.drop_first();
    assert(x.drop_first() =~= rest_n + (seq![' '] + w));
    assert(forall|i: int| 0 <= i < rest_n.len() ==> #[trigger] rest_n[i] == n[i + 1]);
    lemma_title_copies(rest_n, seq![' '] + w);
    assert((seq![' '] + w)[0] == ' ');
    assert((seq![' '] + w).drop_first() =~= w);
    assert(title_from(seq![' '] + w, true, true) == title_from(w, false, true));
    assert(forall|i: int| 0 <= i < w.drop_first().len() ==> #[trigger] w.drop_first()[i] == w[i + 1]);
    lemma_title_copies(w.drop_first(), Seq::empty());
    assert(w.drop_first() + Seq::<char>::empty() =~= w.drop_first());
    assert(title_from(w.drop_first(), true, true) == w.drop_first());
    let big = seq![ascii_upper(w[0])] + w.drop_first();
    assert(title_from(w, false, true) == seq![' '] + big);
    assert(ascii_upper(n[0]) == n[0]);
    let y = title_case(x);
    assert(y =~= n + (seq![' '] + big));
    // Stripping the numbering leaves the word.
    lemma_number_prefix(n, seq![' '] + big);
    assert(!is_number_char((seq![' '] + big)[0]));
    assert(number_prefix_len(seq![' '] + big) == 0);
    assert(y.subrange(sp, y.len() as int) =~= seq![' '] + big);
    let u = ascii_upper(w[0]);
    assert('A' <= u <= 'Z');
    assert(!crate::text::is_whitespace(big[0]));
    assert(!crate::text::is_whitespace(big.last()));
    assert((seq![' '] + big).drop_first() =~= big);
    assert(trim_start(seq![' '] + big) == trim_start(big));
    assert(trim_start(big) == big);
    assert(trim_end(big) == big);
    // The path "{n} {w}.mp3" has the file name itself and the stem "{n} {w}".
    let p = x + ".mp3"@;
    reveal_strlit(".mp3");
    assert(".mp3"@ =~= seq!['.', 'm', 'p', '3']);
    assert(forall|i: int| 0 <= i < x.len() ==> #[trigger] p[i] == x[i]);
    assert(p[x.len() as int] == '.');
    assert(p[p.len() - 1] == '3');
    assert forall|i: int| 0 <= i < p.len() implies p[i] != '/' && p[i] != '\\' by {
        if i < x.len() {
            assert(p[i] == x[i]);
        }
    }
    assert(!has_char(p, '/'));
    assert(!has_char(p, '\\'));
    assert(p[0] == n[0]);
    if x.len() >= 2 {
        assert(p[1] == x[1]);
    } else {
        assert(p[1] == '.');
    }
    assert(!starts_with(p, seq!['/', '/'])) by {
        if starts_with(p, seq!['/', '/']) {
            assert(p.subrange(0, 2)[0] == p[0]);
        }
    }
    assert(last_segment(p) == p);
    assert(p != seq!['.']);
    assert(p != seq!['.', '.']);
    assert(slash_file_name(p) == Some(p));
    let d = x.len() as int;
    assert(is_last_index(p, '.', d)) by {
        assert forall|j: int| d < j < p.len() implies p[j] != '.' by {
            assert(p[j] == seq!['.', 'm', 'p', '3'][j - d]);
        }
    }
    assert(has_char(p, '.'));
    let c = choose|c: int| is_last_index(p, '.', c);
    if c < d {
        assert(p[d] == '.');
    }
    assert(c == d);
    assert(p.subrange(0, d) =~= x);
    assert(plain_stem(p) == x);
    assert(no_url_escapes(x)) by {
        assert forall|i: int| 0 <= i < x.len() implies x[i] != '&' && x[i] != '=' && x[i] != '%'
            && x[i] != '+' by {
            assert(('0' <= x[i] <= '9') || x[i] == ' ' || ('a' <= x[i] <= 'z') || x[i] == '.');
        }
    }
}

} // verus!
