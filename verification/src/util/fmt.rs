//! Text formatting for the terminal: truncation and padding by byte length,
//! counts with plurals, lists, and ANSI styles.
use vstd::prelude::*;
use crate::base::types::strs;
use crate::text::{
    byte_prefix, chars_of, decimal, decimal_chars, extend, extend_str, join, join_exec,
    lemma_utf8_len_take_mono, push_char, string_of, utf8_len, utf8_len_exceeds,
};

verus! {

/// A character boundary lies at byte `b` of `s`.
pub open spec fn is_boundary(s: Seq<char>, b: nat) -> bool {
    exists|k: int| 0 <= k <= s.len() && utf8_len(#[trigger] s.take(k)) == b
}

/// The characters of `s` that make up its first `b` bytes (meaningful when
/// a boundary lies at `b`).
pub open spec fn byte_take(s: Seq<char>, b: nat) -> Seq<char> {
    s.take(choose|k: int| 0 <= k <= s.len() && utf8_len(#[trigger] s.take(k)) == b)
}

/// At most one prefix of `s` takes `b` bytes.
pub proof fn lemma_boundary_unique(s: Seq<char>, b: nat, k: int)
    requires
        0 <= k <= s.len(),
        utf8_len(s.take(k)) == b,
    ensures
        byte_take(s, b) == s.take(k),
{
    let c = choose|c: int| 0 <= c <= s.len() && utf8_len(#[trigger] s.take(c)) == b;
    if c < k {
        lemma_utf8_len_take_mono(s, c, k);
    } else if k < c {
        lemma_utf8_len_take_mono(s, k, c);
    }
}

/// The first `b` bytes of `s`, which must end on a character boundary.
fn take_bytes(s: &Vec<char>, b: usize) -> (r: Vec<char>)
    requires
        is_boundary(s@, b as nat),
    ensures
        r@ == byte_take(s@, b as nat),
{
    match byte_prefix(s, b) {
        Some(p) => {
            proof {
                let k = choose|k: int| 0 <= k <= s@.len() && utf8_len(s@.take(k)) == b && p@ == s@.take(k);
                lemma_boundary_unique(s@, b as nat, k);
            }
            p
        },
        None => {
            proof {
                let k = choose|k: int| 0 <= k <= s@.len() && utf8_len(#[trigger] s@.take(k)) == b;
                assert(utf8_len(s@.take(k)) != b);
            }
            Vec::new()
        },
    }
}

/// `s` cut to `max` bytes: unchanged when it fits, else its first
/// `max - 1` bytes (none when `max` is 0) followed by an ellipsis.
pub open spec fn truncated(s: Seq<char>, max: nat) -> Seq<char> {
    if utf8_len(s) <= max {
        s
    } else {
        byte_take(s, if max == 0 { 0 } else { (max - 1) as nat }) + seq!['…']
    }
}

/// `s` cut to `max` bytes, an ellipsis marking a cut. A cut must fall on
/// a character boundary.
pub fn truncate(s: &str, max: usize) -> (r: String)
    requires
        utf8_len(s@) <= max || is_boundary(s@, if max == 0 { 0 } else { (max - 1) as nat }),
    ensures
        r@ == truncated(s@, max as nat),
{
    let v = chars_of(s);
    if !utf8_len_exceeds(&v, max) {
        return string_of(&v);
    }
    let cut: usize = if max == 0 { 0 } else { max - 1 };
    let mut p = take_bytes(&v, cut);
    p.push('…');
    string_of(&p)
}

/// `s` made exactly `width` bytes wide when it is shorter (spaces added)
/// and cut to `width` bytes when it is not.
pub open spec fn padded(s: Seq<char>, width: nat) -> Seq<char> {
    if utf8_len(s) >= width {
        byte_take(s, width)
    } else {
        s + Seq::new((width - utf8_len(s)) as nat, |i: int| ' ')
    }
}

/// `s` padded with spaces, or cut, to `width` bytes. A cut must fall on a
/// character boundary.
pub fn pad_right(s: &str, width: usize) -> (r: String)
    requires
        utf8_len(s@) < width || is_boundary(s@, width as nat),
    ensures
        r@ == padded(s@, width as nat),
{
    let v = chars_of(s);
    let fits_width = if width == 0 {
        true
    } else {
        utf8_len_at_least(&v, width)
    };
    if fits_width {
        let p = take_bytes(&v, width);
        return string_of(&p);
    }
    let len = byte_len(&v);
    let mut out = v;
    let ghost base = out@;
    let n = width - len;
    let mut i: usize = 0;
    while i < n
        invariant
            i <= n,
            out@ == base + Seq::new(i as nat, |j: int| ' '),
        decreases n - i,
    {
        out.push(' ');
        assert(out@ =~= base + Seq::new((i + 1) as nat, |j: int| ' '));
        i = i + 1;
    }
    string_of(&out)
}

/// Spaces take one byte each.
pub proof fn lemma_spaces_len(n: nat)
    ensures
        utf8_len(Seq::new(n, |i: int| ' ')) == n,
    decreases n,
{
    if n > 0 {
        lemma_spaces_len((n - 1) as nat);
        assert(Seq::new(n, |i: int| ' ').drop_last() =~= Seq::new((n - 1) as nat, |i: int| ' '));
    }
}

/// Padding makes text exactly `width` bytes wide.
pub proof fn law_padded_width(s: Seq<char>, width: nat)
    requires
        utf8_len(s) < width || is_boundary(s, width),
    ensures
        utf8_len(padded(s, width)) == width,
{
    if utf8_len(s) >= width {
        let k = choose|k: int| 0 <= k <= s.len() && utf8_len(#[trigger] s.take(k)) == width;
    } else {
        let n = (width - utf8_len(s)) as nat;
        crate::text::lemma_utf8_len_append(s, Seq::new(n, |i: int| ' '));
        lemma_spaces_len(n);
    }
}

/// Whether `s` takes at least `n` bytes.
fn utf8_len_at_least(s: &Vec<char>, n: usize) -> (b: bool)
    requires
        n > 0,
    ensures
        b == (utf8_len(s@) >= n),
{
    utf8_len_exceeds(s, n - 1)
}

/// The byte length of `s`, which is at most `usize::MAX` when it fits under
/// a known width.
fn byte_len(s: &Vec<char>) -> (n: usize)
    requires
        utf8_len(s@) <= usize::MAX,
    ensures
        n == utf8_len(s@),
{
    let mut acc: usize = 0;
    let mut i: usize = 0;
    assert(s@.take(0) =~= Seq::<char>::empty());
    while i < s.len()
        invariant
            i <= s.len(),
            acc == utf8_len(s@.take(i as int)),
            utf8_len(s@) <= usize::MAX,
        decreases s.len() - i,
    {
        proof {
            crate::text::lemma_utf8_len_take_step(s@, i as int);
            lemma_utf8_len_take_mono(s@, i + 1, s@.len() as int);
            assert(s@.take(s@.len() as int) =~= s@);
        }
        acc = acc + crate::text::utf8_width_exec(s[i]);
        i = i + 1;
    }
    assert(s@.take(s@.len() as int) =~= s@);
    acc
}

/// `count word`, with an `s` on the word unless the count is 1.
pub open spec fn plural_text(count: nat, word: Seq<char>) -> Seq<char> {
    decimal(count) + seq![' '] + word + if count == 1 {
        Seq::<char>::empty()
    } else {
        seq!['s']
    }
}

/// `count word`, made plural unless the count is 1.
pub fn plural(count: usize, word: &str) -> (r: String)
    ensures
        r@ == plural_text(count as nat, word@),
{
    let mut v = decimal_chars(count as u64);
    v.push(' ');
    extend_str(&mut v, word);
    if count != 1 {
        v.push('s');
    }
    string_of(&v)
}

/// The strings of `items` joined with `sep` between neighbours.
pub fn join_strings(items: &[String], sep: &str) -> (r: String)
    ensures
        r@ == join(strs(items@), sep@),
{
    let mut parts: Vec<Vec<char>> = Vec::new();
    let mut i: usize = 0;
    while i < items.len()
        invariant
            i <= items.len(),
            crate::text::views(parts@) == strs(items@).take(i as int),
        decreases items.len() - i,
    {
        let p = chars_of(items[i].as_str());
        let ghost before = parts@;
        parts.push(p);
        assert(crate::text::views(parts@) =~= crate::text::views(before).push(p@));
        assert(strs(items@).take(i + 1) =~= strs(items@).take(i as int).push(items@[i as int]@));
        i = i + 1;
    }
    assert(strs(items@).take(items.len() as int) =~= strs(items@));
    let r = join_exec(&parts, sep);
    string_of(&r)
}

/// The items, separated by `, `.
pub fn comma_list(items: &[String]) -> (r: String)
    ensures
        r@ == join(strs(items@), ", "@),
{
    join_strings(items, ", ")
}

/// `open`, then `s`, then `close`.
fn wrap(open: &str, s: &str, close: &str) -> (r: String)
    ensures
        r@ == open@ + s@ + close@,
{
    let mut v = chars_of(open);
    extend_str(&mut v, s);
    extend_str(&mut v, close);
    string_of(&v)
}

/// `s` in bold (ANSI).
pub fn bold(s: &str) -> (r: String)
    ensures
        r@ == "\x1b[1m"@ + s@ + "\x1b[22m"@,
{
    wrap("\x1b[1m", s, "\x1b[22m")
}

/// `s` in red (ANSI).
pub fn red(s: &str) -> (r: String)
    ensures
        r@ == "\x1b[31m"@ + s@ + "\x1b[39m"@,
{
    wrap("\x1b[31m", s, "\x1b[39m")
}

/// `s` in green (ANSI).
pub fn green(s: &str) -> (r: String)
    ensures
        r@ == "\x1b[32m"@ + s@ + "\x1b[39m"@,
{
    wrap("\x1b[32m", s, "\x1b[39m")
}

/// `s` in yellow (ANSI).
pub fn yellow(s: &str) -> (r: String)
    ensures
        r@ == "\x1b[33m"@ + s@ + "\x1b[39m"@,
{
    wrap("\x1b[33m", s, "\x1b[39m")
}

/// `s` dimmed (ANSI).
pub fn dim(s: &str) -> (r: String)
    ensures
        r@ == "\x1b[2m"@ + s@ + "\x1b[22m"@,
{
    wrap("\x1b[2m", s, "\x1b[22m")
}

} // verus!
