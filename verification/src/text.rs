//! Text: classes of characters, trimming, splitting, comparing, decimal numbers.
//!
//! A text is modelled by the sequence of its characters.

use vstd::prelude::*;
use vstd::string::*;

verus! {

/// A class of characters that the gateway treats alike.
#[derive(Clone, Copy)]
pub enum CharClass {
    /// The path separator.
    Slash,
    /// The characters with Unicode's `White_Space` property.
    Whitespace,
    /// The control characters, Unicode's general category `Cc`; NUL is one of them.
    Control,
}

impl CharClass {
    /// Whether `c` belongs to the class.
    pub open spec fn has(self, c: char) -> bool {
        let n = c as int;
        match self {
            CharClass::Slash => c == '/',
            CharClass::Whitespace => {
                ||| 0x09 <= n <= 0x0d
                ||| n == 0x20
                ||| n == 0x85
                ||| n == 0xa0
                ||| n == 0x1680
                ||| 0x2000 <= n <= 0x200a
                ||| n == 0x2028
                ||| n == 0x2029
                ||| n == 0x202f
                ||| n == 0x205f
                ||| n == 0x3000
            },
            CharClass::Control => n <= 0x1f || 0x7f <= n <= 0x9f,
        }
    }

    /// Tells whether `c` belongs to the class.
    pub fn contains(&self, c: char) -> (yes: bool)
        ensures
            yes == self.has(c),
    {
        let n: u32 = c as u32;
        match self {
            CharClass::Slash => c == '/',
            CharClass::Whitespace => (0x09 <= n && n <= 0x0d) || n == 0x20 || n == 0x85 || n == 0xa0
                || n == 0x1680 || (0x2000 <= n && n <= 0x200a) || n == 0x2028 || n == 0x2029 || n
                == 0x202f || n == 0x205f || n == 0x3000,
            CharClass::Control => n <= 0x1f || (0x7f <= n && n <= 0x9f),
        }
    }
}

/// `s` without the characters of `class` at its start.
pub open spec fn trimmed_start(s: Seq<char>, class: CharClass) -> Seq<char>
    decreases s.len(),
{
    if s.len() > 0 && class.has(s.first()) {
        trimmed_start(s.drop_first(), class)
    } else {
        s
    }
}

/// `s` without the characters of `class` at its end.
pub open spec fn trimmed_end(s: Seq<char>, class: CharClass) -> Seq<char>
    decreases s.len(),
{
    if s.len() > 0 && class.has(s.last()) {
        trimmed_end(s.drop_last(), class)
    } else {
        s
    }
}

/// `s` without the characters of `class` at either end.
pub open spec fn trimmed(s: Seq<char>, class: CharClass) -> Seq<char> {
    trimmed_end(trimmed_start(s, class), class)
}

/// The characters of `s`.
pub fn chars_of(s: &str) -> (chars: Vec<char>)
    ensures
        chars@ == s@,
{
    let mut chars: Vec<char> = Vec::new();
    for c in it: s.chars()
        invariant
            it.seq() == s@,
            chars@ == s@.take(it.index() as int),
    {
        chars.push(c);
        proof {
            assert(s@.take(it.index() + 1) =~= s@.take(it.index() as int).push(c));
        }
    }
    proof {
        assert(s@.take(s@.len() as int) =~= s@);
    }
    chars
}

/// Drops the characters of `class` at the end of `s`.
pub fn trim_end<'a>(s: &'a str, class: CharClass) -> (rest: &'a str)
    ensures
        rest@ == trimmed_end(s@, class),
{
    let chars = chars_of(s);
    let mut end: usize = chars.len();
    proof {
        assert(s@.subrange(0, end as int) =~= s@);
    }
    while end > 0 && class.contains(chars[end - 1])
        invariant
            end <= s@.len(),
            chars@ == s@,
            trimmed_end(s@.subrange(0, end as int), class) == trimmed_end(s@, class),
        decreases end,
    {
        proof {
            assert(s@.subrange(0, end as int).drop_last() =~= s@.subrange(0, end - 1));
        }
        end = end - 1;
    }
    s.substring_char(0, end)
}

/// Drops the characters of `class` at the start of `s`.
pub fn trim_start<'a>(s: &'a str, class: CharClass) -> (rest: &'a str)
    ensures
        rest@ == trimmed_start(s@, class),
{
    let chars = chars_of(s);
    let len: usize = chars.len();
    let mut start: usize = 0;
    proof {
        assert(s@.subrange(0, len as int) =~= s@);
    }
    while start < len && class.contains(chars[start])
        invariant
            start <= len == s@.len(),
            chars@ == s@,
            trimmed_start(s@.subrange(start as int, len as int), class) == trimmed_start(s@, class),
        decreases len - start,
    {
        proof {
            assert(s@.subrange(start as int, len as int).drop_first() =~= s@.subrange(
                start + 1,
                len as int,
            ));
        }
        start = start + 1;
    }
    s.substring_char(start, len)
}

/// Drops the characters of `class` at either end of `s`.
pub fn trim<'a>(s: &'a str, class: CharClass) -> (rest: &'a str)
    ensures
        rest@ == trimmed(s@, class),
{
    trim_end(trim_start(s, class), class)
}

/// The pieces of `s` between the occurrences of `sep`, in order: one more than
/// there are occurrences.
pub open spec fn pieces(s: Seq<char>, sep: char) -> Seq<Seq<char>>
    decreases s.len(),
{
    if s.len() == 0 {
        seq![Seq::<char>::empty()]
    } else {
        let before = pieces(s.drop_last(), sep);
        if s.last() == sep {
            before.push(Seq::empty())
        } else {
            before.drop_last().push(before.last().push(s.last()))
        }
    }
}

/// The texts of a list of strings.
pub open spec fn texts(list: Seq<String>) -> Seq<Seq<char>> {
    list.map_values(|s: String| s@)
}

/// Splits `s` at every occurrence of `sep`.
pub fn split(s: &str, sep: char) -> (parts: Vec<String>)
    ensures
        texts(parts@) == pieces(s@, sep),
{
    let chars = chars_of(s);
    let len: usize = chars.len();
    let mut parts: Vec<String> = Vec::new();
    let mut start: usize = 0;
    let mut i: usize = 0;
    proof {
        assert(s@.take(0) =~= Seq::<char>::empty());
        assert(texts(parts@).push(s@.subrange(0, 0)) =~= pieces(s@.take(0), sep));
    }
    while i < len
        invariant
            start <= i <= len == s@.len(),
            chars@ == s@,
            texts(parts@).push(s@.subrange(start as int, i as int)) == pieces(
                s@.take(i as int),
                sep,
            ),
        decreases len - i,
    {
        let c: char = chars[i];
        let ghost before = texts(parts@).push(s@.subrange(start as int, i as int));
        proof {
            assert(s@.take(i + 1).drop_last() =~= s@.take(i as int));
            assert(before.drop_last() =~= texts(parts@));
        }
        if c == sep {
            parts.push(s.substring_char(start, i).to_owned());
            proof {
                assert(texts(parts@) =~= before);
                assert(s@.subrange(i + 1, i + 1) =~= Seq::<char>::empty());
            }
            start = i + 1;
        } else {
            proof {
                assert(s@.subrange(start as int, i + 1) =~= s@.subrange(start as int, i as int).push(
                    c,
                ));
            }
        }
        i = i + 1;
    }
    let ghost before = texts(parts@);
    parts.push(s.substring_char(start, len).to_owned());
    proof {
        assert(s@.take(len as int) =~= s@);
        assert(texts(parts@) =~= before.push(s@.subrange(start as int, len as int)));
    }
    parts
}

/// Tells whether two texts are the same.
pub fn same(a: &str, b: &str) -> (yes: bool)
    ensures
        yes == (a@ == b@),
{
    a.to_owned() == b.to_owned()
}

/// Whether `a` stands before `b` in the order of texts: character by character,
/// by code point, a text before its extensions.
pub open spec fn precedes(a: Seq<char>, b: Seq<char>) -> bool
    decreases a.len(),
{
    if b.len() == 0 {
        false
    } else if a.len() == 0 {
        true
    } else if a.first() == b.first() {
        precedes(a.drop_first(), b.drop_first())
    } else {
        (a.first() as int) < (b.first() as int)
    }
}

/// How one text stands to another.
#[derive(Clone, Copy, Debug, PartialEq, Eq, Structural)]
pub enum Rank {
    Before,
    Same,
    After,
}

/// Of two texts one precedes the other, unless they are the same.
pub proof fn lemma_precedes_total(a: Seq<char>, b: Seq<char>)
    ensures
        a == b || precedes(a, b) || precedes(b, a),
        !(precedes(a, b) && precedes(b, a)),
        a == b ==> !precedes(a, b),
    decreases a.len(),
{
    if a.len() > 0 && b.len() > 0 {
        lemma_precedes_total(a.drop_first(), b.drop_first());
        if a.first() == b.first() && a.drop_first() == b.drop_first() {
            assert(a =~= seq![a.first()] + a.drop_first());
            assert(b =~= seq![b.first()] + b.drop_first());
        }
    } else if a.len() == 0 && b.len() == 0 {
        assert(a =~= b);
    }
}

/// What precedes a text precedes what that text precedes.
pub proof fn lemma_precedes_transitive(a: Seq<char>, b: Seq<char>, c: Seq<char>)
    requires
        precedes(a, b),
        precedes(b, c),
    ensures
        precedes(a, c),
    decreases a.len(),
{
    if a.len() > 0 && a.first() == b.first() && b.first() == c.first() {
        lemma_precedes_transitive(a.drop_first(), b.drop_first(), c.drop_first());
    }
}

/// The code point of `c`.
fn code_point(c: char) -> (n: u32)
    ensures
        n as int == c as int,
{
    c as u32
}

/// Tells how `a` stands to `b`.
pub fn rank(a: &str, b: &str) -> (r: Rank)
    ensures
        r == Rank::Before <==> precedes(a@, b@),
        r == Rank::Same <==> a@ == b@,
        r == Rank::After <==> precedes(b@, a@),
{
    let xs = chars_of(a);
    let ys = chars_of(b);
    let mut i: usize = 0;
    proof {
        assert(a@.skip(0) =~= a@);
        assert(b@.skip(0) =~= b@);
    }
    while i < xs.len() && i < ys.len() && xs[i] == ys[i]
        invariant
            xs@ == a@,
            ys@ == b@,
            i <= a@.len(),
            i <= b@.len(),
            a@.take(i as int) == b@.take(i as int),
            precedes(a@, b@) == precedes(a@.skip(i as int), b@.skip(i as int)),
            precedes(b@, a@) == precedes(b@.skip(i as int), a@.skip(i as int)),
        decreases xs.len() - i,
    {
        proof {
            assert(a@.skip(i as int).drop_first() =~= a@.skip(i + 1));
            assert(b@.skip(i as int).drop_first() =~= b@.skip(i + 1));
            assert(a@.take(i + 1) =~= a@.take(i as int).push(a@[i as int]));
            assert(b@.take(i + 1) =~= b@.take(i as int).push(b@[i as int]));
        }
        i = i + 1;
    }
    proof {
        lemma_precedes_total(a@, b@);
        assert(a@ =~= a@.take(i as int) + a@.skip(i as int));
        assert(b@ =~= b@.take(i as int) + b@.skip(i as int));
    }
    if i == xs.len() {
        if i == ys.len() {
            proof {
                assert(a@.skip(i as int) =~= b@.skip(i as int));
            }
            Rank::Same
        } else {
            Rank::Before
        }
    } else if i == ys.len() {
        Rank::After
    } else if code_point(xs[i]) < code_point(ys[i]) {
        Rank::Before
    } else {
        Rank::After
    }
}

/// The decimal digit `d`.
pub open spec fn digit(d: int) -> char {
    (48 + d) as char
}

/// `n` in decimal, without leading zeros.
pub open spec fn decimal(n: nat) -> Seq<char>
    decreases n,
{
    if n < 10 {
        seq![digit(n as int)]
    } else {
        decimal(n / 10).push(digit((n % 10) as int))
    }
}

/// The text of one decimal digit.
fn digit_text(d: u64) -> (text: &'static str)
    requires
        d < 10,
    ensures
        text@ == seq![digit(d as int)],
{
    proof {
        reveal_strlit("0");
        reveal_strlit("1");
        reveal_strlit("2");
        reveal_strlit("3");
        reveal_strlit("4");
        reveal_strlit("5");
        reveal_strlit("6");
        reveal_strlit("7");
        reveal_strlit("8");
        reveal_strlit("9");
    }
    match d {
        0 => "0",
        1 => "1",
        2 => "2",
        3 => "3",
        4 => "4",
        5 => "5",
        6 => "6",
        7 => "7",
        8 => "8",
        _ => "9",
    }
}

/// Writes `n` in decimal.
pub fn decimal_text(n: u64) -> (text: String)
    ensures
        text@ == decimal(n as nat),
    decreases n,
{
    if n < 10 {
        digit_text(n).to_owned()
    } else {
        let mut text = decimal_text(n / 10);
        text.append(digit_text(n % 10));
        proof {
            assert(decimal(n as nat) =~= decimal((n / 10) as nat) + seq![digit((n % 10) as int)]);
        }
        text
    }
}

/// Whether every character of `s` belongs to `class`.
pub open spec fn all_in(s: Seq<char>, class: CharClass) -> bool {
    forall|i: int| 0 <= i < s.len() ==> class.has(#[trigger] s[i])
}

/// What trimming at the end leaves is a beginning of the text, and ends, if it is
/// not empty, with a character outside the class.
pub proof fn lemma_trimmed_end(s: Seq<char>, class: CharClass)
    ensures
        trimmed_end(s, class).len() <= s.len(),
        trimmed_end(s, class) == s.take(trimmed_end(s, class).len() as int),
        trimmed_end(s, class).len() > 0 ==> !class.has(trimmed_end(s, class).last()),
    decreases s.len(),
{
    if s.len() > 0 && class.has(s.last()) {
        lemma_trimmed_end(s.drop_last(), class);
        let n = trimmed_end(s, class).len() as int;
        assert(s.drop_last().take(n) =~= s.take(n));
    } else {
        assert(s.take(s.len() as int) =~= s);
    }
}

/// What trimming at the start leaves is an end of the text, and starts, if it is
/// not empty, with a character outside the class.
pub proof fn lemma_trimmed_start(s: Seq<char>, class: CharClass)
    ensures
        trimmed_start(s, class).len() <= s.len(),
        trimmed_start(s, class) == s.skip(s.len() - trimmed_start(s, class).len()),
        trimmed_start(s, class).len() > 0 ==> !class.has(trimmed_start(s, class).first()),
    decreases s.len(),
{
    if s.len() > 0 && class.has(s.first()) {
        lemma_trimmed_start(s.drop_first(), class);
        let n = trimmed_start(s, class).len() as int;
        assert(s.drop_first().skip(s.len() - 1 - n) =~= s.skip(s.len() - n));
    } else {
        assert(s.skip(0) =~= s);
    }
}

/// A trimmed text has no character of the class at either end.
pub proof fn lemma_trimmed(s: Seq<char>, class: CharClass)
    ensures
        trimmed(s, class).len() > 0 ==> {
            &&& !class.has(trimmed(s, class).first())
            &&& !class.has(trimmed(s, class).last())
        },
{
    let mid = trimmed_start(s, class);
    lemma_trimmed_start(s, class);
    lemma_trimmed_end(mid, class);
    if trimmed(s, class).len() > 0 {
        assert(trimmed(s, class)[0] == mid[0]);
    }
}

/// A text that ends, if it is not empty, outside the class is left as it is.
pub proof fn lemma_trim_keeps(s: Seq<char>, class: CharClass)
    requires
        s.len() > 0 ==> !class.has(s.first()) && !class.has(s.last()),
    ensures
        trimmed(s, class) == s,
{
}

/// Characters of the class in front do not change what trimming at the start leaves.
proof fn lemma_padded_start(pad: Seq<char>, s: Seq<char>, class: CharClass)
    requires
        all_in(pad, class),
    ensures
        trimmed_start(pad + s, class) == trimmed_start(s, class),
    decreases pad.len(),
{
    if pad.len() == 0 {
        assert(pad + s =~= s);
    } else {
        let rest = pad.drop_first();
        assert((pad + s).drop_first() =~= rest + s);
        assert forall|i: int| 0 <= i < rest.len() implies class.has(#[trigger] rest[i]) by {
            assert(rest[i] == pad[i + 1]);
        }
        lemma_padded_start(rest, s, class);
    }
}

/// Characters of the class behind do not change what trimming at the end leaves.
pub proof fn lemma_padded_end(s: Seq<char>, pad: Seq<char>, class: CharClass)
    requires
        all_in(pad, class),
    ensures
        trimmed_end(s + pad, class) == trimmed_end(s, class),
    decreases pad.len(),
{
    if pad.len() == 0 {
        assert(s + pad =~= s);
    } else {
        let rest = pad.drop_last();
        assert((s + pad).drop_last() =~= s + rest);
        assert forall|i: int| 0 <= i < rest.len() implies class.has(#[trigger] rest[i]) by {
            assert(rest[i] == pad[i]);
        }
        lemma_padded_end(s, rest, class);
    }
}

/// What trimming at the start makes of a text with characters of the class behind.
proof fn lemma_start_with_tail(s: Seq<char>, pad: Seq<char>, class: CharClass)
    requires
        all_in(pad, class),
    ensures
        all_in(s, class) ==> trimmed_start(s, class).len() == 0 && trimmed_start(s + pad, class).len()
            == 0,
        !all_in(s, class) ==> trimmed_start(s + pad, class) == trimmed_start(s, class) + pad,
    decreases s.len(),
{
    if s.len() == 0 {
        assert(s + pad =~= pad);
        assert(pad + Seq::<char>::empty() =~= pad);
        lemma_padded_start(pad, Seq::empty(), class);
    } else {
        let rest = s.drop_first();
        assert((s + pad).drop_first() =~= rest + pad);
        assert((s + pad).first() == s.first());
        if class.has(s.first()) {
            lemma_start_with_tail(rest, pad, class);
            if all_in(s, class) {
                assert forall|i: int| 0 <= i < rest.len() implies class.has(#[trigger] rest[i]) by {
                    assert(rest[i] == s[i + 1]);
                }
            } else if all_in(rest, class) {
                assert forall|i: int| 0 <= i < s.len() implies class.has(#[trigger] s[i]) by {
                    if i > 0 {
                        assert(rest[i - 1] == s[i]);
                    }
                }
            }
        }
    }
}

/// Characters of the class on either side do not change what trimming leaves.
pub proof fn lemma_padded(front: Seq<char>, s: Seq<char>, back: Seq<char>, class: CharClass)
    requires
        all_in(front, class),
        all_in(back, class),
    ensures
        trimmed(front + s + back, class) == trimmed(s, class),
{
    assert(front + s + back =~= front + (s + back));
    lemma_padded_start(front, s + back, class);
    lemma_start_with_tail(s, back, class);
    if all_in(s, class) {
        assert(trimmed_start(s + back, class) =~= trimmed_start(s, class));
    } else {
        lemma_padded_end(trimmed_start(s, class), back, class);
    }
}

/// The text whose pieces at `sep` are `parts`.
pub open spec fn joined(parts: Seq<Seq<char>>, sep: char) -> Seq<char>
    decreases parts.len(),
{
    if parts.len() == 0 {
        Seq::empty()
    } else if parts.len() == 1 {
        parts[0]
    } else {
        joined(parts.drop_last(), sep).push(sep) + parts.last()
    }
}

/// There is at least one piece.
pub proof fn lemma_pieces_some(s: Seq<char>, sep: char)
    ensures
        pieces(s, sep).len() > 0,
    decreases s.len(),
{
    if s.len() > 0 {
        lemma_pieces_some(s.drop_last(), sep);
    }
}

/// The pieces of a text give the text back.
pub proof fn lemma_pieces_joined(s: Seq<char>, sep: char)
    ensures
        joined(pieces(s, sep), sep) == s,
    decreases s.len(),
{
    let parts = pieces(s, sep);
    if s.len() == 0 {
        assert(parts[0] =~= s);
    } else {
        let before = pieces(s.drop_last(), sep);
        lemma_pieces_joined(s.drop_last(), sep);
        lemma_pieces_some(s.drop_last(), sep);
        assert(s =~= s.drop_last().push(s.last()));
        if s.last() == sep {
            assert(parts.drop_last() =~= before);
            assert(joined(parts, sep) =~= s);
        } else {
            assert(parts.drop_last() =~= before.drop_last());
            assert(parts.last() == before.last().push(s.last()));
            assert(joined(parts, sep) =~= joined(before, sep).push(s.last()));
        }
    }
}

/// The pieces of two texts with `sep` between them are those of the one and then
/// those of the other.
pub proof fn lemma_pieces_concat(a: Seq<char>, b: Seq<char>, sep: char)
    ensures
        pieces(a.push(sep) + b, sep) == pieces(a, sep) + pieces(b, sep),
    decreases b.len(),
{
    let whole = a.push(sep) + b;
    if b.len() == 0 {
        assert(whole =~= a.push(sep));
        assert(whole.drop_last() =~= a);
        assert(pieces(whole, sep) =~= pieces(a, sep) + pieces(b, sep));
    } else {
        lemma_pieces_concat(a, b.drop_last(), sep);
        lemma_pieces_some(b.drop_last(), sep);
        assert(whole.drop_last() =~= a.push(sep) + b.drop_last());
        let before = pieces(b.drop_last(), sep);
        let both = pieces(a, sep) + before;
        if b.last() != sep {
            assert(both.drop_last() =~= pieces(a, sep) + before.drop_last());
        }
        assert(pieces(whole, sep) =~= pieces(a, sep) + pieces(b, sep));
    }
}

/// Joining a list is joining its beginning and its end.
pub proof fn lemma_joined_concat(xs: Seq<Seq<char>>, ys: Seq<Seq<char>>, sep: char)
    requires
        xs.len() > 0,
        ys.len() > 0,
    ensures
        joined(xs + ys, sep) == joined(xs, sep).push(sep) + joined(ys, sep),
    decreases ys.len(),
{
    let all = xs + ys;
    assert(all.last() == ys.last());
    assert(all.drop_last() =~= xs + ys.drop_last());
    if ys.len() == 1 {
        assert(all.drop_last() =~= xs);
    } else {
        lemma_joined_concat(xs, ys.drop_last(), sep);
        assert(joined(all, sep) =~= joined(xs, sep).push(sep) + joined(ys, sep));
    }
}

/// Trimming loses no character outside the class.
pub proof fn lemma_trim_keeps_others(s: Seq<char>, class: CharClass, c: char)
    requires
        s.contains(c),
        !class.has(c),
    ensures
        trimmed_start(s, class).contains(c),
        trimmed_end(s, class).contains(c),
    decreases s.len(),
{
    let at = choose|i: int| 0 <= i < s.len() && s[i] == c;
    if class.has(s.first()) {
        let rest = s.drop_first();
        assert(rest[at - 1] == c);
        lemma_trim_keeps_others(rest, class, c);
    }
    if class.has(s.last()) {
        let rest = s.drop_last();
        assert(rest[at] == c);
        lemma_trim_keeps_others(rest, class, c);
    }
}

/// So many empty texts.
pub open spec fn empties(n: nat) -> Seq<Seq<char>> {
    Seq::new(n, |i: int| Seq::<char>::empty())
}

/// What trimming slashes at the start takes from the pieces of a path: empty ones,
/// at the start.
proof fn lemma_pieces_trimmed_start(s: Seq<char>) -> (n: nat)
    ensures
        pieces(s, '/') == empties(n) + pieces(trimmed_start(s, CharClass::Slash), '/'),
    decreases s.len(),
{
    if s.len() > 0 && s.first() == '/' {
        let rest = s.drop_first();
        let nothing = Seq::<char>::empty();
        let n = lemma_pieces_trimmed_start(rest);
        assert(s =~= nothing.push('/') + rest);
        lemma_pieces_concat(nothing, rest, '/');
        assert(pieces(nothing, '/') + empties(n) =~= empties(n + 1));
        assert(pieces(s, '/') =~= empties(n + 1) + pieces(
            trimmed_start(s, CharClass::Slash),
            '/',
        ));
        n + 1
    } else {
        assert(empties(0) + pieces(s, '/') =~= pieces(s, '/'));
        0
    }
}

/// What trimming slashes at the end takes from the pieces of a path: empty ones, at
/// the end.
proof fn lemma_pieces_trimmed_end(s: Seq<char>) -> (n: nat)
    ensures
        pieces(s, '/') == pieces(trimmed_end(s, CharClass::Slash), '/') + empties(n),
    decreases s.len(),
{
    if s.len() > 0 && s.last() == '/' {
        let n = lemma_pieces_trimmed_end(s.drop_last());
        assert(empties(n).push(Seq::empty()) =~= empties(n + 1));
        assert(pieces(s, '/') =~= pieces(trimmed_end(s, CharClass::Slash), '/') + empties(n + 1));
        n + 1
    } else {
        assert(pieces(s, '/') + empties(0) =~= pieces(s, '/'));
        0
    }
}

/// A path without its outer slashes has the path's segments but for empty ones at
/// either end: `n.0` at the start, and `n.1` at the end.
pub proof fn lemma_pieces_trimmed(s: Seq<char>) -> (n: (nat, nat))
    ensures
        pieces(s, '/') == empties(n.0) + pieces(trimmed(s, CharClass::Slash), '/') + empties(n.1),
{
    let front = lemma_pieces_trimmed_start(s);
    let back = lemma_pieces_trimmed_end(trimmed_start(s, CharClass::Slash));
    assert(pieces(s, '/') =~= empties(front) + pieces(trimmed(s, CharClass::Slash), '/') + empties(
        back,
    ));
    (front, back)
}

/// What trimming at the start takes: characters of the class.
pub proof fn lemma_start_split(s: Seq<char>, class: CharClass) -> (front: Seq<char>)
    ensures
        s == front + trimmed_start(s, class),
        forall|i: int| 0 <= i < front.len() ==> class.has(#[trigger] front[i]),
    decreases s.len(),
{
    if s.len() > 0 && class.has(s.first()) {
        let rest = lemma_start_split(s.drop_first(), class);
        let front = seq![s.first()] + rest;
        assert(s =~= seq![s.first()] + s.drop_first());
        assert(s =~= front + trimmed_start(s, class));
        front
    } else {
        assert(s =~= Seq::<char>::empty() + s);
        Seq::empty()
    }
}

/// What trimming at the end takes: characters of the class.
pub proof fn lemma_end_split(s: Seq<char>, class: CharClass) -> (back: Seq<char>)
    ensures
        s == trimmed_end(s, class) + back,
        forall|i: int| 0 <= i < back.len() ==> class.has(#[trigger] back[i]),
    decreases s.len(),
{
    if s.len() > 0 && class.has(s.last()) {
        let rest = lemma_end_split(s.drop_last(), class);
        let back = rest.push(s.last());
        assert(s =~= s.drop_last().push(s.last()));
        assert(s =~= trimmed_end(s, class) + back);
        back
    } else {
        assert(s =~= s + Seq::<char>::empty());
        Seq::empty()
    }
}

/// A text without the separator is its only piece.
pub proof fn lemma_one_piece(s: Seq<char>, sep: char)
    requires
        forall|i: int| 0 <= i < s.len() ==> #[trigger] s[i] != sep,
    ensures
        pieces(s, sep) == seq![s],
    decreases s.len(),
{
    if s.len() > 0 {
        let rest = s.drop_last();
        assert forall|i: int| 0 <= i < rest.len() implies #[trigger] rest[i] != sep by {
            assert(rest[i] == s[i]);
        }
        lemma_one_piece(rest, sep);
        assert(s.last() == s[s.len() - 1]);
        assert(rest.push(s.last()) =~= s);
        assert(pieces(s, sep) =~= seq![s]);
    } else {
        assert(s =~= Seq::<char>::empty());
    }
}

/// Without a separator at the start, and without two in a row, no piece is empty but
/// the last, and that one only behind a separator.
pub proof fn lemma_no_empty_piece(s: Seq<char>, sep: char)
    requires
        s.len() > 0,
        s.first() != sep,
        forall|i: int| 0 <= i < s.len() - 1 && #[trigger] s[i] == sep ==> s[i + 1] != sep,
    ensures
        forall|i: int|
            0 <= i < pieces(s, sep).len() - 1 ==> (#[trigger] pieces(s, sep)[i]).len() > 0,
        pieces(s, sep).len() > 0,
        s.last() != sep ==> pieces(s, sep).last().len() > 0,
    decreases s.len(),
{
    let rest = s.drop_last();
    lemma_pieces_some(s, sep);
    if rest.len() > 0 {
        assert(rest.first() == s.first());
        assert forall|i: int| 0 <= i < rest.len() - 1 && #[trigger] rest[i] == sep implies rest[i
            + 1] != sep by {
            assert(s[i] == rest[i]);
        }
        lemma_no_empty_piece(rest, sep);
        assert(rest.last() == s[s.len() - 2]);
        let before = pieces(rest, sep);
        assert forall|i: int| 0 <= i < pieces(s, sep).len() - 1 implies (#[trigger] pieces(
            s,
            sep,
        )[i]).len() > 0 by {
            assert(pieces(s, sep)[i] == before[i]);
            if i < before.len() - 1 {
                assert(before[i].len() > 0);
            }
        }
    } else {
        assert(rest =~= Seq::<char>::empty());
        assert(s.last() == s.first());
        assert(pieces(rest, sep).len() == 1);
    }
}

} // verus!
