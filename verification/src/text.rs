//! Text primitives shared by the board: character classes, trimming, splitting
//! and decimal numbers.
//!
//! Every executable function works on the characters of a string and is stated
//! over `Seq<char>`.

use vstd::prelude::*;
use vstd::string::*;

verus! {

/// `String::push` appends one character.
pub assume_specification[ String::push ](text: &mut String, c: char)
    ensures
        final(text)@ == old(text)@.push(c),
;

/// A character with the Unicode `White_Space` property.
pub open spec fn is_space(c: char) -> bool {
    let n = c as int;
    ||| 0x9 <= n <= 0xd
    ||| n == 0x20
    ||| n == 0x85
    ||| n == 0xa0
    ||| n == 0x1680
    ||| 0x2000 <= n <= 0x200a
    ||| n == 0x2028
    ||| n == 0x2029
    ||| n == 0x202f
    ||| n == 0x205f
    ||| n == 0x3000
}

/// Whether a character is Unicode white space.
pub fn is_whitespace(c: char) -> (r: bool)
    ensures
        r == is_space(c),
{
    let n: u32 = c as u32;
    (0x9 <= n && n <= 0xd) || n == 0x20 || n == 0x85 || n == 0xa0 || n == 0x1680 || (0x2000 <= n
        && n <= 0x200a) || n == 0x2028 || n == 0x2029 || n == 0x202f || n == 0x205f || n == 0x3000
}

/// ASCII upper case of one character; other characters are unchanged.
pub open spec fn upper(c: char) -> char {
    if 'a' <= c <= 'z' {
        (c as int - 32) as char
    } else {
        c
    }
}

/// ASCII upper case of a text.
pub open spec fn upper_text(s: Seq<char>) -> Seq<char> {
    Seq::new(s.len(), |i: int| upper(s[i]))
}

/// ASCII upper case of one character.
pub fn upper_char(c: char) -> (r: char)
    ensures
        r == upper(c),
{
    if 'a' <= c && c <= 'z' {
        ((c as u32 - 32) as u8) as char
    } else {
        c
    }
}

/// The characters of a string.
pub fn chars_of(s: &str) -> (r: Vec<char>)
    ensures
        r@ == s@,
{
    let mut out: Vec<char> = Vec::new();
    for c in it: s.chars()
        invariant
            out@ == it.seq().take(it.index() as int),
            it.seq() == s@,
    {
        out.push(c);
    }
    assert(out@ =~= s@);
    out
}

/// The string made of some characters.
pub fn text_of(chars: &[char]) -> (r: String)
    ensures
        r@ == chars@,
{
    let mut out: String = String::new();
    let mut i: usize = 0;
    while i < chars.len()
        invariant
            i <= chars@.len(),
            out@ == chars@.take(i as int),
        decreases chars@.len() - i,
    {
        out.push(chars[i]);
        i = i + 1;
        assert(chars@.take(i as int) =~= chars@.take(i - 1).push(chars@[i - 1]));
    }
    assert(chars@.take(i as int) =~= chars@);
    out
}

/// The characters of each string of a list.
pub open spec fn texts(list: Seq<String>) -> Seq<Seq<char>> {
    Seq::new(list.len(), |i: int| list[i]@)
}

/// Index of the first character that satisfies `p`, or the length.
pub open spec fn position(s: Seq<char>, p: spec_fn(char) -> bool) -> int
    decreases s.len(),
{
    if s.len() == 0 || p(s[0]) {
        0
    } else {
        1 + position(s.drop_first(), p)
    }
}

/// `position` is the only index with its defining property.
pub proof fn lemma_position(s: Seq<char>, p: spec_fn(char) -> bool, k: int)
    requires
        0 <= k <= s.len(),
        forall|i: int| 0 <= i < k ==> !p(#[trigger] s[i]),
        k < s.len() ==> p(s[k]),
    ensures
        position(s, p) == k,
    decreases s.len(),
{
    if k > 0 {
        assert(!p(s[0]));
        let rest = s.drop_first();
        assert forall|i: int| 0 <= i < k - 1 implies !p(#[trigger] rest[i]) by {
            assert(rest[i] == s[i + 1]);
        }
        lemma_position(rest, p, k - 1);
    }
}

/// What `position` promises.
pub proof fn lemma_position_bounds(s: Seq<char>, p: spec_fn(char) -> bool)
    ensures
        0 <= position(s, p) <= s.len(),
        forall|i: int| 0 <= i < position(s, p) ==> !p(#[trigger] s[i]),
        position(s, p) < s.len() ==> p(s[position(s, p)]),
    decreases s.len(),
{
    if s.len() != 0 && !p(s[0]) {
        let rest = s.drop_first();
        lemma_position_bounds(rest, p);
        assert forall|i: int| 0 <= i < position(s, p) implies !p(#[trigger] s[i]) by {
            if i > 0 {
                assert(rest[i - 1] == s[i]);
            }
        }
    }
}

/// A text without its leading white space.
pub open spec fn trim_start(s: Seq<char>) -> Seq<char> {
    s.skip(position(s, |c: char| !is_space(c)))
}

/// A text without its trailing white space.
pub open spec fn trim_end(s: Seq<char>) -> Seq<char>
    decreases s.len(),
{
    if s.len() > 0 && is_space(s.last()) {
        trim_end(s.drop_last())
    } else {
        s
    }
}

/// A text without white space at either end.
pub open spec fn trimmed(s: Seq<char>) -> Seq<char> {
    trim_end(trim_start(s))
}

/// The text without white space at either end.
pub fn trim(s: &str) -> (r: String)
    ensures
        r@ == trimmed(s@),
{
    let chars: Vec<char> = chars_of(s);
    let n: usize = chars.len();
    let mut from: usize = 0;
    while from < n && is_whitespace(chars[from])
        invariant
            n == chars@.len(),
            from <= n,
            forall|i: int| 0 <= i < from ==> is_space(#[trigger] chars@[i]),
        decreases n - from,
    {
        from = from + 1;
    }
    proof {
        let p = |c: char| !is_space(c);
        assert forall|i: int| 0 <= i < from implies !p(#[trigger] chars@[i]) by {
            assert(is_space(chars@[i]));
        }
        lemma_position(chars@, p, from as int);
    }
    let ghost start = trim_start(chars@);
    assert(start == chars@.skip(from as int));
    let mut to: usize = n;
    assert(chars@.subrange(from as int, to as int) =~= start);
    while to > from && is_whitespace(chars[to - 1])
        invariant
            from <= to <= n,
            n == chars@.len(),
            trim_end(chars@.subrange(from as int, to as int)) == trim_end(start),
        decreases to,
    {
        assert(chars@.subrange(from as int, to as int).drop_last() =~= chars@.subrange(
            from as int,
            to - 1,
        ));
        to = to - 1;
    }
    text_of(vstd::slice::slice_subrange(chars.as_slice(), from, to))
}

/// The white-space separated words of a text.
pub open spec fn words(s: Seq<char>) -> Seq<Seq<char>>
    decreases s.len(),
    via words_shrink
{
    let t = trim_start(s);
    if t.len() == 0 {
        Seq::empty()
    } else {
        let k = position(t, |c: char| is_space(c));
        seq![t.take(k)] + words(t.skip(k))
    }
}

#[via_fn]
proof fn words_shrink(s: Seq<char>) {
    let not_space = |c: char| !is_space(c);
    let space = |c: char| is_space(c);
    lemma_position_bounds(s, not_space);
    let t = trim_start(s);
    lemma_position_bounds(t, space);
    if t.len() > 0 {
        assert(not_space(s[position(s, not_space)]));
        assert(t[0] == s[position(s, not_space)]);
        assert(position(t, space) > 0);
    }
}

/// White space before a text does not change its words.
proof fn lemma_words_leading_space(s: Seq<char>)
    requires
        s.len() > 0,
        is_space(s[0]),
    ensures
        words(s) == words(s.drop_first()),
{
    let p = |c: char| !is_space(c);
    assert(!p(s[0]));
    assert(position(s, p) == 1 + position(s.drop_first(), p));
    lemma_position_bounds(s.drop_first(), p);
    assert(trim_start(s) =~= trim_start(s.drop_first()));
}

/// A text that starts with a word of `k` characters.
proof fn lemma_words_leading_word(s: Seq<char>, k: int)
    requires
        0 < k <= s.len(),
        forall|i: int| 0 <= i < k ==> !is_space(#[trigger] s[i]),
        k < s.len() ==> is_space(s[k]),
    ensures
        words(s) == seq![s.take(k)] + words(s.skip(k)),
{
    let p = |c: char| !is_space(c);
    assert(p(s[0]));
    assert(position(s, p) == 0);
    assert(trim_start(s) =~= s);
    let q = |c: char| is_space(c);
    assert forall|i: int| 0 <= i < k implies !q(#[trigger] s[i]) by {
        assert(!is_space(s[i]));
    }
    lemma_position(s, q, k);
}

/// The white-space separated words of a text.
pub fn split_whitespace(s: &str) -> (r: Vec<String>)
    ensures
        texts(r@) == words(s@),
{
    let chars: Vec<char> = chars_of(s);
    let n: usize = chars.len();
    let mut out: Vec<String> = Vec::new();
    let mut i: usize = 0;
    assert(chars@.skip(0) =~= chars@);
    assert(texts(out@) + words(chars@.skip(0)) =~= words(s@));
    while i < n
        invariant
            n == chars@.len(),
            i <= n,
            chars@ == s@,
            texts(out@) + words(chars@.skip(i as int)) == words(s@),
        decreases n - i,
    {
        let ghost rest = chars@.skip(i as int);
        if is_whitespace(chars[i]) {
            proof {
                lemma_words_leading_space(rest);
                assert(rest.drop_first() =~= chars@.skip(i + 1));
            }
            i = i + 1;
        } else {
            let mut j: usize = i + 1;
            while j < n && !is_whitespace(chars[j])
                invariant
                    n == chars@.len(),
                    i < j <= n,
                    forall|x: int| i <= x < j ==> !is_space(#[trigger] chars@[x]),
                decreases n - j,
            {
                j = j + 1;
            }
            let word: String = text_of(vstd::slice::slice_subrange(chars.as_slice(), i, j));
            proof {
                lemma_words_leading_word(rest, j - i);
                assert(rest.skip(j - i) =~= chars@.skip(j as int));
                assert(rest.take(j - i) =~= word@);
                assert(texts(out@.push(word)) =~= texts(out@) + seq![word@]);
                assert(texts(out@) + (seq![word@] + words(chars@.skip(j as int))) =~= (texts(out@)
                    + seq![word@]) + words(chars@.skip(j as int)));
            }
            out.push(word);
            i = j;
        }
    }
    proof {
        assert(chars@.skip(i as int) =~= Seq::empty());
        lemma_position_bounds(Seq::empty(), |c: char| !is_space(c));
        assert(words(chars@.skip(i as int)) =~= Seq::empty());
        assert(texts(out@) + Seq::empty() =~= texts(out@));
    }
    out
}

/// The property of being the character `c`.
pub open spec fn equals(c: char) -> spec_fn(char) -> bool {
    |x: char| x == c
}

/// Index of the first `c` in a text, or its length.
pub open spec fn first_of(s: Seq<char>, c: char) -> int {
    position(s, equals(c))
}

/// The pieces of a text between occurrences of `sep`.
pub open spec fn pieces(s: Seq<char>, sep: char) -> Seq<Seq<char>>
    decreases s.len(),
    via pieces_shrink
{
    let k = first_of(s, sep);
    if k == s.len() {
        seq![s]
    } else {
        seq![s.take(k)] + pieces(s.skip(k + 1), sep)
    }
}

#[via_fn]
proof fn pieces_shrink(s: Seq<char>, sep: char) {
    lemma_position_bounds(s, equals(sep));
}

/// Lines joined by `sep`.
pub open spec fn joined(list: Seq<Seq<char>>, sep: char) -> Seq<char>
    decreases list.len(),
{
    if list.len() == 0 {
        Seq::empty()
    } else if list.len() == 1 {
        list[0]
    } else {
        joined(list.drop_last(), sep) + seq![sep] + list.last()
    }
}

/// What `first_of` promises.
pub proof fn lemma_first_of(s: Seq<char>, c: char)
    ensures
        0 <= first_of(s, c) <= s.len(),
        forall|i: int| 0 <= i < first_of(s, c) ==> #[trigger] s[i] != c,
        first_of(s, c) < s.len() ==> s[first_of(s, c)] == c,
{
    let p = equals(c);
    lemma_position_bounds(s, p);
    assert forall|i: int| 0 <= i < first_of(s, c) implies #[trigger] s[i] != c by {
        assert(!p(s[i]));
    }
}

/// `first_of` is the only index with its defining property.
pub proof fn lemma_first_of_unique(s: Seq<char>, c: char, k: int)
    requires
        0 <= k <= s.len(),
        forall|i: int| 0 <= i < k ==> #[trigger] s[i] != c,
        k < s.len() ==> s[k] == c,
    ensures
        first_of(s, c) == k,
{
    let p = equals(c);
    assert forall|i: int| 0 <= i < k implies !p(#[trigger] s[i]) by {
        assert(s[i] != c);
    }
    lemma_position(s, p, k);
}

/// Index of the first `c` among some characters, or their number.
pub fn find_char(chars: &[char], c: char) -> (r: usize)
    ensures
        r == first_of(chars@, c),
        r <= chars@.len(),
{
    let mut i: usize = 0;
    while i < chars.len() && chars[i] != c
        invariant
            i <= chars@.len(),
            forall|x: int| 0 <= x < i ==> #[trigger] chars@[x] != c,
        decreases chars@.len() - i,
    {
        i = i + 1;
    }
    proof {
        lemma_first_of_unique(chars@, c, i as int);
    }
    i
}

/// The pieces of a text between occurrences of `sep`.
pub fn split(s: &str, sep: char) -> (r: Vec<String>)
    ensures
        texts(r@) == pieces(s@, sep),
{
    let chars: Vec<char> = chars_of(s);
    let n: usize = chars.len();
    let mut out: Vec<String> = Vec::new();
    let mut from: usize = 0;
    let mut i: usize = 0;
    assert(chars@.skip(0) =~= chars@);
    assert(texts(out@) + pieces(chars@.skip(0), sep) =~= pieces(s@, sep));
    while i < n
        invariant
            n == chars@.len(),
            from <= i <= n,
            chars@ == s@,
            forall|x: int| from <= x < i ==> #[trigger] chars@[x] != sep,
            texts(out@) + pieces(chars@.skip(from as int), sep) == pieces(s@, sep),
        decreases n - i,
    {
        if chars[i] == sep {
            let piece: String = text_of(vstd::slice::slice_subrange(chars.as_slice(), from, i));
            proof {
                let rest = chars@.skip(from as int);
                assert forall|x: int| 0 <= x < i - from implies #[trigger] rest[x] != sep by {
                    assert(rest[x] == chars@[x + from]);
                }
                lemma_first_of_unique(rest, sep, i - from);
                assert(rest.take(i - from) =~= piece@);
                assert(rest.skip(i - from + 1) =~= chars@.skip(i + 1));
                assert(texts(out@.push(piece)) =~= texts(out@) + seq![piece@]);
                assert(texts(out@) + (seq![piece@] + pieces(chars@.skip(i + 1), sep)) =~= (texts(
                    out@,
                ) + seq![piece@]) + pieces(chars@.skip(i + 1), sep));
            }
            out.push(piece);
            from = i + 1;
        }
        i = i + 1;
    }
    let piece: String = text_of(vstd::slice::slice_subrange(chars.as_slice(), from, n));
    proof {
        let rest = chars@.skip(from as int);
        assert forall|x: int| 0 <= x < rest.len() implies #[trigger] rest[x] != sep by {
            assert(rest[x] == chars@[x + from]);
        }
        lemma_first_of_unique(rest, sep, rest.len() as int);
        assert(rest =~= piece@);
        assert(texts(out@.push(piece)) =~= texts(out@) + seq![piece@]);
    }
    out.push(piece);
    out
}

/// Lines joined by `sep`.
pub fn join(list: &Vec<String>, sep: char) -> (r: String)
    ensures
        r@ == joined(texts(list@), sep),
{
    let mut out: String = String::new();
    let mut i: usize = 0;
    let ghost all = texts(list@);
    while i < list.len()
        invariant
            i <= list@.len(),
            all == texts(list@),
            out@ == joined(all.take(i as int), sep),
        decreases list@.len() - i,
    {
        if i > 0 {
            out.push(sep);
        }
        out.append(list[i].as_str());
        proof {
            assert(all.take(i + 1).drop_last() =~= all.take(i as int));
            assert(out@ =~= joined(all.take(i + 1), sep));
        }
        i = i + 1;
    }
    assert(all.take(i as int) =~= all);
    out
}

/// A piece that ends at the first separator, then the rest.
proof fn lemma_pieces_of_append(a: Seq<char>, b: Seq<char>, sep: char)
    requires
        !a.contains(sep),
    ensures
        pieces(a + seq![sep] + b, sep) == seq![a] + pieces(b, sep),
{
    let s = a + seq![sep] + b;
    assert forall|i: int| 0 <= i < a.len() implies #[trigger] s[i] != sep by {
        assert(s[i] == a[i]);
        assert(a.contains(a[i]));
    }
    lemma_first_of_unique(s, sep, a.len() as int);
    assert(s.take(a.len() as int) =~= a);
    assert(s.skip(a.len() as int + 1) =~= b);
}

proof fn lemma_joined_front(list: Seq<Seq<char>>, sep: char)
    requires
        list.len() >= 2,
    ensures
        joined(list, sep) == list[0] + seq![sep] + joined(list.drop_first(), sep),
    decreases list.len(),
{
    if list.len() == 2 {
        assert(list.drop_last().len() == 1);
        assert(joined(list.drop_last(), sep) == list[0]);
        assert(joined(list.drop_first(), sep) == list[1]);
    } else {
        let front = list.drop_last();
        lemma_joined_front(front, sep);
        assert(front.drop_first() =~= list.drop_first().drop_last());
        assert(list.drop_first().last() == list.last());
        assert(joined(list, sep) =~= list[0] + seq![sep] + joined(list.drop_first(), sep));
    }
}

/// Splitting what was joined gives the lines back, as long as no line holds the
/// separator.
pub proof fn law_split_undoes_join(list: Seq<Seq<char>>, sep: char)
    requires
        list.len() > 0,
        forall|i: int| 0 <= i < list.len() ==> !(#[trigger] list[i]).contains(sep),
    ensures
        pieces(joined(list, sep), sep) == list,
    decreases list.len(),
{
    if list.len() == 1 {
        let s = list[0];
        assert forall|i: int| 0 <= i < s.len() implies #[trigger] s[i] != sep by {
            assert(s.contains(s[i]));
        }
        lemma_first_of_unique(s, sep, s.len() as int);
        assert(pieces(s, sep) =~= list);
    } else {
        lemma_joined_front(list, sep);
        let rest = list.drop_first();
        assert forall|i: int| 0 <= i < rest.len() implies !(#[trigger] rest[i]).contains(sep) by {
            assert(rest[i] == list[i + 1]);
        }
        law_split_undoes_join(rest, sep);
        lemma_pieces_of_append(list[0], joined(rest, sep), sep);
        assert(seq![list[0]] + rest =~= list);
    }
}

/// Whether two strings hold the same characters.
pub fn same_text(a: &str, b: &str) -> (r: bool)
    ensures
        r == (a@ == b@),
{
    let x: Vec<char> = chars_of(a);
    let y: Vec<char> = chars_of(b);
    same_chars(x.as_slice(), y.as_slice())
}

/// Whether two slices hold the same characters.
pub fn same_chars(a: &[char], b: &[char]) -> (r: bool)
    ensures
        r == (a@ == b@),
{
    if a.len() != b.len() {
        return false;
    }
    let mut i: usize = 0;
    while i < a.len()
        invariant
            a@.len() == b@.len(),
            i <= a@.len(),
            forall|x: int| 0 <= x < i ==> a@[x] == b@[x],
        decreases a@.len() - i,
    {
        if a[i] != b[i] {
            return false;
        }
        i = i + 1;
    }
    assert(a@ =~= b@);
    true
}

/// The ASCII upper case of a string.
pub fn to_upper(s: &str) -> (r: String)
    ensures
        r@ == upper_text(s@),
{
    let chars: Vec<char> = chars_of(s);
    let mut out: String = String::new();
    let mut i: usize = 0;
    while i < chars.len()
        invariant
            i <= chars@.len(),
            out@ == upper_text(chars@.take(i as int)),
        decreases chars@.len() - i,
    {
        out.push(upper_char(chars[i]));
        i = i + 1;
        assert(upper_text(chars@.take(i as int)) =~= upper_text(chars@.take(i - 1)).push(
            upper(chars@[i - 1]),
        ));
    }
    assert(chars@.take(i as int) =~= chars@);
    out
}

/// `needle` stands in `s` at index `at`.
pub open spec fn stands_at(s: Seq<char>, needle: Seq<char>, at: int) -> bool {
    0 <= at && at + needle.len() <= s.len() && s.subrange(at, at + needle.len()) == needle
}

/// `needle` occurs somewhere in `s`.
pub open spec fn occurs(s: Seq<char>, needle: Seq<char>) -> bool {
    exists|at: int| #[trigger] stands_at(s, needle, at)
}

/// Whether `needle` occurs somewhere in `s`.
pub fn contains(s: &str, needle: &str) -> (r: bool)
    ensures
        r == occurs(s@, needle@),
{
    let hay: Vec<char> = chars_of(s);
    let word: Vec<char> = chars_of(needle);
    if word.len() > hay.len() {
        assert forall|at: int| !(#[trigger] stands_at(s@, needle@, at)) by {}
        return false;
    }
    let last: usize = hay.len() - word.len();
    let mut i: usize = 0;
    loop
        invariant
            hay@ == s@,
            word@ == needle@,
            last == hay@.len() - word@.len(),
            i <= last,
            forall|at: int| 0 <= at < i ==> !(#[trigger] stands_at(s@, needle@, at)),
        decreases last - i,
    {
        let to: usize = hay.len() - (last - i);
        if same_chars(
            vstd::slice::slice_subrange(hay.as_slice(), i, to),
            word.as_slice(),
        ) {
            assert(stands_at(s@, needle@, i as int));
            return true;
        }
        assert(!stands_at(s@, needle@, i as int));
        if i == last {
            return false;
        }
        i = i + 1;
    }
}

/// The decimal digit of a number below ten.
pub open spec fn digit(d: int) -> char {
    ('0' as int + d) as char
}

/// A natural number in decimal.
pub open spec fn decimal(n: nat) -> Seq<char>
    decreases n,
{
    if n < 10 {
        seq![digit(n as int)]
    } else {
        decimal(n / 10).push(digit((n % 10) as int))
    }
}

/// An integer in decimal.
pub open spec fn integer(n: int) -> Seq<char> {
    if n < 0 {
        seq!['-'] + decimal((-n) as nat)
    } else {
        decimal(n as nat)
    }
}

/// A natural number in decimal, with zeros in front up to `width` characters.
pub open spec fn padded(n: nat, width: nat) -> Seq<char> {
    let d = decimal(n);
    if d.len() < width {
        Seq::new((width - d.len()) as nat, |i: int| '0') + d
    } else {
        d
    }
}

/// A text with spaces behind it up to `width` characters.
pub open spec fn left_aligned(s: Seq<char>, width: nat) -> Seq<char> {
    if s.len() < width {
        s + Seq::new((width - s.len()) as nat, |i: int| ' ')
    } else {
        s
    }
}

/// Append a natural number in decimal.
pub fn push_decimal(out: &mut String, n: u64)
    ensures
        final(out)@ == old(out)@ + decimal(n as nat),
    decreases n,
{
    let ghost before = out@;
    if n >= 10 {
        push_decimal(out, n / 10);
    }
    let d: u8 = (n % 10) as u8;
    let c: char = (d + 48) as char;
    out.push(c);
    assert(c == digit((n % 10) as int));
    assert(out@ =~= before + decimal(n as nat));
}

/// Append an integer in decimal.
pub fn push_integer(out: &mut String, n: i64)
    ensures
        final(out)@ == old(out)@ + integer(n as int),
{
    if n < 0 {
        let magnitude: u64 = (-(n + 1)) as u64 + 1;
        let ghost before = out@;
        out.push('-');
        push_decimal(out, magnitude);
        assert(out@ =~= before + integer(n as int));
    } else {
        push_decimal(out, n as u64);
    }
}

/// Append a natural number in decimal, with zeros in front up to `width`
/// characters.
pub fn push_padded(out: &mut String, n: u64, width: usize)
    ensures
        final(out)@ == old(out)@ + padded(n as nat, width as nat),
{
    let mut text: String = String::new();
    push_decimal(&mut text, n);
    assert(text@ =~= decimal(n as nat));
    let length: usize = chars_of(text.as_str()).len();
    let ghost before = out@;
    let mut i: usize = length;
    while i < width
        invariant
            i >= length,
            i <= width || i == length,
            out@ == before + Seq::new((i - length) as nat, |x: int| '0'),
        decreases width - i,
    {
        out.push('0');
        i = i + 1;
        assert(out@ =~= before + Seq::new((i - length) as nat, |x: int| '0'));
    }
    out.append(text.as_str());
    assert(out@ =~= before + padded(n as nat, width as nat));
}

/// Append a text with spaces behind it up to `width` characters.
pub fn push_left_aligned(out: &mut String, s: &str, width: usize)
    ensures
        final(out)@ == old(out)@ + left_aligned(s@, width as nat),
{
    let length: usize = chars_of(s).len();
    let ghost before = out@;
    out.append(s);
    let mut i: usize = length;
    while i < width
        invariant
            i >= length,
            length == s@.len(),
            i <= width || i == length,
            out@ == before + s@ + Seq::new((i - length) as nat, |x: int| ' '),
        decreases width - i,
    {
        out.push(' ');
        i = i + 1;
        assert(out@ =~= before + s@ + Seq::new((i - length) as nat, |x: int| ' '));
    }
    assert(out@ =~= before + left_aligned(s@, width as nat));
}

/// A decimal digit.
pub open spec fn is_digit(c: char) -> bool {
    '0' <= c <= '9'
}

/// At least one character, each of them a decimal digit.
pub open spec fn is_number(s: Seq<char>) -> bool {
    s.len() > 0 && forall|i: int| 0 <= i < s.len() ==> is_digit(#[trigger] s[i])
}

/// The number that some decimal digits stand for.
pub open spec fn number(s: Seq<char>) -> nat
    decreases s.len(),
{
    if s.len() == 0 {
        0
    } else {
        (number(s.drop_last()) * 10 + (s.last() as int - '0' as int)) as nat
    }
}

/// A number written with an optional plus sign in front.
pub open spec fn unsigned(s: Seq<char>) -> Option<nat> {
    let digits = if s.len() > 0 && s[0] == '+' {
        s.skip(1)
    } else {
        s
    };
    if is_number(digits) {
        Some(number(digits))
    } else {
        None
    }
}

/// The number that a text stands for, if it is one and at most `max`.
pub fn parse_number(s: &str, max: u64) -> (r: Option<u64>)
    ensures
        match r {
            Some(v) => unsigned(s@) == Some(v as nat) && v <= max,
            None => unsigned(s@) is None || unsigned(s@)->0 > max,
        },
{
    let chars: Vec<char> = chars_of(s);
    let n: usize = chars.len();
    let from: usize = if n > 0 && chars[0] == '+' {
        1
    } else {
        0
    };
    let ghost digits = chars@.skip(from as int);
    assert(chars@.skip(0) =~= chars@);
    if from == n {
        return None;
    }
    let mut value: u64 = 0;
    let mut i: usize = from;
    let mut too_large: bool = false;
    assert(digits.take(0) =~= Seq::empty());
    while i < n
        invariant
            n == chars@.len(),
            from <= i <= n,
            from <= 1,
            digits == chars@.skip(from as int),
            unsigned(s@) == (if is_number(digits) {
                Some(number(digits))
            } else {
                None
            }),
            forall|x: int| 0 <= x < i - from ==> is_digit(#[trigger] digits[x]),
            !too_large ==> value == number(digits.take(i - from)) && value <= max,
            too_large ==> number(digits.take(i - from)) > max,
        decreases n - i,
    {
        let c: char = chars[i];
        assert(digits[i - from] == c);
        if c < '0' || '9' < c {
            assert(!is_number(digits));
            return None;
        }
        let d: u64 = (c as u32 - 48) as u64;
        assert(digits.take(i + 1 - from).drop_last() =~= digits.take(i - from));
        if !too_large {
            if d > max || value > max / 10 || value * 10 > max - d {
                too_large = true;
            } else {
                value = value * 10 + d;
            }
        }
        i = i + 1;
    }
    assert(digits.take(n - from) =~= digits);
    assert(is_number(digits));
    if too_large {
        None
    } else {
        Some(value)
    }
}

proof fn lemma_decimal_digits(n: nat)
    ensures
        is_number(decimal(n)),
        number(decimal(n)) == n,
    decreases n,
{
    let s = decimal(n);
    if n < 10 {
        assert(s.drop_last() =~= Seq::empty());
        assert(number(s.drop_last()) == 0);
    } else {
        lemma_decimal_digits(n / 10);
        assert(s.drop_last() =~= decimal(n / 10));
        assert forall|i: int| 0 <= i < s.len() implies is_digit(#[trigger] s[i]) by {
            if i < s.len() - 1 {
                assert(s[i] == decimal(n / 10)[i]);
            }
        }
    }
}

/// A natural number written in decimal reads back as itself.
pub proof fn law_decimal_reads_back(n: nat)
    ensures
        unsigned(decimal(n)) == Some(n),
{
    lemma_decimal_digits(n);
    assert(is_digit(decimal(n)[0]));
}

/// White space is what Unicode calls so, and nothing else.
pub proof fn law_white_space(c: char)
    ensures
        is_space(c) <==> seq![
            0x9int,
            0xa,
            0xb,
            0xc,
            0xd,
            0x20,
            0x85,
            0xa0,
            0x1680,
            0x2000,
            0x2001,
            0x2002,
            0x2003,
            0x2004,
            0x2005,
            0x2006,
            0x2007,
            0x2008,
            0x2009,
            0x200a,
            0x2028,
            0x2029,
            0x202f,
            0x205f,
            0x3000,
        ].contains(c as int),
{
    let all = seq![
        0x9int,
        0xa,
        0xb,
        0xc,
        0xd,
        0x20,
        0x85,
        0xa0,
        0x1680,
        0x2000,
        0x2001,
        0x2002,
        0x2003,
        0x2004,
        0x2005,
        0x2006,
        0x2007,
        0x2008,
        0x2009,
        0x200a,
        0x2028,
        0x2029,
        0x202f,
        0x205f,
        0x3000,
    ];
    let n = c as int;
    let at = if n <= 0xd {
        n - 9
    } else if n == 0x20 {
        5
    } else if n == 0x85 {
        6
    } else if n == 0xa0 {
        7
    } else if n == 0x1680 {
        8
    } else if n <= 0x200a {
        n - 0x2000 + 9
    } else if n == 0x2028 {
        20
    } else if n == 0x2029 {
        21
    } else if n == 0x202f {
        22
    } else if n == 0x205f {
        23
    } else {
        24
    };
    if is_space(c) {
        assert(all[at] == n);
    }
}

/// Upper case moves the ASCII letters by the distance of the two alphabets, and
/// keeps every other character, in its place.
pub proof fn law_upper_case(s: Seq<char>, i: int)
    requires
        0 <= i < s.len(),
    ensures
        upper_text(s).len() == s.len(),
        97 <= s[i] as int <= 122 ==> upper_text(s)[i] as int == s[i] as int - 32,
        !(97 <= s[i] as int <= 122) ==> upper_text(s)[i] == s[i],
{
}

proof fn lemma_trim_end_push(s: Seq<char>, c: char)
    requires
        is_space(c),
    ensures
        trim_end(s.push(c)) == trim_end(s),
{
    assert(s.push(c).drop_last() =~= s);
}

/// White space at either end of a text makes no difference to what is left when
/// it is trimmed, and a text without any is left as it is.
pub proof fn law_trimming(s: Seq<char>, c: char)
    ensures
        is_space(c) ==> trimmed(seq![c] + s) == trimmed(s),
        is_space(c) ==> trimmed(s.push(c)) == trimmed(s),
        s.len() > 0 && !is_space(s[0]) && !is_space(s.last()) ==> trimmed(s) == s,
        trimmed(Seq::<char>::empty()) == Seq::<char>::empty(),
{
    let p = |c: char| !is_space(c);
    lemma_position_bounds(s, p);
    let k = position(s, p);
    if is_space(c) {
        let front = seq![c] + s;
        assert(!p(front[0]));
        assert(front.drop_first() =~= s);
        assert(front.skip(position(front, p)) =~= s.skip(k));
        let back = s.push(c);
        if k < s.len() {
            assert(p(s[k]));
            assert forall|i: int| 0 <= i < k implies !p(#[trigger] back[i]) by {
                assert(!p(s[i]));
            }
            lemma_position(back, p, k);
            assert(trim_start(back) =~= trim_start(s).push(c));
            lemma_trim_end_push(trim_start(s), c);
        } else {
            assert forall|i: int| 0 <= i < back.len() implies !p(#[trigger] back[i]) by {
                if i < s.len() {
                    assert(!p(s[i]));
                }
            }
            lemma_position(back, p, back.len() as int);
            assert(trim_start(back) =~= trim_start(s));
        }
    }
    if s.len() > 0 && !is_space(s[0]) && !is_space(s.last()) {
        assert(p(s[0]));
        assert(trim_start(s) =~= s);
    }
    assert(trim_start(Seq::<char>::empty()) =~= Seq::<char>::empty());
}

proof fn lemma_words_of_append(a: Seq<char>, c: char, b: Seq<char>)
    requires
        is_space(c),
    ensures
        words(a + seq![c] + b) == words(a) + words(b),
    decreases a.len(),
{
    let s = a + seq![c] + b;
    if a.len() == 0 {
        lemma_words_leading_space(s);
        assert(s.drop_first() =~= b);
        assert(trim_start(a) =~= a);
        assert(words(a) + words(b) =~= words(b));
    } else if is_space(a[0]) {
        lemma_words_leading_space(s);
        lemma_words_leading_space(a);
        assert(s.drop_first() =~= a.drop_first() + seq![c] + b);
        lemma_words_of_append(a.drop_first(), c, b);
    } else {
        let q = |c: char| is_space(c);
        lemma_position_bounds(a, q);
        let k = position(a, q);
        assert(!q(a[0]));
        assert forall|i: int| 0 <= i < k implies !is_space(#[trigger] a[i]) by {
            assert(!q(a[i]));
        }
        if k < a.len() {
            assert(q(a[k]));
        }
        assert forall|i: int| 0 <= i < k implies !is_space(#[trigger] s[i]) by {
            assert(!is_space(a[i]));
        }
        lemma_words_leading_word(a, k);
        lemma_words_leading_word(s, k);
        assert(s.take(k) =~= a.take(k));
        assert(s.skip(k) =~= a.skip(k) + seq![c] + b);
        lemma_words_of_append(a.skip(k), c, b);
        assert(words(s) =~= words(a) + words(b));
    }
}

/// The words of a text are what its white space separates: each white space
/// parts the words in front of it from those behind it, and a text without any
/// is one word, or none where it is empty.
pub proof fn law_words(a: Seq<char>, c: char, b: Seq<char>)
    ensures
        is_space(c) ==> words(a + seq![c] + b) == words(a) + words(b),
        a.len() > 0 && (forall|i: int| 0 <= i < a.len() ==> !is_space(#[trigger] a[i])) ==> words(
            a,
        ) == seq![a],
        words(Seq::<char>::empty()) == Seq::<Seq<char>>::empty(),
{
    let none = Seq::<char>::empty();
    assert(trim_start(none) =~= none);
    if is_space(c) {
        lemma_words_of_append(a, c, b);
    }
    if a.len() > 0 && (forall|i: int| 0 <= i < a.len() ==> !is_space(#[trigger] a[i])) {
        lemma_words_leading_word(a, a.len() as int);
        assert(a.take(a.len() as int) =~= a);
        assert(a.skip(a.len() as int) =~= none);
        assert(words(a) =~= seq![a]);
    }
}

/// Joining puts one separator between two lines and nothing else anywhere.
pub proof fn law_joining(list: Seq<Seq<char>>, last: Seq<char>, sep: char)
    ensures
        joined(Seq::<Seq<char>>::empty(), sep) == Seq::<char>::empty(),
        joined(seq![last], sep) == last,
        list.len() > 0 ==> joined(list.push(last), sep) == joined(list, sep) + seq![sep] + last,
{
    assert(list.push(last).drop_last() =~= list);
}

/// Splitting undone: the pieces of a text, joined again, are the text, and none
/// of them holds the separator.
pub proof fn law_join_undoes_split(s: Seq<char>, sep: char)
    ensures
        pieces(s, sep).len() > 0,
        joined(pieces(s, sep), sep) == s,
        forall|i: int| 0 <= i < pieces(s, sep).len() ==> !(#[trigger] pieces(s, sep)[i]).contains(
            sep,
        ),
    decreases s.len(),
{
    lemma_first_of(s, sep);
    let k = first_of(s, sep);
    if k < s.len() {
        let rest = s.skip(k + 1);
        law_join_undoes_split(rest, sep);
        let all = pieces(s, sep);
        assert(all =~= seq![s.take(k)] + pieces(rest, sep));
        assert(all.drop_first() =~= pieces(rest, sep));
        lemma_joined_front(all, sep);
        assert(s =~= s.take(k) + seq![sep] + rest);
        assert forall|i: int| 0 <= i < all.len() implies !(#[trigger] all[i]).contains(sep) by {
            if i > 0 {
                assert(all[i] == pieces(rest, sep)[i - 1]);
            }
        }
    } else {
        assert(pieces(s, sep) =~= seq![s]);
    }
}

/// A text holds a needle where it can be parted into what is in front of the
/// needle, the needle and what is behind it, and only there.
pub proof fn law_occurrence(s: Seq<char>, front: Seq<char>, needle: Seq<char>, back: Seq<char>)
    ensures
        occurs(front + needle + back, needle),
        occurs(s, needle) ==> exists|a: Seq<char>, b: Seq<char>| s == #[trigger] (a + needle + b),
{
    let whole = front + needle + back;
    assert(whole.subrange(front.len() as int, (front.len() + needle.len()) as int) =~= needle);
    assert(stands_at(whole, needle, front.len() as int));
    if occurs(s, needle) {
        let at = choose|at: int| #[trigger] stands_at(s, needle, at);
        let a = s.take(at);
        let b = s.skip(at + needle.len());
        assert(s =~= a + s.subrange(at, at + needle.len()) + b);
        assert(s == a + needle + b);
    }
}

/// A decimal number is its tenths in decimal and one digit behind them; a number
/// below ten is its digit. A negative one has a minus sign in front.
pub proof fn law_decimal(n: nat, d: nat)
    requires
        d < 10,
    ensures
        decimal(d).len() == 1,
        decimal(d)[0] as int == 48 + d,
        n > 0 ==> decimal(10 * n + d) == decimal(n) + decimal(d),
        integer(n as int) == decimal(n),
        n > 0 ==> integer(-n) == seq!['-'] + decimal(n),
{
    if n > 0 {
        let m = 10 * n + d;
        assert(m / 10 == n && m % 10 == d);
        assert(decimal(m) =~= decimal(n) + decimal(d));
    }
}

/// Padding adds zeros in front of a number, and aligning adds spaces behind a
/// text, one for each character that is missing to the width.
pub proof fn law_widths(n: nat, s: Seq<char>, width: nat)
    ensures
        width <= decimal(n).len() ==> padded(n, width) == decimal(n),
        width >= decimal(n).len() ==> padded(n, width + 1) == seq!['0'] + padded(n, width),
        width <= s.len() ==> left_aligned(s, width) == s,
        width >= s.len() ==> left_aligned(s, width + 1) == left_aligned(s, width).push(' '),
{
    if width >= decimal(n).len() {
        assert(padded(n, width + 1) =~= seq!['0'] + padded(n, width));
    }
    if width >= s.len() {
        assert(left_aligned(s, width + 1) =~= left_aligned(s, width).push(' '));
    }
}

proof fn lemma_number_push(s: Seq<char>, c: char)
    ensures
        is_number(s.push(c)) <==> is_digit(c) && (s.len() == 0 || is_number(s)),
        is_digit(c) ==> number(s.push(c)) == 10 * number(s) + (c as int - 48),
{
    let t = s.push(c);
    assert(t.drop_last() =~= s);
    assert(t[s.len() as int] == c);
    if is_number(t) && s.len() > 0 {
        assert forall|i: int| 0 <= i < s.len() implies is_digit(#[trigger] s[i]) by {
            assert(s[i] == t[i]);
        }
    }
}

/// A text stands for a number where it is made of digits, which count in tens,
/// with at most one plus sign in front; no other text does.
pub proof fn law_numbers(s: Seq<char>, c: char)
    ensures
        unsigned(Seq::<char>::empty()) is None,
        unsigned(seq!['+']) is None,
        48 <= c as int <= 57 ==> unsigned(seq![c]) == Some((c as int - 48) as nat),
        unsigned(s) is Some && 48 <= c as int <= 57 ==> unsigned(s.push(c)) == Some(
            (10 * unsigned(s)->0 + (c as int - 48)) as nat,
        ),
        !(48 <= c as int <= 57) ==> unsigned(s.push(c)) is None,
        s.len() > 0 && s != seq!['+'] && unsigned(s) is None ==> unsigned(s.push(c)) is None,
        s.len() > 0 && s[0] != '+' ==> unsigned(seq!['+'] + s) == unsigned(s),
{
    let none = Seq::<char>::empty();
    assert(seq!['+'].skip(1) =~= none);
    assert(none.push(c) =~= seq![c]);
    lemma_number_push(none, c);
    if s.len() > 0 && s[0] == '+' {
        assert(s.push(c).skip(1) =~= s.skip(1).push(c));
        lemma_number_push(s.skip(1), c);
        if s.skip(1).len() == 0 {
            assert(s =~= seq!['+']);
        }
    } else {
        lemma_number_push(s, c);
        if s.len() == 0 {
            assert(s =~= none);
            assert(s.push(c).skip(1) =~= none);
        }
    }
    if s.len() > 0 && s[0] != '+' {
        assert((seq!['+'] + s).skip(1) =~= s);
    }
}

/// The texts of a list are the characters of each string, in its place.
pub proof fn law_texts_are_what_is_held(list: Seq<String>, i: int)
    requires
        0 <= i < list.len(),
    ensures
        texts(list).len() == list.len(),
        texts(list)[i] == list[i]@,
{
}

} // verus!
