//! Text primitives: comparing, trimming and splitting.

use vstd::prelude::*;
use vstd::utf8::*;

verus! {

/// `String::push` of std: appends one character to the end of the string.
pub assume_specification[ String::push ](s: &mut String, c: char)
    ensures
        final(s)@ == old(s)@.push(c),
;

/// The text that `String::from_utf8_lossy` reads from bytes.
pub uninterp spec fn lossy_text(bytes: Seq<u8>) -> Seq<char>;

/// `String::from_utf8_lossy` of std: the text that bytes encode in UTF-8, with a replacement
/// character where they are not UTF-8. How many replacement characters an invalid stretch gives
/// is left to the name of the result.
#[verifier::external_body]
pub(crate) fn read_lossy(bytes: &[u8]) -> (res: String)
    ensures
        res@ == lossy_text(bytes@),
        valid_utf8(bytes@) ==> res@ == decode_utf8(bytes@),
        !valid_utf8(bytes@) ==> res@.contains('\u{fffd}'),
{
    String::from_utf8_lossy(bytes).into_owned()
}

/// Whether two strings hold the same characters.
pub fn same_text(a: &str, b: &str) -> (res: bool)
    ensures
        res == (a@ == b@),
{
    let x: &[u8] = a.as_bytes();
    let y: &[u8] = b.as_bytes();
    proof {
        encode_utf8_decode_utf8(a@);
        encode_utf8_decode_utf8(b@);
    }
    if x.len() != y.len() {
        return false;
    }
    let mut i: usize = 0;
    while i < x.len()
        invariant
            i <= x.len(),
            x.len() == y.len(),
            x@ == encode_utf8(a@),
            y@ == encode_utf8(b@),
            forall|j: int| 0 <= j < i ==> x@[j] == y@[j],
        decreases x.len() - i,
    {
        if x[i] != y[i] {
            return false;
        }
        i += 1;
    }
    assert(x@ =~= y@);
    true
}

/// The characters of a string, in order.
pub fn chars_of(s: &str) -> (res: Vec<char>)
    ensures
        res@ == s@,
{
    let mut out: Vec<char> = Vec::new();
    for c in it: s.chars()
        invariant
            it.seq() == s@,
            out@ == s@.take(it.index() as int),
    {
        out.push(c);
    }
    out
}

/// The string made of the characters `chars[from..to]`.
pub fn string_of(chars: &Vec<char>, from: usize, to: usize) -> (res: String)
    requires
        from <= to <= chars.len(),
    ensures
        res@ == chars@.subrange(from as int, to as int),
{
    let mut out: String = String::new();
    let mut i: usize = from;
    while i < to
        invariant
            from <= i <= to <= chars.len(),
            out@ == chars@.subrange(from as int, i as int),
        decreases to - i,
    {
        out.push(chars[i]);
        i += 1;
    }
    out
}

/// The characters with the Unicode property White_Space.
pub open spec fn white_space(c: char) -> bool {
    let u = c as u32;
    ||| 0x09 <= u <= 0x0d
    ||| u == 0x20
    ||| u == 0x85
    ||| u == 0xa0
    ||| u == 0x1680
    ||| 0x2000 <= u <= 0x200a
    ||| u == 0x2028
    ||| u == 0x2029
    ||| u == 0x202f
    ||| u == 0x205f
    ||| u == 0x3000
}

/// Whether `c` is white space.
pub fn is_white_space(c: char) -> (res: bool)
    ensures
        res == white_space(c),
        res <==> ('\t' <= c <= '\r' || c == ' ' || c == '\u{85}' || c == '\u{a0}' || c == '\u{1680}'
            || '\u{2000}' <= c <= '\u{200a}' || c == '\u{2028}' || c == '\u{2029}'
                || c == '\u{202f}'
            || c == '\u{205f}' || c == '\u{3000}'),
{
    let u: u32 = c as u32;
    (0x09 <= u && u <= 0x0d) || u == 0x20 || u == 0x85 || u == 0xa0 || u == 0x1680 || (0x2000 <= u
        && u <= 0x200a) || u == 0x2028 || u == 0x2029 || u == 0x202f || u == 0x205f || u == 0x3000
}

/// `s` without the white space it begins with.
pub open spec fn trimmed_start(s: Seq<char>) -> Seq<char>
    decreases s.len(),
{
    if s.len() > 0 && white_space(s[0]) {
        trimmed_start(s.drop_first())
    } else {
        s
    }
}

/// `s` without the white space it ends with.
pub open spec fn trimmed_end(s: Seq<char>) -> Seq<char>
    decreases s.len(),
{
    if s.len() > 0 && white_space(s.last()) {
        trimmed_end(s.drop_last())
    } else {
        s
    }
}

/// `s` without the white space at both ends.
pub open spec fn trimmed(s: Seq<char>) -> Seq<char> {
    trimmed_end(trimmed_start(s))
}

/// The text without leading and trailing white space.
pub fn trim(s: &str) -> (res: String)
    ensures
        res@ == trimmed(s@),
        exists|i: int, j: int|
            0 <= i <= j <= s@.len() && res@ == #[trigger] s@.subrange(i, j) && (forall|k: int|
                0 <= k < i || j <= k < s@.len() ==> white_space(#[trigger] s@[k])) && (i < j ==> (
            !white_space(s@[i]) && !white_space(s@[j - 1]))),
{
    proof {
        let (i, j) = every_text_has_a_middle(s@);
        assert(trimmed(s@) == s@.subrange(i, j));
    }
    let chars: Vec<char> = chars_of(s);
    let n: usize = chars.len();
    let mut from: usize = 0;
    assert(chars@.subrange(0, n as int) =~= s@);
    while from < n && is_white_space(chars[from])
        invariant
            from <= n,
            n == chars@.len(),
            trimmed_start(chars@.subrange(from as int, n as int)) == trimmed_start(s@),
        decreases n - from,
    {
        proof {
            let rest = chars@.subrange(from as int, n as int);
            assert(rest.drop_first() =~= chars@.subrange(from + 1, n as int));
        }
        from += 1;
    }
    let mut to: usize = n;
    assert(trimmed_start(s@) == chars@.subrange(from as int, n as int));
    while to > from && is_white_space(chars[to - 1])
        invariant
            from <= to <= n,
            n == chars@.len(),
            trimmed_end(chars@.subrange(from as int, to as int)) == trimmed(s@),
        decreases to,
    {
        proof {
            let rest = chars@.subrange(from as int, to as int);
            assert(rest.drop_last() =~= chars@.subrange(from as int, to - 1));
        }
        to -= 1;
    }
    string_of(&chars, from, to)
}

/// How many characters `s` begins with that are not white space.
pub open spec fn word_len(s: Seq<char>) -> nat
    decreases s.len(),
{
    if s.len() > 0 && !white_space(s[0]) {
        1 + word_len(s.drop_first())
    } else {
        0
    }
}

/// A word is no longer than the text that begins with it.
pub proof fn lemma_word_len(s: Seq<char>)
    ensures
        word_len(s) <= s.len(),
    decreases s.len(),
{
    if s.len() > 0 && !white_space(s[0]) {
        lemma_word_len(s.drop_first());
    }
}

/// Taking white space off the front makes no text longer.
pub proof fn lemma_trimmed_start_len(s: Seq<char>)
    ensures
        trimmed_start(s).len() <= s.len(),
        trimmed_start(s).len() > 0 ==> !white_space(trimmed_start(s)[0]),
    decreases s.len(),
{
    if s.len() > 0 && white_space(s[0]) {
        lemma_trimmed_start_len(s.drop_first());
    }
}

/// The words of `s`: its longest stretches without white space, in order.
pub open spec fn words(s: Seq<char>) -> Seq<Seq<char>>
    decreases s.len(),
{
    let t = trimmed_start(s);
    if t.len() == 0 {
        seq![]
    } else {
        proof {
            lemma_trimmed_start_len(s);
            lemma_word_len(t);
        }
        seq![t.take(word_len(t) as int)] + words(t.skip(word_len(t) as int))
    }
}

/// The texts of a list of strings.
pub open spec fn texts(list: Seq<String>) -> Seq<Seq<char>> {
    list.map_values(|s: String| s@)
}

/// The words of a text, in order.
pub fn split_words(s: &str) -> (res: Vec<String>)
    ensures
        texts(res@) == words(s@),
{
    let chars: Vec<char> = chars_of(s);
    let n: usize = chars.len();
    let mut out: Vec<String> = Vec::new();
    let mut pos: usize = 0;
    assert(chars@.skip(0) =~= s@);
    assert(texts(out@) + words(s@) =~= words(s@));
    loop
        invariant
            pos <= n,
            n == chars@.len(),
            texts(out@) + words(chars@.skip(pos as int)) == words(s@),
        ensures
            texts(out@) == words(s@),
        decreases n - pos,
    {
        let ghost rest = chars@.skip(pos as int);
        let mut from: usize = pos;
        while from < n && is_white_space(chars[from])
            invariant
                pos <= from <= n,
                n == chars@.len(),
                trimmed_start(chars@.skip(from as int)) == trimmed_start(rest),
            decreases n - from,
        {
            proof {
                assert(chars@.skip(from as int).drop_first() =~= chars@.skip(from + 1));
            }
            from += 1;
        }
        let ghost t = chars@.skip(from as int);
        assert(t == trimmed_start(rest));
        if from == n {
            assert(words(rest) =~= seq![]);
            assert(texts(out@) + words(rest) =~= texts(out@));
            break;
        }
        let mut to: usize = from;
        assert(t.skip(0) =~= t);
        while to < n && !is_white_space(chars[to])
            invariant
                from <= to <= n,
                n == chars@.len(),
                t == chars@.skip(from as int),
                word_len(t) == (to - from) + word_len(chars@.skip(to as int)),
            decreases n - to,
        {
            proof {
                assert(chars@.skip(to as int).drop_first() =~= chars@.skip(to + 1));
            }
            to += 1;
        }
        assert(word_len(t) == to - from);
        let word: String = string_of(&chars, from, to);
        proof {
            assert(word@ =~= t.take(to - from));
            assert(t.skip(to - from) =~= chars@.skip(to as int));
            assert(texts(out@.push(word)) =~= texts(out@).push(word@));
            assert(texts(out@).push(word@) + words(chars@.skip(to as int)) =~= texts(out@) + (
            seq![word@] + words(chars@.skip(to as int))));
        }
        out.push(word);
        pos = to;
    }
    out
}

/// White space is what Unicode says it is: the tab and the controls after it up to the carriage
/// return, the blank, next line, no-break space, and the spaces of other scripts and widths.
pub proof fn white_space_is_that_of_unicode(c: char)
    ensures
        white_space(c) <==> ('\t' <= c <= '\r' || c == ' ' || c == '\u{85}' || c == '\u{a0}' || c
            == '\u{1680}' || '\u{2000}' <= c <= '\u{200a}' || c == '\u{2028}' || c == '\u{2029}'
                || c
            == '\u{202f}' || c == '\u{205f}' || c == '\u{3000}'),
{
}

/// Where the white space that a text begins with ends.
proof fn lemma_start_at(s: Seq<char>, i: int)
    requires
        0 <= i <= s.len(),
        forall|k: int| 0 <= k < i ==> white_space(#[trigger] s[k]),
        i < s.len() ==> !white_space(s[i]),
    ensures
        trimmed_start(s) == s.skip(i),
    decreases s.len(),
{
    if i == 0 {
        assert(s.skip(0) =~= s);
    } else {
        let rest = s.drop_first();
        assert forall|k: int| 0 <= k < i - 1 implies white_space(#[trigger] rest[k]) by {
            assert(rest[k] == s[k + 1]);
        }
        lemma_start_at(rest, i - 1);
        assert(rest.skip(i - 1) =~= s.skip(i));
        assert(white_space(s[0]));
    }
}

/// Where the white space that a text ends with begins.
proof fn lemma_end_at(s: Seq<char>, n: int)
    requires
        0 <= n <= s.len(),
        forall|k: int| n <= k < s.len() ==> white_space(#[trigger] s[k]),
        n > 0 ==> !white_space(s[n - 1]),
    ensures
        trimmed_end(s) == s.take(n),
    decreases s.len(),
{
    if n == s.len() {
        assert(s.take(n) =~= s);
    } else {
        let rest = s.drop_last();
        assert forall|k: int| n <= k < rest.len() implies white_space(#[trigger] rest[k]) by {
            assert(rest[k] == s[k]);
        }
        lemma_end_at(rest, n);
        assert(rest.take(n) =~= s.take(n));
        assert(white_space(s[s.len() - 1]));
    }
}

/// The first position that holds no white space, or the end.
proof fn lemma_find_start(s: Seq<char>) -> (i: int)
    ensures
        0 <= i <= s.len(),
        forall|k: int| 0 <= k < i ==> white_space(#[trigger] s[k]),
        i < s.len() ==> !white_space(s[i]),
    decreases s.len(),
{
    if s.len() > 0 && white_space(s[0]) {
        let i = lemma_find_start(s.drop_first());
        assert forall|k: int| 0 <= k < i + 1 implies white_space(#[trigger] s[k]) by {
            if k > 0 {
                assert(s.drop_first()[k - 1] == s[k]);
            }
        }
        i + 1
    } else {
        0
    }
}

/// The position after the last one that holds no white space, if it is not before `from`.
proof fn lemma_find_end(s: Seq<char>, from: int) -> (j: int)
    requires
        0 <= from <= s.len(),
    ensures
        from <= j <= s.len(),
        forall|k: int| j <= k < s.len() ==> white_space(#[trigger] s[k]),
        j > from ==> !white_space(s[j - 1]),
    decreases s.len(),
{
    if s.len() > from && white_space(s[s.len() - 1]) {
        let rest = s.drop_last();
        let j = lemma_find_end(rest, from);
        assert forall|k: int| j <= k < s.len() implies white_space(#[trigger] s[k]) by {
            if k < rest.len() {
                assert(rest[k] == s[k]);
            }
        }
        j
    } else {
        s.len() as int
    }
}

/// What is left of a text after trimming is the stretch that has nothing but white space before
/// and after it, and no white space at its own ends.
pub proof fn trimming_leaves_the_middle(s: Seq<char>, i: int, j: int)
    requires
        0 <= i <= j <= s.len(),
        forall|k: int| 0 <= k < i || j <= k < s.len() ==> white_space(#[trigger] s[k]),
        i < j ==> !white_space(s[i]) && !white_space(s[j - 1]),
    ensures
        trimmed(s) == s.subrange(i, j),
{
    if i == j {
        lemma_start_at(s, s.len() as int);
        assert(trimmed_start(s).len() == 0);
        assert(trimmed(s) =~= s.subrange(i, j));
    } else {
        lemma_start_at(s, i);
        let t = s.skip(i);
        assert forall|k: int| j - i <= k < t.len() implies white_space(#[trigger] t[k]) by {
            assert(t[k] == s[k + i]);
        }
        lemma_end_at(t, j - i);
        assert(t.take(j - i) =~= s.subrange(i, j));
    }
}

/// Every text has such a stretch.
pub proof fn every_text_has_a_middle(s: Seq<char>) -> (at: (int, int))
    ensures
        0 <= at.0 <= at.1 <= s.len(),
        forall|k: int| 0 <= k < at.0 || at.1 <= k < s.len() ==> white_space(#[trigger] s[k]),
        at.0 < at.1 ==> !white_space(s[at.0]) && !white_space(s[at.1 - 1]),
        trimmed(s) == s.subrange(at.0, at.1),
{
    let i = lemma_find_start(s);
    let j = lemma_find_end(s, i);
    trimming_leaves_the_middle(s, i, j);
    (i, j)
}

/// A word that the text ends after, or white space follows, ends there.
proof fn lemma_word_stops(word: Seq<char>, rest: Seq<char>)
    requires
        forall|k: int| 0 <= k < word.len() ==> !white_space(#[trigger] word[k]),
        rest.len() > 0 ==> white_space(rest[0]),
    ensures
        word_len(word + rest) == word.len(),
    decreases word.len(),
{
    if word.len() == 0 {
        assert(word + rest =~= rest);
    } else {
        let shorter = word.drop_first();
        assert forall|k: int| 0 <= k < shorter.len() implies !white_space(#[trigger] shorter[k]) by {
            assert(shorter[k] == word[k + 1]);
        }
        lemma_word_stops(shorter, rest);
        assert((word + rest).drop_first() =~= shorter + rest);
        assert(!white_space(word[0]));
    }
}

/// A text that begins with white space and then a word has that word first, and after it the
/// words of the rest. White space alone has no words.
pub proof fn words_come_in_order(blank: Seq<char>, word: Seq<char>, rest: Seq<char>)
    requires
        forall|k: int| 0 <= k < blank.len() ==> white_space(#[trigger] blank[k]),
        forall|k: int| 0 <= k < word.len() ==> !white_space(#[trigger] word[k]),
        rest.len() > 0 ==> white_space(rest[0]),
    ensures
        words(blank) == Seq::<Seq<char>>::empty(),
        word.len() > 0 ==> words(blank + word + rest) == seq![word] + words(rest),
{
    lemma_start_at(blank, blank.len() as int);
    assert(words(blank) =~= Seq::<Seq<char>>::empty());
    if word.len() > 0 {
        let s = blank + word + rest;
        let n = blank.len() as int;
        assert forall|k: int| 0 <= k < n implies white_space(#[trigger] s[k]) by {
            assert(s[k] == blank[k]);
        }
        assert(s[n] == word[0]);
        lemma_start_at(s, n);
        assert(s.skip(n) =~= word + rest);
        lemma_word_stops(word, rest);
        assert((word + rest).take(word.len() as int) =~= word);
        assert((word + rest).skip(word.len() as int) =~= rest);
    }
}

/// The texts of a list are those of its strings, one for one.
pub proof fn texts_are_those_of_the_strings(list: Seq<String>)
    ensures
        texts(list).len() == list.len(),
        forall|i: int| 0 <= i < list.len() ==> #[trigger] texts(list)[i] == list[i]@,
{
}

} // verus!
