//! Strings as sequences of characters.

use vstd::prelude::*;
use vstd::std_specs::iter::IteratorSpec;
use vstd::string::StringExecFns;
use vstd::utf8::{decode_utf8, encode_utf8, is_char_boundary};

verus! {

/// `String::push`: the character is appended, the rest stays.
pub assume_specification[ String::push ](s: &mut String, c: char)
    ensures
        final(s)@ == old(s)@.push(c),
;

/// The characters of a string, in order.
pub fn chars_of(s: &str) -> (r: Vec<char>)
    ensures
        r@ == s@,
{
    let mut out: Vec<char> = Vec::new();
    for c in it: s.chars()
        invariant
            it.seq() == s@,
            out@ == s@.take(it.index() as int),
    {
        out.push(c);
    }
    out
}

/// The string that holds the given characters.
pub fn string_of(v: &Vec<char>) -> (r: String)
    ensures
        r@ == v@,
{
    let mut out = String::new();
    let mut i: usize = 0;
    while i < v.len()
        invariant
            i <= v.len(),
            out@ == v@.take(i as int),
        decreases v.len() - i,
    {
        out.push(v[i]);
        i += 1;
    }
    out
}

/// The texts that a vector of strings holds.
pub open spec fn views(v: Seq<String>) -> Seq<Seq<char>> {
    Seq::new(v.len(), |i: int| v[i]@)
}

/// The texts that a vector of string slices holds.
pub open spec fn slice_views(v: Seq<&str>) -> Seq<Seq<char>> {
    Seq::new(v.len(), |i: int| v[i]@)
}

/// Whether two vectors hold the same characters.
pub(crate) fn same_chars(a: &Vec<char>, b: &Vec<char>) -> (r: bool)
    ensures
        r == (a@ == b@),
{
    if a.len() != b.len() {
        return false;
    }
    let mut i: usize = 0;
    while i < a.len()
        invariant
            i <= a.len(),
            a.len() == b.len(),
            a@.take(i as int) == b@.take(i as int),
        decreases a.len() - i,
    {
        if a[i] != b[i] {
            return false;
        }
        assert(a@.take(i + 1) =~= a@.take(i as int).push(a@[i as int]));
        assert(b@.take(i + 1) =~= b@.take(i as int).push(b@[i as int]));
        i += 1;
    }
    assert(a@.take(i as int) =~= a@);
    assert(b@.take(i as int) =~= b@);
    true
}

/// Whether the characters spell the string.
pub(crate) fn is_text(v: &Vec<char>, s: &str) -> (r: bool)
    ensures
        r == (v@ == s@),
{
    let y = chars_of(s);
    same_chars(v, &y)
}

/// The characters of `v` from `from` up to `to`.
pub(crate) fn slice_chars(v: &Vec<char>, from: usize, to: usize) -> (r: Vec<char>)
    requires
        from <= to <= v.len(),
    ensures
        r@ == v@.subrange(from as int, to as int),
{
    let mut out: Vec<char> = Vec::new();
    let mut i: usize = from;
    while i < to
        invariant
            from <= i <= to <= v.len(),
            out@ == v@.subrange(from as int, i as int),
        decreases to - i,
    {
        out.push(v[i]);
        i += 1;
    }
    out
}

/// Whether two strings hold the same text.
pub fn same(a: &str, b: &str) -> (r: bool)
    ensures
        r == (a@ == b@),
{
    let x = chars_of(a);
    let y = chars_of(b);
    same_chars(&x, &y)
}

/// Two texts, one after the other.
pub fn concat2(a: &str, b: &str) -> (r: String)
    ensures
        r@ == a@ + b@,
{
    let mut out = a.to_owned();
    out.append(b);
    out
}

/// Three texts, one after the other.
pub fn concat3(a: &str, b: &str, c: &str) -> (r: String)
    ensures
        r@ == a@ + b@ + c@,
{
    let mut out = a.to_owned();
    out.append(b);
    out.append(c);
    out
}

/// The parts, one after the other, with the separator between every two.
pub open spec fn joined(parts: Seq<Seq<char>>, sep: Seq<char>) -> Seq<char>
    decreases parts.len(),
{
    if parts.len() == 0 {
        Seq::empty()
    } else if parts.len() == 1 {
        parts[0]
    } else {
        joined(parts.drop_last(), sep) + sep + parts.last()
    }
}

/// The parts, one after the other, with the separator between every two.
pub fn join(parts: &Vec<String>, sep: &str) -> (r: String)
    ensures
        r@ == joined(views(parts@), sep@),
{
    let ghost texts = views(parts@);
    let mut out = String::new();
    let mut i: usize = 0;
    while i < parts.len()
        invariant
            i <= parts.len(),
            texts == views(parts@),
            out@ == joined(texts.take(i as int), sep@),
        decreases parts.len() - i,
    {
        if i > 0 {
            out.append(sep);
        }
        out.append(parts[i].as_str());
        proof {
            let upto = texts.take(i + 1);
            assert(upto.drop_last() =~= texts.take(i as int));
            assert(upto.last() == parts@[i as int]@);
            if i == 0 {
                assert(out@ =~= upto[0]);
            }
        }
        i += 1;
    }
    assert(texts.take(i as int) =~= texts);
    out
}

/// Whether `char::is_whitespace` holds of the character: whether it has the
/// Unicode property White_Space.
pub uninterp spec fn white_space(c: char) -> bool;

/// `char::is_whitespace`.
#[verifier::external_body]
pub(crate) fn is_whitespace(c: char) -> (r: bool)
    ensures
        r == white_space(c),
{
    c.is_whitespace()
}

/// What `str::to_lowercase` makes of a text: each character in lower case,
/// as Unicode defines it.
pub uninterp spec fn lowercase_of(s: Seq<char>) -> Seq<char>;

/// `str::to_lowercase`.
#[verifier::external_body]
pub(crate) fn to_lowercase(s: &str) -> (r: String)
    ensures
        r@ == lowercase_of(s@),
{
    s.to_lowercase()
}

/// The text without the whitespace at its start.
pub open spec fn trim_start(s: Seq<char>) -> Seq<char>
    decreases s.len(),
{
    if s.len() > 0 && white_space(s[0]) {
        trim_start(s.skip(1))
    } else {
        s
    }
}

/// The text without the whitespace at its end.
pub open spec fn trim_end(s: Seq<char>) -> Seq<char>
    decreases s.len(),
{
    if s.len() > 0 && white_space(s.last()) {
        trim_end(s.drop_last())
    } else {
        s
    }
}

/// The text without the whitespace at its start and at its end.
pub open spec fn trimmed(s: Seq<char>) -> Seq<char> {
    trim_end(trim_start(s))
}

/// The text without the whitespace at its start and at its end.
pub fn trim(s: &str) -> (r: String)
    ensures
        r@ == trimmed(s@),
{
    let v = chars_of(s);
    let mut a: usize = 0;
    assert(v@.skip(0) =~= v@);
    while a < v.len() && is_whitespace(v[a])
        invariant
            a <= v.len(),
            trim_start(v@) == trim_start(v@.skip(a as int)),
        decreases v.len() - a,
    {
        assert(v@.skip(a as int).skip(1) =~= v@.skip(a + 1));
        a += 1;
    }
    assert(trim_start(v@) == v@.skip(a as int));
    let mut b: usize = v.len();
    assert(v@.subrange(a as int, b as int) =~= v@.skip(a as int));
    while b > a && is_whitespace(v[b - 1])
        invariant
            a <= b <= v.len(),
            trimmed(v@) == trim_end(v@.subrange(a as int, b as int)),
        decreases b,
    {
        assert(v@.subrange(a as int, b as int).drop_last() =~= v@.subrange(a as int, b - 1));
        b -= 1;
    }
    let kept = slice_chars(&v, a, b);
    string_of(&kept)
}

/// The words of a text: its longest runs of characters that are no whitespace.
pub open spec fn words(s: Seq<char>) -> Seq<Seq<char>>
    decreases s.len(),
{
    if s.len() == 0 {
        Seq::empty()
    } else {
        let before = words(s.drop_last());
        if white_space(s.last()) {
            before
        } else if s.len() == 1 || white_space(s[s.len() - 2]) {
            before.push(seq![s.last()])
        } else {
            before.drop_last().push(before.last().push(s.last()))
        }
    }
}

/// A text that ends in a character that is no whitespace has a last word.
pub proof fn lemma_words_open(s: Seq<char>)
    requires
        s.len() > 0,
        !white_space(s.last()),
    ensures
        words(s).len() > 0,
    decreases s.len(),
{
    if s.len() > 1 && !white_space(s[s.len() - 2]) {
        lemma_words_open(s.drop_last());
    }
}

/// The words of a text, in order.
pub fn split_whitespace(s: &str) -> (r: Vec<String>)
    ensures
        views(r@) == words(s@),
{
    let v = chars_of(s);
    let mut out: Vec<String> = Vec::new();
    let mut inside = false;
    let mut i: usize = 0;
    assert(views(out@) =~= words(v@.take(0)));
    while i < v.len()
        invariant
            i <= v.len(),
            views(out@) == words(v@.take(i as int)),
            inside == (i > 0 && !white_space(v@[i - 1])),
        decreases v.len() - i,
    {
        let c = v[i];
        let ghost upto = v@.take(i + 1);
        assert(upto.drop_last() =~= v@.take(i as int));
        assert(upto.last() == c);
        let ghost before = out@;
        if is_whitespace(c) {
            inside = false;
        } else if inside {
            proof {
                assert(upto[upto.len() - 2] == v@[i - 1]);
                lemma_words_open(v@.take(i as int));
            }
            let mut word = out.pop().unwrap();
            word.push(c);
            out.push(word);
            assert(views(out@) =~= views(before).drop_last().push(views(before).last().push(c)));
        } else {
            proof {
                if i > 0 {
                    assert(upto[upto.len() - 2] == v@[i - 1]);
                }
            }
            let mut word = String::new();
            word.push(c);
            out.push(word);
            assert(word@ =~= seq![c]);
            assert(views(out@) =~= views(before).push(seq![c]));
            inside = true;
        }
        i += 1;
    }
    assert(v@.take(i as int) =~= v@);
    out
}

/// A line without the carriage return at its end, if it has one.
pub open spec fn without_return(line: Seq<char>) -> Seq<char> {
    if line.len() > 0 && line.last() == '\r' {
        line.drop_last()
    } else {
        line
    }
}

/// The lines of a text. A line ends with a line feed, or with a carriage
/// return and a line feed; the last line need not end. The endings are left out.
pub open spec fn lines_of(s: Seq<char>) -> Seq<Seq<char>>
    decreases s.len(),
{
    if s.len() == 0 {
        Seq::empty()
    } else {
        let before = lines_of(s.drop_last());
        if s.len() == 1 || s[s.len() - 2] == '\n' {
            if s.last() == '\n' {
                before.push(Seq::empty())
            } else {
                before.push(seq![s.last()])
            }
        } else if s.last() == '\n' {
            before.drop_last().push(without_return(before.last()))
        } else {
            before.drop_last().push(before.last().push(s.last()))
        }
    }
}

/// A text that is not empty has a last line.
pub proof fn lemma_lines_some(s: Seq<char>)
    requires
        s.len() > 0,
    ensures
        lines_of(s).len() > 0,
    decreases s.len(),
{
    if s.len() > 1 && s[s.len() - 2] != '\n' {
        lemma_lines_some(s.drop_last());
    }
}

/// The lines of a text, in order, without their endings.
pub fn lines(s: &str) -> (r: Vec<String>)
    ensures
        views(r@) == lines_of(s@),
{
    let v = chars_of(s);
    let mut out: Vec<String> = Vec::new();
    let mut i: usize = 0;
    assert(views(out@) =~= lines_of(v@.take(0)));
    while i < v.len()
        invariant
            i <= v.len(),
            views(out@) == lines_of(v@.take(i as int)),
        decreases v.len() - i,
    {
        let c = v[i];
        let ghost upto = v@.take(i + 1);
        assert(upto.drop_last() =~= v@.take(i as int));
        assert(upto.last() == c);
        let ghost before = out@;
        if i == 0 || v[i - 1] == '\n' {
            let mut line = String::new();
            if c != '\n' {
                line.push(c);
            }
            proof {
                if i > 0 {
                    assert(upto[upto.len() - 2] == v@[i - 1]);
                }
                assert(line@ =~= if c == '\n' {
                    Seq::<char>::empty()
                } else {
                    seq![c]
                });
            }
            out.push(line);
            assert(views(out@) =~= views(before).push(line@));
        } else {
            proof {
                assert(upto[upto.len() - 2] == v@[i - 1]);
                lemma_lines_some(v@.take(i as int));
            }
            let line = out.pop().unwrap();
            let next = if c != '\n' {
                let mut grown = line;
                grown.push(c);
                grown
            } else {
                let held = chars_of(line.as_str());
                if held.len() > 0 && held[held.len() - 1] == '\r' {
                    let cut = slice_chars(&held, 0, held.len() - 1);
                    assert(cut@ =~= held@.drop_last());
                    string_of(&cut)
                } else {
                    line
                }
            };
            out.push(next);
            assert(views(out@) =~= views(before).drop_last().push(next@));
        }
        i += 1;
    }
    assert(v@.take(i as int) =~= v@);
    out
}

/// Whether `needle` stands in `hay` at the place `at`.
pub open spec fn occurs_at(hay: Seq<char>, needle: Seq<char>, at: int) -> bool {
    0 <= at && at + needle.len() <= hay.len() && hay.subrange(at, at + needle.len()) == needle
}

/// Whether `needle` stands somewhere in `hay`.
pub open spec fn occurs(hay: Seq<char>, needle: Seq<char>) -> bool {
    exists|at: int| occurs_at(hay, needle, at)
}

/// Whether `needle` stands in `hay` at the place `at`.
pub(crate) fn matches_at(hay: &Vec<char>, needle: &Vec<char>, at: usize) -> (r: bool)
    ensures
        r == occurs_at(hay@, needle@, at as int),
{
    if needle.len() > hay.len() || at > hay.len() - needle.len() {
        return false;
    }
    let mut k: usize = 0;
    while k < needle.len()
        invariant
            k <= needle.len(),
            at + needle.len() <= hay.len(),
            hay@.subrange(at as int, at + k) == needle@.take(k as int),
        decreases needle.len() - k,
    {
        if hay[at + k] != needle[k] {
            assert(hay@.subrange(at as int, at + needle.len())[k as int] != needle@[k as int]);
            return false;
        }
        assert(hay@.subrange(at as int, at + k + 1) =~= hay@.subrange(at as int, at + k).push(
            hay@[at + k],
        ));
        assert(needle@.take(k + 1) =~= needle@.take(k as int).push(needle@[k as int]));
        k += 1;
    }
    assert(needle@.take(k as int) =~= needle@);
    true
}

/// Whether `needle` stands somewhere in `hay`.
pub fn contains(hay: &str, needle: &str) -> (r: bool)
    ensures
        r == occurs(hay@, needle@),
{
    let h = chars_of(hay);
    let n = chars_of(needle);
    if n.len() > h.len() {
        return false;
    }
    let last = h.len() - n.len();
    let mut at: usize = 0;
    loop
        invariant
            h@ == hay@,
            n@ == needle@,
            last == h.len() - n.len(),
            at <= last,
            forall|j: int| 0 <= j < at ==> !occurs_at(h@, n@, j),
        decreases last - at,
    {
        if matches_at(&h, &n, at) {
            return true;
        }
        if at == last {
            return false;
        }
        at += 1;
    }
}

/// The text with every occurrence of `from` replaced by `to`, from left to
/// right; occurrences do not overlap. An empty `from` occurs before every
/// character and at the end.
pub open spec fn replaced(s: Seq<char>, from: Seq<char>, to: Seq<char>) -> Seq<char>
    decreases s.len(),
{
    if from.len() == 0 {
        if s.len() == 0 {
            to
        } else {
            to + seq![s[0]] + replaced(s.skip(1), from, to)
        }
    } else if occurs_at(s, from, 0) {
        to + replaced(s.skip(from.len() as int), from, to)
    } else if s.len() == 0 {
        s
    } else {
        seq![s[0]] + replaced(s.skip(1), from, to)
    }
}

/// The text with every occurrence of `from` replaced by `to`.
pub fn replace(s: &str, from: &str, to: &str) -> (r: String)
    ensures
        r@ == replaced(s@, from@, to@),
{
    let v = chars_of(s);
    let f = chars_of(from);
    let mut out = String::new();
    let mut i: usize = 0;
    assert(v@.skip(0) =~= v@);
    while i < v.len()
        invariant
            i <= v.len(),
            replaced(v@, f@, to@) == out@ + replaced(v@.skip(i as int), f@, to@),
        decreases v.len() - i,
    {
        let ghost rest = v@.skip(i as int);
        let ghost sofar = out@;
        if f.len() == 0 {
            out.append(to);
            out.push(v[i]);
            assert(rest.skip(1) =~= v@.skip(i + 1));
            assert(out@ + replaced(v@.skip(i + 1), f@, to@) =~= sofar + replaced(rest, f@, to@));
            i += 1;
        } else if matches_at(&v, &f, i) {
            assert(rest.subrange(0, f@.len() as int) =~= v@.subrange(i as int, i + f@.len()));
            assert(occurs_at(rest, f@, 0));
            out.append(to);
            assert(rest.skip(f@.len() as int) =~= v@.skip(i + f@.len()));
            assert(out@ + replaced(v@.skip(i + f@.len()), f@, to@) =~= sofar + replaced(
                rest,
                f@,
                to@,
            ));
            i += f.len();
        } else {
            proof {
                if occurs_at(rest, f@, 0) {
                    assert(rest.subrange(0, f@.len() as int) =~= v@.subrange(
                        i as int,
                        i + f@.len(),
                    ));
                }
            }
            out.push(v[i]);
            assert(rest.skip(1) =~= v@.skip(i + 1));
            assert(out@ + replaced(v@.skip(i + 1), f@, to@) =~= sofar + replaced(rest, f@, to@));
            i += 1;
        }
    }
    assert(v@.skip(i as int) =~= Seq::<char>::empty());
    if f.len() == 0 {
        out.append(to);
    }
    assert(out@ =~= replaced(v@, f@, to@));
    out
}

/// The first `n` bytes of a text in UTF-8, where they make up whole characters.
pub open spec fn byte_prefix(s: Seq<char>, n: int) -> Option<Seq<char>> {
    if 0 <= n <= encode_utf8(s).len() && is_char_boundary(encode_utf8(s), n) {
        Some(decode_utf8(encode_utf8(s).subrange(0, n)))
    } else {
        None
    }
}

/// The first `n` bytes of a text, where they make up whole characters.
pub fn take_bytes<'a>(s: &'a str, n: usize) -> (r: Option<&'a str>)
    ensures
        match byte_prefix(s@, n as int) {
            Some(head) => r matches Some(x) && x@ == head,
            None => r is None,
        },
{
    broadcast use vstd::utf8::group_utf8_lib;

    if n <= s.as_bytes().len() && s.is_char_boundary(n) {
        let (head, _) = s.split_at(n);
        assert(encode_utf8(head@) == encode_utf8(s@).subrange(0, n as int));
        assert(decode_utf8(encode_utf8(head@)) == head@);
        Some(head)
    } else {
        None
    }
}

/// What is left of a text without the whitespace at its start is empty or
/// starts with a character that is no whitespace.
pub proof fn lemma_trim_start_clean(s: Seq<char>)
    ensures
        trim_start(s).len() > 0 ==> !white_space(trim_start(s)[0]),
    decreases s.len(),
{
    if s.len() > 0 && white_space(s[0]) {
        lemma_trim_start_clean(s.skip(1));
    }
}

/// What is left of a text without the whitespace at its end is the text's
/// start, and is empty or ends with a character that is no whitespace.
pub proof fn lemma_trim_end_clean(s: Seq<char>)
    ensures
        trim_end(s).len() <= s.len(),
        trim_end(s) == s.take(trim_end(s).len() as int),
        trim_end(s).len() > 0 ==> !white_space(trim_end(s).last()),
    decreases s.len(),
{
    if s.len() > 0 && white_space(s.last()) {
        lemma_trim_end_clean(s.drop_last());
        assert(s.drop_last().take(trim_end(s).len() as int) =~= s.take(trim_end(s).len() as int));
    } else {
        assert(s.take(s.len() as int) =~= s);
    }
}

/// A trimmed text is empty, or starts and ends with characters that are no whitespace.
pub proof fn lemma_trimmed_clean(s: Seq<char>)
    ensures
        trimmed(s).len() > 0 ==> !white_space(trimmed(s)[0]) && !white_space(trimmed(s).last()),
{
    lemma_trim_start_clean(s);
    lemma_trim_end_clean(trim_start(s));
}

/// No word is empty, and no word holds whitespace.
pub proof fn lemma_words_clean(s: Seq<char>)
    ensures
        forall|i: int| 0 <= i < words(s).len() ==> (#[trigger] words(s)[i]).len() > 0,
        forall|i: int, j: int|
            0 <= i < words(s).len() && 0 <= j < words(s)[i].len() ==> !white_space(
                #[trigger] words(s)[i][j],
            ),
    decreases s.len(),
{
    if s.len() > 0 {
        let before = words(s.drop_last());
        lemma_words_clean(s.drop_last());
        if !white_space(s.last()) && !(s.len() == 1 || white_space(s[s.len() - 2])) {
            lemma_words_open(s.drop_last());
            let grown = before.last().push(s.last());
            assert forall|i: int| 0 <= i < words(s).len() implies (#[trigger] words(s)[i]).len()
                > 0 by {
                if i < before.len() - 1 {
                    assert(words(s)[i] == before[i]);
                }
            }
            assert forall|i: int, j: int|
                0 <= i < words(s).len() && 0 <= j < words(s)[i].len() implies !white_space(
                #[trigger] words(s)[i][j],
            ) by {
                if i < before.len() - 1 {
                    assert(words(s)[i] == before[i]);
                } else if j < grown.len() - 1 {
                    assert(grown[j] == before[before.len() - 1][j]);
                }
            }
        } else if !white_space(s.last()) {
            assert forall|i: int| 0 <= i < words(s).len() implies (#[trigger] words(s)[i]).len()
                > 0 by {
                if i < before.len() {
                    assert(words(s)[i] == before[i]);
                }
            }
            assert forall|i: int, j: int|
                0 <= i < words(s).len() && 0 <= j < words(s)[i].len() implies !white_space(
                #[trigger] words(s)[i][j],
            ) by {
                if i < before.len() {
                    assert(words(s)[i] == before[i]);
                }
            }
        }
    }
}

/// No line holds a line feed.
pub proof fn lemma_lines_clean(s: Seq<char>)
    ensures
        forall|i: int, j: int|
            0 <= i < lines_of(s).len() && 0 <= j < lines_of(s)[i].len() ==> (
            #[trigger] lines_of(s)[i][j]) != '\n',
    decreases s.len(),
{
    if s.len() > 0 {
        let before = lines_of(s.drop_last());
        lemma_lines_clean(s.drop_last());
        if s.len() == 1 || s[s.len() - 2] == '\n' {
            assert forall|i: int, j: int|
                0 <= i < lines_of(s).len() && 0 <= j < lines_of(s)[i].len() implies (
            #[trigger] lines_of(s)[i][j]) != '\n' by {
                if i < before.len() {
                    assert(lines_of(s)[i] == before[i]);
                }
            }
        } else {
            lemma_lines_some(s.drop_last());
            let held = before.last();
            assert forall|i: int, j: int|
                0 <= i < lines_of(s).len() && 0 <= j < lines_of(s)[i].len() implies (
            #[trigger] lines_of(s)[i][j]) != '\n' by {
                if i < before.len() - 1 {
                    assert(lines_of(s)[i] == before[i]);
                } else if j < held.len() {
                    assert(lines_of(s)[i][j] == before[before.len() - 1][j]);
                }
            }
        }
    }
}

/// A text in which the keyword does not stand is left as it is.
pub proof fn lemma_replaced_absent(s: Seq<char>, from: Seq<char>, to: Seq<char>)
    requires
        from.len() > 0,
        !occurs(s, from),
    ensures
        replaced(s, from, to) == s,
    decreases s.len(),
{
    assert(!occurs_at(s, from, 0));
    if s.len() > 0 {
        let rest = s.skip(1);
        assert forall|at: int| !occurs_at(rest, from, at) by {
            if occurs_at(rest, from, at) {
                assert(s.subrange(at + 1, at + 1 + from.len()) =~= rest.subrange(
                    at,
                    at + from.len(),
                ));
                assert(occurs_at(s, from, at + 1));
            }
        }
        lemma_replaced_absent(rest, from, to);
        assert(seq![s[0]] + rest =~= s);
    }
}

/// A keyword replaced by itself leaves the text as it is.
pub proof fn lemma_replaced_same(s: Seq<char>, from: Seq<char>)
    requires
        from.len() > 0,
    ensures
        replaced(s, from, from) == s,
    decreases s.len(),
{
    if occurs_at(s, from, 0) {
        lemma_replaced_same(s.skip(from.len() as int), from);
        assert(s.subrange(0, from.len() as int) + s.skip(from.len() as int) =~= s);
    } else if s.len() > 0 {
        lemma_replaced_same(s.skip(1), from);
        assert(seq![s[0]] + s.skip(1) =~= s);
    }
}

} // verus!
