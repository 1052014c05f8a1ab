//! Small verified helpers on strings.
use vstd::prelude::*;
use vstd::string::StringSliceAdditionalSpecFns;

verus! {

broadcast use vstd::utf8::encode_utf8_decode_utf8;

/// Compares two strings character for character.
pub fn str_eq(a: &str, b: &str) -> (r: bool)
    ensures
        r == (a@ == b@),
{
    let ab = a.as_bytes();
    let bb = b.as_bytes();
    if ab.len() != bb.len() {
        return false;
    }
    let n = ab.len();
    let mut i: usize = 0;
    while i < n
        invariant
            n == ab@.len(),
            n == bb@.len(),
            i <= n,
            ab@ == a.spec_bytes(),
            bb@ == b.spec_bytes(),
            forall|j: int| 0 <= j < i ==> ab@[j] == bb@[j],
        decreases n - i,
    {
        if ab[i] != bb[i] {
            return false;
        }
        i = i + 1;
    }
    assert(ab@ =~= bb@);
    assert(vstd::utf8::decode_utf8(a.spec_bytes()) == a@);
    assert(vstd::utf8::decode_utf8(b.spec_bytes()) == b@);
    true
}

/// `String::push`: appends one character.
#[verifier::external_body]
fn push_char(s: &mut String, c: char)
    ensures
        final(s)@ == old(s)@.push(c),
{
    s.push(c)
}

/// A string of the given characters.
pub fn string_from_chars(chars: &[char]) -> (r: String)
    ensures
        r@ == chars@,
{
    let mut s = String::new();
    let mut i: usize = 0;
    while i < chars.len()
        invariant
            i <= chars@.len(),
            s@ == chars@.take(i as int),
        decreases chars@.len() - i,
    {
        push_char(&mut s, chars[i]);
        assert(s@ =~= chars@.take(i + 1));
        i = i + 1;
    }
    assert(s@ =~= chars@);
    s
}

/// `std::str::from_utf8`: the text that valid UTF-8 bytes encode, or nothing when
/// they are not valid UTF-8.
#[verifier::external_body]
pub(crate) fn utf8_text(bytes: &[u8]) -> (r: Option<&str>)
    ensures
        match r {
            Some(s) => vstd::utf8::valid_utf8(bytes@) && s@ == vstd::utf8::decode_utf8(bytes@),
            None => !vstd::utf8::valid_utf8(bytes@),
        },
{
    std::str::from_utf8(bytes).ok()
}

/// The characters that Unicode counts as white space (`char::is_whitespace`).
pub open spec fn is_white_space(c: char) -> bool {
    ('\u{9}' <= c <= '\u{d}') || c == ' ' || c == '\u{85}' || c == '\u{a0}' || c == '\u{1680}'
        || ('\u{2000}' <= c <= '\u{200a}') || c == '\u{2028}' || c == '\u{2029}' || c == '\u{202f}'
        || c == '\u{205f}' || c == '\u{3000}'
}

/// The code points of Unicode's `White_Space` property, which `char::is_whitespace`
/// follows: the C0 controls tab, line feed, vertical tab, form feed and carriage
/// return, the space, next line, no-break space, Ogham space mark, the spaces from
/// en quad to hair space, line and paragraph separator, narrow no-break space, medium
/// mathematical space and ideographic space.
pub open spec fn unicode_white_space() -> Seq<u32> {
    seq![
        0x09u32, 0x0A, 0x0B, 0x0C, 0x0D, 0x20, 0x85, 0xA0, 0x1680,
        0x2000, 0x2001, 0x2002, 0x2003, 0x2004, 0x2005, 0x2006, 0x2007, 0x2008, 0x2009, 0x200A,
        0x2028, 0x2029, 0x202F, 0x205F, 0x3000,
    ]
}

/// A character is white space exactly when its code point carries Unicode's
/// `White_Space` property.
pub proof fn lemma_white_space_is_unicode(c: char)
    ensures
        is_white_space(c) <==> unicode_white_space().contains(c as u32),
{
    let w = unicode_white_space();
    let v = c as u32;
    if is_white_space(c) {
        if '\u{9}' <= c <= '\u{d}' {
            assert(w[(v - 9) as int] == v);
        } else if '\u{2000}' <= c <= '\u{200a}' {
            assert(w[(v - 0x2000 + 9) as int] == v);
        } else if c == ' ' {
            assert(w[5] == v);
        } else if c == '\u{85}' {
            assert(w[6] == v);
        } else if c == '\u{a0}' {
            assert(w[7] == v);
        } else if c == '\u{1680}' {
            assert(w[8] == v);
        } else if c == '\u{2028}' {
            assert(w[20] == v);
        } else if c == '\u{2029}' {
            assert(w[21] == v);
        } else if c == '\u{202f}' {
            assert(w[22] == v);
        } else if c == '\u{205f}' {
            assert(w[23] == v);
        } else {
            assert(w[24] == v);
        }
    }
    if w.contains(v) {
        let k = choose|k: int| 0 <= k < w.len() && w[k] == v;
        assert(is_white_space(c));
    }
}

/// Trimming drops a line ending of carriage return and line feed: a reply that ends
/// in CRLF trims to what it trims to without it.
pub proof fn lemma_trim_drops_crlf(s: Seq<char>)
    ensures
        trimmed(s + seq!['\r', '\n']) == trimmed(s),
{
    lemma_trim_trailing_white_space(s, seq!['\r', '\n']);
}

/// Trimming a text followed by white space gives what trimming the text gives.
pub proof fn lemma_trim_trailing_white_space(s: Seq<char>, w: Seq<char>)
    requires
        forall|i: int| 0 <= i < w.len() ==> is_white_space(#[trigger] w[i]),
    ensures
        trimmed(s + w) == trimmed(s),
    decreases s.len(),
{
    if s.len() > 0 && is_white_space(s[0]) {
        assert((s + w).drop_first() =~= s.drop_first() + w);
        lemma_trim_trailing_white_space(s.drop_first(), w);
    } else if s.len() > 0 {
        assert(trim_front(s + w) == s + w);
        lemma_trim_back_white_tail(s, w);
    } else {
        assert(s + w =~= w);
        lemma_trim_front_all_white(w);
        assert(trim_front(s) == s);
        assert(trim_back(s) == s);
    }
}

/// A text of white space alone trims to nothing from the front.
proof fn lemma_trim_front_all_white(w: Seq<char>)
    requires
        forall|i: int| 0 <= i < w.len() ==> is_white_space(#[trigger] w[i]),
    ensures
        trim_front(w) == Seq::<char>::empty(),
        trim_back(Seq::<char>::empty()) == Seq::<char>::empty(),
    decreases w.len(),
{
    if w.len() > 0 {
        assert(is_white_space(w[0]));
        let r = w.drop_first();
        assert forall|i: int| 0 <= i < r.len() implies is_white_space(#[trigger] r[i]) by {
            assert(r[i] == w[i + 1]);
        }
        lemma_trim_front_all_white(r);
    }
}

/// Trailing white space is dropped from the back.
proof fn lemma_trim_back_white_tail(s: Seq<char>, w: Seq<char>)
    requires
        forall|i: int| 0 <= i < w.len() ==> is_white_space(#[trigger] w[i]),
    ensures
        trim_back(s + w) == trim_back(s),
    decreases w.len(),
{
    if w.len() == 0 {
        assert(s + w =~= s);
    } else {
        assert(is_white_space(w[w.len() - 1]));
        assert((s + w).last() == w.last());
        assert((s + w).drop_last() =~= s + w.drop_last());
        let r = w.drop_last();
        assert forall|i: int| 0 <= i < r.len() implies is_white_space(#[trigger] r[i]) by {
            assert(r[i] == w[i]);
        }
        lemma_trim_back_white_tail(s, r);
    }
}

fn white_space(c: char) -> (r: bool)
    ensures
        r == is_white_space(c),
{
    ('\u{9}' <= c && c <= '\u{d}') || c == ' ' || c == '\u{85}' || c == '\u{a0}' || c == '\u{1680}'
        || ('\u{2000}' <= c && c <= '\u{200a}') || c == '\u{2028}' || c == '\u{2029}' || c == '\u{202f}'
        || c == '\u{205f}' || c == '\u{3000}'
}

/// The text without its leading white space.
pub open spec fn trim_front(s: Seq<char>) -> Seq<char>
    decreases s.len(),
{
    if s.len() > 0 && is_white_space(s[0]) {
        trim_front(s.drop_first())
    } else {
        s
    }
}

/// The text without its trailing white space.
pub open spec fn trim_back(s: Seq<char>) -> Seq<char>
    decreases s.len(),
{
    if s.len() > 0 && is_white_space(s.last()) {
        trim_back(s.drop_last())
    } else {
        s
    }
}

/// The text without leading and trailing white space (`str::trim`).
pub open spec fn trimmed(s: Seq<char>) -> Seq<char> {
    trim_back(trim_front(s))
}

/// Skipping a leading white-space character does not change the trimmed front.
proof fn lemma_trim_front_skip(s: Seq<char>, from: int)
    requires
        0 <= from < s.len(),
        is_white_space(s[from]),
    ensures
        trim_front(s.skip(from)) == trim_front(s.skip(from + 1)),
{
    assert(s.skip(from).drop_first() =~= s.skip(from + 1));
}

proof fn lemma_trim_back_take(s: Seq<char>, to: int)
    requires
        0 < to <= s.len(),
        is_white_space(s[to - 1]),
    ensures
        trim_back(s.take(to)) == trim_back(s.take(to - 1)),
{
    assert(s.take(to).drop_last() =~= s.take(to - 1));
}

/// The characters without leading and trailing white space.
pub fn trim_chars(s: &Vec<char>) -> (r: Vec<char>)
    ensures
        r@ == trimmed(s@),
{
    let n = s.len();
    let mut a: usize = 0;
    assert(s@.skip(0) =~= s@);
    while a < n && white_space(s[a])
        invariant
            n == s@.len(),
            a <= n,
            trim_front(s@.skip(a as int)) == trim_front(s@),
        decreases n - a,
    {
        proof {
            lemma_trim_front_skip(s@, a as int);
        }
        a = a + 1;
    }
    let ghost front = s@.skip(a as int);
    assert(trim_front(front) == front);
    let mut b: usize = n;
    assert(front.take(front.len() as int) =~= front);
    while b > a && white_space(s[b - 1])
        invariant
            n == s@.len(),
            a <= b <= n,
            front == s@.skip(a as int),
            trim_back(front.take(b - a)) == trim_back(front),
        decreases b - a,
    {
        proof {
            assert(front[b - a - 1] == s@[b - 1]);
            lemma_trim_back_take(front, (b - a) as int);
        }
        b = b - 1;
    }
    let mut out: Vec<char> = Vec::new();
    let mut i: usize = a;
    while i < b
        invariant
            a <= i <= b,
            b <= n,
            n == s@.len(),
            out@ == s@.subrange(a as int, i as int),
        decreases b - i,
    {
        out.push(s[i]);
        assert(out@ =~= s@.subrange(a as int, i + 1));
        i = i + 1;
    }
    assert(out@ =~= front.take(b - a));
    out
}

/// Whether `needle` occurs in `hay` at position `i`.
pub open spec fn occurs_at(hay: Seq<char>, needle: Seq<char>, i: int) -> bool {
    0 <= i && i + needle.len() <= hay.len() && hay.subrange(i, i + needle.len()) == needle
}

/// The first position at or after `from` where `needle` occurs, if any.
pub open spec fn first_at(hay: Seq<char>, needle: Seq<char>, from: int) -> Option<int>
    decreases hay.len() + 1 - from,
{
    if from < 0 || from > hay.len() {
        None
    } else if occurs_at(hay, needle, from) {
        Some(from)
    } else {
        first_at(hay, needle, from + 1)
    }
}

/// The last position of a character, if it occurs.
pub open spec fn last_of(hay: Seq<char>, c: char) -> Option<int>
    decreases hay.len(),
{
    if hay.len() == 0 {
        None
    } else if hay.last() == c {
        Some(hay.len() - 1)
    } else {
        last_of(hay.drop_last(), c)
    }
}

proof fn lemma_first_at_none(hay: Seq<char>, needle: Seq<char>, from: int)
    requires
        0 <= from,
        forall|j: int| from <= j ==> !occurs_at(hay, needle, j),
    ensures
        first_at(hay, needle, from) is None,
    decreases hay.len() + 1 - from,
{
    if from <= hay.len() {
        lemma_first_at_none(hay, needle, from + 1);
    }
}

proof fn lemma_first_at_some(hay: Seq<char>, needle: Seq<char>, from: int, i: int)
    requires
        0 <= from <= i,
        occurs_at(hay, needle, i),
        forall|j: int| from <= j < i ==> !occurs_at(hay, needle, j),
    ensures
        first_at(hay, needle, from) == Some(i),
    decreases i - from,
{
    if from < i {
        lemma_first_at_some(hay, needle, from + 1, i);
    }
}

/// The first position at or after `from` where `needle` occurs, if any.
pub fn find_from(hay: &Vec<char>, needle: &Vec<char>, from: usize) -> (r: Option<usize>)
    requires
        from <= hay@.len(),
    ensures
        match r {
            Some(i) => first_at(hay@, needle@, from as int) == Some(i as int),
            None => first_at(hay@, needle@, from as int) is None,
        },
{
    let r = find_from_scan(hay, needle, from);
    proof {
        match r {
            Some(i) => lemma_first_at_some(hay@, needle@, from as int, i as int),
            None => lemma_first_at_none(hay@, needle@, from as int),
        }
    }
    r
}

fn find_from_scan(hay: &Vec<char>, needle: &Vec<char>, from: usize) -> (r: Option<usize>)
    requires
        from <= hay@.len(),
    ensures
        match r {
            Some(i) => from <= i && occurs_at(hay@, needle@, i as int) && forall|j: int|
                from <= j < i ==> !occurs_at(hay@, needle@, j),
            None => forall|j: int| from <= j ==> !occurs_at(hay@, needle@, j),
        },
{
    let n = hay.len();
    let m = needle.len();
    if m > n {
        return None;
    }
    let mut i: usize = from;
    while i <= n - m
        invariant
            n == hay@.len(),
            m == needle@.len(),
            m <= n,
            from <= i,
            forall|j: int| from <= j < i ==> !occurs_at(hay@, needle@, j),
        decreases n - i,
    {
        let mut k: usize = 0;
        let mut same = true;
        while k < m
            invariant
                i + m <= n,
                n == hay@.len(),
                m == needle@.len(),
                k <= m,
                same == forall|t: int| 0 <= t < k ==> hay@[i + t] == needle@[t],
            decreases m - k,
        {
            if hay[i + k] != needle[k] {
                same = false;
            }
            k = k + 1;
        }
        if same {
            assert(hay@.subrange(i as int, i + m) =~= needle@);
            return Some(i);
        }
        assert(!occurs_at(hay@, needle@, i as int)) by {
            if occurs_at(hay@, needle@, i as int) {
                assert forall|t: int| 0 <= t < m implies hay@[i + t] == needle@[t] by {
                    assert(hay@.subrange(i as int, i + m)[t] == hay@[i + t]);
                }
            }
        }
        i = i + 1;
    }
    None
}

/// The last position where a character occurs, if any.
pub fn rfind_char(hay: &Vec<char>, c: char) -> (r: Option<usize>)
    ensures
        match r {
            Some(i) => last_of(hay@, c) == Some(i as int),
            None => last_of(hay@, c) is None,
        },
{
    let mut i: usize = hay.len();
    assert(hay@.take(i as int) =~= hay@);
    while i > 0
        invariant
            i <= hay@.len(),
            last_of(hay@.take(i as int), c) == last_of(hay@, c),
        decreases i,
    {
        assert(hay@.take(i as int).drop_last() =~= hay@.take(i - 1));
        if hay[i - 1] == c {
            return Some(i - 1);
        }
        i = i - 1;
    }
    None
}

/// The characters of a string.
pub fn str_chars(s: &str) -> (r: Vec<char>)
    ensures
        r@ == s@,
{
    broadcast use vstd::string::group_string_axioms;

    let mut v: Vec<char> = Vec::new();
    for c in it: s.chars()
        invariant
            v@ == it.seq().take(it.index() as int),
    {
        v.push(c);
    }
    assert(v@ =~= s@);
    v
}

} // verus!
