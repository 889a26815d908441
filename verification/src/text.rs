use vstd::prelude::*;
use crate::model::strings_view;

verus! {

/// Appends one character to a string (`String::push`).
#[verifier::external_body]
pub(crate) fn push_char(s: &mut String, c: char)
    ensures
        final(s)@ == old(s)@.push(c),
{
    s.push(c);
}

/// The characters of a string slice, in order.
pub fn chars_of(s: &str) -> (r: Vec<char>)
    ensures
        r@ == s@,
{
    let mut r: Vec<char> = Vec::new();
    for c in it: s.chars()
        invariant
            r@ == it.seq().subrange(0, it.index() as int),
            it.seq() == s@,
    {
        r.push(c);
    }
    r
}

/// The string made of the given characters.
pub fn string_of(v: &Vec<char>) -> (r: String)
    ensures
        r@ == v@,
{
    let mut r = String::new();
    let mut i: usize = 0;
    while i < v.len()
        invariant
            i <= v.len(),
            r@ == v@.subrange(0, i as int),
        decreases v.len() - i,
    {
        push_char(&mut r, v[i]);
        i = i + 1;
    }
    r
}

/// Whether `a` comes strictly before `b` in the order of Rust strings:
/// lexicographic over the characters' code points.
pub open spec fn chars_lt(a: Seq<char>, b: Seq<char>) -> bool
    decreases a.len(),
{
    if a.len() == 0 {
        b.len() > 0
    } else if b.len() == 0 {
        false
    } else if a[0] != b[0] {
        a[0] < b[0]
    } else {
        chars_lt(a.drop_first(), b.drop_first())
    }
}

pub proof fn lemma_chars_lt_irreflexive(a: Seq<char>)
    ensures
        !chars_lt(a, a),
    decreases a.len(),
{
    if a.len() > 0 {
        lemma_chars_lt_irreflexive(a.drop_first());
    }
}

pub proof fn lemma_chars_lt_transitive(a: Seq<char>, b: Seq<char>, c: Seq<char>)
    requires
        chars_lt(a, b),
        chars_lt(b, c),
    ensures
        chars_lt(a, c),
    decreases a.len(),
{
    if a.len() > 0 && b.len() > 0 && c.len() > 0 {
        if a[0] == b[0] && b[0] == c[0] {
            lemma_chars_lt_transitive(a.drop_first(), b.drop_first(), c.drop_first());
        }
    }
}

pub proof fn lemma_chars_lt_total(a: Seq<char>, b: Seq<char>)
    requires
        a != b,
    ensures
        chars_lt(a, b) || chars_lt(b, a),
    decreases a.len(),
{
    if a.len() > 0 && b.len() > 0 && a[0] == b[0] {
        if a.drop_first() == b.drop_first() {
            assert(a =~= seq![a[0]] + a.drop_first());
            assert(b =~= seq![b[0]] + b.drop_first());
        }
        lemma_chars_lt_total(a.drop_first(), b.drop_first());
    } else if a.len() > 0 && b.len() > 0 {
        assert(a[0] != b[0]);
    } else if a.len() == 0 && b.len() == 0 {
        assert(a =~= b);
    }
}

/// The string order as a spec closure.
pub open spec fn chars_order() -> spec_fn(Seq<char>, Seq<char>) -> bool {
    |a: Seq<char>, b: Seq<char>| chars_lt(a, b)
}

pub proof fn lemma_chars_order_total()
    ensures
        crate::sorting::strict_total_order(chars_order()),
{
    assert forall|a: Seq<char>| !(#[trigger] chars_order()(a, a)) by {
        lemma_chars_lt_irreflexive(a);
    }
    assert forall|a: Seq<char>, b: Seq<char>, c: Seq<char>|
        #[trigger] chars_order()(a, b) && #[trigger] chars_order()(b, c) implies chars_order()(a, c) by {
        lemma_chars_lt_transitive(a, b, c);
    }
    assert forall|a: Seq<char>, b: Seq<char>| a != b implies #[trigger] chars_order()(a, b) || chars_order()(b, a) by {
        lemma_chars_lt_total(a, b);
    }
}

pub open spec fn chars_le(a: Seq<char>, b: Seq<char>) -> bool {
    !chars_lt(b, a)
}

pub fn lt_chars(a: &Vec<char>, b: &Vec<char>) -> (r: bool)
    ensures
        r == chars_lt(a@, b@),
{
    let mut i: usize = 0;
    assert(a@.subrange(0, a.len() as int) == a@);
    assert(b@.subrange(0, b.len() as int) == b@);
    while i < a.len() && i < b.len()
        invariant
            i <= a.len(),
            i <= b.len(),
            a@.subrange(0, i as int) == b@.subrange(0, i as int),
            chars_lt(a@, b@) == chars_lt(a@.subrange(i as int, a.len() as int), b@.subrange(i as int, b.len() as int)),
        decreases a.len() - i,
    {
        if a[i] != b[i] {
            assert(a[i as int] == a@.subrange(i as int, a.len() as int)[0]);
            return a[i] < b[i];
        }
        assert(a@.subrange(i as int, a.len() as int).drop_first() == a@.subrange(i + 1, a.len() as int));
        assert(b@.subrange(i as int, b.len() as int).drop_first() == b@.subrange(i + 1, b.len() as int));
        i = i + 1;
    }
    i == a.len() && i < b.len()
}

/// `s` with every upper-case ASCII letter made lower case.
pub open spec fn ascii_lower(s: Seq<char>) -> Seq<char> {
    s.map_values(|c: char| ascii_lower_char(c))
}

pub open spec fn ascii_lower_char(c: char) -> char {
    if 'A' <= c && c <= 'Z' {
        ((c as u32) + 32) as char
    } else {
        c
    }
}

/// `str::to_ascii_lowercase`: lower-cases the ASCII letters and keeps every
/// other character.
pub fn to_ascii_lowercase(s: &str) -> (r: String)
    ensures
        r@ == ascii_lower(s@),
{
    let cs = chars_of(s);
    let mut r = String::new();
    let mut i: usize = 0;
    while i < cs.len()
        invariant
            i <= cs.len(),
            cs@ == s@,
            r@ == ascii_lower(s@).subrange(0, i as int),
        decreases cs.len() - i,
    {
        let c = cs[i];
        let l = if 'A' <= c && c <= 'Z' {
            let code = (c as u32) + 32;
            assert(0x61 <= code <= 0x7a);
            char_from_ascii(code as u8)
        } else {
            c
        };
        assert(l == ascii_lower_char(c));
        push_char(&mut r, l);
        assert(r@ =~= ascii_lower(s@).subrange(0, i + 1));
        i = i + 1;
    }
    assert(ascii_lower(s@).subrange(0, cs.len() as int) =~= ascii_lower(s@));
    r
}

/// The character of an ASCII code.
pub fn char_from_ascii(b: u8) -> (c: char)
    requires
        b < 128,
    ensures
        c == (b as u32) as char,
{
    b as char
}

/// `s` with every occurrence of the character `from` replaced by `to`.
pub open spec fn replace_char(s: Seq<char>, from: char, to: char) -> Seq<char> {
    s.map_values(|c: char| if c == from { to } else { c })
}

/// `str::replace` for single characters.
pub fn replace_all_char(s: &str, from: char, to: char) -> (r: String)
    ensures
        r@ == replace_char(s@, from, to),
{
    let cs = chars_of(s);
    let mut r = String::new();
    let mut i: usize = 0;
    while i < cs.len()
        invariant
            i <= cs.len(),
            cs@ == s@,
            r@ == replace_char(s@, from, to).subrange(0, i as int),
        decreases cs.len() - i,
    {
        let c = cs[i];
        push_char(&mut r, if c == from { to } else { c });
        assert(r@ =~= replace_char(s@, from, to).subrange(0, i + 1));
        i = i + 1;
    }
    assert(replace_char(s@, from, to).subrange(0, cs.len() as int) =~= replace_char(s@, from, to));
    r
}

/// `pattern` occurs in `s` at position `i`.
pub open spec fn occurs_at(s: Seq<char>, pattern: Seq<char>, i: int) -> bool {
    0 <= i && i + pattern.len() <= s.len() && s.subrange(i, i + pattern.len()) == pattern
}

/// `s` with its first occurrence of `from` replaced by `to`
/// (`str::replacen(from, to, 1)`); `s` itself where `from` does not occur.
/// An empty `from` occurs at the start.
pub open spec fn replace_first(s: Seq<char>, from: Seq<char>, to: Seq<char>) -> Seq<char> {
    if exists|i: int| occurs_at(s, from, i) {
        let i = choose|i: int| occurs_at(s, from, i) && forall|j: int| 0 <= j < i ==> !occurs_at(s, from, j);
        s.subrange(0, i) + to + s.subrange(i + from.len(), s.len() as int)
    } else {
        s
    }
}

/// Whether `pattern` occurs in `s` at position `i` (characters).
pub fn occurs_at_exec(s: &Vec<char>, pattern: &Vec<char>, i: usize) -> (r: bool)
    ensures
        r == occurs_at(s@, pattern@, i as int),
{
    if i > s.len() || pattern.len() > s.len() - i {
        return false;
    }
    let mut k: usize = 0;
    while k < pattern.len()
        invariant
            k <= pattern.len(),
            i + pattern.len() <= s.len(),
            forall|m: int| 0 <= m < k ==> s@[i + m] == pattern@[m],
        decreases pattern.len() - k,
    {
        if s[i + k] != pattern[k] {
            assert(s@.subrange(i as int, i + pattern.len())[k as int] != pattern@[k as int]);
            return false;
        }
        k = k + 1;
    }
    assert(s@.subrange(i as int, i + pattern.len()) =~= pattern@);
    true
}

/// The string made of the characters `v[from..to]`.
pub fn string_of_range(v: &Vec<char>, from: usize, to: usize) -> (r: String)
    requires
        from <= to <= v.len(),
    ensures
        r@ == v@.subrange(from as int, to as int),
{
    let mut r = String::new();
    let mut i: usize = from;
    while i < to
        invariant
            from <= i <= to,
            to <= v.len(),
            r@ == v@.subrange(from as int, i as int),
        decreases to - i,
    {
        push_char(&mut r, v[i]);
        assert(r@ =~= v@.subrange(from as int, i + 1));
        i = i + 1;
    }
    r
}

/// `str::replacen(from, to, 1)`.
pub fn replacen_first(s: &str, from: &str, to: &str) -> (r: String)
    ensures
        r@ == replace_first(s@, from@, to@),
{
    let cs = chars_of(s);
    let fs = chars_of(from);
    let mut i: usize = 0;
    loop
        invariant
            i <= cs.len(),
            cs@ == s@,
            fs@ == from@,
            forall|j: int| 0 <= j < i ==> !occurs_at(s@, from@, j),
        ensures
            i == cs.len(),
            forall|j: int| 0 <= j <= i ==> !occurs_at(s@, from@, j),
        decreases cs.len() - i,
    {
        if occurs_at_exec(&cs, &fs, i) {
            let mut r = string_of_range(&cs, 0, i);
            r.append(to);
            let tail = string_of_range(&cs, i + fs.len(), cs.len());
            r.append(tail.as_str());
            proof {
                let k = choose|k: int| occurs_at(s@, from@, k) && forall|j: int| 0 <= j < k ==> !occurs_at(s@, from@, j);
                if k < i {
                } else if k > i {
                    assert(!occurs_at(s@, from@, i as int));
                }
            }
            return r;
        }
        if i == cs.len() {
            break;
        }
        i = i + 1;
    }
    proof {
        assert forall|j: int| !occurs_at(s@, from@, j) by {
            if 0 <= j && j + from@.len() <= s@.len() {
                assert(j <= i);
            }
        }
    }
    let r = string_of_range(&cs, 0, cs.len());
    assert(s@.subrange(0, s@.len() as int) =~= s@);
    r
}

/// `s` with every occurrence of a non-empty `from` replaced by `to`, the
/// occurrences taken from the left without overlap (`str::replace`).
pub open spec fn replace_all(s: Seq<char>, from: Seq<char>, to: Seq<char>) -> Seq<char>
    recommends
        from.len() > 0,
    decreases s.len(),
{
    if from.len() == 0 || s.len() == 0 {
        s
    } else if occurs_at(s, from, 0) {
        to + replace_all(s.subrange(from.len() as int, s.len() as int), from, to)
    } else {
        seq![s[0]] + replace_all(s.drop_first(), from, to)
    }
}

/// `str::replace(from, to)` for a non-empty `from`.
pub fn replace_every(s: &str, from: &str, to: &str) -> (r: String)
    requires
        from@.len() > 0,
    ensures
        r@ == replace_all(s@, from@, to@),
{
    let cs = chars_of(s);
    let fs = chars_of(from);
    let mut r = String::new();
    let mut i: usize = 0;
    assert(s@.subrange(0, s@.len() as int) =~= s@);
    assert(r@ + replace_all(s@, from@, to@) =~= replace_all(s@, from@, to@));
    while i < cs.len()
        invariant
            i <= cs.len(),
            cs@ == s@,
            fs@ == from@,
            from@.len() > 0,
            r@ + replace_all(s@.subrange(i as int, s@.len() as int), from@, to@) == replace_all(s@, from@, to@),
        decreases cs.len() - i,
    {
        let ghost rest = s@.subrange(i as int, s@.len() as int);
        if occurs_at_exec(&cs, &fs, i) {
            proof {
                assert(rest.subrange(0, from@.len() as int) =~= s@.subrange(i as int, i + from@.len()));
                assert(occurs_at(rest, from@, 0));
                assert(rest.subrange(from@.len() as int, rest.len() as int)
                    =~= s@.subrange(i + from@.len(), s@.len() as int));
            }
            r.append(to);
            i = i + fs.len();
            proof {
                assert(r@ + replace_all(s@.subrange(i as int, s@.len() as int), from@, to@)
                    =~= (r@.subrange(0, r@.len() - to@.len())) + (to@ + replace_all(s@.subrange(i as int, s@.len() as int), from@, to@)));
            }
        } else {
            proof {
                if occurs_at(rest, from@, 0) {
                    assert(rest.subrange(0, from@.len() as int) =~= s@.subrange(i as int, i + from@.len()));
                }
                assert(rest.drop_first() =~= s@.subrange(i + 1, s@.len() as int));
                assert(rest[0] == cs@[i as int]);
            }
            let ghost r0 = r@;
            push_char(&mut r, cs[i]);
            i = i + 1;
            proof {
                assert(r@ + replace_all(s@.subrange(i as int, s@.len() as int), from@, to@)
                    =~= r0 + (seq![cs@[i - 1]] + replace_all(s@.subrange(i as int, s@.len() as int), from@, to@)));
            }
        }
    }
    proof {
        assert(s@.subrange(i as int, s@.len() as int) =~= Seq::<char>::empty());
        assert(r@ + Seq::<char>::empty() =~= r@);
    }
    r
}

/// The characters that Unicode calls white space (`char::is_whitespace`).
pub open spec fn is_unicode_ws(c: char) -> bool {
    ||| '\u{9}' <= c <= '\u{d}'
    ||| c == ' '
    ||| c == '\u{85}'
    ||| c == '\u{a0}'
    ||| c == '\u{1680}'
    ||| '\u{2000}' <= c <= '\u{200a}'
    ||| c == '\u{2028}'
    ||| c == '\u{2029}'
    ||| c == '\u{202f}'
    ||| c == '\u{205f}'
    ||| c == '\u{3000}'
}

/// Whether a character is white space.
pub fn is_whitespace(c: char) -> (r: bool)
    ensures
        r == is_unicode_ws(c),
{
    ('\u{9}' <= c && c <= '\u{d}') || c == ' ' || c == '\u{85}' || c == '\u{a0}' || c == '\u{1680}' || ('\u{2000}'
        <= c && c <= '\u{200a}') || c == '\u{2028}' || c == '\u{2029}' || c == '\u{202f}' || c == '\u{205f}' || c
        == '\u{3000}'
}

/// `s` without white space at either end (`str::trim`).
pub open spec fn trim_ws(s: Seq<char>) -> Seq<char> {
    if exists|i: int| 0 <= i < s.len() && !is_unicode_ws(#[trigger] s[i]) {
        let first = choose|i: int|
            0 <= i < s.len() && !is_unicode_ws(#[trigger] s[i]) && forall|j: int| 0 <= j < i ==> is_unicode_ws(s[j]);
        let last = choose|i: int|
            0 <= i < s.len() && !is_unicode_ws(#[trigger] s[i]) && forall|j: int| i < j < s.len() ==> is_unicode_ws(s[j]);
        s.subrange(first, last + 1)
    } else {
        Seq::empty()
    }
}

/// `str::trim`, on characters.
pub fn trim_chars(s: &Vec<char>) -> (r: Vec<char>)
    ensures
        r@ == trim_ws(s@),
{
    let mut first: usize = 0;
    while first < s.len() && is_whitespace(s[first])
        invariant
            first <= s.len(),
            forall|j: int| 0 <= j < first ==> is_unicode_ws(s@[j]),
        decreases s.len() - first,
    {
        first = first + 1;
    }
    if first == s.len() {
        assert(!exists|i: int| 0 <= i < s@.len() && !is_unicode_ws(#[trigger] s@[i]));
        return Vec::new();
    }
    let mut last: usize = s.len() - 1;
    while is_whitespace(s[last])
        invariant
            first <= last < s.len(),
            !is_unicode_ws(s@[first as int]),
            forall|j: int| last < j < s.len() ==> is_unicode_ws(s@[j]),
        decreases last,
    {
        last = last - 1;
    }
    proof {
        let f = choose|i: int|
            0 <= i < s@.len() && !is_unicode_ws(#[trigger] s@[i]) && forall|j: int| 0 <= j < i ==> is_unicode_ws(s@[j]);
        assert(!is_unicode_ws(s@[first as int]) && forall|j: int| 0 <= j < first ==> is_unicode_ws(s@[j]));
        if f < first {
        } else if f > first {
            assert(is_unicode_ws(s@[first as int]));
        }
        let l = choose|i: int|
            0 <= i < s@.len() && !is_unicode_ws(#[trigger] s@[i]) && forall|j: int| i < j < s@.len() ==> is_unicode_ws(s@[j]);
        assert(!is_unicode_ws(s@[last as int]) && forall|j: int| last < j < s@.len() ==> is_unicode_ws(s@[j]));
        if l < last {
            assert(is_unicode_ws(s@[last as int]));
        } else if l > last {
        }
    }
    let mut r: Vec<char> = Vec::new();
    let mut i: usize = first;
    while i <= last
        invariant
            first <= i <= last + 1,
            last < s.len(),
            r@ == s@.subrange(first as int, i as int),
        decreases last + 1 - i,
    {
        r.push(s[i]);
        i = i + 1;
    }
    r
}

/// The text before the first `sep` and the text after it
/// (`str::split_once` with a character), `None` where `sep` does not occur.
pub open spec fn split_once_at(s: Seq<char>, sep: char) -> Option<(Seq<char>, Seq<char>)> {
    if exists|i: int| 0 <= i < s.len() && s[i] == sep {
        let i = choose|i: int| 0 <= i < s.len() && s[i] == sep && forall|j: int| 0 <= j < i ==> s[j] != sep;
        Some((s.subrange(0, i), s.subrange(i + 1, s.len() as int)))
    } else {
        None
    }
}

/// `str::split_once` with a character, on characters.
pub fn split_once_chars(s: &Vec<char>, sep: char) -> (r: Option<(String, String)>)
    ensures
        match r {
            Some((a, b)) => split_once_at(s@, sep) == Some((a@, b@)),
            None => split_once_at(s@, sep) is None,
        },
{
    let mut i: usize = 0;
    while i < s.len()
        invariant
            i <= s.len(),
            forall|j: int| 0 <= j < i ==> s@[j] != sep,
        decreases s.len() - i,
    {
        if s[i] == sep {
            let before = string_of_range(s, 0, i);
            let after = string_of_range(s, i + 1, s.len());
            proof {
                let k = choose|k: int| 0 <= k < s@.len() && s@[k] == sep && forall|j: int| 0 <= j < k ==> s@[j] != sep;
                if k < i {
                } else if k > i {
                    assert(s@[i as int] == sep);
                }
            }
            return Some((before, after));
        }
        i = i + 1;
    }
    None
}

/// `s` without `suffix` at its end, `None` where it does not end so
/// (`str::strip_suffix`).
pub open spec fn without_suffix(s: Seq<char>, suffix: Seq<char>) -> Option<Seq<char>> {
    if suffix.len() <= s.len() && s.subrange(s.len() - suffix.len(), s.len() as int) == suffix {
        Some(s.subrange(0, s.len() - suffix.len()))
    } else {
        None
    }
}

/// `str::strip_suffix`.
pub fn strip_suffix_of(s: &str, suffix: &str) -> (r: Option<String>)
    ensures
        opt_view(r) == without_suffix(s@, suffix@),
{
    let cs = chars_of(s);
    let fs = chars_of(suffix);
    if fs.len() > cs.len() {
        return None;
    }
    let start = cs.len() - fs.len();
    if occurs_at_exec(&cs, &fs, start) {
        Some(string_of_range(&cs, 0, start))
    } else {
        None
    }
}

/// The pieces of `s` between the characters for which `sep` holds, as
/// `str::split` gives them: empty pieces included, one piece for an
/// empty text.
pub open spec fn split_by(s: Seq<char>, sep: spec_fn(char) -> bool) -> Seq<Seq<char>>
    decreases s.len(),
{
    if s.len() == 0 {
        seq![Seq::<char>::empty()]
    } else {
        let rest = split_by(s.drop_last(), sep);
        if sep(s.last()) {
            rest.push(Seq::<char>::empty())
        } else {
            rest.update(rest.len() - 1, rest.last().push(s.last()))
        }
    }
}

pub proof fn lemma_split_by_nonempty(s: Seq<char>, sep: spec_fn(char) -> bool)
    ensures
        split_by(s, sep).len() >= 1,
    decreases s.len(),
{
    if s.len() > 0 {
        lemma_split_by_nonempty(s.drop_last(), sep);
    }
}

/// The separator predicate of a single character.
pub open spec fn is_char(c: char) -> spec_fn(char) -> bool {
    |x: char| x == c
}

/// ASCII white space as `u8::is_ascii_whitespace` has it.
pub open spec fn is_ascii_ws(c: char) -> bool {
    c == ' ' || c == '\t' || c == '\n' || c == '\x0C' || c == '\r'
}

/// The words of `s`: the non-empty runs between ASCII white space
/// (`str::split_ascii_whitespace`).
pub open spec fn ascii_words(s: Seq<char>) -> Seq<Seq<char>> {
    split_by(s, |c: char| is_ascii_ws(c)).filter(|w: Seq<char>| w.len() > 0)
}

/// The pieces of `s` between occurrences of `sep` (`str::split` on a character).
pub fn split_on_char(s: &str, sep: char) -> (r: Vec<String>)
    ensures
        strings_view(r@) == split_by(s@, is_char(sep)),
{
    let cs = chars_of(s);
    let mut done: Vec<String> = Vec::new();
    let mut current = String::new();
    let mut i: usize = 0;
    assert(s@.take(0) =~= Seq::<char>::empty());
    while i < cs.len()
        invariant
            i <= cs.len(),
            cs@ == s@,
            split_by(s@.take(i as int), is_char(sep)) == strings_view(done@).push(current@),
        decreases cs.len() - i,
    {
        let c = cs[i];
        assert(s@.take(i + 1).drop_last() =~= s@.take(i as int));
        if c == sep {
            let piece = current;
            done.push(piece);
            current = String::new();
            assert(strings_view(done@).push(current@) =~= split_by(s@.take(i + 1), is_char(sep)));
        } else {
            push_char(&mut current, c);
            assert(strings_view(done@).push(current@) =~= split_by(s@.take(i + 1), is_char(sep)));
        }
        i = i + 1;
    }
    done.push(current);
    assert(s@.take(cs.len() as int) =~= s@);
    assert(strings_view(done@) =~= split_by(s@, is_char(sep)));
    done
}

/// A line without its carriage return at the end, if it has one.
pub open spec fn strip_cr(l: Seq<char>) -> Seq<char> {
    if l.len() > 0 && l.last() == '\r' {
        l.drop_last()
    } else {
        l
    }
}

/// The lines of `s` as `str::lines` gives them: the pieces between line
/// feeds, without a last empty piece, each without a carriage return at its
/// end.
pub open spec fn text_lines(s: Seq<char>) -> Seq<Seq<char>> {
    let pieces = split_by(s, is_char('\n'));
    let kept = if pieces.last().len() == 0 {
        pieces.drop_last()
    } else {
        pieces
    };
    kept.map_values(|l: Seq<char>| strip_cr(l))
}

/// `str::lines`.
pub fn lines_of(s: &str) -> (r: Vec<String>)
    ensures
        strings_view(r@) == text_lines(s@),
{
    let pieces = split_on_char(s, '\n');
    let ghost ps = strings_view(pieces@);
    proof {
        lemma_split_by_nonempty(s@, is_char('\n'));
    }
    let n = pieces.len();
    let last_empty = pieces[n - 1].as_str().is_empty();
    let count = if last_empty { n - 1 } else { n };
    let ghost kept = if ps.last().len() == 0 { ps.drop_last() } else { ps };
    assert(kept.len() == count);
    let mut r: Vec<String> = Vec::new();
    let mut i: usize = 0;
    while i < count
        invariant
            i <= count <= pieces.len(),
            ps == strings_view(pieces@),
            kept.len() == count,
            forall|k: int| 0 <= k < count ==> kept[k] == ps[k],
            strings_view(r@) == kept.subrange(0, i as int).map_values(|l: Seq<char>| strip_cr(l)),
        decreases count - i,
    {
        let cs = chars_of(pieces[i].as_str());
        let line = if cs.len() > 0 && cs[cs.len() - 1] == '\r' {
            string_of_range(&cs, 0, cs.len() - 1)
        } else {
            string_of_range(&cs, 0, cs.len())
        };
        proof {
            assert(cs@ == ps[i as int]);
            assert(cs@.subrange(0, cs@.len() as int) =~= cs@);
            assert(cs@.subrange(0, cs@.len() - 1) =~= cs@.drop_last());
        }
        let ghost r0 = strings_view(r@);
        r.push(line);
        proof {
            assert(strings_view(r@) =~= r0.push(strip_cr(kept[i as int])));
            assert(kept.subrange(0, i + 1).map_values(|l: Seq<char>| strip_cr(l))
                =~= kept.subrange(0, i as int).map_values(|l: Seq<char>| strip_cr(l)).push(strip_cr(kept[i as int])));
        }
        i = i + 1;
    }
    assert(kept.subrange(0, count as int) =~= kept);
    r
}

/// The words of `s` between ASCII white space (`str::split_ascii_whitespace`).
pub fn split_ascii_words(s: &str) -> (r: Vec<String>)
    ensures
        strings_view(r@) == ascii_words(s@),
{
    let ghost ws = |c: char| is_ascii_ws(c);
    let ghost nonempty = |w: Seq<char>| w.len() > 0;
    let cs = chars_of(s);
    let mut done: Vec<String> = Vec::new();
    let mut current = String::new();
    let mut i: usize = 0;
    assert(s@.take(0) =~= Seq::<char>::empty());
    proof {
        reveal(Seq::filter);
        assert(split_by(s@.take(0), ws).drop_last() =~= Seq::<Seq<char>>::empty());
        assert(Seq::<Seq<char>>::empty().filter(nonempty) =~= Seq::<Seq<char>>::empty());
    }
    while i < cs.len()
        invariant
            i <= cs.len(),
            cs@ == s@,
            ws == (|c: char| is_ascii_ws(c)),
            nonempty == (|w: Seq<char>| w.len() > 0),
            split_by(s@.take(i as int), ws).last() == current@,
            split_by(s@.take(i as int), ws).len() >= 1,
            split_by(s@.take(i as int), ws).drop_last().filter(nonempty) == strings_view(done@),
        decreases cs.len() - i,
    {
        let c = cs[i];
        let ghost before = split_by(s@.take(i as int), ws);
        assert(s@.take(i + 1).drop_last() =~= s@.take(i as int));
        assert(s@.take(i + 1).last() == c);
        if c == ' ' || c == '\t' || c == '\n' || c == '\x0C' || c == '\r' {
            let ghost after = split_by(s@.take(i + 1), ws);
            assert(after == before.push(Seq::<char>::empty()));
            assert(after.drop_last() =~= before);
            proof {
                reveal(Seq::filter);
                assert(before =~= before.drop_last().push(before.last()));
            }
            if current.as_str().is_empty() {
                current = String::new();
                assert(before.filter(nonempty) == before.drop_last().filter(nonempty));
            } else {
                let word = current;
                done.push(word);
                current = String::new();
                assert(before.filter(nonempty) =~= before.drop_last().filter(nonempty).push(before.last()));
            }
        } else {
            push_char(&mut current, c);
            let ghost after = split_by(s@.take(i + 1), ws);
            assert(after == before.update(before.len() - 1, before.last().push(c)));
            assert(after.drop_last() =~= before.drop_last());
        }
        i = i + 1;
    }
    assert(s@.take(cs.len() as int) =~= s@);
    let ghost all = split_by(s@, ws);
    proof {
        reveal(Seq::filter);
        assert(all =~= all.drop_last().push(all.last()));
    }
    if !current.as_str().is_empty() {
        done.push(current);
    }
    assert(strings_view(done@) =~= all.filter(nonempty));
    done
}

/// The decimal digits of `n`, most significant first.
pub open spec fn decimal(n: nat) -> Seq<char>
    decreases n,
{
    if n < 10 {
        seq![digit_char(n)]
    } else {
        decimal(n / 10).push(digit_char(n % 10))
    }
}

pub open spec fn digit_char(d: nat) -> char {
    ((48 + d) as u32) as char
}

/// The decimal form of an integer, with a leading minus sign when negative.
pub open spec fn decimal_int(n: int) -> Seq<char> {
    if n < 0 {
        seq!['-'] + decimal((-n) as nat)
    } else {
        decimal(n as nat)
    }
}

/// The decimal form of `n` (`u64::to_string`).
pub fn u64_to_decimal(n: u64) -> (r: String)
    ensures
        r@ == decimal(n as nat),
{
    let mut rev: Vec<char> = Vec::new();
    let mut m: u64 = n;
    let ghost mut tail: Seq<char> = Seq::empty();
    loop
        invariant
            decimal(n as nat) == decimal(m as nat) + tail,
            rev@ == tail.reverse(),
        ensures
            m < 10,
            decimal(n as nat) == decimal(m as nat) + tail,
            rev@ == tail.reverse(),
        decreases m,
    {
        if m < 10 {
            break;
        }
        let d = (m % 10) as u8;
        let c = char_from_ascii(48 + d);
        proof {
            assert(decimal(m as nat) == decimal((m / 10) as nat).push(digit_char((m % 10) as nat)));
            assert(decimal(m as nat) + tail =~= decimal((m / 10) as nat) + (seq![c] + tail));
            assert((seq![c] + tail).reverse() =~= tail.reverse().push(c));
            tail = seq![c] + tail;
        }
        rev.push(c);
        m = m / 10;
    }
    let first = char_from_ascii(48 + (m as u8));
    rev.push(first);
    let mut r = String::new();
    let mut k: usize = rev.len();
    assert(rev@.reverse() =~= decimal(n as nat));
    while k > 0
        invariant
            k <= rev.len(),
            r@ == rev@.reverse().subrange(0, rev.len() - k),
        decreases k,
    {
        k = k - 1;
        push_char(&mut r, rev[k]);
        assert(r@ =~= rev@.reverse().subrange(0, rev.len() - k));
    }
    assert(rev@.reverse().subrange(0, rev.len() as int) =~= rev@.reverse());
    r
}

/// The decimal form of `n` (`i64::to_string`).
pub fn i64_to_decimal(n: i64) -> (r: String)
    ensures
        r@ == decimal_int(n as int),
{
    if n < 0 {
        let magnitude: u64 = if n == i64::MIN {
            9223372036854775808u64
        } else {
            (-n) as u64
        };
        let digits = u64_to_decimal(magnitude);
        let mut r = String::from_str("-");
        r.append(digits.as_str());
        proof {
            reveal_strlit("-");
        }
        r
    } else {
        u64_to_decimal(n as u64)
    }
}

/// Whether two texts are equal.
pub fn str_eq(a: &str, b: &str) -> (r: bool)
    ensures
        r == (a@ == b@),
{
    let ac = chars_of(a);
    let bc = chars_of(b);
    if ac.len() != bc.len() {
        return false;
    }
    let mut i: usize = 0;
    while i < ac.len()
        invariant
            i <= ac.len(),
            ac.len() == bc.len(),
            ac@ == a@,
            bc@ == b@,
            forall|k: int| 0 <= k < i ==> ac@[k] == bc@[k],
        decreases ac.len() - i,
    {
        if ac[i] != bc[i] {
            return false;
        }
        i = i + 1;
    }
    assert(a@ =~= b@);
    true
}

/// Whether `s` is among `items`.
pub fn strings_contain(items: &Vec<String>, s: &str) -> (r: bool)
    ensures
        r == strings_view(items@).contains(s@),
{
    let ghost views = strings_view(items@);
    let mut i: usize = 0;
    while i < items.len()
        invariant
            i <= items.len(),
            views == strings_view(items@),
            forall|k: int| 0 <= k < i ==> views[k] != s@,
        decreases items.len() - i,
    {
        if str_eq(items[i].as_str(), s) {
            assert(views[i as int] == s@);
            return true;
        }
        i = i + 1;
    }
    false
}

/// The view of an optional text.
pub open spec fn opt_view(o: Option<String>) -> Option<Seq<char>> {
    match o {
        Some(s) => Some(s@),
        None => None,
    }
}

/// The value of a string of decimal digits.
pub open spec fn digits_value(s: Seq<char>) -> int
    decreases s.len(),
{
    if s.len() == 0 {
        0
    } else {
        digits_value(s.drop_last()) * 10 + (s.last() as u32 - 48)
    }
}

pub open spec fn is_digit(c: char) -> bool {
    '0' <= c && c <= '9'
}

/// The text after an optional leading '+'.
pub open spec fn unsigned_digits(s: Seq<char>) -> Seq<char> {
    if s.len() > 0 && s[0] == '+' {
        s.drop_first()
    } else {
        s
    }
}

/// Every character is a decimal digit.
pub open spec fn all_digits(s: Seq<char>) -> bool {
    forall|i: int| 0 <= i < s.len() ==> is_digit(#[trigger] s[i])
}

/// The number that `str::parse::<u64>` reads from `s`: decimal digits,
/// optionally after a '+', with a value that fits in 64 bits.
pub open spec fn parsed_u64(s: Seq<char>) -> Option<u64> {
    let digits = unsigned_digits(s);
    if digits.len() > 0 && all_digits(digits) && digits_value(digits) <= u64::MAX {
        Some(digits_value(digits) as u64)
    } else {
        None
    }
}

pub proof fn lemma_digits_value_nonneg(s: Seq<char>)
    requires
        forall|i: int| 0 <= i < s.len() ==> is_digit(#[trigger] s[i]),
    ensures
        digits_value(s) >= 0,
    decreases s.len(),
{
    if s.len() > 0 {
        lemma_digits_value_nonneg(s.drop_last());
    }
}

pub proof fn lemma_digits_value_grows(s: Seq<char>, k: int)
    requires
        0 <= k <= s.len(),
        forall|i: int| 0 <= i < s.len() ==> is_digit(#[trigger] s[i]),
    ensures
        digits_value(s.take(k)) <= digits_value(s),
    decreases s.len() - k,
{
    if k < s.len() {
        lemma_digits_value_grows(s, k + 1);
        assert(s.take(k + 1).drop_last() =~= s.take(k));
        lemma_digits_value_nonneg(s.take(k));
    } else {
        assert(s.take(k) =~= s);
    }
}

/// A number written in decimal reads back as itself, and has no white
/// space at its ends to trim.
pub proof fn lemma_decimal_reads_back(n: u64)
    ensures
        parsed_u64(decimal(n as nat)) == Some(n),
        trim_ws(decimal(n as nat)) == decimal(n as nat),
{
    lemma_parse_decimal(n);
    lemma_decimal_digits(n as nat);
    let s = decimal(n as nat);
    assert forall|i: int| 0 <= i < s.len() implies !is_unicode_ws(#[trigger] s[i]) by {
        assert(is_digit(s[i]));
    }
    assert(!is_unicode_ws(s[0]));
    let first = choose|i: int|
        0 <= i < s.len() && !is_unicode_ws(#[trigger] s[i]) && forall|j: int| 0 <= j < i ==> is_unicode_ws(s[j]);
    let last = choose|i: int|
        0 <= i < s.len() && !is_unicode_ws(#[trigger] s[i]) && forall|j: int| i < j < s.len() ==> is_unicode_ws(s[j]);
    assert(0 <= 0 < s.len() && !is_unicode_ws(s[0]) && forall|j: int| 0 <= j < 0 ==> is_unicode_ws(s[j]));
    assert(!is_unicode_ws(s[s.len() - 1]) && forall|j: int| s.len() - 1 < j < s.len() ==> is_unicode_ws(s[j]));
    if first > 0 {
        assert(is_unicode_ws(s[0]));
    }
    if last < s.len() - 1 {
        assert(is_unicode_ws(s[s.len() - 1]));
    }
    assert(s.subrange(first, last + 1) =~= s);
}

proof fn lemma_decimal_digits(n: nat)
    ensures
        decimal(n).len() > 0,
        all_digits(decimal(n)),
        digits_value(decimal(n)) == n,
    decreases n,
{
    let d = digit_char(n % 10);
    assert((d as u32 - 48) == n % 10);
    if n < 10 {
        assert(seq![d].drop_last() =~= Seq::<char>::empty());
        assert(n % 10 == n);
        assert(decimal(n) == seq![d]);
        assert(digits_value(seq![d]) == digits_value(Seq::<char>::empty()) * 10 + (d as u32 - 48));
    } else {
        lemma_decimal_digits(n / 10);
        assert(decimal(n).drop_last() =~= decimal(n / 10));
        assert(decimal(n).last() == d);
        assert((n / 10) * 10 + n % 10 == n) by (nonlinear_arith);
        assert(digits_value(decimal(n)) == digits_value(decimal(n / 10)) * 10 + (d as u32 - 48));
        assert forall|i: int| 0 <= i < decimal(n).len() implies is_digit(#[trigger] decimal(n)[i]) by {
            if i < decimal(n).len() - 1 {
                assert(decimal(n)[i] == decimal(n / 10)[i]);
            }
        }
    }
}

/// Writing a number in decimal and reading it back gives the number.
pub proof fn lemma_parse_decimal(n: u64)
    ensures
        parsed_u64(decimal(n as nat)) == Some(n),
{
    lemma_decimal_digits(n as nat);
    assert(is_digit(decimal(n as nat)[0]));
    assert(unsigned_digits(decimal(n as nat)) == decimal(n as nat));
}

/// Reads a number the way `str::parse::<u64>` does.
pub fn parse_u64(s: &str) -> (r: Option<u64>)
    ensures
        r == parsed_u64(s@),
{
    let cs = chars_of(s);
    let start: usize = if cs.len() > 0 && cs[0] == '+' { 1 } else { 0 };
    let ghost digits = unsigned_digits(s@);
    assert(digits =~= s@.subrange(start as int, s@.len() as int));
    if start >= cs.len() {
        return None;
    }
    let mut value: u64 = 0;
    let mut i: usize = start;
    while i < cs.len()
        invariant
            start <= i <= cs.len(),
            cs@ == s@,
            digits == s@.subrange(start as int, s@.len() as int),
            digits == unsigned_digits(s@),
            forall|k: int| 0 <= k < i - start ==> is_digit(#[trigger] digits[k]),
            value as int == digits_value(digits.take(i - start)),
        decreases cs.len() - i,
    {
        let c = cs[i];
        assert(c == digits[i - start]);
        if !('0' <= c && c <= '9') {
            assert(!is_digit(digits[i - start]));
            return None;
        }
        let d = (c as u32 - 48) as u64;
        assert(digits.take(i - start + 1).drop_last() =~= digits.take(i - start));
        if value > (u64::MAX - d) / 10 {
            proof {
                let v = value as int;
                let dd = d as int;
                assert(v * 10 + dd > u64::MAX) by (nonlinear_arith)
                    requires
                        v > (u64::MAX - dd) / 10,
                        0 <= dd <= 9,
                ;
                assert(digits_value(digits.take(i - start + 1)) == v * 10 + dd);
                assert forall|k: int| 0 <= k < i - start + 1 implies is_digit(#[trigger] digits[k]) by {}
                if all_digits(digits) {
                    lemma_digits_value_grows(digits, i - start + 1);
                }
            }
            return None;
        }
        value = value * 10 + d;
        i = i + 1;
    }
    assert(digits.take(i - start) =~= digits);
    Some(value)
}

} // verus!
