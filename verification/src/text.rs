//! Text as sequences of characters: the small vocabulary that the parsers,
//! renderers and redaction rules of this crate are stated in.

use vstd::prelude::*;
use vstd::string::*;

verus! {

/// `String::push` of std: appends one character.
pub assume_specification[ String::push ](s: &mut String, c: char)
    ensures
        final(s)@ == old(s)@.push(c),
;

/// The characters of `s`.
pub fn chars_of(s: &str) -> (r: Vec<char>)
    ensures
        r@ == s@,
{
    let mut out: Vec<char> = Vec::new();
    for c in it: s.chars()
        invariant
            it.seq() == s@,
            out@ == s@.take(it.index() as int),
    {
        proof {
            assert(s@.take(it.index() as int + 1) == s@.take(it.index() as int).push(
                s@[it.index() as int],
            ));
        }
        out.push(c);
    }
    proof {
        assert(s@.take(s@.len() as int) == s@);
    }
    out
}

/// The text made of the characters of `cs`.
pub fn text_of(cs: &Vec<char>) -> (r: String)
    ensures
        r@ == cs@,
{
    sub_text(cs, 0, cs.len())
}

/// The text made of the characters of `cs` from `from` up to `to`.
pub fn sub_text(cs: &Vec<char>, from: usize, to: usize) -> (r: String)
    requires
        from <= to <= cs.len(),
    ensures
        r@ == cs@.subrange(from as int, to as int),
{
    let mut out = String::new();
    let mut i: usize = from;
    while i < to
        invariant
            from <= i <= to <= cs.len(),
            out@ == cs@.subrange(from as int, i as int),
        decreases to - i,
    {
        out.push(cs[i]);
        i = i + 1;
        proof {
            assert(cs@.subrange(from as int, i as int) == cs@.subrange(
                from as int,
                i as int - 1,
            ).push(cs@[i as int - 1]));
        }
    }
    out
}

/// Whether two texts hold the same characters.
pub fn same_text(a: &str, b: &str) -> (r: bool)
    ensures
        r == (a@ == b@),
{
    let x = chars_of(a);
    let y = chars_of(b);
    if x.len() != y.len() {
        return false;
    }
    let mut i: usize = 0;
    while i < x.len()
        invariant
            i <= x.len(),
            x.len() == y.len(),
            x@ == a@,
            y@ == b@,
            forall|j: int| 0 <= j < i ==> x@[j] == y@[j],
        decreases x.len() - i,
    {
        if x[i] != y[i] {
            return false;
        }
        i = i + 1;
    }
    proof {
        assert(a@ =~= b@);
    }
    true
}

/// `a` followed by `b`.
pub fn cat2(a: &str, b: &str) -> (r: String)
    ensures
        r@ == a@ + b@,
{
    let mut out = String::new();
    out.append(a);
    out.append(b);
    out
}

/// `a`, `b` and `c` in a row.
pub fn cat3(a: &str, b: &str, c: &str) -> (r: String)
    ensures
        r@ == a@ + b@ + c@,
{
    let mut out = cat2(a, b);
    out.append(c);
    out
}

/// `a`, `b`, `c` and `d` in a row.
pub fn cat4(a: &str, b: &str, c: &str, d: &str) -> (r: String)
    ensures
        r@ == a@ + b@ + c@ + d@,
{
    let mut out = cat3(a, b, c);
    out.append(d);
    out
}

/// `a`, `b`, `c`, `d` and `e` in a row.
pub fn cat5(a: &str, b: &str, c: &str, d: &str, e: &str) -> (r: String)
    ensures
        r@ == a@ + b@ + c@ + d@ + e@,
{
    let mut out = cat4(a, b, c, d);
    out.append(e);
    out
}

/// The contents of a list of texts.
pub open spec fn texts(v: Seq<String>) -> Seq<Seq<char>> {
    Seq::new(v.len(), |i: int| v[i]@)
}

/// A copy of a list of texts.
pub fn clone_texts(v: &Vec<String>) -> (r: Vec<String>)
    ensures
        texts(r@) == texts(v@),
{
    let mut out: Vec<String> = Vec::new();
    let mut i: usize = 0;
    while i < v.len()
        invariant
            i <= v.len(),
            out@.len() == i,
            forall|j: int| 0 <= j < i ==> (#[trigger] out@[j])@ == v@[j]@,
        decreases v.len() - i,
    {
        out.push(v[i].clone());
        i = i + 1;
    }
    proof {
        assert(texts(out@) =~= texts(v@));
    }
    out
}

/// Whether two lists hold the same texts in the same order.
pub fn same_texts(a: &Vec<String>, b: &Vec<String>) -> (r: bool)
    ensures
        r == (texts(a@) == texts(b@)),
{
    if a.len() != b.len() {
        proof {
            assert(texts(a@).len() != texts(b@).len());
        }
        return false;
    }
    let mut i: usize = 0;
    while i < a.len()
        invariant
            i <= a.len(),
            a.len() == b.len(),
            forall|j: int| 0 <= j < i ==> (#[trigger] a@[j])@ == b@[j]@,
        decreases a.len() - i,
    {
        if !same_text(a[i].as_str(), b[i].as_str()) {
            proof {
                assert(texts(a@)[i as int] != texts(b@)[i as int]);
            }
            return false;
        }
        i = i + 1;
    }
    proof {
        assert(texts(a@) =~= texts(b@));
    }
    true
}

/// Whether `t` is one of the texts of `v`.
pub fn list_has(v: &Vec<String>, t: &str) -> (r: bool)
    ensures
        r == texts(v@).contains(t@),
{
    let mut i: usize = 0;
    while i < v.len()
        invariant
            i <= v.len(),
            forall|j: int| 0 <= j < i ==> (#[trigger] v@[j])@ != t@,
        decreases v.len() - i,
    {
        if same_text(v[i].as_str(), t) {
            proof {
                assert(texts(v@)[i as int] == t@);
            }
            return true;
        }
        i = i + 1;
    }
    proof {
        assert forall|j: int| 0 <= j < texts(v@).len() implies texts(v@)[j] != t@ by {
            assert(v@[j]@ != t@);
        }
    }
    false
}

/// The optional text as its contents.
pub open spec fn opt_text(o: Option<String>) -> Option<Seq<char>> {
    match o {
        Some(t) => Some(t@),
        None => None,
    }
}

/// A copy of an optional text.
pub fn clone_opt(o: &Option<String>) -> (r: Option<String>)
    ensures
        opt_text(r) == opt_text(*o),
{
    match o {
        Some(t) => Some(t.clone()),
        None => None,
    }
}

/// White space: the characters with the Unicode property `White_Space`.
pub open spec fn space(c: char) -> bool {
    let u = c as u32;
    ||| 0x9 <= u <= 0xd
    ||| u == 0x20
    ||| u == 0x85
    ||| u == 0xa0
    ||| u == 0x1680
    ||| 0x2000 <= u <= 0x200a
    ||| u == 0x2028
    ||| u == 0x2029
    ||| u == 0x202f
    ||| u == 0x205f
    ||| u == 0x3000
}

pub fn is_space(c: char) -> (r: bool)
    ensures
        r == space(c),
{
    let u: u32 = c as u32;
    (0x9 <= u && u <= 0xd) || u == 0x20 || u == 0x85 || u == 0xa0 || u == 0x1680 || (0x2000 <= u
        && u <= 0x200a) || u == 0x2028 || u == 0x2029 || u == 0x202f || u == 0x205f || u == 0x3000
}

/// Control characters: the Unicode category `Cc`.
pub open spec fn control(c: char) -> bool {
    (c as u32) < 0x20 || 0x7f <= (c as u32) <= 0x9f
}

pub fn is_control_char(c: char) -> (r: bool)
    ensures
        r == control(c),
{
    let u: u32 = c as u32;
    u < 0x20 || (0x7f <= u && u <= 0x9f)
}

/// An ASCII decimal digit.
pub open spec fn digit(c: char) -> bool {
    0x30 <= (c as u32) <= 0x39
}

/// An ASCII letter or digit.
pub open spec fn alnum(c: char) -> bool {
    digit(c) || letter(c)
}

/// An ASCII letter.
pub open spec fn letter(c: char) -> bool {
    0x41 <= (c as u32) <= 0x5a || 0x61 <= (c as u32) <= 0x7a
}

pub fn is_letter(c: char) -> (r: bool)
    ensures
        r == letter(c),
{
    let u: u32 = c as u32;
    (0x41 <= u && u <= 0x5a) || (0x61 <= u && u <= 0x7a)
}

pub fn is_alnum(c: char) -> (r: bool)
    ensures
        r == alnum(c),
{
    let u: u32 = c as u32;
    is_letter(c) || (0x30 <= u && u <= 0x39)
}

/// The ASCII lower-case form of `c`.
pub open spec fn ascii_lower(c: char) -> char {
    if 0x41 <= (c as u32) <= 0x5a {
        ((c as u32) + 32) as char
    } else {
        c
    }
}

pub fn lower_char(c: char) -> (r: char)
    ensures
        r == ascii_lower(c),
{
    let u: u32 = c as u32;
    if 0x41 <= u && u <= 0x5a {
        (c as u8 + 32) as char
    } else {
        c
    }
}

/// The text with every ASCII capital replaced by its small letter.
pub open spec fn ascii_lowered(s: Seq<char>) -> Seq<char> {
    Seq::new(s.len(), |i: int| ascii_lower(s[i]))
}

/// `str::to_ascii_lowercase`, written out.
pub fn ascii_lowercase(s: &str) -> (r: String)
    ensures
        r@ == ascii_lowered(s@),
{
    let cs = chars_of(s);
    let mut out = String::new();
    let mut i: usize = 0;
    while i < cs.len()
        invariant
            i <= cs.len(),
            cs@ == s@,
            out@ == ascii_lowered(s@.take(i as int)),
        decreases cs.len() - i,
    {
        out.push(lower_char(cs[i]));
        i = i + 1;
        proof {
            assert(ascii_lowered(s@.take(i as int)) =~= ascii_lowered(s@.take(i - 1)).push(
                ascii_lower(s@[i - 1]),
            ));
        }
    }
    proof {
        assert(s@.take(i as int) == s@);
    }
    out
}

/// Whether two texts are equal up to ASCII case.
pub fn same_ignoring_case(a: &str, b: &str) -> (r: bool)
    ensures
        r == (ascii_lowered(a@) == ascii_lowered(b@)),
{
    let x = ascii_lowercase(a);
    let y = ascii_lowercase(b);
    same_text(x.as_str(), y.as_str())
}

/// The text without its leading white space.
pub open spec fn trim_start(s: Seq<char>) -> Seq<char>
    decreases s.len(),
{
    if s.len() > 0 && space(s[0]) {
        trim_start(s.drop_first())
    } else {
        s
    }
}

/// The text without its trailing white space.
pub open spec fn trim_end(s: Seq<char>) -> Seq<char>
    decreases s.len(),
{
    if s.len() > 0 && space(s.last()) {
        trim_end(s.drop_last())
    } else {
        s
    }
}

/// The text without white space at either end.
pub open spec fn trimmed(s: Seq<char>) -> Seq<char> {
    trim_end(trim_start(s))
}

proof fn lemma_trim_start_with_space(s: Seq<char>)
    ensures
        trim_start(s.push(' ')) == (if trim_start(s).len() == 0 {
            Seq::empty()
        } else {
            trim_start(s).push(' ')
        }),
    decreases s.len(),
{
    let t = s.push(' ');
    if s.len() == 0 {
        assert(t.drop_first() =~= Seq::empty());
        assert(trim_start(t) == trim_start(t.drop_first()));
    } else {
        assert(t[0] == s[0]);
        if space(s[0]) {
            assert(t.drop_first() =~= s.drop_first().push(' '));
            lemma_trim_start_with_space(s.drop_first());
        }
    }
}

/// A space at the end is trimmed away.
pub proof fn lemma_trimmed_with_space(s: Seq<char>)
    ensures
        trimmed(s.push(' ')) == trimmed(s),
{
    lemma_trim_start_with_space(s);
    let t = trim_start(s);
    if t.len() > 0 {
        assert(t.push(' ').drop_last() =~= t);
    }
}

/// `str::trim`, written out.
pub fn trim(s: &str) -> (r: String)
    ensures
        r@ == trimmed(s@),
{
    let cs = chars_of(s);
    let mut from: usize = 0;
    proof {
        assert(s@.skip(0) =~= s@);
    }
    while from < cs.len() && is_space(cs[from])
        invariant
            from <= cs.len(),
            cs@ == s@,
            trim_start(s@) == trim_start(s@.skip(from as int)),
        decreases cs.len() - from,
    {
        proof {
            assert(s@.skip(from as int).drop_first() =~= s@.skip(from + 1));
        }
        from = from + 1;
    }
    proof {
        assert(trim_start(s@) == s@.skip(from as int));
    }
    let mut to: usize = cs.len();
    proof {
        assert(s@.subrange(from as int, to as int) =~= s@.skip(from as int));
    }
    while from < to && is_space(cs[to - 1])
        invariant
            from <= to <= cs.len(),
            cs@ == s@,
            trim_end(s@.skip(from as int)) == trim_end(s@.subrange(from as int, to as int)),
        decreases to,
    {
        proof {
            let t = s@.subrange(from as int, to as int);
            assert(t.drop_last() =~= s@.subrange(from as int, to - 1));
            assert(t.last() == s@[to - 1]);
        }
        to = to - 1;
    }
    proof {
        let t = s@.subrange(from as int, to as int);
        if from < to {
            assert(t.last() == s@[to - 1]);
        }
        assert(trim_end(t) == t);
    }
    sub_text(&cs, from, to)
}

/// Whether `s` holds `p` at position `i`.
pub open spec fn text_at(s: Seq<char>, p: Seq<char>, i: int) -> bool {
    0 <= i && i + p.len() <= s.len() && s.subrange(i, i + p.len()) == p
}

/// Whether `s` starts with `p`.
pub open spec fn starts(s: Seq<char>, p: Seq<char>) -> bool {
    text_at(s, p, 0)
}

/// Whether `s` ends with `p`.
pub open spec fn ends(s: Seq<char>, p: Seq<char>) -> bool {
    p.len() <= s.len() && text_at(s, p, s.len() - p.len())
}

/// Whether `p` occurs somewhere in `s`.
pub open spec fn has_text(s: Seq<char>, p: Seq<char>) -> bool {
    exists|i: int| #[trigger] text_at(s, p, i)
}

/// A text that was put between two others stands in what came of it.
pub proof fn lemma_part_is_held(before: Seq<char>, p: Seq<char>, after: Seq<char>)
    ensures
        text_at(before + p + after, p, before.len() as int),
        has_text(before + p + after, p),
{
    let whole = before + p + after;
    assert(whole.subrange(before.len() as int, (before.len() + p.len()) as int) =~= p);
    assert(text_at(whole, p, before.len() as int));
}

/// A text put between two others stands there with what is next to it.
pub proof fn lemma_middle_is_held(
    far: Seq<char>,
    near: Seq<char>,
    x: Seq<char>,
    then: Seq<char>,
    rest: Seq<char>,
)
    ensures
        has_text((far + near) + x + (then + rest), near + x + then),
{
    lemma_part_is_held(far, near + x + then, rest);
    assert((far + near) + x + (then + rest) =~= far + (near + x + then) + rest);
}

/// What a text holds, a longer one holds too.
pub proof fn lemma_held_in_longer(before: Seq<char>, s: Seq<char>, after: Seq<char>, p: Seq<char>)
    requires
        has_text(s, p),
    ensures
        has_text(before + s + after, p),
        has_text(before + s, p),
        has_text(s + after, p),
{
    let i = choose|i: int| #[trigger] text_at(s, p, i);
    assert((before + s + after).subrange(before.len() + i, before.len() + i + p.len()) =~= p);
    assert((before + s).subrange(before.len() + i, before.len() + i + p.len()) =~= p);
    assert((s + after).subrange(i, i + p.len()) =~= p);
    assert(text_at(before + s + after, p, before.len() + i));
    assert(text_at(before + s, p, before.len() + i));
    assert(text_at(s + after, p, i));
}

/// Whether `s` holds `p` at position `i`.
pub fn at(s: &Vec<char>, p: &Vec<char>, i: usize) -> (r: bool)
    ensures
        r == text_at(s@, p@, i as int),
{
    if i > s.len() || p.len() > s.len() - i {
        return false;
    }
    let mut k: usize = 0;
    while k < p.len()
        invariant
            k <= p.len(),
            i + p.len() <= s.len(),
            forall|j: int| 0 <= j < k ==> s@[i + j] == p@[j],
        decreases p.len() - k,
    {
        if s[i + k] != p[k] {
            proof {
                assert(s@.subrange(i as int, i + p.len())[k as int] != p@[k as int]);
            }
            return false;
        }
        k = k + 1;
    }
    proof {
        assert(s@.subrange(i as int, i + p.len()) =~= p@);
    }
    true
}

/// `str::starts_with` on a text.
pub fn starts_with(s: &str, p: &str) -> (r: bool)
    ensures
        r == starts(s@, p@),
{
    at(&chars_of(s), &chars_of(p), 0)
}

/// `str::ends_with` on a text.
pub fn ends_with(s: &str, p: &str) -> (r: bool)
    ensures
        r == ends(s@, p@),
{
    let a = chars_of(s);
    let b = chars_of(p);
    if b.len() > a.len() {
        return false;
    }
    at(&a, &b, a.len() - b.len())
}

/// `str::contains` on a text.
pub fn contains_text(s: &str, p: &str) -> (r: bool)
    ensures
        r == has_text(s@, p@),
{
    let a = chars_of(s);
    let b = chars_of(p);
    if b.len() > a.len() {
        return false;
    }
    let last: usize = a.len() - b.len();
    if at(&a, &b, last) {
        return true;
    }
    let mut i: usize = 0;
    while i < last
        invariant
            a@ == s@,
            b@ == p@,
            b.len() <= a.len(),
            last == a.len() - b.len(),
            i <= last,
            !text_at(s@, p@, last as int),
            forall|j: int| 0 <= j < i ==> !text_at(s@, p@, j),
        decreases last - i,
    {
        if at(&a, &b, i) {
            return true;
        }
        i = i + 1;
    }
    false
}

/// The text from position `k` on.
pub fn text_from(s: &str, k: usize) -> (r: String)
    requires
        k <= s@.len(),
    ensures
        r@ == s@.skip(k as int),
{
    let cs = chars_of(s);
    proof {
        assert(s@.skip(k as int) =~= s@.subrange(k as int, s@.len() as int));
    }
    sub_text(&cs, k, cs.len())
}

/// The position of the first `c`.
pub open spec fn first_index(s: Seq<char>, c: char) -> Option<int>
    decreases s.len(),
{
    if s.len() == 0 {
        None
    } else {
        match first_index(s.drop_last(), c) {
            Some(i) => Some(i),
            None => if s.last() == c {
                Some(s.len() - 1)
            } else {
                None
            },
        }
    }
}

/// `first_index` is where the first `c` stands, and `None` if there is none.
pub proof fn lemma_first_index(s: Seq<char>, c: char)
    ensures
        match first_index(s, c) {
            Some(i) => 0 <= i < s.len() && s[i] == c && !s.take(i).contains(c),
            None => !s.contains(c),
        },
    decreases s.len(),
{
    if s.len() > 0 {
        let t = s.drop_last();
        lemma_first_index(t, c);
        match first_index(t, c) {
            Some(i) => {
                assert(s.take(i) =~= t.take(i));
            },
            None => {
                assert(t =~= s.take(s.len() - 1));
                if s.last() != c {
                    assert forall|j: int| 0 <= j < s.len() implies s[j] != c by {
                        if j < s.len() - 1 {
                            assert(t[j] == s[j]);
                        }
                    }
                }
            },
        }
    }
}

/// The position of the first `c` in the characters `cs`.
pub fn find_char(cs: &Vec<char>, c: char) -> (r: Option<usize>)
    ensures
        match r {
            Some(i) => first_index(cs@, c) == Some(i as int) && i < cs.len(),
            None => first_index(cs@, c) is None,
        },
{
    let mut found: Option<usize> = None;
    let mut i: usize = 0;
    while i < cs.len()
        invariant
            i <= cs.len(),
            match found {
                Some(k) => first_index(cs@.take(i as int), c) == Some(k as int) && k < cs.len(),
                None => first_index(cs@.take(i as int), c) is None,
            },
        decreases cs.len() - i,
    {
        proof {
            assert(cs@.take(i + 1).drop_last() =~= cs@.take(i as int));
            assert(cs@.take(i + 1).last() == cs@[i as int]);
        }
        if found.is_none() && cs[i] == c {
            found = Some(i);
        }
        i = i + 1;
    }
    proof {
        assert(cs@.take(i as int) =~= cs@);
    }
    found
}

/// The two parts of `s` around the first `c`.
pub open spec fn cut(s: Seq<char>, c: char) -> Option<(Seq<char>, Seq<char>)> {
    match first_index(s, c) {
        Some(i) => Some((s.take(i), s.skip(i + 1))),
        None => None,
    }
}

/// What is cut at a character is what was put together round it: the two parts
/// make up the text, and the first of them does not hold the character.
pub proof fn lemma_cut_undoes_join(a: Seq<char>, c: char, b: Seq<char>)
    requires
        !a.contains(c),
    ensures
        cut(a + seq![c] + b, c) == Some((a, b)),
{
    let s = a + seq![c] + b;
    lemma_first_index(s, c);
    assert(s[a.len() as int] == c);
    let i = first_index(s, c)->0;
    if i < a.len() {
        assert(a[i] == c);
    }
    if i > a.len() {
        assert(s.take(i)[a.len() as int] == c);
    }
    assert(s.take(i) =~= a);
    assert(s.skip(i + 1) =~= b);
}

/// The other way round: the parts of a text, put together, are the text.
pub proof fn lemma_join_undoes_cut(s: Seq<char>, c: char)
    ensures
        match cut(s, c) {
            Some(p) => s == p.0 + seq![c] + p.1 && !p.0.contains(c),
            None => !s.contains(c),
        },
{
    lemma_first_index(s, c);
    if cut(s, c) is Some {
        let p = cut(s, c)->0;
        assert(s =~= p.0 + seq![c] + p.1);
    }
}

/// `str::split_once` at a character.
pub fn split_once(s: &str, c: char) -> (r: Option<(String, String)>)
    ensures
        match r {
            Some(p) => cut(s@, c) == Some((p.0@, p.1@)),
            None => cut(s@, c) is None,
        },
{
    let cs = chars_of(s);
    match find_char(&cs, c) {
        Some(i) => {
            proof {
                assert(s@.take(i as int) =~= s@.subrange(0, i as int));
                assert(s@.skip(i + 1) =~= s@.subrange(i + 1, s@.len() as int));
            }
            Some((sub_text(&cs, 0, i), sub_text(&cs, i + 1, cs.len())))
        },
        None => None,
    }
}

/// The parts of `s` between the separators `sep`: one more than there are
/// separators, and so at least one.
pub open spec fn fields(s: Seq<char>, sep: char) -> Seq<Seq<char>>
    decreases s.len(),
{
    if s.len() == 0 {
        seq![Seq::<char>::empty()]
    } else {
        let rest = fields(s.drop_last(), sep);
        if s.last() == sep {
            rest.push(Seq::empty())
        } else {
            rest.drop_last().push(rest.last().push(s.last()))
        }
    }
}

/// There is at least one field.
pub proof fn lemma_fields_len(s: Seq<char>, sep: char)
    ensures
        fields(s, sep).len() >= 1,
    decreases s.len(),
{
    if s.len() > 0 {
        lemma_fields_len(s.drop_last(), sep);
    }
}

/// `str::split` at a character.
pub fn split_on(s: &str, sep: char) -> (r: Vec<String>)
    ensures
        texts(r@) == fields(s@, sep),
        r.len() >= 1,
{
    let cs = chars_of(s);
    let mut out: Vec<String> = Vec::new();
    let mut current = String::new();
    let mut i: usize = 0;
    proof {
        assert(texts(out@).push(current@) =~= fields(s@.take(0), sep));
    }
    while i < cs.len()
        invariant
            i <= cs.len(),
            cs@ == s@,
            texts(out@).push(current@) == fields(s@.take(i as int), sep),
        decreases cs.len() - i,
    {
        proof {
            assert(s@.take(i + 1).drop_last() =~= s@.take(i as int));
            assert(s@.take(i + 1).last() == s@[i as int]);
        }
        let ghost before = texts(out@);
        let ghost cur = current@;
        if cs[i] == sep {
            out.push(current);
            current = String::new();
            proof {
                assert(texts(out@) =~= before.push(cur));
            }
        } else {
            current.push(cs[i]);
            proof {
                assert(before.push(cur).drop_last() =~= before);
                assert(before.push(cur).last() == cur);
            }
        }
        i = i + 1;
    }
    let ghost before = texts(out@);
    let ghost cur = current@;
    out.push(current);
    proof {
        assert(texts(out@) =~= before.push(cur));
        assert(s@.take(i as int) =~= s@);
    }
    out
}

/// One line without the carriage return that stood before its newline.
pub open spec fn without_cr(s: Seq<char>) -> Seq<char> {
    if s.len() > 0 && s.last() == '\r' {
        s.drop_last()
    } else {
        s
    }
}

/// The lines of a text. A newline ends a line, with a carriage return before
/// it if there is one; what follows the last newline is a line if it is not
/// empty.
pub open spec fn lines(s: Seq<char>) -> Seq<Seq<char>> {
    let f = fields(s, '\n');
    let n = f.len();
    Seq::new(
        if f.last().len() == 0 {
            (n - 1) as nat
        } else {
            n
        },
        |i: int|
            if i < n - 1 {
                without_cr(f[i])
            } else {
                f[i]
            },
    )
}

/// Some lines as one text, each with its newline.
pub open spec fn line_text(rows: Seq<Seq<char>>) -> Seq<char>
    decreases rows.len(),
{
    if rows.len() == 0 {
        Seq::empty()
    } else {
        line_text(rows.drop_last()) + rows.last() + seq!['\n']
    }
}

proof fn lemma_fields_go_on(a: Seq<char>, row: Seq<char>, sep: char)
    requires
        !row.contains(sep),
    ensures
        fields(a + row, sep) == fields(a, sep).drop_last().push(fields(a, sep).last() + row),
    decreases row.len(),
{
    lemma_fields_len(a, sep);
    if row.len() == 0 {
        assert(a + row =~= a);
        assert(fields(a, sep).last() + row =~= fields(a, sep).last());
        assert(fields(a, sep) =~= fields(a, sep).drop_last().push(fields(a, sep).last()));
    } else {
        let t = row.drop_last();
        assert forall|i: int| 0 <= i < t.len() implies t[i] != sep by {
            assert(row[i] == t[i]);
        }
        lemma_fields_go_on(a, t, sep);
        assert((a + row).drop_last() =~= a + t);
        assert((a + row).last() == row.last());
        assert(row[row.len() - 1] != sep);
        let last = fields(a, sep).last();
        assert((last + t).push(row.last()) =~= last + row);
        assert(fields(a + row, sep) =~= fields(a, sep).drop_last().push(last + row));
    }
}

proof fn lemma_fields_of_rows(rows: Seq<Seq<char>>)
    requires
        forall|i: int| 0 <= i < rows.len() ==> !(#[trigger] rows[i]).contains('\n'),
    ensures
        fields(line_text(rows), '\n') == rows.push(Seq::empty()),
    decreases rows.len(),
{
    if rows.len() == 0 {
        assert(fields(line_text(rows), '\n') =~= rows.push(Seq::empty()));
    } else {
        let t = rows.drop_last();
        let row = rows.last();
        assert forall|i: int| 0 <= i < t.len() implies !(#[trigger] t[i]).contains('\n') by {
            assert(rows[i] == t[i]);
        }
        assert(!rows[rows.len() - 1].contains('\n'));
        lemma_fields_of_rows(t);
        let a = line_text(t);
        lemma_fields_go_on(a, row, '\n');
        assert(t.push(Seq::empty()).drop_last() =~= t);
        assert(Seq::<char>::empty() + row =~= row);
        assert(fields(a + row, '\n') =~= rows);
        let s = line_text(rows);
        assert(s.drop_last() =~= a + row);
        assert(s.last() == '\n');
    }
}

/// Lines that are put together are read as those lines.
pub proof fn lemma_lines_of_rows(rows: Seq<Seq<char>>)
    requires
        forall|i: int| 0 <= i < rows.len() ==> !(#[trigger] rows[i]).contains('\n'),
        forall|i: int| 0 <= i < rows.len() ==> without_cr(#[trigger] rows[i]) == rows[i],
    ensures
        lines(line_text(rows)) == rows,
{
    lemma_fields_of_rows(rows);
    assert(lines(line_text(rows)) =~= rows);
}

proof fn lemma_fields_are_solid(s: Seq<char>, sep: char, i: int)
    requires
        0 <= i < fields(s, sep).len(),
    ensures
        !fields(s, sep)[i].contains(sep),
    decreases s.len(),
{
    if s.len() > 0 {
        let rest = fields(s.drop_last(), sep);
        lemma_fields_len(s.drop_last(), sep);
        if s.last() == sep {
            if i < rest.len() {
                lemma_fields_are_solid(s.drop_last(), sep, i);
            }
        } else if i < rest.len() - 1 {
            lemma_fields_are_solid(s.drop_last(), sep, i);
        } else {
            lemma_fields_are_solid(s.drop_last(), sep, rest.len() - 1);
            let f = fields(s, sep)[i];
            assert(f == rest.last().push(s.last()));
            assert forall|j: int| 0 <= j < f.len() implies f[j] != sep by {
                if j < rest.last().len() {
                    assert(rest.last()[j] == f[j]);
                }
            }
        }
    }
}

/// No line holds a newline.
pub proof fn lemma_lines_are_solid(s: Seq<char>, i: int)
    requires
        0 <= i < lines(s).len(),
    ensures
        !lines(s)[i].contains('\n'),
{
    let f = fields(s, '\n')[i];
    lemma_fields_are_solid(s, '\n', i);
    let l = lines(s)[i];
    assert forall|j: int| 0 <= j < l.len() implies l[j] != '\n' by {
        assert(f[j] == l[j]);
    }
}

/// `str::lines`, written out.
pub fn lines_of(s: &str) -> (r: Vec<String>)
    ensures
        texts(r@) == lines(s@),
{
    let parts = split_on(s, '\n');
    let ghost f = fields(s@, '\n');
    let mut out: Vec<String> = Vec::new();
    let n: usize = parts.len();
    let mut i: usize = 0;
    while i < n - 1
        invariant
            n == parts.len(),
            n >= 1,
            i <= n - 1,
            f == fields(s@, '\n'),
            texts(parts@) == f,
            out@.len() == i,
            forall|j: int| 0 <= j < i ==> (#[trigger] out@[j])@ == without_cr(f[j]),
        decreases n - i,
    {
        let cs = chars_of(parts[i].as_str());
        proof {
            assert(f[i as int] == parts@[i as int]@);
        }
        if cs.len() > 0 && cs[cs.len() - 1] == '\r' {
            proof {
                assert(cs@.drop_last() =~= cs@.subrange(0, cs@.len() - 1));
            }
            out.push(sub_text(&cs, 0, cs.len() - 1));
        } else {
            out.push(text_of(&cs));
        }
        i = i + 1;
    }
    proof {
        assert(f[n - 1] == parts@[n - 1]@);
    }
    if !parts[n - 1].as_str().is_empty() {
        out.push(parts[n - 1].clone());
    }
    proof {
        assert(texts(out@) =~= lines(s@));
    }
    out
}

/// The maximal runs of characters that are not white space.
pub open spec fn words(s: Seq<char>) -> Seq<Seq<char>>
    decreases s.len(),
{
    if s.len() == 0 {
        Seq::empty()
    } else {
        let rest = words(s.drop_last());
        if space(s.last()) {
            rest
        } else if s.len() == 1 || space(s[s.len() - 2]) {
            rest.push(seq![s.last()])
        } else {
            rest.drop_last().push(rest.last().push(s.last()))
        }
    }
}

proof fn lemma_trim_end_keeps(s: Seq<char>)
    requires
        s.len() > 0,
        !space(s[0]),
    ensures
        trim_end(s).len() > 0,
    decreases s.len(),
{
    if space(s.last()) {
        assert(s.drop_last()[0] == s[0]);
        lemma_trim_end_keeps(s.drop_last());
    }
}

proof fn lemma_trim_start_is_clean(s: Seq<char>)
    ensures
        trim_start(s).len() > 0 ==> !space(trim_start(s)[0]),
        trim_start(s).len() == 0 ==> forall|i: int| 0 <= i < s.len() ==> space(#[trigger] s[i]),
    decreases s.len(),
{
    if s.len() > 0 && space(s[0]) {
        lemma_trim_start_is_clean(s.drop_first());
        if trim_start(s).len() == 0 {
            assert forall|i: int| 0 <= i < s.len() implies space(#[trigger] s[i]) by {
                if i > 0 {
                    assert(s.drop_first()[i - 1] == s[i]);
                }
            }
        }
    }
}

proof fn lemma_spaces_have_no_words(s: Seq<char>)
    requires
        forall|i: int| 0 <= i < s.len() ==> space(#[trigger] s[i]),
    ensures
        words(s).len() == 0,
    decreases s.len(),
{
    if s.len() > 0 {
        assert(space(s[s.len() - 1]));
        assert forall|i: int| 0 <= i < s.drop_last().len() implies space(
            #[trigger] s.drop_last()[i],
        ) by {
            assert(s.drop_last()[i] == s[i]);
        }
        lemma_spaces_have_no_words(s.drop_last());
    }
}

/// A text of which nothing is left without the white space around it has no
/// words.
pub proof fn lemma_blank_has_no_words(s: Seq<char>)
    requires
        trimmed(s).len() == 0,
    ensures
        words(s).len() == 0,
{
    lemma_trim_start_is_clean(s);
    if trim_start(s).len() > 0 {
        lemma_trim_end_keeps(trim_start(s));
    }
    lemma_spaces_have_no_words(s);
}

proof fn lemma_solid_is_one_word(s: Seq<char>)
    requires
        s.len() > 0,
        forall|i: int| 0 <= i < s.len() ==> !space(#[trigger] s[i]),
    ensures
        words(s) == seq![s],
    decreases s.len(),
{
    let t = s.drop_last();
    assert(!space(s[s.len() - 1]));
    if t.len() == 0 {
        assert(words(t) =~= Seq::empty());
        assert(seq![s.last()] =~= s);
        assert(words(s) =~= seq![s]);
    } else {
        assert(!space(s[s.len() - 2]));
        assert forall|i: int| 0 <= i < t.len() implies !space(#[trigger] t[i]) by {
            assert(t[i] == s[i]);
        }
        lemma_solid_is_one_word(t);
        assert(t.push(s.last()) =~= s);
        assert(words(s) =~= seq![s]);
    }
}

/// Two texts without white space, and a space between them, are two words.
pub proof fn lemma_two_words(a: Seq<char>, b: Seq<char>)
    requires
        a.len() > 0,
        b.len() > 0,
        forall|i: int| 0 <= i < a.len() ==> !space(#[trigger] a[i]),
        forall|i: int| 0 <= i < b.len() ==> !space(#[trigger] b[i]),
    ensures
        words(a + seq![' '] + b) == seq![a, b],
    decreases b.len(),
{
    let s = a + seq![' '] + b;
    let t = s.drop_last();
    let c = b.drop_last();
    assert(!space(b[b.len() - 1]));
    assert(s.last() == b.last());
    if b.len() == 1 {
        assert(t =~= a + seq![' ']);
        assert(t.drop_last() =~= a);
        assert(t.last() == ' ');
        lemma_solid_is_one_word(a);
        assert(words(t) == seq![a]);
        assert(s[s.len() - 2] == ' ');
        assert(seq![b.last()] =~= b);
        assert(words(s) =~= seq![a, b]);
    } else {
        assert(t =~= a + seq![' '] + c);
        assert(!space(b[b.len() - 2]));
        assert(s[s.len() - 2] == b[b.len() - 2]);
        assert forall|i: int| 0 <= i < c.len() implies !space(#[trigger] c[i]) by {
            assert(c[i] == b[i]);
        }
        lemma_two_words(a, c);
        assert(c.push(b.last()) =~= b);
        assert(words(s) =~= seq![a, b]);
    }
}

/// `str::split_whitespace`, written out.
pub fn split_words(s: &str) -> (r: Vec<String>)
    ensures
        texts(r@) == words(s@),
{
    let cs = chars_of(s);
    let mut out: Vec<String> = Vec::new();
    let mut current: Option<String> = None;
    let mut i: usize = 0;
    proof {
        assert(texts(out@) =~= words(s@.take(0)));
    }
    while i < cs.len()
        invariant
            i <= cs.len(),
            cs@ == s@,
            current is Some <==> i > 0 && !space(s@[i - 1]),
            match current {
                Some(w) => texts(out@).push(w@) == words(s@.take(i as int)),
                None => texts(out@) == words(s@.take(i as int)),
            },
        decreases cs.len() - i,
    {
        proof {
            let t = s@.take(i + 1);
            assert(t.drop_last() =~= s@.take(i as int));
            assert(t.last() == s@[i as int]);
            if i > 0 {
                assert(t[t.len() - 2] == s@[i - 1]);
            }
        }
        let ghost before = texts(out@);
        if is_space(cs[i]) {
            if let Some(w) = current {
                let ghost wv = w@;
                out.push(w);
                proof {
                    assert(texts(out@) =~= before.push(wv));
                }
            }
            current = None;
        } else {
            let mut w = match current {
                Some(w) => {
                    proof {
                        assert(before.push(w@).drop_last() =~= before);
                        assert(before.push(w@).last() == w@);
                    }
                    w
                },
                None => String::new(),
            };
            let ghost wv = w@;
            w.push(cs[i]);
            proof {
                if i == 0 || space(s@[i - 1]) {
                    assert(wv.push(s@[i as int]) =~= seq![s@[i as int]]);
                }
            }
            current = Some(w);
        }
        i = i + 1;
    }
    proof {
        assert(s@.take(i as int) =~= s@);
    }
    let ghost before = texts(out@);
    if let Some(w) = current {
        let ghost wv = w@;
        out.push(w);
        proof {
            assert(texts(out@) =~= before.push(wv));
        }
    }
    out
}

/// The first `n` characters of `s`, or all of it.
pub open spec fn first_chars(s: Seq<char>, n: nat) -> Seq<char> {
    if s.len() > n {
        s.take(n as int)
    } else {
        s
    }
}

/// The first `n` characters of `s`, or all of it.
pub fn take_chars(s: &str, n: usize) -> (r: String)
    ensures
        r@ == first_chars(s@, n as nat),
{
    let cs = chars_of(s);
    if cs.len() > n {
        proof {
            assert(s@.take(n as int) =~= s@.subrange(0, n as int));
        }
        sub_text(&cs, 0, n)
    } else {
        text_of(&cs)
    }
}

/// The text without control characters, but for newlines and tabs.
pub open spec fn printable(s: Seq<char>) -> Seq<char>
    decreases s.len(),
{
    if s.len() == 0 {
        s
    } else {
        let rest = printable(s.drop_last());
        let c = s.last();
        if control(c) && c != '\n' && c != '\t' {
            rest
        } else {
            rest.push(c)
        }
    }
}

/// Removes control characters, but for newlines and tabs.
pub fn strip_control(s: &str) -> (r: String)
    ensures
        r@ == printable(s@),
{
    let cs = chars_of(s);
    let mut out = String::new();
    let mut i: usize = 0;
    while i < cs.len()
        invariant
            i <= cs.len(),
            cs@ == s@,
            out@ == printable(s@.take(i as int)),
        decreases cs.len() - i,
    {
        proof {
            assert(s@.take(i + 1).drop_last() =~= s@.take(i as int));
            assert(s@.take(i + 1).last() == s@[i as int]);
        }
        let c = cs[i];
        if !is_control_char(c) || c == '\n' || c == '\t' {
            out.push(c);
        }
        i = i + 1;
    }
    proof {
        assert(s@.take(i as int) =~= s@);
    }
    out
}

/// Whether a character breaks a line.
pub open spec fn line_break(c: char) -> bool {
    c == '\n' || c == '\r'
}

/// Whether a text stands in one line.
pub open spec fn one_line(s: Seq<char>) -> bool {
    forall|i: int| 0 <= i < s.len() ==> !line_break(#[trigger] s[i])
}

/// The text in one line: a space stands for each line break.
pub open spec fn in_one_line(s: Seq<char>) -> Seq<char> {
    Seq::new(
        s.len(),
        |i: int|
            if line_break(s[i]) {
                ' '
            } else {
                s[i]
            },
    )
}

/// Puts a text into one line.
pub fn to_one_line(s: &str) -> (r: String)
    ensures
        r@ == in_one_line(s@),
        one_line(r@),
{
    let cs = chars_of(s);
    let mut out = String::new();
    let mut i: usize = 0;
    while i < cs.len()
        invariant
            i <= cs.len(),
            cs@ == s@,
            out@ == in_one_line(s@).take(i as int),
        decreases cs.len() - i,
    {
        let c = cs[i];
        let shown = if c == '\n' || c == '\r' {
            ' '
        } else {
            c
        };
        out.push(shown);
        proof {
            assert(in_one_line(s@).take(i + 1) =~= in_one_line(s@).take(i as int).push(
                in_one_line(s@)[i as int],
            ));
        }
        i = i + 1;
    }
    proof {
        assert(in_one_line(s@).take(i as int) =~= in_one_line(s@));
    }
    out
}

/// A number stands in one line.
pub proof fn lemma_decimal_is_one_line(n: nat)
    ensures
        one_line(decimal(n)),
    decreases n,
{
    if n >= 10 {
        lemma_decimal_is_one_line(n / 10);
    }
}

/// What is printable holds no control character but newlines and tabs.
pub proof fn lemma_printable_is_clean(s: Seq<char>)
    ensures
        forall|i: int|
            0 <= i < printable(s).len() ==> !control(#[trigger] printable(s)[i]) || printable(s)[i]
                == '\n' || printable(s)[i] == '\t',
        printable(s).len() <= s.len(),
    decreases s.len(),
{
    if s.len() > 0 {
        lemma_printable_is_clean(s.drop_last());
    }
}

/// Removing control characters twice is removing them once.
pub proof fn lemma_printable_idempotent(s: Seq<char>)
    ensures
        printable(printable(s)) == printable(s),
    decreases s.len(),
{
    if s.len() > 0 {
        lemma_printable_idempotent(s.drop_last());
        let rest = printable(s.drop_last());
        let c = s.last();
        assert(rest.push(c).drop_last() =~= rest);
    }
}

/// The texts of `parts` in a row, with `sep` between each two.
pub open spec fn joined(parts: Seq<Seq<char>>, sep: Seq<char>) -> Seq<char>
    decreases parts.len(),
{
    if parts.len() == 0 {
        Seq::empty()
    } else if parts.len() == 1 {
        parts[0]
    } else {
        joined(parts.drop_last(), sep) + sep + parts.last()
    }
}

/// Each of the texts stands in the row.
pub proof fn lemma_joined_holds(parts: Seq<Seq<char>>, sep: Seq<char>, i: int)
    requires
        0 <= i < parts.len(),
    ensures
        has_text(joined(parts, sep), parts[i]),
    decreases parts.len(),
{
    if parts.len() == 1 {
        assert(parts[0].subrange(0, parts[0].len() as int) =~= parts[0]);
        assert(text_at(parts[0], parts[0], 0));
    } else {
        let before = joined(parts.drop_last(), sep);
        if i < parts.len() - 1 {
            lemma_joined_holds(parts.drop_last(), sep, i);
            lemma_held_in_longer(Seq::empty(), before, sep + parts.last(), parts[i]);
            assert(before + (sep + parts.last()) =~= before + sep + parts.last());
        } else {
            lemma_part_is_held(before + sep, parts.last(), Seq::empty());
            assert(before + sep + parts.last() + Seq::<char>::empty() =~= before + sep
                + parts.last());
        }
    }
}

/// What stands in a part stands in the whole.
pub proof fn lemma_held_through(whole: Seq<char>, part: Seq<char>, p: Seq<char>)
    requires
        has_text(whole, part),
        has_text(part, p),
    ensures
        has_text(whole, p),
{
    let i = choose|i: int| #[trigger] text_at(whole, part, i);
    let j = choose|j: int| #[trigger] text_at(part, p, j);
    assert(whole.subrange(i + j, i + j + p.len()) =~= part.subrange(j, j + p.len())) by {
        assert(whole.subrange(i, i + part.len()) == part);
        assert forall|k: int| 0 <= k < p.len() implies #[trigger] whole.subrange(
            i + j,
            i + j + p.len(),
        )[k] == part.subrange(j, j + p.len())[k] by {
            assert(whole.subrange(i, i + part.len())[j + k] == part[j + k]);
        }
    }
    assert(text_at(whole, p, i + j));
}

/// `join` on a list of texts.
pub fn join(parts: &Vec<String>, sep: &str) -> (r: String)
    ensures
        r@ == joined(texts(parts@), sep@),
{
    let mut out = String::new();
    let mut i: usize = 0;
    while i < parts.len()
        invariant
            i <= parts.len(),
            out@ == joined(texts(parts@).take(i as int), sep@),
        decreases parts.len() - i,
    {
        proof {
            let t = texts(parts@).take(i + 1);
            assert(t.drop_last() =~= texts(parts@).take(i as int));
            assert(t.last() == parts@[i as int]@);
            assert(out@ + parts@[i as int]@ =~= parts@[i as int]@ || i > 0);
        }
        if i > 0 {
            out.append(sep);
        }
        out.append(parts[i].as_str());
        i = i + 1;
    }
    proof {
        assert(texts(parts@).take(i as int) =~= texts(parts@));
    }
    out
}

/// The decimal digit of value `d`.
pub open spec fn digit_char(d: nat) -> char {
    (0x30 + d) as char
}

/// The decimal notation of `n`, without leading zeros.
pub open spec fn decimal(n: nat) -> Seq<char>
    decreases n,
{
    if n < 10 {
        seq![digit_char(n)]
    } else {
        decimal(n / 10).push(digit_char(n % 10))
    }
}

/// The decimal notation of `n`.
pub fn to_decimal(n: u64) -> (r: String)
    ensures
        r@ == decimal(n as nat),
    decreases n,
{
    let mut out = if n < 10 {
        String::new()
    } else {
        to_decimal(n / 10)
    };
    let d: u8 = (n % 10) as u8;
    let ghost before = out@;
    out.push((0x30 + d) as char);
    proof {
        if n < 10 {
            assert(before.push(digit_char(n as nat)) =~= seq![digit_char(n as nat)]);
        }
    }
    out
}

/// The value of a row of decimal digits.
pub open spec fn digits_value(s: Seq<char>) -> nat
    decreases s.len(),
{
    if s.len() == 0 {
        0
    } else {
        digits_value(s.drop_last()) * 10 + (s.last() as u32 - 0x30) as nat
    }
}

/// The number that `s` writes: decimal digits after an optional plus sign.
pub open spec fn number(s: Seq<char>) -> Option<nat> {
    let d = after_plus(s);
    if d.len() > 0 && all_digits(d) {
        Some(digits_value(d))
    } else {
        None
    }
}

/// What follows an optional plus sign.
pub open spec fn after_plus(s: Seq<char>) -> Seq<char> {
    if s.len() > 0 && s[0] == '+' {
        s.drop_first()
    } else {
        s
    }
}

/// Whether `s` is a row of decimal digits.
pub open spec fn all_digits(s: Seq<char>) -> bool {
    forall|i: int| 0 <= i < s.len() ==> digit(#[trigger] s[i])
}

proof fn lemma_digits_grow(s: Seq<char>, k: int)
    requires
        0 <= k <= s.len(),
        forall|i: int| 0 <= i < s.len() ==> digit(#[trigger] s[i]),
    ensures
        digits_value(s.take(k)) <= digits_value(s),
    decreases s.len() - k,
{
    if k == s.len() {
        assert(s.take(k) =~= s);
    } else {
        lemma_digits_grow(s, k + 1);
        assert(s.take(k + 1).drop_last() =~= s.take(k));
    }
}

/// Reads `s` as a number that fits in 64 bits, as `u64::from_str` does.
pub fn parse_number(s: &str) -> (r: Option<u64>)
    ensures
        match r {
            Some(n) => number(s@) == Some(n as nat),
            None => number(s@) is None || number(s@)->0 > u64::MAX,
        },
{
    let cs = chars_of(s);
    let from: usize = if cs.len() > 0 && cs[0] == '+' {
        1
    } else {
        0
    };
    let ghost d = after_plus(s@);
    proof {
        assert(d =~= s@.skip(from as int));
    }
    if from == cs.len() {
        return None;
    }
    let mut i: usize = from;
    while i < cs.len()
        invariant
            from <= i <= cs.len(),
            cs@ == s@,
            d == s@.skip(from as int),
            d == after_plus(s@),
            from <= s@.len(),
            forall|j: int| 0 <= j < i - from ==> digit(#[trigger] d[j]),
        decreases cs.len() - i,
    {
        let u: u32 = cs[i] as u32;
        if u < 0x30 || u > 0x39 {
            proof {
                assert(!digit(d[i - from]));
            }
            return None;
        }
        i = i + 1;
    }
    let mut value: u64 = 0;
    i = from;
    while i < cs.len()
        invariant
            from <= i <= cs.len(),
            cs@ == s@,
            from <= s@.len(),
            d == s@.skip(from as int),
            d.len() > 0,
            number(s@) == Some(digits_value(d)),
            forall|j: int| 0 <= j < d.len() ==> digit(#[trigger] d[j]),
            value == digits_value(d.take(i - from)),
        decreases cs.len() - i,
    {
        proof {
            let t = d.take(i - from + 1);
            assert(t.drop_last() =~= d.take(i - from));
            assert(t.last() == s@[i as int]);
            assert(digit(d[i - from]));
            lemma_digits_grow(d, i - from + 1);
        }
        let k: u64 = (cs[i] as u32 - 0x30) as u64;
        if value > (u64::MAX - k) / 10 {
            return None;
        }
        value = value * 10 + k;
        i = i + 1;
    }
    proof {
        assert(d.take(i - from) =~= d);
    }
    Some(value)
}

/// The lower-case hexadecimal digit of value `v`.
pub open spec fn hex_digit(v: u8) -> char {
    if v < 10 {
        (0x30 + v) as char
    } else {
        (0x57 + v) as char
    }
}

/// The lower-case hexadecimal notation of `n`, without leading zeros.
pub open spec fn hexadecimal(n: nat) -> Seq<char>
    decreases n,
{
    if n < 16 {
        seq![hex_digit(n as u8)]
    } else {
        hexadecimal(n / 16).push(hex_digit((n % 16) as u8))
    }
}

/// The hexadecimal notation of `n`.
pub fn to_hexadecimal(n: u64) -> (r: String)
    ensures
        r@ == hexadecimal(n as nat),
    decreases n,
{
    let mut out = if n < 16 {
        String::new()
    } else {
        to_hexadecimal(n / 16)
    };
    let d: u8 = (n % 16) as u8;
    let ghost before = out@;
    out.push(hex_char(d));
    proof {
        if n < 16 {
            assert(before.push(hex_digit(n as u8)) =~= seq![hex_digit(n as u8)]);
        }
    }
    out
}

/// Two lower-case hexadecimal digits for each byte, the high half first.
pub open spec fn hex_of(b: Seq<u8>) -> Seq<char> {
    Seq::new(
        2 * b.len(),
        |i: int|
            if i % 2 == 0 {
                hex_digit(b[i / 2] / 16)
            } else {
                hex_digit(b[i / 2] % 16)
            },
    )
}

fn hex_char(v: u8) -> (r: char)
    requires
        v < 16,
    ensures
        r == hex_digit(v),
{
    if v < 10 {
        (0x30 + v) as char
    } else {
        (0x57 + v) as char
    }
}

/// The lower-case hexadecimal notation of `bytes`.
pub fn hex_lower(bytes: &[u8]) -> (r: String)
    ensures
        r@ == hex_of(bytes@),
{
    let mut out = String::new();
    let mut i: usize = 0;
    while i < bytes.len()
        invariant
            i <= bytes.len(),
            out@ == hex_of(bytes@.take(i as int)),
        decreases bytes.len() - i,
    {
        let b: u8 = bytes[i];
        out.push(hex_char(b / 16));
        out.push(hex_char(b % 16));
        proof {
            let t = bytes@.take(i as int);
            assert(hex_of(bytes@.take(i + 1)) =~= hex_of(t).push(hex_digit(b / 16)).push(
                hex_digit(b % 16),
            ));
        }
        i = i + 1;
    }
    proof {
        assert(bytes@.take(i as int) =~= bytes@);
    }
    out
}

/// The value of a hexadecimal digit of either case.
pub open spec fn hex_digit_value(c: char) -> Option<u8> {
    let u = c as u32;
    if 0x30 <= u <= 0x39 {
        Some((u - 0x30) as u8)
    } else if 0x61 <= u <= 0x66 {
        Some((u - 0x57) as u8)
    } else if 0x41 <= u <= 0x46 {
        Some((u - 0x37) as u8)
    } else {
        None
    }
}

/// The value of one hexadecimal digit.
pub fn hex_value(c: char) -> (r: Option<u8>)
    ensures
        r == hex_digit_value(c),
{
    let u: u32 = c as u32;
    if 0x30 <= u && u <= 0x39 {
        Some((u - 0x30) as u8)
    } else if 0x61 <= u && u <= 0x66 {
        Some((u - 0x57) as u8)
    } else if 0x41 <= u && u <= 0x46 {
        Some((u - 0x37) as u8)
    } else {
        None
    }
}

/// Whether `s` is a row of hexadecimal digits.
pub open spec fn all_hex(s: Seq<char>) -> bool {
    forall|i: int| 0 <= i < s.len() ==> (#[trigger] hex_digit_value(s[i])) is Some
}

/// The bytes that `s` writes in hexadecimal, two digits for each.
pub open spec fn hex_bytes(s: Seq<char>) -> Option<Seq<u8>> {
    if s.len() % 2 == 0 && all_hex(s) {
        Some(
            Seq::new(
                s.len() / 2,
                |i: int|
                    (hex_digit_value(s[2 * i])->0 * 16 + hex_digit_value(s[2 * i + 1])->0) as u8,
            ),
        )
    } else {
        None
    }
}

/// Reads hexadecimal notation of either case.
pub fn decode_hex(s: &str) -> (r: Option<Vec<u8>>)
    ensures
        match r {
            Some(b) => hex_bytes(s@) == Some(b@),
            None => hex_bytes(s@) is None,
        },
{
    let cs = chars_of(s);
    if cs.len() % 2 != 0 {
        return None;
    }
    let mut out: Vec<u8> = Vec::new();
    let mut i: usize = 0;
    while i < cs.len()
        invariant
            i <= cs.len(),
            i % 2 == 0,
            cs.len() % 2 == 0,
            cs@ == s@,
            out@.len() == i / 2,
            forall|j: int| 0 <= j < i ==> (#[trigger] hex_digit_value(s@[j])) is Some,
            forall|j: int|
                0 <= j < i / 2 ==> #[trigger] out@[j] == (hex_digit_value(s@[2 * j])->0 * 16
                    + hex_digit_value(s@[2 * j + 1])->0) as u8,
        decreases cs.len() - i,
    {
        let high = hex_value(cs[i]);
        let low = hex_value(cs[i + 1]);
        match (high, low) {
            (Some(h), Some(l)) => {
                out.push(h * 16 + l);
            },
            _ => {
                proof {
                    assert(hex_digit_value(s@[i as int]) is None || hex_digit_value(
                        s@[i + 1],
                    ) is None);
                }
                return None;
            },
        }
        i = i + 2;
    }
    proof {
        assert(hex_bytes(s@)->0 =~= out@);
    }
    Some(out)
}

/// Reading back the hexadecimal notation of some bytes gives those bytes.
pub proof fn lemma_hex_round_trip(b: Seq<u8>)
    ensures
        hex_bytes(hex_of(b)) == Some(b),
        hex_of(b).len() == 2 * b.len(),
{
    let t = hex_of(b);
    assert forall|v: u8| v < 16 implies #[trigger] hex_digit_value(hex_digit(v)) == Some(v) by {}
    assert forall|i: int| 0 <= i < t.len() implies (#[trigger] hex_digit_value(t[i])) is Some by {
        let v = if i % 2 == 0 {
            (b[i / 2] / 16) as u8
        } else {
            (b[i / 2] % 16) as u8
        };
        assert(hex_digit_value(hex_digit(v)) == Some(v));
    }
    assert forall|i: int| 0 <= i < b.len() implies (hex_digit_value(t[2 * i])->0 * 16
        + hex_digit_value(t[2 * i + 1])->0) as u8 == b[i] by {
        let h = (b[i] / 16) as u8;
        let l = (b[i] % 16) as u8;
        assert((2 * i) / 2 == i && (2 * i + 1) / 2 == i && (2 * i) % 2 == 0 && (2 * i + 1) % 2
            == 1);
        assert(hex_digit_value(hex_digit(h)) == Some(h));
        assert(hex_digit_value(hex_digit(l)) == Some(l));
    }
    assert(hex_bytes(t)->0 =~= b);
}

/// Reading a number undoes writing it, with white space round it or a plus sign
/// in front; so two numbers are never written alike.
pub proof fn lemma_decimals_read_back(n: nat)
    ensures
        number(decimal(n)) == Some(n),
        number(seq!['+'] + decimal(n)) == Some(n),
        trimmed(decimal(n)) == decimal(n),
{
    lemma_decimal_digits(n);
    let d = decimal(n);
    assert(digit(d[0]));
    assert(after_plus(d) == d);
    assert((seq!['+'] + d).drop_first() =~= d);
    assert(digit(d.last()));
    assert(trim_start(d) == d);
}

proof fn lemma_decimal_digits(n: nat)
    ensures
        decimal(n).len() > 0,
        all_digits(decimal(n)),
        digits_value(decimal(n)) == n,
    decreases n,
{
    let d = decimal(n);
    if n < 10 {
        assert(d.drop_last() =~= Seq::empty());
        assert(d.last() == digit_char(n));
        assert(digits_value(Seq::<char>::empty()) == 0);
    } else {
        lemma_decimal_digits(n / 10);
        assert(d.drop_last() =~= decimal(n / 10));
        assert(d.last() == digit_char(n % 10));
        assert forall|i: int| 0 <= i < d.len() implies digit(#[trigger] d[i]) by {
            if i < d.len() - 1 {
                assert(decimal(n / 10)[i] == d[i]);
            }
        }
    }
}

/// What is left when outer white space goes is what stood between it: nothing
/// is cut from within, and neither end is white space.
pub proof fn lemma_trimmed_is_the_middle(s: Seq<char>) -> (r: (int, int))
    ensures
        0 <= r.0 <= r.1 <= s.len(),
        trimmed(s) == s.subrange(r.0, r.1),
        forall|i: int| 0 <= i < r.0 ==> space(#[trigger] s[i]),
        forall|i: int| r.1 <= i < s.len() ==> space(#[trigger] s[i]),
        trimmed(s).len() > 0 ==> !space(trimmed(s)[0]) && !space(trimmed(s).last()),
{
    let a = lemma_front_trimmed(s);
    let t = s.skip(a);
    let b = lemma_back_trimmed(t);
    assert(t.take(b) =~= s.subrange(a, a + b));
    assert forall|i: int| a + b <= i < s.len() implies space(#[trigger] s[i]) by {
        assert(t[i - a] == s[i]);
    }
    if trimmed(s).len() > 0 {
        assert(trimmed(s)[0] == s[a]);
    }
    (a, a + b)
}

proof fn lemma_front_trimmed(s: Seq<char>) -> (k: int)
    ensures
        0 <= k <= s.len(),
        trim_start(s) == s.skip(k),
        forall|i: int| 0 <= i < k ==> space(#[trigger] s[i]),
        k < s.len() ==> !space(s[k]),
    decreases s.len(),
{
    if s.len() > 0 && space(s[0]) {
        let t = s.drop_first();
        let k = lemma_front_trimmed(t);
        assert(t.skip(k) =~= s.skip(k + 1));
        assert forall|i: int| 0 <= i < k + 1 implies space(#[trigger] s[i]) by {
            if i > 0 {
                assert(t[i - 1] == s[i]);
            }
        }
        k + 1
    } else {
        assert(s.skip(0) =~= s);
        0
    }
}

proof fn lemma_back_trimmed(s: Seq<char>) -> (k: int)
    ensures
        0 <= k <= s.len(),
        trim_end(s) == s.take(k),
        forall|i: int| k <= i < s.len() ==> space(#[trigger] s[i]),
        k > 0 ==> !space(s[k - 1]),
    decreases s.len(),
{
    if s.len() > 0 && space(s.last()) {
        let t = s.drop_last();
        let k = lemma_back_trimmed(t);
        assert(t.take(k) =~= s.take(k));
        assert forall|i: int| k <= i < s.len() implies space(#[trigger] s[i]) by {
            if i < t.len() {
                assert(t[i] == s[i]);
            }
        }
        k
    } else {
        assert(s.take(s.len() as int) =~= s);
        s.len() as int
    }
}

/// Text without control characters is printed as it is, and a control character
/// is all that is lost: what is printable of two texts is printable of both
/// together.
pub proof fn lemma_plain_text_is_printed(a: Seq<char>, b: Seq<char>)
    ensures
        (forall|i: int| 0 <= i < a.len() ==> !control(#[trigger] a[i]) || a[i] == '\n' || a[i]
            == '\t') ==> printable(a) == a,
        printable(a + b) == printable(a) + printable(b),
    decreases a.len() + b.len(),
{
    if b.len() == 0 {
        assert(a + b =~= a);
        assert(printable(a) + printable(b) =~= printable(a));
        if a.len() > 0 {
            lemma_plain_text_is_printed(a.drop_last(), Seq::empty());
            assert(a =~= a.drop_last().push(a.last()));
            if forall|i: int|
                0 <= i < a.len() ==> !control(#[trigger] a[i]) || a[i] == '\n' || a[i] == '\t' {
                let k = a.len() - 1;
                assert(!control(a[k]) || a[k] == '\n' || a[k] == '\t');
                assert forall|i: int| 0 <= i < a.drop_last().len() implies !control(
                    #[trigger] a.drop_last()[i],
                ) || a.drop_last()[i] == '\n' || a.drop_last()[i] == '\t' by {
                    assert(a.drop_last()[i] == a[i]);
                }
            }
        }
    } else {
        lemma_plain_text_is_printed(a, b.drop_last());
        assert((a + b).drop_last() =~= a + b.drop_last());
        assert((a + b).last() == b.last());
        assert(printable(a + b) =~= printable(a) + printable(b));
    }
}

/// The first characters of a text begin it, and are all of it where it is short
/// enough; no more could be taken.
pub proof fn lemma_first_chars_begin_the_text(s: Seq<char>, n: nat)
    ensures
        first_chars(s, n).is_prefix_of(s),
        s.len() <= n ==> first_chars(s, n) == s,
        s.len() > n ==> first_chars(s, n).len() == n,
{
    if s.len() > n {
        assert(s.take(n as int).is_prefix_of(s));
    }
}

} // verus!
