//! Text as sequences of characters.

use vstd::prelude::*;
use vstd::string::*;

verus! {

/// The characters of a text.
pub fn chars_of(s: &str) -> (r: Vec<char>)
    ensures
        r@ == s@,
{
    let mut out: Vec<char> = Vec::new();
    for c in it: s.chars()
        invariant
            it.seq() == s@,
            out@ == s@.take(it.index() as int),
    {
        out.push(c);
        assert(out@ =~= s@.take(it.index() + 1));
    }
    assert(s@.take(s@.len() as int) =~= s@);
    out
}

/// `needle` stands in `hay` at position `i`.
pub open spec fn stands_at(hay: Seq<char>, needle: Seq<char>, i: int) -> bool {
    0 <= i && i + needle.len() <= hay.len() && hay.subrange(i, i + needle.len()) == needle
}

/// `needle` stands somewhere in `hay`.
pub open spec fn has_fragment(hay: Seq<char>, needle: Seq<char>) -> bool {
    exists|i: int| stands_at(hay, needle, i)
}

/// Whether `needle` stands in `hay` at position `at`.
fn matches_at(hay: &Vec<char>, needle: &Vec<char>, at: usize) -> (r: bool)
    requires
        at + needle.len() <= hay.len(),
    ensures
        r == stands_at(hay@, needle@, at as int),
{
    let mut j: usize = 0;
    while j < needle.len()
        invariant
            at + needle.len() <= hay.len(),
            j <= needle.len(),
            forall|k: int| 0 <= k < j ==> hay@[at + k] == needle@[k],
        decreases needle.len() - j,
    {
        if hay[at + j] != needle[j] {
            assert(hay@.subrange(at as int, at + needle.len())[j as int] != needle@[j as int]);
            return false;
        }
        j = j + 1;
    }
    assert(hay@.subrange(at as int, at + needle.len()) =~= needle@);
    true
}

/// Whether `needle` stands somewhere in `hay`.
pub fn contains(hay: &str, needle: &str) -> (r: bool)
    ensures
        r == has_fragment(hay@, needle@),
{
    let h: Vec<char> = chars_of(hay);
    let n: Vec<char> = chars_of(needle);
    contains_chars(&h, &n)
}

/// Whether `needle` stands somewhere in `hay`.
pub fn contains_chars(h: &Vec<char>, n: &Vec<char>) -> (r: bool)
    ensures
        r == has_fragment(h@, n@),
{
    if n.len() > h.len() {
        return false;
    }
    let last: usize = h.len() - n.len();
    let mut i: usize = 0;
    while i <= last
        invariant
            last + n.len() == h.len(),
            i <= last + 1,
            forall|k: int| 0 <= k < i ==> !stands_at(h@, n@, k),
        decreases last + 1 - i,
    {
        if matches_at(h, n, i) {
            return true;
        }
        if i == last {
            return false;
        }
        i = i + 1;
    }
    false
}

/// Whether `s` begins with `prefix`.
pub fn starts_with(s: &Vec<char>, prefix: &Vec<char>) -> (r: bool)
    ensures
        r == prefix@.is_prefix_of(s@),
{
    if prefix.len() > s.len() {
        return false;
    }
    let r: bool = matches_at(s, prefix, 0);
    assert(s@.subrange(0, prefix.len() as int) =~= s@.take(prefix.len() as int));
    r
}

/// Whether two texts are the same.
pub fn same(a: &str, b: &str) -> (r: bool)
    ensures
        r == (a@ == b@),
{
    let x: Vec<char> = chars_of(a);
    let y: Vec<char> = chars_of(b);
    if x.len() != y.len() {
        return false;
    }
    let r: bool = matches_at(&x, &y, 0);
    assert(x@.subrange(0, y.len() as int) =~= x@);
    r
}

/// Two texts, one after the other.
pub fn joined(a: &str, b: &str) -> (r: String)
    ensures
        r@ == a@ + b@,
{
    let mut out: String = String::new();
    out.append(a);
    out.append(b);
    assert(out@ =~= a@ + b@);
    out
}

/// Three texts, one after the other.
pub fn joined3(a: &str, b: &str, c: &str) -> (r: String)
    ensures
        r@ == a@ + b@ + c@,
{
    let mut out: String = joined(a, b);
    out.append(c);
    out
}

/// Code-point order: the first difference decides, and a beginning comes before
/// what it begins.
pub open spec fn before(a: Seq<char>, b: Seq<char>) -> bool
    decreases a.len(),
{
    if b.len() == 0 {
        false
    } else if a.len() == 0 {
        true
    } else if a[0] != b[0] {
        (a[0] as u32) < (b[0] as u32)
    } else {
        before(a.drop_first(), b.drop_first())
    }
}

/// Whether `a` comes before `b` in code-point order.
pub fn comes_before(a: &str, b: &str) -> (r: bool)
    ensures
        r == before(a@, b@),
{
    let x: Vec<char> = chars_of(a);
    let y: Vec<char> = chars_of(b);
    let mut i: usize = 0;
    assert(x@.skip(0) =~= x@);
    assert(y@.skip(0) =~= y@);
    while i < x.len() && i < y.len()
        invariant
            i <= x.len(),
            i <= y.len(),
            x@ == a@,
            y@ == b@,
            before(x@, y@) == before(x@.skip(i as int), y@.skip(i as int)),
        decreases x.len() - i,
    {
        let c: char = x[i];
        let d: char = y[i];
        if c != d {
            return (c as u32) < (d as u32);
        }
        assert(x@.skip(i as int).drop_first() =~= x@.skip(i + 1));
        assert(y@.skip(i as int).drop_first() =~= y@.skip(i + 1));
        i = i + 1;
    }
    i < y.len()
}

/// Code-point order is a strict total order: nothing comes before itself, it is
/// transitive, and of two different texts one comes first.
pub proof fn law_order_is_total(a: Seq<char>, b: Seq<char>, c: Seq<char>)
    ensures
        !before(a, a),
        before(a, b) && before(b, c) ==> before(a, c),
        a != b ==> before(a, b) || before(b, a),
        before(a, b) ==> !before(b, a),
    decreases a.len() + b.len() + c.len(),
{
    if a.len() > 0 {
        let a1 = a.drop_first();
        let b1 = if b.len() > 0 { b.drop_first() } else { b };
        let c1 = if c.len() > 0 { c.drop_first() } else { c };
        law_order_is_total(a1, b1, c1);
        if b.len() > 0 {
            vstd::utf8::char_u32_cast(a[0], a[0] as u32);
            vstd::utf8::char_u32_cast(b[0], b[0] as u32);
        }
        if b.len() > 0 && a[0] == b[0] && a1 == b1 {
            assert(a =~= seq![a[0]] + a1);
            assert(b =~= seq![b[0]] + b1);
        }
    } else if b.len() == 0 {
        assert(a =~= b);
    }
}

/// What `str::to_lowercase` makes of a text.
pub uninterp spec fn lowercase(s: Seq<char>) -> Seq<char>;

/// `str::to_lowercase`. Its result is a function of the text alone, by the
/// Unicode tables that std carries; nothing more is claimed of it.
#[verifier::external_body]
pub(crate) fn to_lower(s: &str) -> (r: String)
    ensures
        r@ == lowercase(s@),
{
    s.to_lowercase()
}

/// White space, by Unicode's property `White_Space`.
pub open spec fn whitespace(c: char) -> bool {
    let n = c as u32;
    ||| 0x9 <= n <= 0xD
    ||| n == 0x20
    ||| n == 0x85
    ||| n == 0xA0
    ||| n == 0x1680
    ||| 0x2000 <= n <= 0x200A
    ||| n == 0x2028
    ||| n == 0x2029
    ||| n == 0x202F
    ||| n == 0x205F
    ||| n == 0x3000
}

/// Whether the character is white space.
pub fn is_space(c: char) -> (r: bool)
    ensures
        r == whitespace(c),
{
    let n: u32 = c as u32;
    (0x9 <= n && n <= 0xD) || n == 0x20 || n == 0x85 || n == 0xA0 || n == 0x1680 || (0x2000 <= n && n
        <= 0x200A) || n == 0x2028 || n == 0x2029 || n == 0x202F || n == 0x205F || n == 0x3000
}

/// What `{:?}` makes of a text: in quotes, with escapes.
pub uninterp spec fn quoted(s: Seq<char>) -> Seq<char>;

/// The debug format of `str`. Its result is a function of the text alone;
/// nothing more is claimed of it.
#[verifier::external_body]
pub(crate) fn to_quoted(s: &str) -> (r: String)
    ensures
        r@ == quoted(s@),
{
    format!("{:?}", s)
}

/// What `String::from_utf8_lossy` makes of bytes.
pub uninterp spec fn lossy(bytes: Seq<u8>) -> Seq<char>;

/// `String::from_utf8_lossy`. Its result is a function of the bytes alone, and
/// valid UTF-8 is decoded as it stands. What becomes of invalid bytes is not
/// said.
#[verifier::external_body]
pub(crate) fn from_lossy(bytes: &Vec<u8>) -> (r: String)
    ensures
        r@ == lossy(bytes@),
        vstd::utf8::valid_utf8(bytes@) ==> r@ == vstd::utf8::decode_utf8(bytes@),
{
    String::from_utf8_lossy(bytes).into_owned()
}

/// The text without the white space that it begins with.
pub open spec fn left_trimmed(s: Seq<char>) -> Seq<char>
    decreases s.len(),
{
    if s.len() > 0 && whitespace(s[0]) {
        left_trimmed(s.drop_first())
    } else {
        s
    }
}

/// The text without the white space that it ends with.
pub open spec fn right_trimmed(s: Seq<char>) -> Seq<char>
    decreases s.len(),
{
    if s.len() > 0 && whitespace(s.last()) {
        right_trimmed(s.drop_last())
    } else {
        s
    }
}

/// How the text begins, up to the first white space.
pub open spec fn word(s: Seq<char>) -> Seq<char>
    decreases s.len(),
{
    if s.len() == 0 || whitespace(s[0]) {
        Seq::empty()
    } else {
        seq![s[0]] + word(s.drop_first())
    }
}

/// The text without the white space that it begins with.
pub fn trim_left(s: &Vec<char>) -> (r: Vec<char>)
    ensures
        r@ == left_trimmed(s@),
{
    let mut i: usize = 0;
    assert(s@.skip(0) =~= s@);
    while i < s.len() && is_space(s[i])
        invariant
            i <= s.len(),
            left_trimmed(s@) == left_trimmed(s@.skip(i as int)),
        decreases s.len() - i,
    {
        assert(s@.skip(i as int).drop_first() =~= s@.skip(i + 1));
        i = i + 1;
    }
    let r: Vec<char> = part(s, i, s.len());
    assert(r@ =~= s@.skip(i as int));
    r
}

/// The text without the white space that it ends with.
pub fn trim_right(s: &Vec<char>) -> (r: Vec<char>)
    ensures
        r@ == right_trimmed(s@),
{
    let mut n: usize = s.len();
    assert(s@.take(n as int) =~= s@);
    while n > 0 && is_space(s[n - 1])
        invariant
            n <= s.len(),
            right_trimmed(s@) == right_trimmed(s@.take(n as int)),
        decreases n,
    {
        assert(s@.take(n as int).drop_last() =~= s@.take(n - 1));
        n = n - 1;
    }
    let r: Vec<char> = part(s, 0, n);
    assert(r@ =~= s@.take(n as int));
    r
}

/// How the text begins, up to the first white space.
pub fn first_run(s: &Vec<char>) -> (r: Vec<char>)
    ensures
        r@ == word(s@),
{
    let mut out: Vec<char> = Vec::new();
    let mut i: usize = 0;
    assert(s@.skip(0) =~= s@);
    while i < s.len() && !is_space(s[i])
        invariant
            i <= s.len(),
            word(s@) == out@ + word(s@.skip(i as int)),
        decreases s.len() - i,
    {
        proof {
            assert(s@.skip(i as int).drop_first() =~= s@.skip(i + 1));
            assert(out@ + (seq![s@[i as int]] + word(s@.skip(i + 1))) =~= out@.push(s@[i as int])
                + word(s@.skip(i + 1)));
        }
        out.push(s[i]);
        i = i + 1;
    }
    assert(word(s@.skip(i as int)) =~= Seq::empty());
    assert(out@ =~= word(s@));
    out
}

/// The characters from `from` up to `to`.
fn part(s: &Vec<char>, from: usize, to: usize) -> (r: Vec<char>)
    requires
        from <= to <= s.len(),
    ensures
        r@ == s@.subrange(from as int, to as int),
{
    let mut out: Vec<char> = Vec::new();
    let mut i: usize = from;
    while i < to
        invariant
            from <= i <= to <= s.len(),
            out@ == s@.subrange(from as int, i as int),
        decreases to - i,
    {
        out.push(s[i]);
        i = i + 1;
        assert(out@ =~= s@.subrange(from as int, i as int));
    }
    out
}

/// The lines of a text: what stands between its newlines.
pub open spec fn lines(s: Seq<char>) -> Seq<Seq<char>>
    decreases s.len(),
{
    if s.len() == 0 {
        seq![Seq::empty()]
    } else {
        let before = lines(s.drop_last());
        if s.last() == '\n' {
            before.push(Seq::empty())
        } else {
            before.drop_last().push(before.last().push(s.last()))
        }
    }
}

/// The views of some texts.
pub open spec fn views(v: Seq<Vec<char>>) -> Seq<Seq<char>> {
    v.map_values(|l: Vec<char>| l@)
}

/// The lines of a text: what stands between its newlines.
pub fn split_lines(s: &Vec<char>) -> (r: Vec<Vec<char>>)
    ensures
        views(r@) == lines(s@),
{
    let mut done: Vec<Vec<char>> = Vec::new();
    let mut current: Vec<char> = Vec::new();
    let mut i: usize = 0;
    assert(views(done@).push(current@) =~= lines(s@.take(0)));
    while i < s.len()
        invariant
            i <= s.len(),
            views(done@).push(current@) == lines(s@.take(i as int)),
        decreases s.len() - i,
    {
        let c: char = s[i];
        let ghost so_far = views(done@).push(current@);
        proof {
            assert(s@.take(i + 1).drop_last() =~= s@.take(i as int));
            assert(so_far.drop_last() =~= views(done@));
            assert(so_far.last() == current@);
        }
        if c == '\n' {
            let ghost earlier = done@;
            let ghost line = current;
            done.push(current);
            current = Vec::new();
            assert(views(done@) =~= views(earlier).push(line@));
            assert(current@ =~= Seq::empty());
        } else {
            current.push(c);
        }
        i = i + 1;
        assert(views(done@).push(current@) =~= lines(s@.take(i as int)));
    }
    assert(s@.take(s.len() as int) =~= s@);
    let ghost earlier = done@;
    let ghost line = current;
    done.push(current);
    assert(views(done@) =~= views(earlier).push(line@));
    done
}

/// The text with `new` in the place of every `old_char`.
pub open spec fn replaced(s: Seq<char>, old_char: char, new: Seq<char>) -> Seq<char>
    decreases s.len(),
{
    if s.len() == 0 {
        Seq::empty()
    } else {
        replaced(s.drop_last(), old_char, new) + if s.last() == old_char {
            new
        } else {
            seq![s.last()]
        }
    }
}

/// The text with `new` in the place of every `old_char`.
pub fn replace_char(s: &Vec<char>, old_char: char, new: &Vec<char>) -> (r: Vec<char>)
    ensures
        r@ == replaced(s@, old_char, new@),
{
    let mut out: Vec<char> = Vec::new();
    let mut i: usize = 0;
    while i < s.len()
        invariant
            i <= s.len(),
            out@ == replaced(s@.take(i as int), old_char, new@),
        decreases s.len() - i,
    {
        let c: char = s[i];
        assert(s@.take(i + 1).drop_last() =~= s@.take(i as int));
        if c == old_char {
            let ghost so_far = out@;
            let mut j: usize = 0;
            assert(out@ =~= so_far + new@.take(0));
            while j < new.len()
                invariant
                    j <= new.len(),
                    out@ == so_far + new@.take(j as int),
                decreases new.len() - j,
            {
                out.push(new[j]);
                j = j + 1;
                assert(out@ =~= so_far + new@.take(j as int));
            }
            assert(new@.take(new.len() as int) =~= new@);
        } else {
            out.push(c);
        }
        i = i + 1;
        assert(out@ =~= replaced(s@.take(i as int), old_char, new@));
    }
    assert(s@.take(s.len() as int) =~= s@);
    out
}

/// `String::from_iter`, on characters: the text that they make.
#[verifier::external_body]
pub(crate) fn text_of(chars: &Vec<char>) -> (r: String)
    ensures
        r@ == chars@,
{
    String::from_iter(chars)
}

} // verus!
