//! What the text and number helpers do, character by character.

use crate::clock::frames_elapsed;
use crate::numbers::{add_capped, decimal, digit_value, digits_value, index_of, parse_index, to_decimal};
use crate::pcm::audible;
use crate::text::{
    before, chars_of, comes_before, contains, contains_chars, first_run, has_fragment, is_space,
    joined, joined3, left_trimmed, lines, replace_char, replaced, right_trimmed, same, split_lines,
    stands_at, starts_with, trim_left, trim_right, views, whitespace, word,
};
use vstd::prelude::*;
use vstd::string::*;

verus! {

/// `needle` can be read in `hay` from some position on, character by character.
pub open spec fn reads_in(hay: Seq<char>, needle: Seq<char>) -> bool {
    exists|i: int|
        0 <= i <= hay.len() - needle.len() && #[trigger] reads_at(hay, needle, i)
}

/// `needle` can be read in `hay` from `i` on, character by character.
pub open spec fn reads_at(hay: Seq<char>, needle: Seq<char>, i: int) -> bool {
    forall|j: int| 0 <= j < needle.len() ==> hay[i + j] == #[trigger] needle[j]
}

pub proof fn lemma_fragment_reads(hay: Seq<char>, needle: Seq<char>)
    ensures
        has_fragment(hay, needle) <==> reads_in(hay, needle),
{
    if has_fragment(hay, needle) {
        let i = choose|i: int| stands_at(hay, needle, i);
        assert forall|j: int| 0 <= j < needle.len() implies hay[i + j] == #[trigger] needle[j] by {
            assert(hay.subrange(i, i + needle.len())[j] == needle[j]);
        }
        assert(reads_at(hay, needle, i));
    }
    if reads_in(hay, needle) {
        let i = choose|i: int|
            0 <= i <= hay.len() - needle.len() && #[trigger] reads_at(hay, needle, i);
        assert(hay.subrange(i, i + needle.len()) =~= needle);
        assert(stands_at(hay, needle, i));
    }
}

/// A text contains another exactly when that one can be read in it from some
/// position on.
pub proof fn law_contains_reads(hay: &str, needle: &str, r: bool)
    requires
        call_ensures(contains, (hay, needle), r),
    ensures
        r <==> reads_in(hay@, needle@),
{
    lemma_fragment_reads(hay@, needle@);
}

/// A text starts with another exactly when that one can be read at its beginning;
/// two texts are the same exactly when they have the same characters.
pub proof fn law_starts_and_sameness(
    s: Vec<char>,
    prefix: Vec<char>,
    starts: bool,
    a: &str,
    b: &str,
    equal: bool,
)
    requires
        call_ensures(starts_with, (&s, &prefix), starts),
        call_ensures(same, (a, b), equal),
    ensures
        starts <==> prefix@.len() <= s@.len() && forall|j: int|
            0 <= j < prefix@.len() ==> s@[j] == prefix@[j],
        equal <==> a@.len() == b@.len() && forall|j: int| 0 <= j < a@.len() ==> a@[j] == b@[j],
{
    if prefix@.len() <= s@.len() && forall|j: int| 0 <= j < prefix@.len() ==> s@[j] == prefix@[j] {
        assert(s@.take(prefix@.len() as int) =~= prefix@);
    }
    if starts {
        assert forall|j: int| 0 <= j < prefix@.len() implies s@[j] == prefix@[j] by {
            assert(s@.take(prefix@.len() as int)[j] == s@[j]);
        }
    }
    if a@.len() == b@.len() && forall|j: int| 0 <= j < a@.len() ==> a@[j] == b@[j] {
        assert(a@ =~= b@);
    }
}

/// Joining puts texts one after the other.
pub proof fn law_joining(a: &str, b: &str, c: &str, two: String, three: String)
    requires
        call_ensures(joined, (a, b), two),
        call_ensures(joined3, (a, b, c), three),
    ensures
        two@.len() == a@.len() + b@.len(),
        two@.take(a@.len() as int) == a@,
        two@.skip(a@.len() as int) == b@,
        three@ == two@ + c@,
{
    assert(two@.take(a@.len() as int) =~= a@);
    assert(two@.skip(a@.len() as int) =~= b@);
}

/// The texts are the same up to `k`, and there the first of them ends, or has the
/// lower character.
pub open spec fn differs_at(a: Seq<char>, b: Seq<char>, k: int) -> bool {
    &&& 0 <= k <= a.len() && k < b.len()
    &&& forall|j: int| 0 <= j < k ==> a[j] == b[j]
    &&& k == a.len() || (a[k] as u32) < (b[k] as u32)
}

pub proof fn lemma_order_reads(a: Seq<char>, b: Seq<char>)
    ensures
        before(a, b) <==> exists|k: int| #[trigger] differs_at(a, b, k),
    decreases a.len(),
{
    if b.len() == 0 {
    } else if a.len() == 0 {
        assert(differs_at(a, b, 0));
    } else {
        let a1 = a.drop_first();
        let b1 = b.drop_first();
        lemma_order_reads(a1, b1);
        if a[0] != b[0] {
            if (a[0] as u32) < (b[0] as u32) {
                assert(differs_at(a, b, 0));
            } else {
                assert forall|k: int| !#[trigger] differs_at(a, b, k) by {
                    if differs_at(a, b, k) && k > 0 {
                        assert(a[0] == b[0]);
                    }
                }
            }
        } else {
            if before(a1, b1) {
                let k = choose|k: int| #[trigger] differs_at(a1, b1, k);
                assert forall|j: int| 0 <= j < k + 1 implies a[j] == b[j] by {
                    if j > 0 {
                        assert(a1[j - 1] == b1[j - 1]);
                    }
                }
                assert(differs_at(a, b, k + 1));
            }
            if exists|k: int| #[trigger] differs_at(a, b, k) {
                let k = choose|k: int| #[trigger] differs_at(a, b, k);
                if k > 0 {
                    assert forall|j: int| 0 <= j < k - 1 implies a1[j] == b1[j] by {
                        assert(a[j + 1] == b[j + 1]);
                    }
                    assert(differs_at(a1, b1, k - 1));
                }
            }
        }
    }
}

/// The order of texts is decided where they first differ, by the lower character
/// or by the end.
pub proof fn law_first_difference_decides(a: &str, b: &str, r: bool)
    requires
        call_ensures(comes_before, (a, b), r),
    ensures
        r <==> exists|k: int| #[trigger] differs_at(a@, b@, k),
{
    lemma_order_reads(a@, b@);
}

/// White space is a fixed set of characters.
pub proof fn law_white_space(c: char, r: bool)
    requires
        call_ensures(is_space, (c,), r),
    ensures
        r <==> {
            let n = c as u32;
            ||| n == 9 || n == 10 || n == 11 || n == 12 || n == 13 || n == 32
            ||| n == 133 || n == 160 || n == 5760
            ||| 8192 <= n <= 8202
            ||| n == 8232 || n == 8233 || n == 8239 || n == 8287 || n == 12288
        },
        r == whitespace(c),
{
}

pub proof fn lemma_left_trim(s: Seq<char>) -> (k: int)
    ensures
        0 <= k <= s.len(),
        left_trimmed(s) == s.skip(k),
        forall|j: int| 0 <= j < k ==> whitespace(s[j]),
        k < s.len() ==> !whitespace(s[k]),
    decreases s.len(),
{
    if s.len() > 0 && whitespace(s[0]) {
        let k = lemma_left_trim(s.drop_first());
        assert(s.drop_first().skip(k) =~= s.skip(k + 1));
        assert forall|j: int| 0 <= j < k + 1 implies whitespace(s[j]) by {
            if j > 0 {
                assert(s.drop_first()[j - 1] == s[j]);
            }
        }
        k + 1
    } else {
        assert(s.skip(0) =~= s);
        0
    }
}

pub proof fn lemma_right_trim(s: Seq<char>) -> (k: int)
    ensures
        0 <= k <= s.len(),
        right_trimmed(s) == s.take(k),
        forall|j: int| k <= j < s.len() ==> whitespace(s[j]),
        k > 0 ==> !whitespace(s[k - 1]),
    decreases s.len(),
{
    if s.len() > 0 && whitespace(s.last()) {
        let k = lemma_right_trim(s.drop_last());
        assert(s.drop_last().take(k) =~= s.take(k));
        assert forall|j: int| k <= j < s.len() implies whitespace(s[j]) by {
            if j < s.len() - 1 {
                assert(s.drop_last()[j] == s[j]);
            }
        }
        k
    } else {
        assert(s.take(s.len() as int) =~= s);
        s.len() as int
    }
}

pub proof fn lemma_word(s: Seq<char>) -> (k: int)
    ensures
        0 <= k <= s.len(),
        word(s) == s.take(k),
        forall|j: int| 0 <= j < k ==> !whitespace(s[j]),
        k < s.len() ==> whitespace(s[k]),
    decreases s.len(),
{
    if s.len() == 0 || whitespace(s[0]) {
        assert(word(s) =~= s.take(0));
        0
    } else {
        let k = lemma_word(s.drop_first());
        assert(word(s) =~= s.take(k + 1));
        assert forall|j: int| 0 <= j < k + 1 implies !whitespace(s[j]) by {
            if j > 0 {
                assert(s.drop_first()[j - 1] == s[j]);
            }
        }
        k + 1
    }
}

/// Trimming takes the white space from one end, all of it and nothing else; and
/// the first run of a text is what stands before its first white space.
pub proof fn law_trimming_takes_white_space(
    s: Vec<char>,
    left: Vec<char>,
    right: Vec<char>,
    run: Vec<char>,
)
    requires
        call_ensures(trim_left, (&s,), left),
        call_ensures(trim_right, (&s,), right),
        call_ensures(first_run, (&s,), run),
    ensures
        ({
            let n = s@.len() as int;
            let k = n - left@.len();
            let m = right@.len() as int;
            let r = run@.len() as int;
            &&& 0 <= k && left@ == s@.skip(k) && (forall|j: int|
                0 <= j < k ==> whitespace(s@[j])) && (k < n ==> !whitespace(s@[k]))
            &&& m <= n && right@ == s@.take(m) && (forall|j: int|
                m <= j < n ==> whitespace(s@[j])) && (m > 0 ==> !whitespace(s@[m - 1]))
            &&& r <= n && run@ == s@.take(r) && (forall|j: int|
                0 <= j < r ==> !whitespace(s@[j])) && (r < n ==> whitespace(s@[r]))
        }),
{
    let k = lemma_left_trim(s@);
    let m = lemma_right_trim(s@);
    let r = lemma_word(s@);
}

/// Some lines with a newline between each two.
pub open spec fn glued(all: Seq<Seq<char>>) -> Seq<char>
    decreases all.len(),
{
    if all.len() == 0 {
        Seq::empty()
    } else if all.len() == 1 {
        all[0]
    } else {
        glued(all.drop_last()) + seq!['\n'] + all.last()
    }
}

pub proof fn lemma_lines(s: Seq<char>)
    ensures
        lines(s).len() > 0,
        glued(lines(s)) == s,
        forall|i: int, j: int|
            0 <= i < lines(s).len() && 0 <= j < lines(s)[i].len() ==> #[trigger] lines(s)[i][j]
                != '\n',
    decreases s.len(),
{
    let all = lines(s);
    if s.len() == 0 {
        assert(glued(all) =~= s);
    } else {
        let init = s.drop_last();
        let prior = lines(init);
        lemma_lines(init);
        assert(init.push(s.last()) =~= s);
        if s.last() == '\n' {
            assert(all.drop_last() =~= prior);
            assert(glued(all) =~= s);
            assert forall|i: int, j: int| 0 <= i < all.len() && 0 <= j < all[i].len() implies
                #[trigger] all[i][j] != '\n' by {
                if i < prior.len() {
                    assert(all[i] == prior[i]);
                    assert(prior[i][j] != '\n');
                }
            }
        } else {
            let grown = prior.last().push(s.last());
            assert(all == prior.drop_last().push(grown));
            assert(all.drop_last() =~= prior.drop_last());
            if prior.len() == 1 {
                assert(glued(prior) == prior[0]);
                assert(glued(all) =~= s);
            } else {
                assert(glued(prior) == glued(prior.drop_last()) + seq!['\n'] + prior.last());
                assert(glued(all) =~= s);
            }
            assert forall|i: int, j: int| 0 <= i < all.len() && 0 <= j < all[i].len() implies
                #[trigger] all[i][j] != '\n' by {
                if i < prior.len() - 1 {
                    assert(all[i] == prior[i]);
                    assert(prior[i][j] != '\n');
                } else if j < prior.last().len() {
                    assert(prior[prior.len() - 1][j] != '\n');
                }
            }
        }
    }
}

/// The lines of a text hold no newline, and with one between each two of them
/// they are the text again.
pub proof fn law_lines_glue_back(s: Vec<char>, r: Vec<Vec<char>>)
    requires
        call_ensures(split_lines, (&s,), r),
    ensures
        r@.len() > 0,
        glued(views(r@)) == s@,
        forall|i: int, j: int|
            0 <= i < r@.len() && 0 <= j < r@[i]@.len() ==> #[trigger] r@[i]@[j] != '\n',
{
    lemma_lines(s@);
    assert forall|i: int, j: int| 0 <= i < r@.len() && 0 <= j < r@[i]@.len() implies #[trigger] r@[i]@[j]
        != '\n' by {
        assert(views(r@)[i] == r@[i]@);
        assert(lines(s@)[i][j] != '\n');
    }
}

pub proof fn lemma_replaced_parts(a: Seq<char>, b: Seq<char>, c: char, new: Seq<char>)
    ensures
        replaced(a + b, c, new) == replaced(a, c, new) + replaced(b, c, new),
    decreases b.len(),
{
    if b.len() == 0 {
        assert(a + b =~= a);
        assert(replaced(a + b, c, new) =~= replaced(a, c, new) + replaced(b, c, new));
    } else {
        lemma_replaced_parts(a, b.drop_last(), c, new);
        assert((a + b).drop_last() =~= a + b.drop_last());
        assert(replaced(a + b, c, new) =~= replaced(a, c, new) + replaced(b, c, new));
    }
}

/// Replacing a character goes part by part: a lone one of that kind becomes the
/// new text, any other stays, and two texts are replaced one after the other.
pub proof fn law_replacing_goes_part_by_part(
    a: Vec<char>,
    b: Vec<char>,
    both: Vec<char>,
    c: char,
    new: Vec<char>,
    ra: Vec<char>,
    rb: Vec<char>,
    rboth: Vec<char>,
)
    requires
        both@ == a@ + b@,
        call_ensures(replace_char, (&a, c, &new), ra),
        call_ensures(replace_char, (&b, c, &new), rb),
        call_ensures(replace_char, (&both, c, &new), rboth),
    ensures
        rboth@ == ra@ + rb@,
        a@.len() == 0 ==> ra@.len() == 0,
        a@.len() == 1 ==> ra@ == if a@[0] == c {
            new@
        } else {
            a@
        },
{
    lemma_replaced_parts(a@, b@, c, new@);
    if a@.len() == 1 {
        assert(a@.drop_last() =~= Seq::empty());
        assert(replaced(a@.drop_last(), c, new@) =~= Seq::empty());
        assert(seq![a@[0]] =~= a@);
        assert(ra@ =~= if a@[0] == c {
            new@
        } else {
            a@
        });
    }
}

/// The decimal text of a number ends in its last digit, and what stands before
/// that is the decimal text of the rest; one digit is written alone.
pub proof fn law_decimal_digit_by_digit(n: u64, r: String, rest: String)
    requires
        call_ensures(to_decimal, (n,), r),
        call_ensures(to_decimal, (n / 10,), rest),
    ensures
        r@.len() > 0,
        r@.last() as u32 == 48 + n % 10,
        n < 10 ==> r@.len() == 1,
        n >= 10 ==> r@.drop_last() == rest@,
        r@ == decimal(n as nat),
{
    if n >= 10 {
        assert(r@.drop_last() =~= rest@);
    }
}

/// One of the characters from 0 to 9, by its code.
pub open spec fn is_digit(c: char) -> bool {
    48 <= c as u32 <= 57
}

/// The number that some digits spell.
pub open spec fn spelled(digits: Seq<char>) -> int
    decreases digits.len(),
{
    if digits.len() == 0 {
        0
    } else {
        10 * spelled(digits.drop_last()) + (digits.last() as u32 - 48)
    }
}

proof fn lemma_spelled(d: Seq<char>)
    ensures
        digits_value(d) is Some <==> forall|i: int| 0 <= i < d.len() ==> is_digit(#[trigger] d[i]),
        digits_value(d) matches Some(n) ==> n == spelled(d),
    decreases d.len(),
{
    if d.len() > 0 {
        let init = d.drop_last();
        lemma_spelled(init);
        let c = d.last();
        assert(d[d.len() - 1] == c);
        vstd::utf8::char_u32_cast(c, c as u32);
        assert(digit_value(c) is Some <==> is_digit(c));
        assert(digit_value(c) matches Some(v) ==> v == c as u32 - 48);
        if digits_value(d) is Some {
            assert forall|i: int| 0 <= i < d.len() implies is_digit(#[trigger] d[i]) by {
                if i < init.len() {
                    assert(init[i] == d[i]);
                }
            }
        }
        if forall|i: int| 0 <= i < d.len() ==> is_digit(#[trigger] d[i]) {
            assert forall|i: int| 0 <= i < init.len() implies is_digit(#[trigger] init[i]) by {
                assert(init[i] == d[i]);
            }
        }
    }
}

/// The text without the plus that may lead it.
pub open spec fn unsigned(s: Seq<char>) -> Seq<char> {
    if s.len() > 0 && s[0] == '+' {
        s.skip(1)
    } else {
        s
    }
}

/// One or more digits, and nothing else.
pub open spec fn is_number(s: Seq<char>) -> bool {
    s.len() > 0 && forall|i: int| 0 <= i < s.len() ==> is_digit(#[trigger] s[i])
}

/// An index is read exactly from one or more digits, which a plus may lead, and
/// is the number that they spell, where that is an index at all.
pub proof fn law_index_is_what_the_digits_spell(s: Vec<char>, from: usize, r: Option<usize>)
    requires
        from <= s@.len(),
        call_ensures(parse_index, (&s, from), r),
    ensures
        ({
            let digits = unsigned(s@.skip(from as int));
            &&& r is Some <==> is_number(digits) && spelled(digits) <= usize::MAX
            &&& r matches Some(n) ==> n == spelled(digits)
        }),
{
    lemma_index(s@.skip(from as int));
}

pub proof fn lemma_index(s: Seq<char>)
    ensures
        index_of(s) is Some <==> is_number(unsigned(s)) && spelled(unsigned(s)) <= usize::MAX,
        index_of(s) matches Some(n) ==> n == spelled(unsigned(s)),
{
    if s.len() > 0 && s[0] == '+' {
        assert(s.drop_first() =~= s.skip(1));
    }
    lemma_spelled(unsigned(s));
}

/// A sum that is too great is the greatest number there is.
pub proof fn law_sum_is_capped(a: u64, b: u64, r: u64)
    requires
        call_ensures(add_capped, (a, b), r),
    ensures
        a + b <= u64::MAX ==> r == a + b,
        a + b > u64::MAX ==> r == u64::MAX,
{
}

/// The frames of a time are as many as fit in it, and no fewer.
pub proof fn law_frames_fit_in_the_time(nanos: u64, rate: u32, r: u128)
    requires
        call_ensures(frames_elapsed, (nanos, rate), r),
    ensures
        r * 1_000_000_000 <= nanos * rate,
        nanos * rate < (r + 1) * 1_000_000_000,
{
}

/// Audio is real exactly when one sample of it is not zero.
pub proof fn law_real_audio_has_a_sample(samples: Vec<i16>, r: bool)
    requires
        call_ensures(audible, (&samples,), r),
    ensures
        r <==> exists|i: int| 0 <= i < samples@.len() && samples@[i] != 0,
{
}

/// Characters are those of the text, and searching them is searching the text.
pub proof fn law_characters(s: &str, chars: Vec<char>, h: Vec<char>, n: Vec<char>, r: bool)
    requires
        call_ensures(chars_of, (s,), chars),
        call_ensures(contains_chars, (&h, &n), r),
    ensures
        chars@ == s@,
        r <==> reads_in(h@, n@),
{
    lemma_fragment_reads(h@, n@);
}

} // verus!
