//! Small verified helpers for building message texts.

use vstd::prelude::*;

verus! {

/// The character of a decimal digit `d` (which should be below ten).
pub open spec fn digit_char(d: nat) -> char {
    if d == 0 {
        '0'
    } else if d == 1 {
        '1'
    } else if d == 2 {
        '2'
    } else if d == 3 {
        '3'
    } else if d == 4 {
        '4'
    } else if d == 5 {
        '5'
    } else if d == 6 {
        '6'
    } else if d == 7 {
        '7'
    } else if d == 8 {
        '8'
    } else {
        '9'
    }
}

/// Decimal notation of a natural number, most significant digit first,
/// without leading zeros.
pub open spec fn decimal(n: nat) -> Seq<char>
    decreases n,
{
    if n < 10 {
        seq![digit_char(n)]
    } else {
        decimal(n / 10).push(digit_char(n % 10))
    }
}

/// Decimal notation of an integer, with a leading `-` when it is negative.
pub open spec fn decimal_int(n: int) -> Seq<char> {
    if n < 0 {
        seq!['-'] + decimal((-n) as nat)
    } else {
        decimal(n as nat)
    }
}

/// Appends `c` to the end of `s` (`String::push`).
#[verifier::external_body]
pub(crate) fn push_char(s: &mut String, c: char)
    ensures
        final(s)@ == old(s)@.push(c),
{
    s.push(c);
}

/// The character of the decimal digit `d`.
pub fn digit(d: u64) -> (c: char)
    requires
        d < 10,
    ensures
        c == digit_char(d as nat),
{
    if d == 0 {
        '0'
    } else if d == 1 {
        '1'
    } else if d == 2 {
        '2'
    } else if d == 3 {
        '3'
    } else if d == 4 {
        '4'
    } else if d == 5 {
        '5'
    } else if d == 6 {
        '6'
    } else if d == 7 {
        '7'
    } else if d == 8 {
        '8'
    } else {
        '9'
    }
}

/// Appends the decimal notation of `n` to `out`.
pub fn push_decimal(out: &mut String, n: u64)
    ensures
        final(out)@ == old(out)@ + decimal(n as nat),
    decreases n,
{
    if n >= 10 {
        push_decimal(out, n / 10);
        let d = digit(n % 10);
        push_char(out, d);
        assert(out@ =~= old(out)@ + decimal(n as nat));
    } else {
        let d = digit(n);
        push_char(out, d);
        assert(out@ =~= old(out)@ + decimal(n as nat));
    }
}

/// Appends the decimal notation of the signed `n` to `out`.
pub fn push_decimal_i64(out: &mut String, n: i64)
    ensures
        final(out)@ == old(out)@ + decimal_int(n as int),
{
    if n < 0 {
        push_char(out, '-');
        let m: u64 = (0i128 - (n as i128)) as u64;
        push_decimal(out, m);
        assert(out@ =~= old(out)@ + decimal_int(n as int));
    } else {
        push_decimal(out, n as u64);
    }
}

/// The decimal notation of `n` as a new string.
pub fn usize_text(n: usize) -> (r: String)
    ensures
        r@ == decimal(n as nat),
{
    let mut s = String::new();
    push_decimal(&mut s, n as u64);
    assert(s@ =~= decimal(n as nat));
    s
}

/// The decimal notation of `n` as a new string.
pub fn i64_text(n: i64) -> (r: String)
    ensures
        r@ == decimal_int(n as int),
{
    let mut s = String::new();
    push_decimal_i64(&mut s, n);
    assert(s@ =~= decimal_int(n as int));
    s
}

/// Concatenates two strings into a new one.
pub fn concat2(a: &str, b: &str) -> (r: String)
    ensures
        r@ == a@ + b@,
{
    let mut s = a.to_owned();
    s.append(b);
    s
}

/// Concatenates three strings into a new one.
pub fn concat3(a: &str, b: &str, c: &str) -> (r: String)
    ensures
        r@ == a@ + b@ + c@,
{
    let mut s = a.to_owned();
    s.append(b);
    s.append(c);
    s
}

/// Concatenates four strings into a new one.
pub fn concat4(a: &str, b: &str, c: &str, d: &str) -> (r: String)
    ensures
        r@ == a@ + b@ + c@ + d@,
{
    let mut s = a.to_owned();
    s.append(b);
    s.append(c);
    s.append(d);
    s
}

/// Concatenates five strings into a new one.
pub fn concat5(a: &str, b: &str, c: &str, d: &str, e: &str) -> (r: String)
    ensures
        r@ == a@ + b@ + c@ + d@ + e@,
{
    let mut s = a.to_owned();
    s.append(b);
    s.append(c);
    s.append(d);
    s.append(e);
    s
}

/// The characters of `s`, one by one.
pub fn chars_of(s: &str) -> (r: Vec<char>)
    ensures
        r@ == s@,
{
    let n = s.unicode_len();
    let mut r: Vec<char> = Vec::new();
    let mut i: usize = 0;
    while i < n
        invariant
            n == s@.len(),
            i <= n,
            r@ == s@.subrange(0, i as int),
        decreases n - i,
    {
        let c = s.get_char(i);
        r.push(c);
        i = i + 1;
        assert(r@ =~= s@.subrange(0, i as int));
    }
    assert(r@ =~= s@);
    r
}

/// Whether two strings hold the same characters.
pub fn str_eq(a: &str, b: &str) -> (r: bool)
    ensures
        r == (a@ == b@),
{
    let x = a.to_owned();
    let y = b.to_owned();
    x == y
}

/// Space-separated concatenation of a sequence of texts.
pub open spec fn join_spaced(items: Seq<Seq<char>>) -> Seq<char>
    decreases items.len(),
{
    if items.len() == 0 {
        Seq::empty()
    } else if items.len() == 1 {
        items[0]
    } else {
        join_spaced(items.drop_last()) + seq![' '] + items.last()
    }
}

/// The total length of a sequence of texts.
pub open spec fn total_len(items: Seq<Seq<char>>) -> nat
    decreases items.len(),
{
    if items.len() == 0 {
        0
    } else {
        total_len(items.drop_last()) + items.last().len()
    }
}

/// Where the `i`-th text starts when the texts are written one after the
/// other with one character between each two.
pub open spec fn word_start(items: Seq<Seq<char>>, i: int) -> int {
    total_len(items.take(i)) + i
}

/// The total length of a prefix, and how it grows by one text.
pub proof fn lemma_total_len_take(s: Seq<Seq<char>>, k: int)
    requires
        0 <= k <= s.len(),
    ensures
        total_len(s.take(k)) <= total_len(s),
        k < s.len() ==> total_len(s.take(k + 1)) == total_len(s.take(k)) + s[k].len(),
    decreases s.len(),
{
    if k < s.len() {
        assert(s.take(k + 1).drop_last() =~= s.take(k));
        assert(s.take(k + 1).last() == s[k]);
        lemma_total_len_take(s.drop_last(), k);
        if k < s.len() - 1 {
            assert(s.drop_last().take(k) =~= s.take(k));
        } else {
            assert(s.take(k) =~= s.drop_last());
        }
    } else {
        assert(s.take(k) =~= s);
    }
}

/// Joining texts with spaces keeps every text, in order, each as a word of
/// its own: the result is as long as the texts together plus one space
/// between each two, every text stands whole at its place, and a space
/// follows each but the last.
pub proof fn law_join_keeps_every_word(items: Seq<Seq<char>>)
    ensures
        items.len() == 0 ==> join_spaced(items).len() == 0,
        items.len() > 0 ==> join_spaced(items).len() == total_len(items) + items.len() - 1,
        forall|i: int|
            0 <= i < items.len() ==> join_spaced(items).subrange(
                #[trigger] word_start(items, i),
                word_start(items, i) + items[i].len(),
            ) == items[i],
        forall|i: int|
            0 <= i < items.len() - 1 ==> join_spaced(items)[#[trigger] word_start(items, i)
                + items[i].len()] == ' ',
    decreases items.len(),
{
    let n = items.len();
    if n == 0 {
    } else if n == 1 {
        assert(items.take(0) =~= Seq::<Seq<char>>::empty());
        assert(items.drop_last() =~= Seq::<Seq<char>>::empty());
        assert(join_spaced(items).subrange(0, items[0].len() as int) =~= items[0]);
    } else {
        let d = items.drop_last();
        let j = join_spaced(d);
        let x = items.last();
        law_join_keeps_every_word(d);
        assert(items.take(n - 1) =~= d);
        assert(total_len(items) == total_len(d) + x.len());
        let full = join_spaced(items);
        assert(full == j + seq![' '] + x);
        assert forall|i: int| 0 <= i < n implies full.subrange(
            #[trigger] word_start(items, i),
            word_start(items, i) + items[i].len(),
        ) == items[i] by {
            if i < n - 1 {
                assert(items.take(i) =~= d.take(i));
                assert(items[i] == d[i]);
                lemma_total_len_take(d, i);
                lemma_total_len_take(d, i + 1);
                assert(word_start(items, i) == word_start(d, i));
                assert(word_start(d, i) + d[i].len() <= j.len());
                assert(full.subrange(word_start(d, i), word_start(d, i) + d[i].len()) =~= j.subrange(
                    word_start(d, i),
                    word_start(d, i) + d[i].len(),
                ));
            } else {
                assert(word_start(items, i) == j.len() + 1);
                assert(full.subrange(j.len() + 1 as int, j.len() + 1 + x.len() as int) =~= x);
            }
        }
        assert forall|i: int| 0 <= i < n - 1 implies full[#[trigger] word_start(items, i)
            + items[i].len()] == ' ' by {
            assert(items.take(i) =~= d.take(i));
            assert(items[i] == d[i]);
            lemma_total_len_take(d, i);
            lemma_total_len_take(d, i + 1);
            assert(word_start(items, i) == word_start(d, i));
            if i < n - 2 {
                assert(word_start(d, i) + d[i].len() < j.len());
                assert(full[word_start(d, i) + d[i].len()] == j[word_start(d, i) + d[i].len()]);
            } else {
                assert(d.take(i + 1) =~= d);
                assert(word_start(d, i) + d[i].len() == j.len());
            }
        }
    }
}

/// The views of a list of strings.
pub open spec fn views(items: Seq<String>) -> Seq<Seq<char>> {
    items.map_values(|s: String| s@)
}

/// Joins `items` with single spaces between them.
pub fn join_with_spaces(items: &[String]) -> (r: String)
    ensures
        r@ == join_spaced(views(items@)),
{
    let mut res = String::new();
    let ghost all = views(items@);
    let mut i: usize = 0;
    while i < items.len()
        invariant
            all == views(items@),
            i <= items@.len(),
            res@ == join_spaced(all.take(i as int)),
        decreases items@.len() - i,
    {
        if i != 0 {
            push_char(&mut res, ' ');
            res.append(items[i].as_str());
            assert(all.take((i + 1) as int).drop_last() =~= all.take(i as int));
        } else {
            res.append(items[i].as_str());
            assert(all.take(1) =~= seq![all[0]]);
            assert(res@ =~= all[0]);
        }
        i = i + 1;
    }
    assert(all.take(items@.len() as int) =~= all);
    res
}

} // verus!
