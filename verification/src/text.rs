//! Text building blocks: decimal rendering of integers and joining of
//! string slices with a separator.

use vstd::prelude::*;

verus! {

/// The character of a decimal digit `d` (0 to 9).
pub open spec fn digit_char(d: nat) -> char {
    if d == 0 { '0' }
    else if d == 1 { '1' }
    else if d == 2 { '2' }
    else if d == 3 { '3' }
    else if d == 4 { '4' }
    else if d == 5 { '5' }
    else if d == 6 { '6' }
    else if d == 7 { '7' }
    else if d == 8 { '8' }
    else { '9' }
}

/// The decimal digits of `n`, most significant first, with no leading zero.
pub open spec fn decimal(n: nat) -> Seq<char>
    decreases n,
{
    if n < 10 {
        seq![digit_char(n)]
    } else {
        decimal(n / 10) + seq![digit_char(n % 10)]
    }
}

/// The decimal text of a signed integer: a minus sign before the digits of
/// its magnitude when it is negative.
pub open spec fn signed_decimal(n: int) -> Seq<char> {
    if n < 0 {
        seq!['-'] + decimal((-n) as nat)
    } else {
        decimal(n as nat)
    }
}

/// `parts` with `sep` between each two neighbours.
pub open spec fn joined(parts: Seq<Seq<char>>, sep: Seq<char>) -> Seq<char>
    decreases parts.len(),
{
    if parts.len() == 0 {
        Seq::empty()
    } else if parts.len() == 1 {
        parts[0]
    } else {
        joined(parts.drop_last(), sep) + sep + parts.last()
    }
}

/// The texts that a slice of string slices holds.
pub open spec fn texts(parts: Seq<&str>) -> Seq<Seq<char>> {
    parts.map_values(|p: &str| p@)
}

/// Whether `c` is one of the decimal digits `0` to `9`.
pub open spec fn is_digit(c: char) -> bool {
    '0' <= c && c <= '9'
}

/// The number that a decimal digit character stands for.
pub open spec fn digit_value(c: char) -> int {
    (c as int) - ('0' as int)
}

/// The number that a text of decimal digits stands for, read in base ten
/// with the most significant digit first.
pub open spec fn digits_value(s: Seq<char>) -> int
    decreases s.len(),
{
    if s.len() == 0 {
        0
    } else {
        digits_value(s.drop_last()) * 10 + digit_value(s.last())
    }
}

/// The number that a text of decimal digits stands for, negated where the
/// text starts with a minus sign.
pub open spec fn signed_value(s: Seq<char>) -> int {
    if s.len() > 0 && s[0] == '-' {
        -digits_value(s.skip(1))
    } else {
        digits_value(s)
    }
}

proof fn lemma_digit_char(d: nat)
    requires
        d < 10,
    ensures
        is_digit(digit_char(d)),
        digit_value(digit_char(d)) == d,
{
}

/// The decimal text of `n` reads back as `n`: it is made of decimal digits
/// only, it is not empty, it has no leading zero, and read in base ten it
/// stands for `n`.
pub proof fn lemma_decimal_reads_back(n: nat)
    ensures
        decimal(n).len() > 0,
        forall|i: int| 0 <= i < decimal(n).len() ==> is_digit(#[trigger] decimal(n)[i]),
        decimal(n)[0] == '0' ==> n == 0 && decimal(n).len() == 1,
        digits_value(decimal(n)) == n,
    decreases n,
{
    let d = decimal(n);
    if n < 10 {
        lemma_digit_char(n);
        assert(d.drop_last() =~= Seq::<char>::empty());
        assert(digits_value(d) == digits_value(d.drop_last()) * 10 + digit_value(d.last()));
    } else {
        lemma_decimal_reads_back(n / 10);
        lemma_digit_char(n % 10);
        let q = decimal(n / 10);
        assert(d.drop_last() =~= q);
        assert(d.last() == digit_char(n % 10));
        assert(digits_value(d) == digits_value(q) * 10 + digit_value(d.last()));
        assert(d[0] == q[0]);
        assert forall|i: int| 0 <= i < d.len() implies is_digit(#[trigger] d[i]) by {
            if i < q.len() {
                assert(d[i] == q[i]);
            }
        }
    }
}

/// The signed decimal text of `n` reads back as `n`: an optional minus sign
/// followed by decimal digits with no leading zero, standing for `n`; the
/// sign is there exactly when `n` is negative.
pub proof fn lemma_signed_decimal_reads_back(n: int)
    ensures
        signed_decimal(n).len() > 0,
        (signed_decimal(n)[0] == '-') == (n < 0),
        forall|i: int|
            (if n < 0 { 1int } else { 0int }) <= i < signed_decimal(n).len() ==> is_digit(
                #[trigger] signed_decimal(n)[i],
            ),
        is_digit(signed_decimal(n).last()),
        signed_value(signed_decimal(n)) == n,
{
    let t = signed_decimal(n);
    if n < 0 {
        lemma_decimal_reads_back((-n) as nat);
        let d = decimal((-n) as nat);
        assert(t.skip(1) =~= d);
        assert forall|i: int| 1 <= i < t.len() implies is_digit(#[trigger] t[i]) by {
            assert(t[i] == d[i - 1]);
        }
        assert(t.last() == d[d.len() - 1]);
    } else {
        lemma_decimal_reads_back(n as nat);
        assert(is_digit(t[0]));
        assert(t.last() == t[t.len() - 1]);
    }
}

/// The total length of `parts` with `sep` after each of them.
pub open spec fn span(parts: Seq<Seq<char>>, sep: Seq<char>) -> int
    decreases parts.len(),
{
    if parts.len() == 0 {
        0
    } else {
        span(parts.drop_last(), sep) + parts.last().len() + sep.len()
    }
}

/// Where part `i` starts in a joined text: after each earlier part and a
/// separator.
pub open spec fn part_start(parts: Seq<Seq<char>>, sep: Seq<char>, i: int) -> int {
    span(parts.take(i), sep)
}

/// Joining keeps every part whole and in order: part `i` stands at
/// `part_start(i)`, a separator stands right after each part but the last,
/// and nothing else is in the text.
pub proof fn lemma_joined_keeps_parts(parts: Seq<Seq<char>>, sep: Seq<char>)
    ensures
        joined(parts, sep).len() == if parts.len() == 0 {
            0
        } else {
            span(parts, sep) - sep.len()
        },
        forall|i: int|
            0 <= i < parts.len() ==> joined(parts, sep).subrange(
                part_start(parts, sep, i),
                part_start(parts, sep, i) + parts[i].len(),
            ) == #[trigger] parts[i],
        forall|i: int|
            0 <= i < parts.len() - 1 ==> joined(parts, sep).subrange(
                #[trigger] part_start(parts, sep, i) + parts[i].len(),
                part_start(parts, sep, i + 1),
            ) == sep,
{
    lemma_joined_len(parts, sep);
    assert forall|i: int|
        0 <= i < parts.len() implies joined(parts, sep).subrange(
        part_start(parts, sep, i),
        part_start(parts, sep, i) + parts[i].len(),
    ) == #[trigger] parts[i] by {
        lemma_joined_at(parts, sep, i);
    }
    assert forall|i: int|
        0 <= i < parts.len() - 1 implies joined(parts, sep).subrange(
        #[trigger] part_start(parts, sep, i) + parts[i].len(),
        part_start(parts, sep, i + 1),
    ) == sep by {
        lemma_joined_at(parts, sep, i);
    }
}

proof fn lemma_span_nonneg(parts: Seq<Seq<char>>, sep: Seq<char>)
    ensures
        span(parts, sep) >= 0,
    decreases parts.len(),
{
    if parts.len() > 0 {
        lemma_span_nonneg(parts.drop_last(), sep);
    }
}

proof fn lemma_span_step(parts: Seq<Seq<char>>, sep: Seq<char>, i: int)
    requires
        0 <= i < parts.len(),
    ensures
        part_start(parts, sep, i + 1) == part_start(parts, sep, i) + parts[i].len() + sep.len(),
{
    assert(parts.take(i + 1).drop_last() =~= parts.take(i));
}

proof fn lemma_span_front(parts: Seq<Seq<char>>, sep: Seq<char>, i: int)
    requires
        0 <= i < parts.len(),
    ensures
        part_start(parts.drop_last(), sep, i) == part_start(parts, sep, i),
{
    assert(parts.drop_last().take(i) =~= parts.take(i));
}

proof fn lemma_joined_len(parts: Seq<Seq<char>>, sep: Seq<char>)
    ensures
        joined(parts, sep).len() == if parts.len() == 0 {
            0
        } else {
            span(parts, sep) - sep.len()
        },
    decreases parts.len(),
{
    if parts.len() == 1 {
        assert(parts.drop_last() =~= Seq::<Seq<char>>::empty());
        assert(span(parts.drop_last(), sep) == 0);
        assert(joined(parts, sep) == parts[0]);
    } else if parts.len() > 1 {
        lemma_joined_len(parts.drop_last(), sep);
        assert(joined(parts, sep) == joined(parts.drop_last(), sep) + sep + parts.last());
    }
}

proof fn lemma_joined_at(parts: Seq<Seq<char>>, sep: Seq<char>, i: int)
    requires
        0 <= i < parts.len(),
    ensures
        joined(parts, sep).subrange(
            part_start(parts, sep, i),
            part_start(parts, sep, i) + parts[i].len(),
        ) == parts[i],
        i < parts.len() - 1 ==> joined(parts, sep).subrange(
            part_start(parts, sep, i) + parts[i].len(),
            part_start(parts, sep, i + 1),
        ) == sep,
    decreases parts.len(),
{
    let n = parts.len() as int;
    let j = joined(parts, sep);
    lemma_span_step(parts, sep, i);
    lemma_span_nonneg(parts.take(i), sep);
    if n == 1 {
        assert(parts.take(0) =~= Seq::<Seq<char>>::empty());
        assert(j.subrange(0, parts[0].len() as int) =~= parts[0]);
    } else {
        let front = parts.drop_last();
        let jf = joined(front, sep);
        assert(j == jf + sep + parts.last());
        lemma_joined_len(front, sep);
        assert(parts.take(n - 1) =~= front);
        assert(jf.len() == part_start(parts, sep, n - 1) - sep.len());
        if i == n - 1 {
            assert(j.subrange(part_start(parts, sep, i), part_start(parts, sep, i) + parts[i].len())
                =~= parts[i]);
        } else {
            lemma_joined_at(front, sep, i);
            lemma_span_front(parts, sep, i);
            assert(front[i] == parts[i]);
            let a = part_start(parts, sep, i);
            let b = a + parts[i].len();
            lemma_span_nonneg(parts.take(i), sep);
            lemma_span_grows(parts, sep, i + 1, n - 1);
            assert(j.subrange(a, b) =~= jf.subrange(a, b));
            if i < n - 2 {
                lemma_span_front(parts, sep, i + 1);
                lemma_span_grows(parts, sep, i + 2, n - 1);
                lemma_span_step(parts, sep, i + 1);
                assert(j.subrange(b, part_start(parts, sep, i + 1)) =~= jf.subrange(
                    b,
                    part_start(parts, sep, i + 1),
                ));
            } else {
                assert(j.subrange(b, part_start(parts, sep, i + 1)) =~= sep);
            }
        }
    }
}

proof fn lemma_span_grows(parts: Seq<Seq<char>>, sep: Seq<char>, i: int, k: int)
    requires
        0 <= i <= k <= parts.len(),
    ensures
        span(parts.take(i), sep) + (if i < k { parts[i].len() + sep.len() } else { 0 }) <= span(
            parts.take(k),
            sep,
        ),
    decreases k - i,
{
    if i < k {
        assert(parts.take(i + 1).drop_last() =~= parts.take(i));
        if i + 1 < k {
            lemma_span_grows(parts, sep, i + 1, k);
        }
    }
}

fn digit_str(d: u64) -> (s: &'static str)
    requires
        d < 10,
    ensures
        s@ == seq![digit_char(d as nat)],
{
    proof {
        reveal_strlit("0");
        reveal_strlit("1");
        reveal_strlit("2");
        reveal_strlit("3");
        reveal_strlit("4");
        reveal_strlit("5");
        reveal_strlit("6");
        reveal_strlit("7");
        reveal_strlit("8");
        reveal_strlit("9");
    }
    match d {
        0 => "0",
        1 => "1",
        2 => "2",
        3 => "3",
        4 => "4",
        5 => "5",
        6 => "6",
        7 => "7",
        8 => "8",
        _ => "9",
    }
}

/// Appends the decimal digits of `n` to `out`.
pub fn push_decimal(out: &mut String, n: u64)
    ensures
        final(out)@ == old(out)@ + decimal(n as nat),
    decreases n,
{
    if n >= 10 {
        push_decimal(out, n / 10);
    }
    out.append(digit_str(n % 10));
}

/// The decimal text of an unsigned integer, as `to_string` writes it.
pub fn u64_to_decimal(n: u64) -> (s: String)
    ensures
        s@ == decimal(n as nat),
        digits_value(s@) == n,
{
    let mut s = String::new();
    push_decimal(&mut s, n);
    proof {
        lemma_decimal_reads_back(n as nat);
    }
    s
}

/// The decimal text of a signed integer, as `to_string` writes it.
pub fn i64_to_decimal(n: i64) -> (s: String)
    ensures
        s@ == signed_decimal(n as int),
        signed_value(s@) == n,
{
    proof {
        lemma_signed_decimal_reads_back(n as int);
    }
    let mut s = String::new();
    if n < 0 {
        s.append("-");
        let magnitude: u64 = ((-(n + 1)) as u64) + 1;
        push_decimal(&mut s, magnitude);
        proof {
            reveal_strlit("-");
        }
    } else {
        push_decimal(&mut s, n as u64);
    }
    s
}

/// Joins `parts` with `sep` between each two neighbours, as `[&str]::join`
/// does.
pub fn join(parts: &[&str], sep: &str) -> (s: String)
    ensures
        s@ == joined(texts(parts@), sep@),
{
    let mut s = String::new();
    let n = parts.len();
    let ghost all = texts(parts@);
    let mut i: usize = 0;
    while i < n
        invariant
            n == parts@.len(),
            all == texts(parts@),
            i <= n,
            s@ == joined(all.take(i as int), sep@),
        decreases n - i,
    {
        if i > 0 {
            s.append(sep);
        }
        s.append(parts[i]);
        proof {
            assert(all.take(i + 1).drop_last() =~= all.take(i as int));
        }
        i = i + 1;
    }
    proof {
        assert(all.take(n as int) =~= all);
    }
    s
}

} // verus!
