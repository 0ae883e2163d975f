//! Character-level helpers shared by the notation codecs.
//!
//! Text is handled as a sequence of `char`s. The helpers here convert between
//! strings and character vectors, split text on a separator, and read and
//! write unsigned decimal numbers.

use vstd::prelude::*;

verus! {

/// Taken on trust from the documentation of the standard library:
/// `String::push` appends the character to the end of the string and
/// leaves the rest as it was.
pub assume_specification[ String::push ](s: &mut String, ch: char)
    ensures
        final(s)@ == old(s)@.push(ch),
;

/// The characters of `s`, in order.
pub fn to_chars(s: &str) -> (out: Vec<char>)
    ensures
        out@ == s@,
{
    let mut out: Vec<char> = Vec::new();
    for c in it: s.chars()
        invariant
            out@ == it.seq().take(it.index() as int),
            it.seq() == s@,
    {
        out.push(c);
    }
    out
}

/// The string made of `chars`, in order.
pub fn to_text(chars: &Vec<char>) -> (out: String)
    ensures
        out@ == chars@,
{
    let mut out = String::new();
    let mut i: usize = 0;
    while i < chars.len()
        invariant
            i <= chars.len(),
            out@ == chars@.take(i as int),
        decreases chars.len() - i,
    {
        out.push(chars[i]);
        i += 1;
    }
    out
}

/// The position of the first `sep` in `s`, or `s.len()` where there is none.
pub open spec fn first_index(s: Seq<char>, sep: char) -> int
    decreases s.len(),
{
    if s.len() == 0 {
        0
    } else if s[0] == sep {
        0
    } else {
        1 + first_index(s.skip(1), sep)
    }
}

/// The pieces of `s` between occurrences of `sep`. A text without `sep` is
/// one piece; two adjacent separators enclose an empty piece.
pub open spec fn split_spec(s: Seq<char>, sep: char) -> Seq<Seq<char>>
    decreases s.len(),
    via split_spec_decreases
{
    let i = first_index(s, sep);
    if i >= s.len() {
        seq![s]
    } else {
        seq![s.take(i)] + split_spec(s.skip(i + 1), sep)
    }
}

/// What follows the first separator is shorter than the text.
#[via_fn]
proof fn split_spec_decreases(s: Seq<char>, sep: char) {
    lemma_first_index(s, sep);
}

/// `first_index` lies within the text, points at a separator unless it is the
/// length, and no separator stands before it.
pub proof fn lemma_first_index(s: Seq<char>, sep: char)
    ensures
        0 <= first_index(s, sep) <= s.len(),
        first_index(s, sep) < s.len() ==> s[first_index(s, sep)] == sep,
        forall|j: int| 0 <= j < first_index(s, sep) ==> s[j] != sep,
    decreases s.len(),
{
    if s.len() > 0 && s[0] != sep {
        lemma_first_index(s.skip(1), sep);
        assert forall|j: int| 0 <= j < first_index(s, sep) implies s[j] != sep by {
            if j > 0 {
                assert(s.skip(1)[j - 1] == s[j]);
            }
        }
    }
}

/// Whether `sep` occurs nowhere in `s`.
pub open spec fn free_of(s: Seq<char>, sep: char) -> bool {
    forall|j: int| 0 <= j < s.len() ==> s[j] != sep
}

/// A text free of the separator is its own single piece.
pub proof fn lemma_split_single(s: Seq<char>, sep: char)
    requires
        free_of(s, sep),
    ensures
        split_spec(s, sep) == seq![s],
{
    lemma_first_index(s, sep);
}

/// Splitting `head`, a separator and `tail` gives `head` and then the pieces
/// of `tail`, where `head` is free of the separator.
pub proof fn lemma_split_joined(head: Seq<char>, tail: Seq<char>, sep: char)
    requires
        free_of(head, sep),
    ensures
        split_spec(head + seq![sep] + tail, sep) == seq![head] + split_spec(tail, sep),
{
    let s = head + seq![sep] + tail;
    lemma_first_index(s, sep);
    let i = first_index(s, sep);
    assert(s[head.len() as int] == sep);
    if i < head.len() {
        assert(s[i] == head[i]);
    }
    assert(i == head.len());
    assert(s.take(i) == head);
    assert(s.skip(i + 1) == tail);
}

/// The texts `parts` written one after another with `sep` between
/// neighbours.
pub open spec fn join_spec(parts: Seq<Seq<char>>, sep: char) -> Seq<char>
    decreases parts.len(),
{
    if parts.len() == 0 {
        Seq::empty()
    } else if parts.len() == 1 {
        parts[0]
    } else {
        parts[0] + seq![sep] + join_spec(parts.skip(1), sep)
    }
}

/// Splitting a text and joining the pieces gives the text back. There is at
/// least one piece, and no piece holds the separator.
pub proof fn lemma_join_split(s: Seq<char>, sep: char)
    ensures
        split_spec(s, sep).len() >= 1,
        forall|k: int| 0 <= k < split_spec(s, sep).len() ==> free_of(#[trigger] split_spec(s, sep)[k], sep),
        join_spec(split_spec(s, sep), sep) == s,
    decreases s.len(),
{
    lemma_first_index(s, sep);
    let i = first_index(s, sep);
    if i < s.len() {
        let rest = s.skip(i + 1);
        lemma_join_split(rest, sep);
        let parts = split_spec(s, sep);
        assert(parts.skip(1) =~= split_spec(rest, sep));
        assert(s.take(i) + seq![sep] + rest =~= s);
        assert forall|k: int| 0 <= k < parts.len() implies free_of(#[trigger] parts[k], sep) by {
            if k > 0 {
                assert(parts[k] == split_spec(rest, sep)[k - 1]);
            }
        }
    }
}

/// Joining texts that do not hold the separator and splitting the result
/// gives the texts back.
pub proof fn lemma_split_join(parts: Seq<Seq<char>>, sep: char)
    requires
        parts.len() >= 1,
        forall|k: int| 0 <= k < parts.len() ==> free_of(#[trigger] parts[k], sep),
    ensures
        split_spec(join_spec(parts, sep), sep) == parts,
    decreases parts.len(),
{
    if parts.len() == 1 {
        lemma_split_single(parts[0], sep);
        assert(seq![parts[0]] =~= parts);
    } else {
        let rest = parts.skip(1);
        assert forall|k: int| 0 <= k < rest.len() implies free_of(#[trigger] rest[k], sep) by {
            assert(rest[k] == parts[k + 1]);
        }
        lemma_split_join(rest, sep);
        lemma_split_joined(parts[0], join_spec(rest, sep), sep);
        assert(seq![parts[0]] + rest =~= parts);
    }
}

/// Joining one more text: the joined texts so far, the separator, and the
/// new text.
pub proof fn lemma_join_push(parts: Seq<Seq<char>>, last: Seq<char>, sep: char)
    ensures
        join_spec(parts.push(last), sep) == (if parts.len() == 0 {
            last
        } else {
            join_spec(parts, sep) + seq![sep] + last
        }),
    decreases parts.len(),
{
    let all = parts.push(last);
    if parts.len() == 0 {
    } else if parts.len() == 1 {
        assert(all.skip(1) =~= seq![last]);
        assert(join_spec(all.skip(1), sep) == last);
    } else {
        let rest = parts.skip(1);
        lemma_join_push(rest, last, sep);
        assert(all.skip(1) =~= rest.push(last));
        assert(all[0] == parts[0]);
        assert(parts[0] + seq![sep] + (join_spec(rest, sep) + seq![sep] + last) =~= (parts[0]
            + seq![sep] + join_spec(rest, sep)) + seq![sep] + last);
    }
}

/// A character that is neither the separator nor in any of the texts is not
/// in what they are joined to.
pub proof fn lemma_join_free(parts: Seq<Seq<char>>, sep: char, c: char)
    requires
        sep != c,
        forall|k: int| 0 <= k < parts.len() ==> free_of(#[trigger] parts[k], c),
    ensures
        free_of(join_spec(parts, sep), c),
    decreases parts.len(),
{
    if parts.len() >= 2 {
        let rest = parts.skip(1);
        assert forall|k: int| 0 <= k < rest.len() implies free_of(#[trigger] rest[k], c) by {
            assert(rest[k] == parts[k + 1]);
        }
        lemma_join_free(rest, sep, c);
        let whole = join_spec(parts, sep);
        let tail = join_spec(rest, sep);
        assert forall|j: int| 0 <= j < whole.len() implies whole[j] != c by {
            if j < parts[0].len() {
                assert(whole[j] == parts[0][j]);
            } else if j > parts[0].len() {
                assert(whole[j] == tail[j - parts[0].len() - 1]);
            }
        }
    }
}

/// Splits `s` on `sep`.
pub fn split(s: &Vec<char>, sep: char) -> (out: Vec<Vec<char>>)
    ensures
        out@.len() == split_spec(s@, sep).len(),
        forall|k: int| 0 <= k < out@.len() ==> (#[trigger] out@[k])@ == split_spec(s@, sep)[k],
{
    let mut out: Vec<Vec<char>> = Vec::new();
    let mut current: Vec<char> = Vec::new();
    let mut i: usize = 0;
    let ghost mut start: int = 0;
    let ghost mut done: Seq<Seq<char>> = Seq::empty();
    assert(s@.skip(0) == s@);
    while i < s.len()
        invariant
            0 <= start <= i <= s.len(),
            current@ == s@.subrange(start, i as int),
            free_of(current@, sep),
            done.len() == out@.len(),
            forall|k: int| 0 <= k < out@.len() ==> (#[trigger] out@[k])@ == done[k],
            split_spec(s@, sep) == done + split_spec(s@.skip(start), sep),
        decreases s.len() - i,
    {
        let c = s[i];
        if c == sep {
            proof {
                let head = current@;
                let tail = s@.skip(i as int + 1);
                assert(s@.skip(start) == head + seq![sep] + tail);
                lemma_split_joined(head, tail, sep);
                assert(done + (seq![head] + split_spec(tail, sep)) == done.push(head) + split_spec(
                    tail,
                    sep,
                ));
                done = done.push(head);
                start = i as int + 1;
            }
            out.push(current);
            current = Vec::new();
            i += 1;
            assert(current@ == s@.subrange(start, i as int));
        } else {
            current.push(c);
            i += 1;
            assert(current@ == s@.subrange(start, i as int));
        }
    }
    proof {
        assert(s@.skip(start) == current@);
        lemma_split_single(current@, sep);
        assert(split_spec(s@, sep) == done.push(current@));
    }
    out.push(current);
    out
}

/// Whether `c` is a decimal digit.
pub open spec fn is_digit(c: char) -> bool {
    '0' <= c && c <= '9'
}

/// The value of the digit `c`.
pub open spec fn digit_value(c: char) -> int
    recommends
        is_digit(c),
{
    c as int - '0' as int
}

/// The digit of value `d`.
pub open spec fn digit_char(d: int) -> char
    recommends
        0 <= d < 10,
{
    (d + '0' as int) as char
}

/// Whether `s` holds decimal digits only.
pub open spec fn all_digits(s: Seq<char>) -> bool {
    forall|j: int| 0 <= j < s.len() ==> is_digit(#[trigger] s[j])
}

/// The number that the digits of `s` write in base ten, the empty text
/// counting as zero. Leading zeros do not change it.
pub open spec fn decimal_value(s: Seq<char>) -> nat
    decreases s.len(),
{
    if s.len() == 0 {
        0
    } else {
        (decimal_value(s.drop_last()) * 10 + digit_value(s.last())) as nat
    }
}

/// The shortest decimal text of `n`: no leading zero, and `0` for zero.
pub open spec fn decimal_text(n: nat) -> Seq<char>
    decreases n,
{
    if n < 10 {
        seq![digit_char(n as int)]
    } else {
        decimal_text(n / 10).push(digit_char((n % 10) as int))
    }
}

/// The number of digits at the start of `s`.
pub open spec fn digit_prefix_len(s: Seq<char>) -> int
    decreases s.len(),
{
    if s.len() == 0 || !is_digit(s[0]) {
        0
    } else {
        1 + digit_prefix_len(s.skip(1))
    }
}

/// The digits at the start of `s` are digits, and what follows them, if
/// anything, is none.
pub proof fn lemma_digit_prefix(s: Seq<char>)
    ensures
        0 <= digit_prefix_len(s) <= s.len(),
        all_digits(s.take(digit_prefix_len(s))),
        digit_prefix_len(s) < s.len() ==> !is_digit(s[digit_prefix_len(s)]),
        all_digits(s) <==> digit_prefix_len(s) == s.len(),
    decreases s.len(),
{
    if s.len() > 0 && is_digit(s[0]) {
        let t = s.skip(1);
        lemma_digit_prefix(t);
        let n = digit_prefix_len(s);
        assert forall|j: int| 0 <= j < n implies is_digit(#[trigger] s.take(n)[j]) by {
            if j > 0 {
                assert(s.take(n)[j] == t.take(n - 1)[j - 1]);
            }
        }
        if all_digits(s) {
            assert forall|j: int| 0 <= j < t.len() implies is_digit(#[trigger] t[j]) by {
                assert(t[j] == s[j + 1]);
            }
        }
        if n == s.len() {
            assert(s.take(n) == s);
        }
    } else if s.len() > 0 {
        if all_digits(s) {
            assert(is_digit(s[0]));
        }
    } else {
        assert(s.take(0) == s);
    }
}

/// A digit text is worth at least as much as any of its beginnings.
pub proof fn lemma_decimal_prefix_le(s: Seq<char>, k: int)
    requires
        all_digits(s),
        0 <= k <= s.len(),
    ensures
        decimal_value(s.take(k)) <= decimal_value(s),
    decreases s.len() - k,
{
    if k == s.len() {
        assert(s.take(k) == s);
    } else {
        lemma_decimal_prefix_le(s, k + 1);
        let t = s.take(k + 1);
        assert(t.drop_last() == s.take(k));
        assert(is_digit(t.last()));
    }
}

/// The decimal text of a number holds digits only, is not empty, and is worth
/// that number.
pub proof fn lemma_decimal_text(n: nat)
    ensures
        decimal_text(n).len() > 0,
        all_digits(decimal_text(n)),
        decimal_value(decimal_text(n)) == n,
    decreases n,
{
    if n < 10 {
        let t = decimal_text(n);
        assert(t.drop_last().len() == 0);
        assert(decimal_value(t.drop_last()) == 0);
    } else {
        lemma_decimal_text(n / 10);
        let h = decimal_text(n / 10);
        let t = decimal_text(n);
        assert(t.drop_last() == h);
        assert forall|j: int| 0 <= j < t.len() implies is_digit(#[trigger] t[j]) by {
            if j < h.len() {
                assert(t[j] == h[j]);
            }
        }
    }
}

/// The value of the digit `c`.
pub fn digit_of(c: char) -> (r: u8)
    requires
        is_digit(c),
    ensures
        r == digit_value(c),
        r < 10,
{
    (c as u8) - 48
}

/// Whether `c` is a decimal digit.
pub fn digit(c: char) -> (r: bool)
    ensures
        r == is_digit(c),
{
    '0' <= c && c <= '9'
}

/// Reads the digits at the start of `s` as a number of at most `limit`.
/// Gives the number and how many digits wrote it; `None` where `s` starts
/// with no digit or the digits are worth more than `limit`.
pub fn parse_decimal_prefix(s: &Vec<char>, limit: u32) -> (r: Option<(u32, usize)>)
    requires
        limit <= 100_000_000,
    ensures
        r == (if digit_prefix_len(s@) > 0 && decimal_value(s@.take(digit_prefix_len(s@)))
            <= limit {
            Some(
                (
                    decimal_value(s@.take(digit_prefix_len(s@))) as u32,
                    digit_prefix_len(s@) as usize,
                ),
            )
        } else {
            None::<(u32, usize)>
        }),
{
    let mut value: u32 = 0;
    let mut i: usize = 0;
    proof {
        lemma_digit_prefix(s@);
        assert(s@.take(0).len() == 0);
    }
    while i < s.len() && digit(s[i])
        invariant
            limit <= 100_000_000,
            0 <= i <= digit_prefix_len(s@) <= s.len(),
            all_digits(s@.take(digit_prefix_len(s@))),
            digit_prefix_len(s@) < s.len() ==> !is_digit(s@[digit_prefix_len(s@)]),
            value == decimal_value(s@.take(i as int)),
            value <= limit,
        decreases s.len() - i,
    {
        let d = digit_of(s[i]);
        let ghost n = digit_prefix_len(s@);
        proof {
            assert(i < n) by {
                if i == n {
                    assert(!is_digit(s@[n]));
                }
            }
            let t = s@.take(i as int + 1);
            assert(t.drop_last() == s@.take(i as int));
            assert(t.last() == s@[i as int]);
            assert(decimal_value(t) == value * 10 + d);
            lemma_decimal_prefix_le(s@.take(n), i as int + 1);
            assert(s@.take(n).take(i as int + 1) == t);
        }
        let next: u32 = value * 10 + d as u32;
        if next > limit {
            return None;
        }
        value = next;
        i += 1;
    }
    proof {
        let n = digit_prefix_len(s@);
        if i < n {
            assert(is_digit(s@.take(n)[i as int]));
            assert(s@.take(n)[i as int] == s@[i as int]);
        }
        assert(i == n);
    }
    if i == 0 {
        None
    } else {
        Some((value, i))
    }
}

/// Appends the shortest decimal text of `n` to `out`.
pub fn push_decimal(out: &mut Vec<char>, n: u32)
    ensures
        final(out)@ == old(out)@ + decimal_text(n as nat),
    decreases n,
{
    if n >= 10 {
        push_decimal(out, n / 10);
    }
    let d: u8 = (n % 10) as u8;
    out.push((d + 48) as char);
    proof {
        if n < 10 {
            assert(old(out)@.push(digit_char(n as int)) == old(out)@ + decimal_text(n as nat));
        } else {
            assert((old(out)@ + decimal_text((n / 10) as nat)).push(digit_char((n % 10) as int))
                == old(out)@ + decimal_text(n as nat));
        }
    }
}

} // verus!
