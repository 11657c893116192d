//! Numbers and texts as they are written and read.
use vstd::prelude::*;

use crate::text::{
    all_digits, decimal, decimal_int, digits_value, is_space, parsed_u64, replaced, stripped,
    trimmed, without_trailing,
};

verus! {

/// A number is written with its decimal digits: one for a number under ten, and for a larger one
/// those of its tens and then that of its ones.
pub proof fn numbers_are_written(n: nat, d: nat)
    requires
        d < 10,
    ensures
        decimal(0) == "0"@ && decimal(1) == "1"@ && decimal(2) == "2"@ && decimal(3) == "3"@
            && decimal(4) == "4"@ && decimal(5) == "5"@ && decimal(6) == "6"@ && decimal(7)
            == "7"@ && decimal(8) == "8"@ && decimal(9) == "9"@,
        n > 0 ==> decimal(n * 10 + d) == decimal(n) + decimal(d),
        n > 0 ==> decimal_int(-(n as int)) == "-"@ + decimal(n),
        decimal_int(n as int) == decimal(n),
{
    reveal_strlit("0");
    reveal_strlit("1");
    reveal_strlit("2");
    reveal_strlit("3");
    reveal_strlit("4");
    reveal_strlit("5");
    reveal_strlit("6");
    reveal_strlit("7");
    reveal_strlit("8");
    reveal_strlit("9");
    assert("0"@[0] != "1"@[0]);
    assert("0"@[0] != "2"@[0]);
    assert("0"@[0] != "3"@[0]);
    assert("0"@[0] != "4"@[0]);
    assert("0"@[0] != "5"@[0]);
    assert("0"@[0] != "6"@[0]);
    assert("0"@[0] != "7"@[0]);
    assert("0"@[0] != "8"@[0]);
    assert("0"@[0] != "9"@[0]);
    assert("1"@[0] != "2"@[0]);
    assert("1"@[0] != "3"@[0]);
    assert("1"@[0] != "4"@[0]);
    assert("1"@[0] != "5"@[0]);
    assert("1"@[0] != "6"@[0]);
    assert("1"@[0] != "7"@[0]);
    assert("1"@[0] != "8"@[0]);
    assert("1"@[0] != "9"@[0]);
    assert("2"@[0] != "3"@[0]);
    assert("2"@[0] != "4"@[0]);
    assert("2"@[0] != "5"@[0]);
    assert("2"@[0] != "6"@[0]);
    assert("2"@[0] != "7"@[0]);
    assert("2"@[0] != "8"@[0]);
    assert("2"@[0] != "9"@[0]);
    assert("3"@[0] != "4"@[0]);
    assert("3"@[0] != "5"@[0]);
    assert("3"@[0] != "6"@[0]);
    assert("3"@[0] != "7"@[0]);
    assert("3"@[0] != "8"@[0]);
    assert("3"@[0] != "9"@[0]);
    assert("4"@[0] != "5"@[0]);
    assert("4"@[0] != "6"@[0]);
    assert("4"@[0] != "7"@[0]);
    assert("4"@[0] != "8"@[0]);
    assert("4"@[0] != "9"@[0]);
    assert("5"@[0] != "6"@[0]);
    assert("5"@[0] != "7"@[0]);
    assert("5"@[0] != "8"@[0]);
    assert("5"@[0] != "9"@[0]);
    assert("6"@[0] != "7"@[0]);
    assert("6"@[0] != "8"@[0]);
    assert("6"@[0] != "9"@[0]);
    assert("7"@[0] != "8"@[0]);
    assert("7"@[0] != "9"@[0]);
    assert("8"@[0] != "9"@[0]);
    reveal_strlit("-");
    assert(decimal(0) =~= "0"@);
    assert(decimal(1) =~= "1"@);
    assert(decimal(2) =~= "2"@);
    assert(decimal(3) =~= "3"@);
    assert(decimal(4) =~= "4"@);
    assert(decimal(5) =~= "5"@);
    assert(decimal(6) =~= "6"@);
    assert(decimal(7) =~= "7"@);
    assert(decimal(8) =~= "8"@);
    assert(decimal(9) =~= "9"@);
    if n > 0 {
        let m = n * 10 + d;
        assert(m / 10 == n && m % 10 == d);
        assert(decimal(m) =~= decimal(n) + decimal(d));
        assert(decimal_int(-(n as int)) =~= "-"@ + decimal(n));
    }
}

proof fn lemma_digits_of(n: nat)
    ensures
        all_digits(decimal(n)),
        digits_value(decimal(n)) == n,
        decimal(n)[0] != '+',
    decreases n,
{
    if n < 10 {
        let s = decimal(n);
        assert(s.drop_last() =~= Seq::<char>::empty());
        assert(digits_value(Seq::<char>::empty()) == 0);
        assert(s.last() as u32 - 48 == n);
    } else {
        lemma_digits_of(n / 10);
        let s = decimal(n);
        assert(s.drop_last() =~= decimal(n / 10));
        assert(s.last() as u32 - 48 == n % 10);
        assert(s[0] == decimal(n / 10)[0]);
        assert forall|i: int| 0 <= i < s.len() implies crate::text::is_digit(#[trigger] s[i]) by {
            if i < s.len() - 1 {
                assert(decimal(n / 10)[i] == s[i]);
            }
        }
    }
}

/// A number that is written is read back, with a plus sign or without; a number that does not fit
/// is not read.
pub proof fn numbers_are_read_back(n: nat)
    ensures
        n <= u64::MAX ==> parsed_u64(decimal(n)) == Some(n as u64) && parsed_u64(
            seq!['+'] + decimal(n),
        ) == Some(n as u64),
        n > u64::MAX ==> parsed_u64(decimal(n)) is None,
{
    lemma_digits_of(n);
    assert((seq!['+'] + decimal(n)).skip(1) =~= decimal(n));
}

/// A text with anything but digits after its sign is no number, and neither is an empty one.
pub proof fn other_texts_are_no_numbers(s: Seq<char>, i: int)
    ensures
        0 <= i < s.len() && !('0' <= s[i] <= '9') && !(i == 0 && s[0] == '+') ==> parsed_u64(s)
            is None,
        s.len() == 0 || s =~= seq!['+'] ==> parsed_u64(s) is None,
{
    if 0 <= i < s.len() && !('0' <= s[i] <= '9') {
        if s[0] == '+' {
            if i > 0 {
                assert(s.skip(1)[i - 1] == s[i]);
            }
        }
    }
}

/// Letters match in either case, and every other character matches only itself.
pub proof fn letters_match_in_either_case(a: char, b: char)
    ensures
        crate::text::same_ignoring_case(seq![a], seq![b]) <==> (a == b || ('a' <= a <= 'z' && b as u32
            + 32 == a as u32) || ('A' <= a <= 'Z' && a as u32 + 32 == b as u32)),
{
    let x = seq![a];
    let y = seq![b];
    if crate::text::same_ignoring_case(x, y) {
        assert(crate::text::ascii_lower(x[0]) == crate::text::ascii_lower(y[0]));
    }
}

/// Blanks, tabs and line ends are white space; letters, digits and signs are not.
pub proof fn white_space_is_known(c: char)
    ensures
        is_space(' ') && is_space('\n') && is_space('\t') && is_space('\r'),
        is_space('\u{b}') && is_space('\u{c}') && is_space('\u{85}') && is_space('\u{a0}'),
        is_space('\u{1680}') && is_space('\u{2000}') && is_space('\u{200a}') && is_space(
            '\u{2028}',
        ) && is_space('\u{2029}') && is_space('\u{202f}') && is_space('\u{205f}') && is_space(
            '\u{3000}',
        ),
        '!' <= c <= '~' || '\u{a1}' <= c <= '\u{167f}' || c == '\u{200b}' || c > '\u{3000}'
            ==> !is_space(c),
{
}

/// Trimming takes the white space at both ends, all of it and nothing else.
pub proof fn trimming_takes_the_space(a: Seq<char>, m: Seq<char>, b: Seq<char>)
    requires
        forall|i: int| 0 <= i < a.len() ==> is_space(#[trigger] a[i]),
        forall|i: int| 0 <= i < b.len() ==> is_space(#[trigger] b[i]),
        m.len() > 0 ==> !is_space(m[0]) && !is_space(m.last()),
    ensures
        trimmed(a + m + b) == m,
{
    let s = a + m + b;
    if m.len() > 0 {
        assert forall|j: int| 0 <= j < a.len() implies is_space(s[j]) by {
            assert(s[j] == a[j]);
        }
        assert(s[a.len() as int] == m[0]);
        crate::text::lemma_trimmed_start_at(s, a.len() as int);
        let t = s.skip(a.len() as int);
        assert(t =~= m + b);
        assert forall|j: int| m.len() <= j < t.len() implies is_space(t[j]) by {
            assert(t[j] == b[j - m.len()]);
        }
        assert(t[m.len() - 1] == m.last());
        crate::text::lemma_trimmed_end_at(t, m.len() as int);
        assert(t.take(m.len() as int) =~= m);
    } else {
        assert forall|j: int| 0 <= j < s.len() implies is_space(s[j]) by {
            if j < a.len() {
                assert(s[j] == a[j]);
            } else {
                assert(s[j] == b[j - a.len()]);
            }
        }
        crate::text::lemma_trimmed_start_at(s, s.len() as int);
        assert(s.skip(s.len() as int) =~= m);
        crate::text::lemma_trimmed_end_at(m, 0);
        assert(m.take(0) =~= m);
    }
}

/// What follows a prefix is what is left of a text, and a text without the prefix has nothing left.
pub proof fn prefix_is_stripped(p: Seq<char>, rest: Seq<char>, s: Seq<char>)
    ensures
        stripped(p + rest, p) == Some(rest),
        stripped(s, p) matches Some(r) ==> s == p + r,
        s.len() < p.len() ==> stripped(s, p) is None,
{
    assert((p + rest).take(p.len() as int) =~= p);
    assert((p + rest).skip(p.len() as int) =~= rest);
    if p.is_prefix_of(s) {
        assert(s =~= p + s.skip(p.len() as int));
    }
}

/// A character at the end of a text is taken off as often as it stands there.
pub proof fn trailing_characters_go(s: Seq<char>, c: char, n: nat)
    requires
        s.len() > 0 ==> s.last() != c,
    ensures
        without_trailing(s + Seq::new(n, |i: int| c), c) == s,
    decreases n,
{
    let tail = Seq::new(n, |i: int| c);
    if n == 0 {
        assert(s + tail =~= s);
    } else {
        let less = Seq::new((n - 1) as nat, |i: int| c);
        assert((s + tail).drop_last() =~= s + less);
        assert((s + tail).last() == c);
        trailing_characters_go(s, c, (n - 1) as nat);
    }
}

/// Where a text occurs is where it is replaced, and what is around it stays.
pub proof fn occurrences_are_replaced(
    before: Seq<char>,
    pat: Seq<char>,
    with: Seq<char>,
    after: Seq<char>,
)
    requires
        pat.len() > 0,
        !before.contains(pat[0]),
    ensures
        replaced(before + pat + after, pat, with) == before + with + replaced(after, pat, with),
        replaced(before, pat, with) == before,
    decreases before.len(),
{
    let s = before + pat + after;
    if before.len() == 0 {
        assert(s =~= pat + after);
        assert(s.take(pat.len() as int) =~= pat);
        assert(s.skip(pat.len() as int) =~= after);
        assert(before + with + replaced(after, pat, with) =~= with + replaced(after, pat, with));
    } else {
        let rest = before.skip(1);
        assert(before.contains(before[0]));
        assert(!rest.contains(pat[0])) by {
            if rest.contains(pat[0]) {
                let i = choose|i: int| 0 <= i < rest.len() && rest[i] == pat[0];
                assert(before[i + 1] == pat[0]);
            }
        }
        occurrences_are_replaced(rest, pat, with, after);
        assert(s[0] == before[0]);
        assert(s.skip(1) =~= rest + pat + after);
        assert(!pat.is_prefix_of(s)) by {
            if pat.is_prefix_of(s) {
                assert(s[0] == pat[0]);
            }
        }
        assert(!pat.is_prefix_of(before)) by {
            if pat.is_prefix_of(before) {
                assert(before[0] == pat[0]);
            }
        }
        assert(seq![before[0]] + (rest + with + replaced(after, pat, with)) =~= before + with
            + replaced(after, pat, with));
        assert(seq![before[0]] + rest =~= before);
    }
}

} // verus!
