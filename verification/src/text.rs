//! Text helpers: prefixes, segments, decimal numbers and ASCII case, stated
//! over sequences of characters.

use vstd::prelude::*;
use vstd::string::*;

verus! {

/// The texts of a list of strings.
pub open spec fn texts(list: Seq<String>) -> Seq<Seq<char>> {
    list.map_values(|s: String| s@)
}

/// The parts of `s` between occurrences of `sep`. A text without `sep` is its
/// own only part, so there is always at least one.
pub open spec fn split(s: Seq<char>, sep: char) -> Seq<Seq<char>>
    decreases s.len(),
{
    if s.len() == 0 {
        seq![Seq::empty()]
    } else {
        let rest = split(s.drop_last(), sep);
        if s.last() == sep {
            rest.push(Seq::empty())
        } else {
            rest.drop_last().push(rest.last().push(s.last()))
        }
    }
}

/// Whether `c` is an ASCII digit.
pub open spec fn is_digit(c: char) -> bool {
    '0' <= c <= '9'
}

/// The lower-case form of an ASCII letter; every other character is kept.
pub open spec fn ascii_lower(c: char) -> char {
    if 'A' <= c <= 'Z' {
        ((c as u8 + 32) as u8) as char
    } else {
        c
    }
}

/// Equality of texts up to ASCII letter case.
pub open spec fn eq_ignore_case(a: Seq<char>, b: Seq<char>) -> bool {
    a.map_values(|c: char| ascii_lower(c)) == b.map_values(|c: char| ascii_lower(c))
}

/// The value of a text of decimal digits.
pub open spec fn digits_value(s: Seq<char>) -> nat
    decreases s.len(),
{
    if s.len() == 0 {
        0
    } else {
        (digits_value(s.drop_last()) * 10 + (s.last() as u32 - '0' as u32)) as nat
    }
}

/// The decimal digits of `n`, without leading zeros.
pub open spec fn decimal(n: nat) -> Seq<char>
    decreases n,
{
    if n < 10 {
        seq![(('0' as u8 + n) as u8) as char]
    } else {
        decimal(n / 10).push((('0' as u8 + n % 10) as u8) as char)
    }
}

/// A non-empty run of decimal digits, with at most one `+` before it.
pub open spec fn is_unsigned_number(s: Seq<char>) -> bool {
    let digits = unsigned_digits(s);
    digits.len() > 0 && forall|i: int| 0 <= i < digits.len() ==> is_digit(#[trigger] digits[i])
}

/// The digits of an unsigned number: what follows an optional leading `+`.
pub open spec fn unsigned_digits(s: Seq<char>) -> Seq<char> {
    if s.len() > 0 && s[0] == '+' {
        s.skip(1)
    } else {
        s
    }
}

/// The 16-bit unsigned number that a text denotes, if it denotes one.
pub open spec fn u16_of(s: Seq<char>) -> Option<u16> {
    if is_unsigned_number(s) && digits_value(unsigned_digits(s)) <= u16::MAX {
        Some(digits_value(unsigned_digits(s)) as u16)
    } else {
        None
    }
}

/// The characters of a text.
pub fn chars_of(s: &str) -> (r: Vec<char>)
    ensures
        r@ == s@,
{
    let mut r: Vec<char> = Vec::new();
    for c in it: s.chars()
        invariant
            r@ == s@.take(it.index()),
            it.seq() == s@,
    {
        r.push(c);
        assert(s@.take(it.index() + 1) == s@.take(it.index() as int).push(c));
    }
    assert(s@.take(s@.len() as int) == s@);
    r
}

/// Whether two texts are equal.
pub fn same(a: &str, b: &str) -> (r: bool)
    ensures
        r == (a@ == b@),
{
    a.to_owned() == b.to_owned()
}

/// Whether a list of strings holds the text `s`.
pub fn contains(list: &Vec<String>, s: &str) -> (r: bool)
    ensures
        r == texts(list@).contains(s@),
{
    for i in 0..list.len()
        invariant
            forall|j: int| 0 <= j < i ==> #[trigger] texts(list@)[j] != s@,
    {
        if same(list[i].as_str(), s) {
            assert(texts(list@)[i as int] == s@);
            return true;
        }
    }
    false
}

/// Whether `s` begins with `prefix`.
pub fn starts_with(s: &str, prefix: &str) -> (r: bool)
    ensures
        r == prefix@.is_prefix_of(s@),
{
    let n: usize = prefix.unicode_len();
    if s.unicode_len() < n {
        return false;
    }
    same(s.substring_char(0, n), prefix)
}

/// Whether `s` ends with `suffix`.
pub fn ends_with(s: &str, suffix: &str) -> (r: bool)
    ensures
        r == suffix@.is_suffix_of(s@),
{
    let n: usize = suffix.unicode_len();
    let len: usize = s.unicode_len();
    if len < n {
        return false;
    }
    same(s.substring_char(len - n, len), suffix)
}

/// What follows `prefix` in `s`, if `s` begins with it.
pub fn strip_prefix<'a>(s: &'a str, prefix: &str) -> (r: Option<&'a str>)
    ensures
        r is Some == prefix@.is_prefix_of(s@),
        r matches Some(rest) ==> rest@ == s@.skip(prefix@.len() as int),
{
    if starts_with(s, prefix) {
        Some(s.substring_char(prefix.unicode_len(), s.unicode_len()))
    } else {
        None
    }
}

/// The texts before and after the last `sep` in `s`.
pub open spec fn rsplit_once(s: Seq<char>, sep: char) -> Option<(Seq<char>, Seq<char>)>
    decreases s.len(),
{
    if s.len() == 0 {
        None
    } else if s.last() == sep {
        Some((s.drop_last(), Seq::empty()))
    } else {
        match rsplit_once(s.drop_last(), sep) {
            Some((before, after)) => Some((before, after.push(s.last()))),
            None => None,
        }
    }
}

proof fn lemma_rsplit_once_at(s: Seq<char>, sep: char, i: int)
    requires
        0 <= i < s.len(),
        s[i] == sep,
        forall|j: int| i < j < s.len() ==> s[j] != sep,
    ensures
        rsplit_once(s, sep) == Some((s.take(i), s.skip(i + 1))),
    decreases s.len(),
{
    if s.last() == sep {
        assert(i == s.len() - 1);
        assert(s.skip(i + 1) =~= Seq::<char>::empty());
        assert(s.take(i) =~= s.drop_last());
    } else {
        let t = s.drop_last();
        lemma_rsplit_once_at(t, sep, i);
        assert(t.take(i) =~= s.take(i));
        assert(t.skip(i + 1).push(s.last()) =~= s.skip(i + 1));
    }
}

proof fn lemma_rsplit_once_none(s: Seq<char>, sep: char)
    requires
        !s.contains(sep),
    ensures
        rsplit_once(s, sep) is None,
    decreases s.len(),
{
    if s.len() > 0 {
        assert(s.contains(s.last()));
        assert(!s.drop_last().contains(sep)) by {
            if s.drop_last().contains(sep) {
                let i = choose|i: int| 0 <= i < s.drop_last().len() && s.drop_last()[i] == sep;
                assert(s[i] == sep);
            }
        }
        lemma_rsplit_once_none(s.drop_last(), sep);
    }
}

/// Splits `s` at its last `sep`.
pub fn rsplit_at<'a>(s: &'a str, sep: char) -> (r: Option<(&'a str, &'a str)>)
    ensures
        match r {
            Some((before, after)) => rsplit_once(s@, sep) == Some((before@, after@)),
            None => rsplit_once(s@, sep) is None,
        },
{
    let chars = chars_of(s);
    let mut i: usize = chars.len();
    while i > 0
        invariant
            chars@ == s@,
            i <= chars.len(),
            forall|j: int| i <= j < s@.len() ==> s@[j] != sep,
        decreases i,
    {
        i -= 1;
        if chars[i] == sep {
            proof {
                lemma_rsplit_once_at(s@, sep, i as int);
            }
            return Some((s.substring_char(0, i), s.substring_char(i + 1, chars.len())));
        }
    }
    proof {
        lemma_rsplit_once_none(s@, sep);
    }
    None
}

/// The parts of `s` between occurrences of `sep`.
pub fn split_text(s: &str, sep: char) -> (r: Vec<String>)
    ensures
        texts(r@) == split(s@, sep),
{
    let chars = chars_of(s);
    let mut r: Vec<String> = Vec::new();
    let mut start: usize = 0;
    assert(s@.subrange(0, 0) =~= Seq::<char>::empty());
    assert(texts(r@).push(s@.subrange(0, 0)) =~= split(s@.take(0), sep));
    for i in 0..chars.len()
        invariant
            chars@ == s@,
            start <= i,
            texts(r@).push(s@.subrange(start as int, i as int)) == split(s@.take(i as int), sep),
    {
        proof {
            let done = s@.take(i as int);
            let next = s@.take(i + 1);
            assert(next.drop_last() =~= done);
            assert(next.last() == s@[i as int]);
            assert(split(done, sep).last() == s@.subrange(start as int, i as int));
            assert(split(done, sep).drop_last() =~= texts(r@));
            assert(s@.subrange(start as int, i as int).push(s@[i as int]) =~= s@.subrange(
                start as int,
                i + 1,
            ));
        }
        if chars[i] == sep {
            let part = s.substring_char(start, i).to_owned();
            let ghost before = r@;
            r.push(part);
            start = i + 1;
            assert(texts(r@) =~= texts(before).push(part@));
            assert(s@.subrange(start as int, i + 1) =~= Seq::<char>::empty());
        }
    }
    assert(s@.take(s@.len() as int) =~= s@);
    let part = s.substring_char(start, chars.len()).to_owned();
    let ghost before = r@;
    r.push(part);
    assert(texts(r@) =~= texts(before).push(part@));
    r
}

/// The lower-case form of an ASCII letter.
pub fn lower(c: char) -> (r: char)
    ensures
        r == ascii_lower(c),
{
    if 'A' <= c && c <= 'Z' {
        ((c as u8 + 32) as u8) as char
    } else {
        c
    }
}

/// Whether two texts are equal up to ASCII letter case.
pub fn same_ignoring_case(a: &str, b: &str) -> (r: bool)
    ensures
        r == eq_ignore_case(a@, b@),
{
    let x = chars_of(a);
    let y = chars_of(b);
    let ghost la = a@.map_values(|c: char| ascii_lower(c));
    let ghost lb = b@.map_values(|c: char| ascii_lower(c));
    assert(la.len() == a@.len() && lb.len() == b@.len());
    if x.len() != y.len() {
        return false;
    }
    for i in 0..x.len()
        invariant
            x@ == a@,
            y@ == b@,
            x.len() == y.len(),
            la == a@.map_values(|c: char| ascii_lower(c)),
            lb == b@.map_values(|c: char| ascii_lower(c)),
            forall|j: int| 0 <= j < i ==> la[j] == lb[j],
    {
        if lower(x[i]) != lower(y[i]) {
            assert(la[i as int] != lb[i as int]);
            return false;
        }
    }
    assert(la =~= lb);
    true
}

proof fn lemma_digits_value_grows(s: Seq<char>, i: int)
    requires
        0 <= i <= s.len(),
        forall|j: int| 0 <= j < s.len() ==> is_digit(#[trigger] s[j]),
    ensures
        digits_value(s.take(i)) <= digits_value(s),
    decreases s.len(),
{
    if i < s.len() {
        let t = s.drop_last();
        lemma_digits_value_grows(t, i);
        assert(t.take(i) =~= s.take(i));
        assert(is_digit(s.last()));
    } else {
        assert(s.take(i) =~= s);
    }
}

proof fn lemma_digits_value_step(s: Seq<char>, k: int)
    requires
        0 <= k < s.len(),
        is_digit(s[k]),
    ensures
        digits_value(s.take(k + 1)) == digits_value(s.take(k)) * 10 + (s[k] as u32 - '0' as u32),
{
    assert(s.take(k + 1).drop_last() =~= s.take(k));
    assert(s.take(k + 1).last() == s[k]);
}

/// The 16-bit unsigned number that `s` denotes: decimal digits, with an
/// optional `+` before them.
pub fn parse_u16(s: &str) -> (r: Option<u16>)
    ensures
        r == u16_of(s@),
{
    let plus = starts_with(s, "+");
    proof {
        reveal_strlit("+");
        assert("+"@ =~= seq!['+']);
        assert(plus == (s@.len() > 0 && s@[0] == '+')) by {
            if plus {
                assert(s@.subrange(0, 1)[0] == "+"@[0]);
            } else if s@.len() > 0 && s@[0] == '+' {
                assert(s@.subrange(0, 1) =~= "+"@);
            }
        }
    }
    let digits = if plus {
        chars_of(s.substring_char(1, s.unicode_len()))
    } else {
        chars_of(s)
    };
    assert(digits@ =~= unsigned_digits(s@));
    if digits.len() == 0 {
        return None;
    }
    let mut value: u32 = 0;
    for i in 0..digits.len()
        invariant
            digits@ == unsigned_digits(s@),
            value <= u16::MAX,
            value == digits_value(digits@.take(i as int)),
            forall|j: int| 0 <= j < i ==> is_digit(#[trigger] digits@[j]),
    {
        let c = digits[i];
        if !('0' <= c && c <= '9') {
            assert(!is_digit(digits@[i as int]));
            return None;
        }
        proof {
            lemma_digits_value_step(digits@, i as int);
        }
        value = value * 10 + (c as u32 - '0' as u32);
        if value > 65535 {
            proof {
                if is_unsigned_number(s@) {
                    lemma_digits_value_grows(digits@, i + 1);
                }
            }
            return None;
        }
    }
    assert(digits@.take(digits@.len() as int) =~= digits@);
    Some(value as u16)
}

/// The decimal digits of `n`.
pub fn decimal_text(n: u64) -> (r: String)
    ensures
        r@ == decimal(n as nat),
    decreases n,
{
    let mut r: String = if n < 10 { String::new() } else { decimal_text(n / 10) };
    r.append(digit_text((n % 10) as u8));
    assert(r@ =~= decimal(n as nat));
    r
}

fn digit_text(d: u8) -> (r: &'static str)
    requires
        d < 10,
    ensures
        r@ == seq![(('0' as u8 + d) as u8) as char],
{
    proof {
        reveal_strlit("0");
        reveal_strlit("1");
        reveal_strlit("2");
        reveal_strlit("3");
        reveal_strlit("4");
        reveal_strlit("5");
        reveal_strlit("6");
        reveal_strlit("7");
        reveal_strlit("8");
        reveal_strlit("9");
    }
    let r = if d == 0 {
        "0"
    } else if d == 1 {
        "1"
    } else if d == 2 {
        "2"
    } else if d == 3 {
        "3"
    } else if d == 4 {
        "4"
    } else if d == 5 {
        "5"
    } else if d == 6 {
        "6"
    } else if d == 7 {
        "7"
    } else if d == 8 {
        "8"
    } else {
        "9"
    };
    assert(r@ =~= seq![(('0' as u8 + d) as u8) as char]);
    r
}

/// A text has at least one part.
pub proof fn lemma_split_nonempty(s: Seq<char>, sep: char)
    ensures
        split(s, sep).len() > 0,
    decreases s.len(),
{
    if s.len() > 0 {
        lemma_split_nonempty(s.drop_last(), sep);
    }
}

/// The first part begins as the text does.
pub proof fn lemma_split_first(s: Seq<char>, sep: char)
    ensures
        split(s, sep).len() > 0,
        s.len() > 0 && s[0] == sep ==> split(s, sep).len() > 1 && split(s, sep)[0].len() == 0,
        s.len() > 0 && s[0] != sep ==> split(s, sep)[0].len() > 0 && split(s, sep)[0][0] == s[0],
        s.len() == 0 ==> split(s, sep)[0].len() == 0,
    decreases s.len(),
{
    if s.len() > 0 {
        lemma_split_first(s.drop_last(), sep);
    }
}

/// Splitting a text that goes on after a separator splits both halves.
pub proof fn lemma_split_concat(a: Seq<char>, b: Seq<char>, sep: char)
    ensures
        split(a + seq![sep] + b, sep) == split(a, sep) + split(b, sep),
    decreases b.len(),
{
    let s = a + seq![sep] + b;
    lemma_split_nonempty(a, sep);
    if b.len() == 0 {
        assert(s.drop_last() =~= a);
        assert(s.last() == sep);
        assert(split(s, sep) =~= split(a, sep).push(Seq::empty()));
        assert(split(b, sep) =~= seq![Seq::empty()]);
        assert(split(s, sep) =~= split(a, sep) + split(b, sep));
    } else {
        let c = b.drop_last();
        lemma_split_concat(a, c, sep);
        lemma_split_nonempty(c, sep);
        assert(s.drop_last() =~= a + seq![sep] + c);
        assert(s.last() == b.last());
        let rest = split(a, sep) + split(c, sep);
        assert(rest.last() == split(c, sep).last());
        assert(split(s, sep) =~= split(a, sep) + split(b, sep));
    }
}

/// A text without the separator is its own only part.
pub proof fn lemma_split_whole(s: Seq<char>, sep: char)
    requires
        !s.contains(sep),
    ensures
        split(s, sep) == seq![s],
    decreases s.len(),
{
    if s.len() > 0 {
        let front = s.drop_last();
        assert(!front.contains(sep)) by {
            if front.contains(sep) {
                let i = choose|i: int| 0 <= i < front.len() && front[i] == sep;
                assert(s[i] == sep);
            }
        }
        lemma_split_whole(front, sep);
        assert(s.last() != sep) by {
            assert(s.contains(s.last()));
        }
        assert(split(s, sep) =~= seq![s]) by {
            assert(front.push(s.last()) =~= s);
        }
    } else {
        assert(s =~= Seq::empty());
        assert(split(s, sep) =~= seq![s]);
    }
}

/// A text that ends in a part without the separator splits off that part.
pub proof fn lemma_rsplit_once_tail(head: Seq<char>, tail: Seq<char>, sep: char)
    requires
        !tail.contains(sep),
    ensures
        rsplit_once(head + seq![sep] + tail, sep) == Some((head, tail)),
{
    let s = head + seq![sep] + tail;
    let i = head.len() as int;
    assert forall|j: int| i < j < s.len() implies s[j] != sep by {
        assert(s[j] == tail[j - i - 1]);
        assert(tail.contains(tail[j - i - 1]));
    }
    lemma_rsplit_once_at(s, sep, i);
    assert(s.take(i) =~= head);
    assert(s.skip(i + 1) =~= tail);
}

/// The decimal digits of a number are digits and denote it.
pub proof fn lemma_decimal_denotes(n: nat)
    ensures
        decimal(n).len() > 0,
        forall|i: int| 0 <= i < decimal(n).len() ==> is_digit(#[trigger] decimal(n)[i]),
        digits_value(decimal(n)) == n,
    decreases n,
{
    if n < 10 {
        let d = decimal(n);
        assert(d.drop_last() =~= Seq::empty());
        assert(digits_value(d.drop_last()) == 0);
        assert(d.last() as u32 - '0' as u32 == n);
    } else {
        lemma_decimal_denotes(n / 10);
        let front = decimal(n / 10);
        let d = decimal(n);
        assert(d.drop_last() =~= front);
        assert(d.last() as u32 - '0' as u32 == n % 10);
        assert forall|i: int| 0 <= i < d.len() implies is_digit(#[trigger] d[i]) by {
            if i < front.len() {
                assert(d[i] == front[i]);
            }
        }
    }
}

/// A 16-bit number written in decimal is read back.
pub proof fn decimal_numbers_are_read_back(n: u16)
    ensures
        u16_of(decimal(n as nat)) == Some(n),
{
    lemma_decimal_denotes(n as nat);
    let d = decimal(n as nat);
    assert(is_digit(d[0]));
    assert(unsigned_digits(d) == d);
}

/// Splitting at the last separator takes the text apart there: what was taken
/// apart gives the text again, and nothing after the split holds a separator.
pub proof fn last_split_is_undone_by_joining(s: Seq<char>, sep: char)
    ensures
        rsplit_once(s, sep) is Some == s.contains(sep),
        rsplit_once(s, sep) matches Some((head, tail)) ==> s == head + seq![sep] + tail
            && !tail.contains(sep),
    decreases s.len(),
{
    if s.len() > 0 {
        let t = s.drop_last();
        last_split_is_undone_by_joining(t, sep);
        if s.last() == sep {
            assert(s.contains(s.last()));
            assert(s =~= t + seq![sep] + Seq::<char>::empty());
        } else {
            assert(s.contains(sep) == t.contains(sep)) by {
                if s.contains(sep) {
                    let i = choose|i: int| 0 <= i < s.len() && s[i] == sep;
                    assert(t[i] == sep);
                }
                if t.contains(sep) {
                    let i = choose|i: int| 0 <= i < t.len() && t[i] == sep;
                    assert(s[i] == sep);
                }
            }
            if rsplit_once(t, sep) is Some {
                let (head, tail) = rsplit_once(t, sep)->0;
                let longer = tail.push(s.last());
                assert(t == head + seq![sep] + tail);
                assert(s =~= t.push(s.last()));
                assert(s =~= head + seq![sep] + longer);
                if longer.contains(sep) {
                    let i = choose|i: int| 0 <= i < longer.len() && longer[i] == sep;
                    assert(tail[i] == sep);
                }
            }
        }
    }
}

/// Texts that are equal up to letter case are of one length and differ at most
/// in the case of ASCII letters.
pub proof fn only_letter_case_is_ignored(a: Seq<char>, b: Seq<char>)
    ensures
        eq_ignore_case(a, b) ==> a.len() == b.len(),
        eq_ignore_case(a, b) ==> forall|i: int|
            0 <= i < a.len() ==> #[trigger] a[i] == b[i] || ('A' <= a[i] <= 'Z' && b[i] as u32
                == a[i] as u32 + 32) || ('A' <= b[i] <= 'Z' && a[i] as u32 == b[i] as u32 + 32),
        a == b ==> eq_ignore_case(a, b),
        eq_ignore_case(a, b) == eq_ignore_case(b, a),
{
    let x = a.map_values(|c: char| ascii_lower(c));
    let y = b.map_values(|c: char| ascii_lower(c));
    if eq_ignore_case(a, b) {
        assert(x.len() == y.len());
        assert forall|i: int| 0 <= i < a.len() implies #[trigger] a[i] == b[i] || ('A' <= a[i]
            <= 'Z' && b[i] as u32 == a[i] as u32 + 32) || ('A' <= b[i] <= 'Z' && a[i] as u32
            == b[i] as u32 + 32) by {
            assert(x[i] == ascii_lower(a[i]));
            assert(y[i] == ascii_lower(b[i]));
        }
    }
}

/// A letter is equal to its other case.
pub proof fn cases_of_a_letter_are_equal(a: Seq<char>, b: Seq<char>)
    requires
        a.len() == b.len(),
        forall|i: int|
            0 <= i < a.len() ==> #[trigger] a[i] == b[i] || ('A' <= a[i] <= 'Z' && b[i] as u32
                == a[i] as u32 + 32),
    ensures
        eq_ignore_case(a, b),
{
    let x = a.map_values(|c: char| ascii_lower(c));
    let y = b.map_values(|c: char| ascii_lower(c));
    assert forall|i: int| 0 <= i < x.len() implies x[i] == y[i] by {
        assert(a[i] == b[i] || ('A' <= a[i] <= 'Z' && b[i] as u32 == a[i] as u32 + 32));
        assert(x[i] == ascii_lower(a[i]));
        assert(y[i] == ascii_lower(b[i]));
    }
    assert(x =~= y);
}

/// Joining the parts of a text with the separator gives the text again, and no
/// part holds the separator.
pub proof fn parts_make_up_the_text(s: Seq<char>, sep: char)
    ensures
        joined(split(s, sep), sep) == s,
        forall|i: int|
            0 <= i < split(s, sep).len() ==> !(#[trigger] split(s, sep)[i]).contains(sep),
    decreases s.len(),
{
    let parts = split(s, sep);
    if s.len() == 0 {
        assert(parts =~= seq![Seq::<char>::empty()]);
        assert(parts.drop_last() =~= Seq::<Seq<char>>::empty());
        assert(joined(parts, sep) =~= s);
    } else {
        let t = s.drop_last();
        let rest = split(t, sep);
        lemma_split_nonempty(t, sep);
        parts_make_up_the_text(t, sep);
        if s.last() == sep {
            assert(parts.drop_last() =~= rest);
            assert(joined(parts, sep) =~= s);
        } else {
            assert(parts.drop_last() =~= rest.drop_last());
            assert(parts.last() == rest.last().push(s.last()));
            assert(s =~= t.push(s.last()));
            if rest.len() == 1 {
                assert(joined(rest, sep) == rest[0]);
                assert(parts[0] == rest[0].push(s.last()));
            } else {
                assert(joined(rest, sep) == joined(rest.drop_last(), sep) + seq![sep]
                    + rest.last());
            }
            assert(joined(parts, sep) =~= s);
            assert forall|i: int| 0 <= i < parts.len() implies !(#[trigger] parts[i]).contains(
                sep,
            ) by {
                if i < parts.len() - 1 {
                    assert(parts[i] == rest[i]);
                } else {
                    assert(!rest[i].contains(sep));
                    if parts[i].contains(sep) {
                        let k = choose|k: int| 0 <= k < parts[i].len() && parts[i][k] == sep;
                        assert(rest[i][k] == sep);
                    }
                }
            }
        }
    }
}

/// The parts of a list with a separator between them.
pub open spec fn joined(parts: Seq<Seq<char>>, sep: char) -> Seq<char>
    decreases parts.len(),
{
    if parts.len() == 0 {
        Seq::empty()
    } else if parts.len() == 1 {
        parts[0]
    } else {
        joined(parts.drop_last(), sep) + seq![sep] + parts.last()
    }
}

/// Leading zeros and one plus sign do not change the number that a text denotes,
/// and a text with anything but digits behind them denotes none.
pub proof fn zeros_and_a_plus_do_not_matter(s: Seq<char>)
    requires
        s.len() > 0,
    ensures
        '0' <= s[0] <= '9' ==> u16_of(seq!['+'] + s) == u16_of(s),
        '0' <= s[0] <= '9' ==> u16_of(seq!['0'] + s) == u16_of(s),
        forall|i: int|
            1 <= i < s.len() && !('0' <= #[trigger] s[i] <= '9') ==> u16_of(s) is None,
        s[0] != '+' && !('0' <= s[0] <= '9') ==> u16_of(s) is None,
{
    let plus = seq!['+'] + s;
    let zero = seq!['0'] + s;
    assert(plus.skip(1) =~= s);
    if '0' <= s[0] <= '9' {
        assert(unsigned_digits(plus) == s);
        assert(unsigned_digits(s) == s);
        assert(unsigned_digits(zero) == zero);
        lemma_leading_zero(s);
        if is_unsigned_number(s) {
            assert forall|i: int| 0 <= i < zero.len() implies is_digit(#[trigger] zero[i]) by {
                if i > 0 {
                    assert(is_digit(s[i - 1]));
                }
            }
        }
        if is_unsigned_number(zero) {
            assert forall|i: int| 0 <= i < s.len() implies is_digit(#[trigger] s[i]) by {
                assert(is_digit(zero[i + 1]));
            }
        }
    }
    assert forall|i: int| 1 <= i < s.len() && !('0' <= #[trigger] s[i] <= '9') implies u16_of(s)
        is None by {
        let digits = unsigned_digits(s);
        if s[0] == '+' {
            assert(digits[i - 1] == s[i]);
            assert(!is_digit(digits[i - 1]));
        } else {
            assert(!is_digit(digits[i]));
        }
    }
    if s[0] != '+' && !('0' <= s[0] <= '9') {
        assert(!is_digit(unsigned_digits(s)[0]));
    }
}

proof fn lemma_leading_zero(s: Seq<char>)
    ensures
        digits_value(seq!['0'] + s) == digits_value(s),
    decreases s.len(),
{
    let zero = seq!['0'] + s;
    if s.len() == 0 {
        assert(zero.drop_last() =~= Seq::<char>::empty());
        assert(digits_value(zero.drop_last()) == 0);
        assert(zero.last() as u32 - '0' as u32 == 0);
    } else {
        assert(zero.drop_last() =~= seq!['0'] + s.drop_last());
        lemma_leading_zero(s.drop_last());
    }
}

}
