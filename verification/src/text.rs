//! Characters, decimal numerals and small string building blocks that the
//! rest of the crate is written with.

use vstd::prelude::*;
use vstd::string::*;

verus! {

/// The characters of an optional string slice.
pub open spec fn text_view(o: Option<&str>) -> Option<Seq<char>> {
    match o {
        Some(s) => Some(s@),
        None => None,
    }
}

/// The character that writes the decimal digit `d`, for `0 <= d <= 9`.
pub open spec fn digit_char(d: int) -> char {
    ((48 + d) as u8) as char
}

/// Whether `c` is one of `'0'..='9'`.
pub open spec fn is_digit(c: char) -> bool {
    48 <= (c as int) <= 57
}

/// The number that the digit `c` writes.
pub open spec fn digit_value(c: char) -> nat {
    if is_digit(c) {
        ((c as int) - 48) as nat
    } else {
        0
    }
}

/// The decimal numeral of `n`, without sign or leading zeros.
pub open spec fn decimal(n: nat) -> Seq<char>
    decreases n,
{
    if n < 10 {
        seq![digit_char(n as int)]
    } else {
        decimal(n / 10).push(digit_char((n % 10) as int))
    }
}

/// Whether every character of `s` is a decimal digit.
pub open spec fn all_digits(s: Seq<char>) -> bool {
    forall|i: int| 0 <= i < s.len() ==> is_digit(#[trigger] s[i])
}

/// The number that a string of decimal digits writes; 0 for the empty string.
pub open spec fn digits_value(s: Seq<char>) -> nat
    decreases s.len(),
{
    if s.len() == 0 {
        0
    } else {
        digits_value(s.drop_last()) * 10 + digit_value(s.last())
    }
}

/// The digits of an unsigned numeral: what follows one optional leading `+`.
pub open spec fn unsigned_digits(s: Seq<char>) -> Seq<char> {
    if s.len() > 0 && s[0] == '+' {
        s.skip(1)
    } else {
        s
    }
}

/// Reading of an unsigned base-10 numeral that must not exceed `max`: an
/// optional `+`, then one or more decimal digits and nothing else.
pub open spec fn parse_unsigned_spec(s: Seq<char>, max: nat) -> Option<nat> {
    let digits = unsigned_digits(s);
    if digits.len() > 0 && all_digits(digits) && digits_value(digits) <= max {
        Some(digits_value(digits))
    } else {
        None
    }
}

/// `s` with `c` repeated in front of it until it is `width` characters long.
pub open spec fn pad_left(s: Seq<char>, width: nat, c: char) -> Seq<char>
    decreases width - s.len(),
{
    if s.len() >= width {
        s
    } else {
        pad_left(seq![c] + s, width, c)
    }
}

/// `s` with `c` repeated behind it until it is `width` characters long.
pub open spec fn pad_right(s: Seq<char>, width: nat, c: char) -> Seq<char>
    decreases width - s.len(),
{
    if s.len() >= width {
        s
    } else {
        pad_right(s.push(c), width, c)
    }
}

/// The position of the last `c` in `s`, if there is one.
pub open spec fn last_index_of(s: Seq<char>, c: char) -> Option<int>
    decreases s.len(),
{
    if s.len() == 0 {
        None
    } else if s.last() == c {
        Some(s.len() - 1)
    } else {
        last_index_of(s.drop_last(), c)
    }
}

/// What `last_index_of` finds is a place of `c`, and no `c` stands behind it;
/// where it finds none, there is no `c`.
pub proof fn lemma_last_index_of(s: Seq<char>, c: char)
    ensures
        match last_index_of(s, c) {
            Some(i) => 0 <= i < s.len() && s[i] == c && forall|j: int|
                i < j < s.len() ==> #[trigger] s[j] != c,
            None => forall|j: int| 0 <= j < s.len() ==> #[trigger] s[j] != c,
        },
    decreases s.len(),
{
    if s.len() > 0 && s.last() != c {
        let t = s.drop_last();
        lemma_last_index_of(t, c);
        assert forall|j: int| 0 <= j < t.len() implies t[j] == s[j] by {}
        match last_index_of(t, c) {
            Some(i) => {
                assert forall|j: int| i < j < s.len() implies #[trigger] s[j] != c by {
                    if j < t.len() {
                        assert(t[j] != c);
                    }
                }
            },
            None => {
                assert forall|j: int| 0 <= j < s.len() implies #[trigger] s[j] != c by {
                    if j < t.len() {
                        assert(t[j] != c);
                    }
                }
            },
        }
    }
}

/// A numeral has at least one character, all of them digits, and writes
/// its number.
pub proof fn lemma_decimal_digits(n: nat)
    ensures
        decimal(n).len() >= 1,
        all_digits(decimal(n)),
        digits_value(decimal(n)) == n,
    decreases n,
{
    if n < 10 {
        let s = decimal(n);
        assert(s.drop_last() =~= Seq::<char>::empty());
        assert(digits_value(s.drop_last()) == 0);
    } else {
        lemma_decimal_digits(n / 10);
        let s = decimal(n);
        assert(s.drop_last() =~= decimal(n / 10));
        assert(s.last() == digit_char((n % 10) as int));
    }
}

/// Reading a numeral back gives the number it was written from.
pub proof fn lemma_parse_decimal(n: nat, max: nat)
    requires
        n <= max,
    ensures
        parse_unsigned_spec(decimal(n), max) == Some(n),
{
    lemma_decimal_digits(n);
    assert(decimal(n)[0] != '+');
}

/// Different numbers have different numerals.
pub proof fn lemma_decimal_injective(a: nat, b: nat)
    requires
        decimal(a) == decimal(b),
    ensures
        a == b,
{
    lemma_decimal_digits(a);
    lemma_decimal_digits(b);
}

/// The code point of `c`.
pub fn char_code(c: char) -> (r: u32)
    ensures
        r == c as int,
{
    c as u32
}

/// The characters of `s`, one by one.
pub fn to_chars(s: &str) -> (v: Vec<char>)
    ensures
        v@ == s@,
{
    let mut v: Vec<char> = Vec::new();
    for c in it: s.chars()
        invariant
            v@ == it.seq().take(it.index() as int),
            it.seq() == s@,
    {
        v.push(c);
    }
    v
}

fn digit_str(d: u64) -> (r: &'static str)
    requires
        d < 10,
    ensures
        r@ == seq![digit_char(d as int)],
{
    proof {
        reveal_strlit("0");
        reveal_strlit("1");
        reveal_strlit("2");
        reveal_strlit("3");
        reveal_strlit("4");
        reveal_strlit("5");
        reveal_strlit("6");
        reveal_strlit("7");
        reveal_strlit("8");
        reveal_strlit("9");
    }
    let r = if d == 0 {
        "0"
    } else if d == 1 {
        "1"
    } else if d == 2 {
        "2"
    } else if d == 3 {
        "3"
    } else if d == 4 {
        "4"
    } else if d == 5 {
        "5"
    } else if d == 6 {
        "6"
    } else if d == 7 {
        "7"
    } else if d == 8 {
        "8"
    } else {
        "9"
    };
    assert(r@ =~= seq![digit_char(d as int)]);
    r
}

/// Writes the decimal numeral of `n` at the end of `out`.
pub fn append_decimal(out: &mut String, n: u64)
    ensures
        final(out)@ == old(out)@ + decimal(n as nat),
    decreases n,
{
    if n >= 10 {
        append_decimal(out, n / 10);
    }
    out.append(digit_str(n % 10));
    proof {
        if n >= 10 {
            assert(out@ =~= old(out)@ + decimal(n as nat));
        } else {
            assert(out@ =~= old(out)@ + decimal(n as nat));
        }
    }
}

/// The decimal numeral of `n`.
pub fn decimal_string(n: u64) -> (r: String)
    ensures
        r@ == decimal(n as nat),
{
    let mut r = String::new();
    append_decimal(&mut r, n);
    assert(r@ =~= decimal(n as nat));
    r
}

/// A longer string of digits writes a number that is at least as large.
pub proof fn lemma_digits_value_prefix(s: Seq<char>, k: int)
    requires
        0 <= k <= s.len(),
    ensures
        digits_value(s.take(k)) <= digits_value(s),
    decreases s.len(),
{
    if k == s.len() {
        assert(s.take(k) =~= s);
    } else {
        lemma_digits_value_prefix(s.drop_last(), k);
        assert(s.drop_last().take(k) =~= s.take(k));
    }
}

/// Reads the characters `chars[from..to]` as an unsigned base-10 numeral no
/// larger than `max`: one optional `+`, then digits only.
pub fn parse_unsigned_chars(chars: &Vec<char>, from: usize, to: usize, max: u64) -> (r: Option<
    u64,
>)
    requires
        from <= to <= chars@.len(),
    ensures
        match parse_unsigned_spec(chars@.subrange(from as int, to as int), max as nat) {
            Some(v) => r == Some(v as u64),
            None => r is None,
        },
{
    let ghost text = chars@.subrange(from as int, to as int);
    let mut start: usize = from;
    if from < to && chars[from] == '+' {
        start = from + 1;
    }
    let ghost digits = unsigned_digits(text);
    assert(digits =~= chars@.subrange(start as int, to as int));
    if start == to {
        return None;
    }
    let mut i: usize = start;
    let mut acc: u64 = 0;
    assert(digits.take(0) =~= Seq::<char>::empty());
    while i < to
        invariant
            from <= start <= i <= to <= chars@.len(),
            digits == chars@.subrange(start as int, to as int),
            digits == unsigned_digits(chars@.subrange(from as int, to as int)),
            all_digits(digits.take(i - start)),
            acc == digits_value(digits.take(i - start)),
            acc <= max,
        decreases to - i,
    {
        let code = char_code(chars[i]);
        if code < 48 || code > 57 {
            assert(!is_digit(digits[i - start]));
            return None;
        }
        let d: u64 = (code - 48) as u64;
        let wide: u128 = (acc as u128) * 10 + (d as u128);
        proof {
            let next = digits.take(i - start + 1);
            assert(next.drop_last() =~= digits.take(i - start));
            assert(next.last() == digits[i - start]);
            assert(digits_value(next) == wide);
            assert forall|j: int| 0 <= j < next.len() implies is_digit(#[trigger] next[j]) by {
                if j < i - start {
                    assert(digits.take(i - start)[j] == next[j]);
                }
            }
        }
        if wide > max as u128 {
            proof {
                lemma_digits_value_prefix(digits, i - start + 1);
            }
            return None;
        }
        acc = wide as u64;
        i = i + 1;
    }
    assert(digits.take(to - start) =~= digits);
    Some(acc)
}

/// Reads an unsigned base-10 numeral no larger than `max`, as the standard
/// integer parsers do: one optional `+`, then digits only.
pub fn parse_unsigned(s: &str, max: u64) -> (r: Option<u64>)
    ensures
        match parse_unsigned_spec(s@, max as nat) {
            Some(v) => r == Some(v as u64),
            None => r is None,
        },
{
    let chars = to_chars(s);
    assert(chars@.subrange(0, chars@.len() as int) =~= s@);
    parse_unsigned_chars(&chars, 0, chars.len(), max)
}

/// Whether two strings hold the same characters.
pub fn str_eq(a: &str, b: &str) -> (r: bool)
    ensures
        r == (a@ == b@),
{
    let x = to_chars(a);
    let y = to_chars(b);
    if x.len() != y.len() {
        return false;
    }
    let mut i: usize = 0;
    while i < x.len()
        invariant
            i <= x@.len(),
            x@.len() == y@.len(),
            x@ == a@,
            y@ == b@,
            x@.take(i as int) == y@.take(i as int),
        decreases x@.len() - i,
    {
        if x[i] != y[i] {
            return false;
        }
        assert(x@.take(i + 1) =~= x@.take(i as int).push(x@[i as int]));
        assert(y@.take(i + 1) =~= y@.take(i as int).push(y@[i as int]));
        i = i + 1;
    }
    assert(x@.take(x@.len() as int) =~= x@);
    assert(y@.take(y@.len() as int) =~= y@);
    true
}

/// Whether `chars[from..]` begins with the characters of `prefix`.
pub fn chars_start_with(chars: &Vec<char>, prefix: &str) -> (r: bool)
    ensures
        r == (chars@.len() >= prefix@.len() && chars@.take(prefix@.len() as int) == prefix@),
{
    let p = to_chars(prefix);
    if chars.len() < p.len() {
        return false;
    }
    let mut i: usize = 0;
    while i < p.len()
        invariant
            i <= p@.len() <= chars@.len(),
            p@ == prefix@,
            chars@.take(i as int) == p@.take(i as int),
        decreases p@.len() - i,
    {
        if chars[i] != p[i] {
            assert(chars@.take(p@.len() as int)[i as int] != p@[i as int]);
            return false;
        }
        assert(chars@.take(i + 1) =~= chars@.take(i as int).push(chars@[i as int]));
        assert(p@.take(i + 1) =~= p@.take(i as int).push(p@[i as int]));
        i = i + 1;
    }
    assert(p@.take(p@.len() as int) =~= p@);
    true
}

/// The number of characters of the decimal numeral of `n`.
pub fn decimal_len(n: u64) -> (r: u64)
    ensures
        r == decimal(n as nat).len(),
        1 <= r <= n / 10 + 1,
    decreases n,
{
    if n < 10 {
        1
    } else {
        decimal_len(n / 10) + 1
    }
}

/// Writes `c`, given as a one-character string, `count` times at the end of `out`.
fn append_repeated(out: &mut String, c: &str, count: u64)
    requires
        c@.len() == 1,
    ensures
        final(out)@ == old(out)@ + Seq::new(count as nat, |i: int| c@[0]),
{
    let mut done: u64 = 0;
    while done < count
        invariant
            done <= count,
            c@.len() == 1,
            out@ == old(out)@ + Seq::new(done as nat, |i: int| c@[0]),
        decreases count - done,
    {
        out.append(c);
        done = done + 1;
        assert(out@ =~= old(out)@ + Seq::new(done as nat, |i: int| c@[0]));
    }
}

/// Padding on the left puts as many characters in front as are missing.
pub proof fn lemma_pad_left(s: Seq<char>, width: nat, c: char)
    ensures
        pad_left(s, width, c) == Seq::new(
            if s.len() >= width {
                0nat
            } else {
                (width - s.len()) as nat
            },
            |i: int| c,
        ) + s,
    decreases width - s.len(),
{
    if s.len() >= width {
        assert(Seq::new(0nat, |i: int| c) + s =~= s);
    } else {
        lemma_pad_left(seq![c] + s, width, c);
        assert(Seq::new((width - s.len() - 1) as nat, |i: int| c) + (seq![c] + s) =~= Seq::new(
            (width - s.len()) as nat,
            |i: int| c,
        ) + s);
    }
}

/// Padding on the right puts as many characters behind as are missing.
pub proof fn lemma_pad_right(s: Seq<char>, width: nat, c: char)
    ensures
        pad_right(s, width, c) == s + Seq::new(
            if s.len() >= width {
                0nat
            } else {
                (width - s.len()) as nat
            },
            |i: int| c,
        ),
    decreases width - s.len(),
{
    if s.len() >= width {
        assert(s + Seq::new(0nat, |i: int| c) =~= s);
    } else {
        lemma_pad_right(s.push(c), width, c);
        assert(s.push(c) + Seq::new((width - s.len() - 1) as nat, |i: int| c) =~= s + Seq::new(
            (width - s.len()) as nat,
            |i: int| c,
        ));
    }
}

/// Writes the decimal numeral of `n` at the end of `out`, with zeros in
/// front of it where it has fewer than `width` digits.
pub fn append_zero_padded(out: &mut String, n: u64, width: u64)
    ensures
        final(out)@ == old(out)@ + pad_left(decimal(n as nat), width as nat, '0'),
{
    let len = decimal_len(n);
    let zeros: u64 = if len >= width {
        0
    } else {
        width - len
    };
    proof {
        reveal_strlit("0");
        lemma_pad_left(decimal(n as nat), width as nat, '0');
    }
    append_repeated(out, "0", zeros);
    append_decimal(out, n);
    assert(out@ =~= old(out)@ + pad_left(decimal(n as nat), width as nat, '0'));
}

/// Writes `count` spaces at the end of `out`.
pub fn append_spaces(out: &mut String, count: u64)
    ensures
        final(out)@ == old(out)@ + Seq::new(count as nat, |i: int| ' '),
{
    proof {
        reveal_strlit(" ");
    }
    append_repeated(out, " ", count);
    assert(out@ =~= old(out)@ + Seq::new(count as nat, |i: int| ' '));
}

/// How one text stands to another in the order of texts.
#[derive(Debug, Clone, Copy, PartialEq, Eq, Structural)]
pub enum TextOrder {
    Before,
    Same,
    After,
}

/// The order of texts: character by character, by code point, a proper
/// prefix before the longer text. This is the order in which strings
/// compare.
pub open spec fn text_order(a: Seq<char>, b: Seq<char>) -> TextOrder
    decreases a.len(),
{
    if a.len() == 0 {
        if b.len() == 0 {
            TextOrder::Same
        } else {
            TextOrder::Before
        }
    } else if b.len() == 0 {
        TextOrder::After
    } else if (a[0] as int) < (b[0] as int) {
        TextOrder::Before
    } else if (a[0] as int) > (b[0] as int) {
        TextOrder::After
    } else {
        text_order(a.skip(1), b.skip(1))
    }
}

/// Two texts stand `Same` exactly when they are equal, and one stands
/// before the other exactly when the other stands after it.
pub proof fn lemma_text_order_mirror(a: Seq<char>, b: Seq<char>)
    ensures
        text_order(a, b) is Same <==> a == b,
        text_order(a, b) is Before <==> text_order(b, a) is After,
        text_order(a, b) is After <==> text_order(b, a) is Before,
    decreases a.len(),
{
    if a.len() > 0 && b.len() > 0 {
        if a[0] == b[0] {
            lemma_text_order_mirror(a.skip(1), b.skip(1));
            if a.skip(1) == b.skip(1) {
                assert(a =~= seq![a[0]] + a.skip(1));
                assert(b =~= seq![b[0]] + b.skip(1));
            }
        } else {
            assert((a[0] as int) != (b[0] as int));
        }
    } else if a.len() == 0 && b.len() == 0 {
        assert(a =~= b);
    }
}

/// The order of texts is transitive.
pub proof fn lemma_text_order_transitive(a: Seq<char>, b: Seq<char>, c: Seq<char>)
    requires
        !(text_order(a, b) is After),
        !(text_order(b, c) is After),
    ensures
        !(text_order(a, c) is After),
        text_order(a, c) is Same ==> text_order(a, b) is Same && text_order(b, c) is Same,
    decreases a.len(),
{
    if a.len() > 0 && b.len() > 0 && c.len() > 0 {
        if a[0] == b[0] && b[0] == c[0] {
            lemma_text_order_transitive(a.skip(1), b.skip(1), c.skip(1));
        }
    }
    if text_order(a, c) is Same {
        lemma_text_order_mirror(a, c);
        lemma_text_order_mirror(a, b);
        lemma_text_order_mirror(b, c);
    }
}

/// Compares two strings in the order of texts.
pub fn order_text(a: &str, b: &str) -> (r: TextOrder)
    ensures
        r == text_order(a@, b@),
{
    let x = to_chars(a);
    let y = to_chars(b);
    let mut i: usize = 0;
    assert(x@.skip(0) =~= x@);
    assert(y@.skip(0) =~= y@);
    while i < x.len() && i < y.len()
        invariant
            i <= x@.len(),
            i <= y@.len(),
            x@ == a@,
            y@ == b@,
            text_order(a@, b@) == text_order(x@.skip(i as int), y@.skip(i as int)),
        decreases x@.len() - i,
    {
        assert(x@.skip(i as int)[0] == x@[i as int]);
        assert(y@.skip(i as int)[0] == y@[i as int]);
        if x[i] < y[i] {
            return TextOrder::Before;
        }
        if x[i] > y[i] {
            return TextOrder::After;
        }
        assert(x@.skip(i as int).skip(1) =~= x@.skip(i + 1));
        assert(y@.skip(i as int).skip(1) =~= y@.skip(i + 1));
        i = i + 1;
    }
    if i < y.len() {
        TextOrder::Before
    } else if i < x.len() {
        TextOrder::After
    } else {
        TextOrder::Same
    }
}

/// The position of the first `c` in `s`, if there is one.
pub open spec fn first_index_of(s: Seq<char>, c: char) -> Option<int>
    decreases s.len(),
{
    if s.len() == 0 {
        None
    } else if s[0] == c {
        Some(0)
    } else {
        match first_index_of(s.skip(1), c) {
            Some(i) => Some(i + 1),
            None => None,
        }
    }
}

/// What `first_index_of` finds is a place of `c`, and no `c` stands before
/// it; where it finds none, there is no `c`.
pub proof fn lemma_first_index_of(s: Seq<char>, c: char)
    ensures
        match first_index_of(s, c) {
            Some(i) => 0 <= i < s.len() && s[i] == c && forall|j: int|
                0 <= j < i ==> #[trigger] s[j] != c,
            None => forall|j: int| 0 <= j < s.len() ==> #[trigger] s[j] != c,
        },
    decreases s.len(),
{
    if s.len() > 0 && s[0] != c {
        let t = s.skip(1);
        lemma_first_index_of(t, c);
        match first_index_of(t, c) {
            Some(i) => {
                assert(t[i] == s[i + 1]);
                assert forall|j: int| 0 <= j < i + 1 implies #[trigger] s[j] != c by {
                    if j > 0 {
                        assert(t[j - 1] == s[j]);
                    }
                }
            },
            None => {
                assert forall|j: int| 0 <= j < s.len() implies #[trigger] s[j] != c by {
                    if j > 0 {
                        assert(t[j - 1] == s[j]);
                    }
                }
            },
        }
    }
}

/// The position of the first `c` in `chars`, or the length of `chars`
/// where there is none.
pub fn find_first(chars: &Vec<char>, c: char) -> (r: usize)
    ensures
        match first_index_of(chars@, c) {
            Some(i) => r == i,
            None => r == chars@.len(),
        },
{
    let mut i: usize = 0;
    while i < chars.len()
        invariant
            i <= chars@.len(),
            forall|j: int| 0 <= j < i ==> #[trigger] chars@[j] != c,
        decreases chars@.len() - i,
    {
        if chars[i] == c {
            proof {
                lemma_first_index_of(chars@, c);
            }
            return i;
        }
        i = i + 1;
    }
    proof {
        lemma_first_index_of(chars@, c);
    }
    i
}

/// Whether `s` ends with `suffix`.
pub open spec fn ends_with(s: Seq<char>, suffix: Seq<char>) -> bool {
    s.len() >= suffix.len() && s.skip(s.len() - suffix.len()) == suffix
}

/// Whether `s` begins with `prefix`.
pub open spec fn starts_with(s: Seq<char>, prefix: Seq<char>) -> bool {
    s.len() >= prefix.len() && s.take(prefix.len() as int) == prefix
}

/// Whether `chars[from..]` ends with the characters of `suffix`.
pub fn chars_end_with(chars: &Vec<char>, from: usize, suffix: &str) -> (r: bool)
    requires
        from <= chars@.len(),
    ensures
        r == ends_with(chars@.skip(from as int), suffix@),
{
    let p = to_chars(suffix);
    let n = chars.len();
    if n - from < p.len() {
        return false;
    }
    let base = n - p.len();
    let ghost tail = chars@.skip(from as int);
    let ghost end = tail.skip(tail.len() - p@.len());
    assert(end =~= chars@.skip(base as int));
    let mut i: usize = 0;
    while i < p.len()
        invariant
            i <= p@.len(),
            base + p@.len() == chars@.len(),
            chars@.len() <= usize::MAX,
            p@ == suffix@,
            end == chars@.skip(base as int),
            ends_with(chars@.skip(from as int), suffix@) == (end == p@),
            end.take(i as int) == p@.take(i as int),
        decreases p@.len() - i,
    {
        if chars[base + i] != p[i] {
            assert(end[i as int] != p@[i as int]);
            return false;
        }
        assert(end.take(i + 1) =~= end.take(i as int).push(end[i as int]));
        assert(p@.take(i + 1) =~= p@.take(i as int).push(p@[i as int]));
        i = i + 1;
    }
    assert(p@.take(p@.len() as int) =~= p@);
    assert(end.take(p@.len() as int) =~= end);
    true
}

} // verus!
