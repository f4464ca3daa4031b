use vstd::prelude::*;

verus! {

// SPECIFICATIONS
// ================================================================================================

/// The characters of each string of a sequence.
pub open spec fn views(strs: Seq<&str>) -> Seq<Seq<char>> {
    strs.map_values(|s: &str| s@)
}

/// The strings of a sequence joined with "." between each two of them.
pub open spec fn join_dot(parts: Seq<Seq<char>>) -> Seq<char>
    decreases parts.len(),
{
    if parts.len() == 0 {
        Seq::empty()
    } else if parts.len() == 1 {
        parts[0]
    } else {
        join_dot(parts.drop_last()) + "."@ + parts.last()
    }
}

/// The character of decimal digit `d`.
pub open spec fn digit_char(d: int) -> char {
    if d == 0 { '0' } else if d == 1 { '1' } else if d == 2 { '2' } else if d == 3 { '3' }
    else if d == 4 { '4' } else if d == 5 { '5' } else if d == 6 { '6' } else if d == 7 { '7' }
    else if d == 8 { '8' } else { '9' }
}

/// The decimal representation of `n`, without leading zeros.
pub open spec fn decimal(n: nat) -> Seq<char>
    decreases n,
{
    if n < 10 {
        seq![digit_char(n as int)]
    } else {
        decimal(n / 10).push(digit_char((n % 10) as int))
    }
}

/// The value of digit character `c` in base 16 (or 16 when it is not a hexadecimal digit).
pub open spec fn digit_value(c: char) -> nat {
    if '0' <= c && c <= '9' {
        (c as nat - '0' as nat) as nat
    } else if 'a' <= c && c <= 'f' {
        (c as nat - 'a' as nat + 10) as nat
    } else if 'A' <= c && c <= 'F' {
        (c as nat - 'A' as nat + 10) as nat
    } else {
        16
    }
}

/// Whether every character of `s` is a digit in base `radix`.
pub open spec fn all_digits(s: Seq<char>, radix: nat) -> bool {
    forall|i: int| 0 <= i < s.len() ==> #[trigger] digit_value(s[i]) < radix
}

/// The value of the digits `s` in base `radix`, most significant digit first.
pub open spec fn digits_value(s: Seq<char>, radix: nat) -> nat
    decreases s.len(),
{
    if s.len() == 0 {
        0
    } else {
        digits_value(s.drop_last(), radix) * radix + digit_value(s.last())
    }
}

/// The number that `s` denotes in base `radix` as an unsigned integer: an optional '+' followed
/// by one or more digits; `None` when `s` is not of that form.
pub open spec fn parse_unsigned(s: Seq<char>, radix: nat) -> Option<nat> {
    let digits = if s.len() > 0 && s[0] == '+' { s.drop_first() } else { s };
    if digits.len() == 0 || !all_digits(digits, radix) {
        None
    } else {
        Some(digits_value(digits, radix))
    }
}

// STRING OPERATIONS
// ================================================================================================

/// Appends `c` to `s` with `String::push`, which appends the given character to the end of the
/// string.
#[verifier::external_body]
fn push_char(s: &mut String, c: char)
    ensures
        final(s)@ == old(s)@.push(c),
{
    s.push(c);
}

/// Returns the character of decimal digit `d`.
fn digit_to_char(d: u128) -> (c: char)
    requires
        d < 10,
    ensures
        c == digit_char(d as int),
{
    match d {
        0 => '0',
        1 => '1',
        2 => '2',
        3 => '3',
        4 => '4',
        5 => '5',
        6 => '6',
        7 => '7',
        8 => '8',
        _ => '9',
    }
}

/// Appends the decimal representation of `n` to `s`.
pub fn append_decimal(s: &mut String, n: u128)
    ensures
        final(s)@ == old(s)@ + decimal(n as nat),
{
    // collect the digits, least significant first
    let mut digits: Vec<char> = Vec::new();
    let mut m = n;
    let ghost mut rest: nat = n as nat;
    digits.push(digit_to_char(m % 10));
    m = m / 10;
    proof {
        rest = m as nat;
    }
    while m > 0
        invariant
            m == rest,
            digits@.len() >= 1,
            decimal(n as nat) == if rest == 0 { Seq::<char>::empty() } else { decimal(rest) } + digits@.reverse(),
        decreases m,
    {
        let ghost before = digits@;
        digits.push(digit_to_char(m % 10));
        assert(digits@.reverse() =~= seq![digit_char((m % 10) as int)] + before.reverse());
        assert(decimal(rest) == if rest / 10 == 0 { Seq::<char>::empty() } else { decimal(rest / 10) } + seq![digit_char((m % 10) as int)]) by {
            if rest >= 10 {
                assert(decimal(rest) =~= decimal(rest / 10) + seq![digit_char((rest % 10) as int)]);
            } else {
                assert(decimal(rest) =~= Seq::<char>::empty() + seq![digit_char((rest % 10) as int)]);
            }
        }
        m = m / 10;
        proof {
            rest = m as nat;
        }
    }
    assert(decimal(n as nat) =~= digits@.reverse()) by {
        if n < 10 {
            assert(decimal(n as nat) =~= seq![digit_char(n as int)]);
        }
    }

    // append the digits, most significant first
    let ghost s0 = s@;
    let mut i = digits.len();
    while i > 0
        invariant
            i <= digits@.len(),
            s@ == s0 + digits@.reverse().subrange(0, (digits@.len() - i) as int),
        decreases i,
    {
        i = i - 1;
        push_char(s, digits[i]);
        assert(digits@.reverse().subrange(0, (digits@.len() - i) as int) =~= digits@.reverse().subrange(0, (digits@.len() - i - 1) as int).push(digits@[i as int]));
    }
    assert(digits@.reverse().subrange(0, digits@.len() as int) =~= digits@.reverse());
}

/// Returns true when two strings hold the same characters.
pub fn str_equals(a: &str, b: &str) -> (r: bool)
    ensures
        r == (a@ == b@),
{
    let n = a.unicode_len();
    if n != b.unicode_len() {
        return false;
    }
    let mut i: usize = 0;
    while i < n
        invariant
            i <= n,
            n == a@.len(),
            n == b@.len(),
            forall|j: int| 0 <= j < i ==> a@[j] == b@[j],
        decreases n - i,
    {
        if a.get_char(i) != b.get_char(i) {
            return false;
        }
        i = i + 1;
    }
    assert(a@ =~= b@);
    true
}

/// Returns the strings of `parts` joined with ".".
pub fn join_with_dots(parts: &[&str]) -> (r: String)
    ensures
        r@ == join_dot(views(parts@)),
{
    if parts.len() == 0 {
        let r = String::new();
        assert(r@ =~= join_dot(views(parts@)));
        return r;
    }
    let mut s = String::from_str(parts[0]);
    let mut i: usize = 1;
    while i < parts.len()
        invariant
            1 <= i <= parts@.len(),
            s@ == join_dot(views(parts@.subrange(0, i as int))),
        decreases parts@.len() - i,
    {
        s.append(".");
        s.append(parts[i]);
        assert(views(parts@.subrange(0, (i + 1) as int)).drop_last() =~= views(parts@.subrange(0, i as int)));
        i = i + 1;
    }
    assert(parts@.subrange(0, parts@.len() as int) =~= parts@);
    s
}

// NUMBER PARSING
// ================================================================================================

/// The number that `s` denotes in base `radix` when it is at most `max`.
pub open spec fn parse_bounded(s: Seq<char>, radix: nat, max: nat) -> Option<nat> {
    match parse_unsigned(s, radix) {
        Some(v) => if v <= max { Some(v) } else { None },
        None => None,
    }
}

/// Returns the value of `c` as a hexadecimal digit, or 16.
fn char_digit(c: char) -> (r: u32)
    ensures
        r == digit_value(c),
{
    if '0' <= c && c <= '9' {
        (c as u32) - ('0' as u32)
    } else if 'a' <= c && c <= 'f' {
        (c as u32) - ('a' as u32) + 10
    } else if 'A' <= c && c <= 'F' {
        (c as u32) - ('A' as u32) + 10
    } else {
        16
    }
}

proof fn lemma_digits_value_push(s: Seq<char>, c: char, radix: nat)
    ensures
        digits_value(s.push(c), radix) == digits_value(s, radix) * radix + digit_value(c),
{
    assert(s.push(c).drop_last() =~= s);
}

/// Parses the characters of `s` from index `start` as an unsigned number in base `radix` (10 or
/// 16): an optional '+' followed by one or more digits, whose value is at most `max`.
pub fn parse_number(s: &str, start: usize, radix: u32, max: u128) -> (r: Option<u128>)
    requires
        radix == 10 || radix == 16,
        start <= s@.len(),
    ensures
        r == (match parse_bounded(s@.skip(start as int), radix as nat, max as nat) {
            Some(v) => Some(v as u128),
            None => None::<u128>,
        }),
{
    let ghost t = s@.skip(start as int);
    let n = s.unicode_len();
    let mut i = start;
    if i < n && s.get_char(i) == '+' {
        i = i + 1;
    }
    let first = i;
    let ghost digits = s@.subrange(first as int, n as int);
    assert(digits =~= if t.len() > 0 && t[0] == '+' { t.drop_first() } else { t });
    if i == n {
        return None;
    }
    let mut value: u128 = 0;
    let mut overflow = false;
    let mut valid = true;
    while i < n
        invariant
            first <= i <= n,
            n == s@.len(),
            radix == 10 || radix == 16,
            digits == s@.subrange(first as int, n as int),
            valid == all_digits(s@.subrange(first as int, i as int), radix as nat),
            valid && !overflow ==> value == digits_value(s@.subrange(first as int, i as int), radix as nat),
            valid && !overflow ==> value <= max,
            valid && overflow ==> digits_value(s@.subrange(first as int, i as int), radix as nat) > max,
        decreases n - i,
    {
        let c = s.get_char(i);
        let d = char_digit(c);
        let ghost prefix = s@.subrange(first as int, i as int);
        assert(s@.subrange(first as int, i + 1) =~= prefix.push(c));
        proof { lemma_digits_value_push(prefix, c, radix as nat); }
        if d >= radix {
            valid = false;
        } else if valid && !overflow {
            if (d as u128) > max {
                overflow = true;
                assert(value * radix + d > max) by (nonlinear_arith)
                    requires d > max, radix > 0, value >= 0;
            } else if value > (max - d as u128) / (radix as u128) {
                overflow = true;
                assert(value * radix + d > max) by (nonlinear_arith)
                    requires value > (max - d) / (radix as int), radix > 0, d <= max;
            } else {
                assert(value * radix + d <= max) by (nonlinear_arith)
                    requires value <= (max - d) / (radix as int), radix > 0, value >= 0;
                value = value * (radix as u128) + (d as u128);
            }
        } else if valid && overflow {
            assert(digits_value(prefix, radix as nat) * radix + d > max) by (nonlinear_arith)
                requires digits_value(prefix, radix as nat) > max, radix >= 1, d >= 0;
        }
        i = i + 1;
    }
    assert(s@.subrange(first as int, n as int) == digits);
    if !valid || overflow {
        None
    } else {
        Some(value)
    }
}

// SPLITTING
// ================================================================================================

/// Whether `c` is white space in the sense of the Unicode property White_Space.
pub open spec fn is_ws(c: char) -> bool {
    let u = c as u32;
    (0x9 <= u && u <= 0xd) || u == 0x20 || u == 0x85 || u == 0xa0 || u == 0x1680
        || (0x2000 <= u && u <= 0x200a) || u == 0x2028 || u == 0x2029 || u == 0x202f
        || u == 0x205f || u == 0x3000
}

/// Returns true when `c` is white space in the sense of the Unicode property White_Space.
pub fn is_whitespace(c: char) -> (r: bool)
    ensures
        r == is_ws(c),
{
    let u = c as u32;
    (0x9 <= u && u <= 0xd) || u == 0x20 || u == 0x85 || u == 0xa0 || u == 0x1680
        || (0x2000 <= u && u <= 0x200a) || u == 0x2028 || u == 0x2029 || u == 0x202f
        || u == 0x205f || u == 0x3000
}

/// The end of the run of characters starting at `i` which are not white space.
pub open spec fn word_end(s: Seq<char>, i: int) -> int
    decreases s.len() - i,
{
    if i >= s.len() || i < 0 || is_ws(s[i]) {
        i
    } else {
        word_end(s, i + 1)
    }
}

/// The words of `s` from index `i` on: the maximal runs of characters which are not white
/// space.
pub open spec fn words_from(s: Seq<char>, i: int) -> Seq<Seq<char>>
    decreases s.len() - i,
{
    if i >= s.len() || i < 0 {
        Seq::empty()
    } else if is_ws(s[i]) {
        words_from(s, i + 1)
    } else {
        let j = word_end(s, i);
        if j <= i || j > s.len() {
            Seq::empty()
        } else {
            seq![s.subrange(i, j)] + words_from(s, j)
        }
    }
}

/// The end of the field of `s` starting at `i`: the index of the next '.', or the length.
pub open spec fn field_end(s: Seq<char>, i: int) -> int
    decreases s.len() - i,
{
    if i >= s.len() || i < 0 || s[i] == '.' {
        i
    } else {
        field_end(s, i + 1)
    }
}

/// The fields of `s` from index `i` on, separated by '.'; the last field ends at the end.
pub open spec fn fields_from(s: Seq<char>, i: int) -> Seq<Seq<char>>
    decreases s.len() - i,
{
    let j = field_end(s, i);
    if i < 0 || i > s.len() || j >= s.len() || j < i {
        seq![s.subrange(i, s.len() as int)]
    } else {
        seq![s.subrange(i, j)] + fields_from(s, j + 1)
    }
}

proof fn lemma_word_end(s: Seq<char>, i: int)
    requires
        0 <= i <= s.len(),
    ensures
        i <= word_end(s, i) <= s.len(),
        forall|k: int| i <= k < word_end(s, i) ==> !is_ws(#[trigger] s[k]),
        word_end(s, i) < s.len() ==> is_ws(s[word_end(s, i)]),
    decreases s.len() - i,
{
    if i < s.len() && !is_ws(s[i]) {
        lemma_word_end(s, i + 1);
    }
}

proof fn lemma_field_end(s: Seq<char>, i: int)
    requires
        0 <= i <= s.len(),
    ensures
        i <= field_end(s, i) <= s.len(),
        forall|k: int| i <= k < field_end(s, i) ==> #[trigger] s[k] != '.',
        field_end(s, i) < s.len() ==> s[field_end(s, i)] == '.',
    decreases s.len() - i,
{
    if i < s.len() && s[i] != '.' {
        lemma_field_end(s, i + 1);
    }
}

/// Splits `source` into its words: the maximal runs of characters which are not white space.
pub fn split_whitespace<'a>(source: &'a str) -> (r: Vec<&'a str>)
    ensures
        views(r@) == words_from(source@, 0),
        r@.len() <= source@.len(),
{
    let n = source.unicode_len();
    let mut result: Vec<&'a str> = Vec::new();
    let mut i: usize = 0;
    while i < n
        invariant
            i <= n,
            n == source@.len(),
            result@.len() <= i,
            views(result@) + words_from(source@, i as int) == words_from(source@, 0),
        decreases n - i,
    {
        if is_whitespace(source.get_char(i)) {
            i = i + 1;
        } else {
            let start = i;
            proof { lemma_word_end(source@, start as int); }
            while i < n && !is_whitespace(source.get_char(i))
                invariant
                    start <= i <= word_end(source@, start as int),
                    n == source@.len(),
                    word_end(source@, start as int) <= n,
                    forall|k: int| start <= k < word_end(source@, start as int) ==> !is_ws(#[trigger] source@[k]),
                    word_end(source@, start as int) < n ==> is_ws(source@[word_end(source@, start as int)]),
                decreases n - i,
            {
                i = i + 1;
            }
            let word = source.substring_char(start, i);
            let ghost before = result@;
            result.push(word);
            assert(views(result@) =~= views(before) + seq![source@.subrange(start as int, i as int)]);
        }
    }
    result
}

/// Splits `token` into its fields, separated by '.'.
pub fn split_dots<'a>(token: &'a str) -> (r: Vec<&'a str>)
    ensures
        views(r@) == fields_from(token@, 0),
        r@.len() >= 1,
{
    let n = token.unicode_len();
    let mut result: Vec<&'a str> = Vec::new();
    let mut start: usize = 0;
    loop
        invariant
            start <= n,
            n == token@.len(),
            views(result@) + fields_from(token@, start as int) == fields_from(token@, 0),
        decreases n - start,
    {
        proof { lemma_field_end(token@, start as int); }
        let mut i = start;
        while i < n && token.get_char(i) != '.'
            invariant
                start <= i <= field_end(token@, start as int),
                n == token@.len(),
                field_end(token@, start as int) <= n,
                forall|k: int| start <= k < field_end(token@, start as int) ==> #[trigger] token@[k] != '.',
                field_end(token@, start as int) < n ==> token@[field_end(token@, start as int)] == '.',
            decreases n - i,
        {
            i = i + 1;
        }
        let field = token.substring_char(start, i);
        let ghost before = result@;
        result.push(field);
        assert(views(result@) =~= views(before) + seq![token@.subrange(start as int, i as int)]);
        if i == n {
            return result;
        }
        start = i + 1;
    }
}

} // verus!
