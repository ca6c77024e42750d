//! Text operations over sequences of characters, with the meaning that std gives them.

use vstd::prelude::*;
use vstd::string::*;

verus! {

/// `str == str` compares the characters of the two strings.
pub assume_specification[ <str as PartialEq>::eq ](a: &str, b: &str) -> (equal: bool)
    ensures
        equal == (a@ == b@),
;

/// `String::push` appends one character.
pub assume_specification[ String::push ](s: &mut String, c: char)
    ensures
        final(s)@ == old(s)@.push(c),
;

/// Whether two strings hold the same characters.
pub fn same(a: &str, b: &str) -> (equal: bool)
    ensures
        equal == (a@ == b@),
{
    a.eq(b)
}

/// The text in an optional string.
pub open spec fn text_in(s: Option<String>) -> Option<Seq<char>> {
    match s {
        Some(s) => Some(s@),
        None => None,
    }
}

/// The text in an optional string slice.
pub open spec fn str_in(s: Option<&str>) -> Option<Seq<char>> {
    match s {
        Some(s) => Some(s@),
        None => None,
    }
}

/// What `{:?}` writes for a string: its characters in double quotes, the special ones escaped.
pub uninterp spec fn debug_quoted(s: Seq<char>) -> Seq<char>;

/// `format!` with `{:?}` on a string, which is a function of its characters.
#[verifier::external_body]
fn debug_str(s: &str) -> (r: String)
    ensures
        r@ == debug_quoted(s@),
{
    format!("{:?}", s)
}

/// What `{:?}` writes for an optional string.
pub open spec fn debug_option(s: Option<Seq<char>>) -> Seq<char> {
    match s {
        Some(s) => "Some("@ + debug_quoted(s) + ")"@,
        None => "None"@,
    }
}

/// An optional string as `{:?}` writes it.
pub fn debug_text(s: &Option<String>) -> (r: String)
    ensures
        r@ == debug_option(text_in(*s)),
{
    match s {
        Some(s) => "Some(".to_string().concat(debug_str(s.as_str()).as_str()).concat(")"),
        None => "None".to_string(),
    }
}

/// An optional string with the same text.
pub fn copy_text(s: &Option<String>) -> (r: Option<String>)
    ensures
        text_in(r) == text_in(*s),
{
    match s {
        Some(s) => Some(s.clone()),
        None => None,
    }
}

/// The optional string slice as a string of its own.
pub fn own_text(s: Option<&str>) -> (r: Option<String>)
    ensures
        text_in(r) == str_in(s),
{
    match s {
        Some(s) => Some(s.to_string()),
        None => None,
    }
}

/// An optional string as a slice.
pub fn borrow_text(s: &Option<String>) -> (r: Option<&str>)
    ensures
        str_in(r) == text_in(*s),
{
    match s {
        Some(s) => Some(s.as_str()),
        None => None,
    }
}

/// The characters with the Unicode property White_Space.
pub open spec fn is_white(c: char) -> bool {
    let n = c as u32;
    ||| 0x9 <= n <= 0xd
    ||| n == 0x20
    ||| n == 0x85
    ||| n == 0xa0
    ||| n == 0x1680
    ||| 0x2000 <= n <= 0x200a
    ||| n == 0x2028
    ||| n == 0x2029
    ||| n == 0x202f
    ||| n == 0x205f
    ||| n == 0x3000
}

fn white(c: char) -> (w: bool)
    ensures
        w == is_white(c),
{
    let n: u32 = c as u32;
    (0x9 <= n && n <= 0xd) || n == 0x20 || n == 0x85 || n == 0xa0 || n == 0x1680 || (0x2000 <= n
        && n <= 0x200a) || n == 0x2028 || n == 0x2029 || n == 0x202f || n == 0x205f || n == 0x3000
}

/// `s` without its leading characters that satisfy `p`.
pub open spec fn strip_start(s: Seq<char>, p: spec_fn(char) -> bool) -> Seq<char>
    decreases s.len(),
{
    if s.len() > 0 && p(s[0]) {
        strip_start(s.drop_first(), p)
    } else {
        s
    }
}

/// `s` without its trailing characters that satisfy `p`.
pub open spec fn strip_end(s: Seq<char>, p: spec_fn(char) -> bool) -> Seq<char>
    decreases s.len(),
{
    if s.len() > 0 && p(s.last()) {
        strip_end(s.drop_last(), p)
    } else {
        s
    }
}

/// `s` without leading and trailing white space.
pub open spec fn trimmed(s: Seq<char>) -> Seq<char> {
    strip_end(strip_start(s, |c: char| is_white(c)), |c: char| is_white(c))
}

/// `s` without leading and trailing double quotes.
pub open spec fn unquoted(s: Seq<char>) -> Seq<char> {
    strip_end(strip_start(s, |c: char| c == '"'), |c: char| c == '"')
}

/// The characters of a string, one element each.
pub fn chars_of(s: &str) -> (chars: Vec<char>)
    ensures
        chars@ == s@,
{
    let mut chars: Vec<char> = Vec::new();
    for c in it: s.chars()
        invariant
            it.seq() == s@,
            chars@ == s@.take(it.index()),
    {
        chars.push(c);
    }
    assert(s@.take(s@.len() as int) == s@);
    chars
}

proof fn lemma_strip_start(s: Seq<char>, p: spec_fn(char) -> bool, k: int)
    requires
        0 <= k <= s.len(),
        forall|i: int| 0 <= i < k ==> p(#[trigger] s[i]),
        k < s.len() ==> !p(s[k]),
    ensures
        strip_start(s, p) == s.subrange(k, s.len() as int),
    decreases k,
{
    if k > 0 {
        let rest = s.drop_first();
        assert forall|i: int| 0 <= i < k - 1 implies p(#[trigger] rest[i]) by {
            assert(rest[i] == s[i + 1]);
        }
        lemma_strip_start(rest, p, k - 1);
        assert(rest.subrange(k - 1, rest.len() as int) == s.subrange(k, s.len() as int));
    } else {
        assert(s.subrange(0, s.len() as int) == s);
    }
}

proof fn lemma_strip_end(s: Seq<char>, p: spec_fn(char) -> bool, k: int)
    requires
        0 <= k <= s.len(),
        forall|i: int| k <= i < s.len() ==> p(#[trigger] s[i]),
        k > 0 ==> !p(s[k - 1]),
    ensures
        strip_end(s, p) == s.subrange(0, k),
    decreases s.len() - k,
{
    if k < s.len() {
        lemma_strip_end(s.drop_last(), p, k);
        assert(s.drop_last().subrange(0, k) == s.subrange(0, k));
    } else {
        assert(s.subrange(0, s.len() as int) == s);
    }
}

/// Removes at both ends the characters for which `test` holds.
fn strip<'a>(s: &'a str, test: impl Fn(char) -> bool, Ghost(p): Ghost<spec_fn(char) -> bool>) -> (r:
    &'a str)
    requires
        forall|c: char| #[trigger] call_requires(test, (c,)),
        forall|c: char, b: bool| #[trigger] call_ensures(test, (c,), b) ==> b == p(c),
    ensures
        r@ == strip_end(strip_start(s@, p), p),
{
    let chars = chars_of(s);
    let mut start: usize = 0;
    while start < chars.len() && test(chars[start])
        invariant
            start <= chars.len(),
            chars@ == s@,
            forall|c: char| #[trigger] call_requires(test, (c,)),
            forall|c: char, b: bool| #[trigger] call_ensures(test, (c,), b) ==> b == p(c),
            forall|i: int| 0 <= i < start ==> p(#[trigger] chars[i]),
        ensures
            start < chars.len() ==> !p(chars@[start as int]),
        decreases chars.len() - start,
    {
        start += 1;
    }
    let mut end: usize = chars.len();
    while end > start && test(chars[end - 1])
        invariant
            start <= end <= chars.len(),
            chars@ == s@,
            forall|c: char| #[trigger] call_requires(test, (c,)),
            forall|c: char, b: bool| #[trigger] call_ensures(test, (c,), b) ==> b == p(c),
            forall|i: int| end <= i < chars.len() ==> p(#[trigger] chars[i]),
        ensures
            end > start ==> !p(chars@[end - 1]),
        decreases end,
    {
        end -= 1;
    }
    proof {
        lemma_strip_start(s@, p, start as int);
        let rest = s@.subrange(start as int, s@.len() as int);
        assert forall|i: int| end - start <= i < rest.len() implies p(#[trigger] rest[i]) by {
            assert(rest[i] == chars@[i + start]);
        }
        if end > start {
            assert(rest[end - start - 1] == chars@[end - 1]);
        }
        lemma_strip_end(rest, p, end - start);
        assert(rest.subrange(0, end - start) == s@.subrange(start as int, end as int));
    }
    s.substring_char(start, end)
}

/// The string without leading and trailing white space.
pub fn trim(s: &str) -> (r: &str)
    ensures
        r@ == trimmed(s@),
{
    strip(s, white, Ghost(|c: char| is_white(c)))
}

fn double_quote(c: char) -> (q: bool)
    ensures
        q == (c == '"'),
{
    c == '"'
}

/// The string without leading and trailing double quotes.
pub fn trim_quotes(s: &str) -> (r: &str)
    ensures
        r@ == unquoted(s@),
{
    strip(s, double_quote, Ghost(|c: char| c == '"'))
}

/// An ASCII capital as its small letter, any other character as itself.
pub open spec fn lower_char(c: char) -> char {
    if 'A' <= c <= 'Z' {
        ((c as u8) + 32) as char
    } else {
        c
    }
}

/// `s` with each ASCII capital replaced by its small letter.
pub open spec fn lowered(s: Seq<char>) -> Seq<char> {
    s.map_values(|c: char| lower_char(c))
}

/// The string with each ASCII capital replaced by its small letter.
pub fn to_lower(s: &str) -> (r: String)
    ensures
        r@ == lowered(s@),
{
    let chars = chars_of(s);
    let mut r = String::new();
    for i in 0..chars.len()
        invariant
            chars@ == s@,
            r@ == lowered(s@.take(i as int)),
    {
        let c = chars[i];
        if 'A' <= c && c <= 'Z' {
            r.push(((c as u8) + 32) as char);
        } else {
            r.push(c);
        }
        assert(s@.take(i + 1) == s@.take(i as int).push(s@[i as int]));
        assert(lowered(s@.take(i + 1)) =~= lowered(s@.take(i as int)).push(
            lower_char(s@[i as int]),
        ));
    }
    assert(s@.take(s@.len() as int) == s@);
    r
}

/// What follows `prefix` in `s`, where `s` begins with it.
pub open spec fn after_prefix(s: Seq<char>, prefix: Seq<char>) -> Option<Seq<char>> {
    if s.len() >= prefix.len() && s.take(prefix.len() as int) == prefix {
        Some(s.skip(prefix.len() as int))
    } else {
        None
    }
}

/// What follows `prefix` in `s`, where `s` begins with it.
pub fn strip_prefix<'a>(s: &'a str, prefix: &str) -> (r: Option<&'a str>)
    ensures
        str_in(r) == after_prefix(s@, prefix@),
{
    let n = s.unicode_len();
    let m = prefix.unicode_len();
    if m > n {
        return None;
    }
    assert(s@.subrange(0, m as int) =~= s@.take(m as int));
    assert(s@.subrange(m as int, n as int) =~= s@.skip(m as int));
    if same(s.substring_char(0, m), prefix) {
        Some(s.substring_char(m, n))
    } else {
        None
    }
}

/// `part` occurs in `s`.
pub open spec fn occurs(part: Seq<char>, s: Seq<char>) -> bool {
    exists|i: int| occurs_at(part, s, i)
}

/// `part` occurs in `s` from position `i` on.
pub open spec fn occurs_at(part: Seq<char>, s: Seq<char>, i: int) -> bool {
    0 <= i && i + part.len() <= s.len() && s.subrange(i, i + part.len()) == part
}

/// Whether `part` occurs in `s`.
pub fn contains(s: &str, part: &str) -> (found: bool)
    ensures
        found == occurs(part@, s@),
{
    let n = s.unicode_len();
    let m = part.unicode_len();
    if m > n {
        return false;
    }
    let mut i: usize = 0;
    while i <= n - m
        invariant
            n == s@.len(),
            m == part@.len(),
            m <= n,
            i <= n - m + 1,
            forall|k: int| 0 <= k < i ==> !occurs_at(part@, s@, k),
        decreases n - i,
    {
        if same(s.substring_char(i, i + m), part) {
            assert(occurs_at(part@, s@, i as int));
            return true;
        }
        if i == n - m {
            assert forall|k: int| !occurs_at(part@, s@, k) by {}
            return false;
        }
        i += 1;
    }
    false
}

/// The pieces of `s` between the occurrences of `sep`: one more than there are occurrences.
pub open spec fn split_on(s: Seq<char>, sep: char) -> Seq<Seq<char>>
    decreases s.len(),
{
    if s.len() == 0 {
        seq![Seq::empty()]
    } else {
        let before = split_on(s.drop_last(), sep);
        if s.last() == sep {
            before.push(Seq::empty())
        } else {
            before.drop_last().push(before.last().push(s.last()))
        }
    }
}

/// The texts of the given strings.
pub open spec fn texts(strings: Seq<String>) -> Seq<Seq<char>> {
    strings.map_values(|s: String| s@)
}

/// Whether one of the given strings has the text `s`.
pub fn lists(strings: &Vec<String>, s: &str) -> (r: bool)
    ensures
        r == texts(strings@).contains(s@),
{
    let ghost all = texts(strings@);
    for i in 0..strings.len()
        invariant
            all == texts(strings@),
            forall|k: int| 0 <= k < i ==> (#[trigger] all[k]) != s@,
    {
        assert(all[i as int] == strings@[i as int]@);
        if same(strings[i].as_str(), s) {
            return true;
        }
    }
    false
}

/// Strings with the same texts.
pub fn copy_all(strings: &Vec<String>) -> (r: Vec<String>)
    ensures
        texts(r@) == texts(strings@),
{
    let mut r: Vec<String> = Vec::new();
    for i in 0..strings.len()
        invariant
            r@.len() == i,
            forall|k: int| 0 <= k < i ==> (#[trigger] r@[k])@ == strings@[k]@,
    {
        r.push(strings[i].clone());
    }
    assert(texts(r@) =~= texts(strings@));
    r
}

/// The pieces of a string between the occurrences of a character.
pub fn split(s: &str, sep: char) -> (pieces: Vec<String>)
    ensures
        texts(pieces@) == split_on(s@, sep),
        pieces@.len() > 0,
{
    let chars = chars_of(s);
    let mut done: Vec<String> = Vec::new();
    let mut piece = String::new();
    assert(texts(done@).push(piece@) =~= split_on(s@.take(0), sep));
    for i in 0..chars.len()
        invariant
            chars@ == s@,
            texts(done@).push(piece@) == split_on(s@.take(i as int), sep),
    {
        let ghost before = split_on(s@.take(i as int), sep);
        assert(s@.take(i + 1).drop_last() == s@.take(i as int));
        assert(before.drop_last() =~= texts(done@));
        assert(before.last() == piece@);
        if chars[i] == sep {
            let ghost done0 = done@;
            let ghost piece0 = piece;
            done.push(piece);
            piece = String::new();
            assert(texts(done@) =~= texts(done0).push(piece0@));
        } else {
            piece.push(chars[i]);
        }
    }
    assert(s@.take(s@.len() as int) == s@);
    let ghost done0 = done@;
    let ghost piece0 = piece;
    done.push(piece);
    assert(texts(done@) =~= texts(done0).push(piece0@));
    done
}

/// `parts` with `sep` between each two of them.
pub open spec fn joined(parts: Seq<Seq<char>>, sep: Seq<char>) -> Seq<char>
    decreases parts.len(),
{
    if parts.len() == 0 {
        Seq::empty()
    } else if parts.len() == 1 {
        parts[0]
    } else {
        joined(parts.drop_last(), sep) + sep + parts.last()
    }
}

/// The given strings with `sep` between each two of them.
pub fn join(parts: &Vec<String>, sep: &str) -> (s: String)
    ensures
        s@ == joined(texts(parts@), sep@),
{
    let mut s = String::new();
    for i in 0..parts.len()
        invariant
            s@ == joined(texts(parts@).take(i as int), sep@),
    {
        if i > 0 {
            s.append(sep);
        }
        s.append(parts[i].as_str());
        proof {
            let all = texts(parts@);
            assert(all.take(i + 1).drop_last() == all.take(i as int));
            assert(all.take(i + 1).last() == parts@[i as int]@);
            if i == 0 {
                assert(s@ == parts@[0]@);
            }
        }
    }
    assert(texts(parts@).take(parts@.len() as int) == texts(parts@));
    s
}

/// The decimal digit of a number below ten.
pub open spec fn digit_char(n: nat) -> char {
    ((n + 48) as u8) as char
}

/// A natural number in decimal notation.
pub open spec fn decimal(n: nat) -> Seq<char>
    decreases n,
{
    if n < 10 {
        seq![digit_char(n)]
    } else {
        decimal(n / 10).push(digit_char(n % 10))
    }
}

/// An integer in decimal notation, with a minus sign where it is negative.
pub open spec fn int_text(i: int) -> Seq<char> {
    if i < 0 {
        seq!['-'] + decimal((-i) as nat)
    } else {
        decimal(i as nat)
    }
}

fn push_decimal(s: &mut String, n: u64)
    ensures
        final(s)@ == old(s)@ + decimal(n as nat),
    decreases n,
{
    if n >= 10 {
        push_decimal(s, n / 10);
    }
    let digit = ((n % 10) as u8 + 48) as char;
    s.push(digit);
    assert(s@ =~= old(s)@ + decimal(n as nat));
}

/// An integer in decimal notation.
pub fn int_string(i: i64) -> (s: String)
    ensures
        s@ == int_text(i as int),
{
    let mut s = String::new();
    if i < 0 {
        s.push('-');
        let magnitude: u64 = (-(i + 1)) as u64 + 1;
        push_decimal(&mut s, magnitude);
        assert(s@ =~= int_text(i as int));
    } else {
        push_decimal(&mut s, i as u64);
        assert(s@ =~= int_text(i as int));
    }
    s
}

/// A decimal digit.
pub open spec fn is_digit(c: char) -> bool {
    '0' <= c <= '9'
}

/// The number that a sequence of decimal digits stands for.
pub open spec fn digits_value(s: Seq<char>) -> nat
    decreases s.len(),
{
    if s.len() == 0 {
        0
    } else {
        digits_value(s.drop_last()) * 10 + (s.last() as u32 - 48) as nat
    }
}

/// A sequence of decimal digits.
pub open spec fn all_digits(s: Seq<char>) -> bool {
    forall|i: int| 0 <= i < s.len() ==> is_digit(#[trigger] s[i])
}

/// The integer that `s` writes as an optional sign and at least one decimal digit. A minus sign
/// is a sign only where `signed` holds.
pub open spec fn int_value(s: Seq<char>, signed: bool) -> Option<int> {
    let sign = s.len() > 0 && (s[0] == '+' || (signed && s[0] == '-'));
    let digits = if sign {
        s.drop_first()
    } else {
        s
    };
    if digits.len() == 0 || !all_digits(digits) {
        None
    } else if sign && s[0] == '-' {
        Some(-(digits_value(digits) as int))
    } else {
        Some(digits_value(digits) as int)
    }
}

/// `int_value`, where it lies between `low` and `high`.
pub open spec fn int_value_within(s: Seq<char>, signed: bool, low: int, high: int) -> Option<int> {
    match int_value(s, signed) {
        Some(n) if low <= n <= high => Some(n),
        _ => None,
    }
}

proof fn lemma_digits_prefix(s: Seq<char>, i: int, j: int)
    requires
        0 <= i <= j <= s.len(),
        all_digits(s),
    ensures
        digits_value(s.take(i)) <= digits_value(s.take(j)),
    decreases j - i,
{
    if i < j {
        lemma_digits_prefix(s, i, j - 1);
        assert(s.take(j).drop_last() == s.take(j - 1));
    }
}

/// The value of the digits of `chars` from `from` on, if there are any, nothing else follows, and
/// the value is at most `high`.
fn parse_digits(chars: &Vec<char>, from: usize, high: u64) -> (r: Option<u64>)
    requires
        from <= chars@.len(),
    ensures
        ({
            let digits = chars@.subrange(from as int, chars@.len() as int);
            let ok = digits.len() > 0 && all_digits(digits) && digits_value(digits) <= high;
            r == if ok {
                Some(digits_value(digits) as u64)
            } else {
                None::<u64>
            }
        }),
{
    let ghost digits = chars@.subrange(from as int, chars@.len() as int);
    if from == chars.len() {
        return None;
    }
    for i in from..chars.len()
        invariant
            from <= chars@.len(),
            digits == chars@.subrange(from as int, chars@.len() as int),
            forall|k: int| 0 <= k < i - from ==> is_digit(#[trigger] digits[k]),
    {
        let c = chars[i];
        assert(digits[i - from] == c);
        if !('0' <= c && c <= '9') {
            return None;
        }
    }
    assert(all_digits(digits));
    let mut value: u64 = 0;
    for i in from..chars.len()
        invariant
            from <= chars@.len(),
            digits == chars@.subrange(from as int, chars@.len() as int),
            all_digits(digits),
            value == digits_value(digits.take(i - from)),
            value <= high,
    {
        assert(digits[i - from] == chars@[i as int]);
        let d: u64 = (chars[i] as u32 - 48) as u64;
        assert(digits.take(i - from + 1).drop_last() == digits.take(i - from));
        proof {
            lemma_digits_prefix(digits, i - from + 1, digits.len() as int);
            assert(digits.take(digits.len() as int) == digits);
        }
        if d > high || value > (high - d) / 10 {
            return None;
        }
        value = value * 10 + d;
    }
    assert(digits.take(digits.len() as int) == digits);
    Some(value)
}

/// Reads an unsigned decimal integer of at most `high`.
pub fn parse_unsigned(s: &str, high: u64) -> (r: Option<u64>)
    ensures
        r is Some <==> int_value_within(s@, false, 0, high as int) is Some,
        r is Some ==> r->0 == int_value_within(s@, false, 0, high as int)->0,
{
    let chars = chars_of(s);
    if chars.len() > 0 && chars[0] == '+' {
        assert(s@.drop_first() == s@.subrange(1, s@.len() as int));
        parse_digits(&chars, 1, high)
    } else {
        assert(s@ == s@.subrange(0, s@.len() as int));
        parse_digits(&chars, 0, high)
    }
}

/// Reads a signed decimal integer.
pub fn parse_signed(s: &str) -> (r: Option<i64>)
    ensures
        r is Some <==> int_value_within(s@, true, i64::MIN as int, i64::MAX as int) is Some,
        r is Some ==> r->0 == int_value_within(s@, true, i64::MIN as int, i64::MAX as int)->0,
{
    let chars = chars_of(s);
    if chars.len() > 0 && chars[0] == '-' {
        assert(s@.drop_first() == s@.subrange(1, s@.len() as int));
        let magnitude = parse_digits(&chars, 1, 0x8000_0000_0000_0000);
        match magnitude {
            None => None,
            Some(0x8000_0000_0000_0000) => Some(i64::MIN),
            Some(m) => Some(-(m as i64)),
        }
    } else {
        let from: usize = if chars.len() > 0 && chars[0] == '+' {
            1
        } else {
            0
        };
        assert(s@.drop_first() == s@.subrange(1, s@.len() as int));
        assert(s@ == s@.subrange(0, s@.len() as int));
        match parse_digits(&chars, from, 0x7fff_ffff_ffff_ffff) {
            None => None,
            Some(m) => Some(m as i64),
        }
    }
}

/// `a` comes before `b` in the order of code points.
pub open spec fn text_before(a: Seq<char>, b: Seq<char>) -> bool
    decreases a.len(),
{
    if b.len() == 0 {
        false
    } else if a.len() == 0 {
        true
    } else if a[0] != b[0] {
        a[0] < b[0]
    } else {
        text_before(a.drop_first(), b.drop_first())
    }
}

proof fn lemma_text_before_at(a: Seq<char>, b: Seq<char>, k: int)
    requires
        0 <= k <= a.len(),
        k <= b.len(),
        a.take(k) == b.take(k),
    ensures
        k == b.len() ==> !text_before(a, b),
        k < b.len() && k == a.len() ==> text_before(a, b),
        k < b.len() && k < a.len() && a[k] != b[k] ==> text_before(a, b) == (a[k] < b[k]),
    decreases k,
{
    if k > 0 {
        assert(a.take(k)[0] == a[0]);
        assert(b.take(k)[0] == b[0]);
        assert(a.drop_first().take(k - 1) =~= a.take(k).drop_first());
        assert(b.drop_first().take(k - 1) =~= b.take(k).drop_first());
        lemma_text_before_at(a.drop_first(), b.drop_first(), k - 1);
    }
}

/// Whether `a` comes before `b` in the order of code points.
pub fn comes_before(a: &str, b: &str) -> (r: bool)
    ensures
        r == text_before(a@, b@),
{
    let x = chars_of(a);
    let y = chars_of(b);
    let mut k: usize = 0;
    while k < x.len() && k < y.len() && x[k] == y[k]
        invariant
            x@ == a@,
            y@ == b@,
            k <= x@.len(),
            k <= y@.len(),
            x@.take(k as int) == y@.take(k as int),
        ensures
            k < x@.len() && k < y@.len() ==> x@[k as int] != y@[k as int],
        decreases x@.len() - k,
    {
        assert(x@.take(k + 1) =~= x@.take(k as int).push(x@[k as int]));
        assert(y@.take(k + 1) =~= y@.take(k as int).push(y@[k as int]));
        k += 1;
    }
    proof {
        lemma_text_before_at(a@, b@, k as int);
    }
    if k == y.len() {
        false
    } else if k == x.len() {
        true
    } else {
        x[k] < y[k]
    }
}

/// The order of texts is irreflexive.
pub proof fn text_before_irreflexive(a: Seq<char>)
    ensures
        !text_before(a, a),
    decreases a.len(),
{
    if a.len() > 0 {
        text_before_irreflexive(a.drop_first());
    }
}

/// The order of texts is transitive.
pub proof fn text_before_transitive(a: Seq<char>, b: Seq<char>, c: Seq<char>)
    requires
        text_before(a, b),
        text_before(b, c),
    ensures
        text_before(a, c),
    decreases a.len(),
{
    if a.len() > 0 && b.len() > 0 && c.len() > 0 && a[0] == b[0] && b[0] == c[0] {
        text_before_transitive(a.drop_first(), b.drop_first(), c.drop_first());
    }
}

/// Of two texts one comes before the other, or they are equal.
pub proof fn text_before_total(a: Seq<char>, b: Seq<char>)
    ensures
        text_before(a, b) || text_before(b, a) || a == b,
    decreases a.len(),
{
    if a.len() > 0 && b.len() > 0 && a[0] == b[0] {
        text_before_total(a.drop_first(), b.drop_first());
        if a.drop_first() == b.drop_first() {
            assert(a =~= seq![a[0]] + a.drop_first());
            assert(b =~= seq![b[0]] + b.drop_first());
        }
    } else if a.len() == 0 && b.len() == 0 {
        assert(a =~= b);
    }
}

/// What follows the last `c` in `s`, where there is one.
pub open spec fn after_last(s: Seq<char>, c: char) -> Option<Seq<char>>
    decreases s.len(),
{
    if s.len() == 0 {
        None
    } else if s.last() == c {
        Some(Seq::empty())
    } else {
        match after_last(s.drop_last(), c) {
            Some(rest) => Some(rest.push(s.last())),
            None => None,
        }
    }
}

pub(crate) proof fn lemma_after_last(s: Seq<char>, c: char, k: int)
    requires
        0 <= k <= s.len(),
        forall|i: int| k <= i < s.len() ==> #[trigger] s[i] != c,
    ensures
        k == 0 ==> after_last(s, c) is None,
        k > 0 && s[k - 1] == c ==> after_last(s, c) == Some(s.skip(k)),
    decreases s.len() - k,
{
    if k < s.len() {
        lemma_after_last(s.drop_last(), c, k);
        assert(s.drop_last().skip(k).push(s.last()) =~= s.skip(k));
    } else {
        assert(s.skip(k) =~= Seq::empty());
    }
}

/// What follows the last `c` in `s`, where there is one.
pub fn strip_to_last(s: &str, c: char) -> (r: Option<&str>)
    ensures
        str_in(r) == after_last(s@, c),
{
    let chars = chars_of(s);
    let mut k: usize = chars.len();
    while k > 0 && chars[k - 1] != c
        invariant
            chars@ == s@,
            k <= chars@.len(),
            forall|i: int| k <= i < chars@.len() ==> #[trigger] chars@[i] != c,
        ensures
            k > 0 ==> chars@[k - 1] == c,
        decreases k,
    {
        k -= 1;
    }
    proof {
        lemma_after_last(s@, c, k as int);
        assert(s@.subrange(k as int, s@.len() as int) =~= s@.skip(k as int));
    }
    if k == 0 {
        None
    } else {
        Some(s.substring_char(k, chars.len()))
    }
}

/// A text without white space at its ends is trimmed.
pub proof fn lemma_trimmed(s: Seq<char>)
    requires
        s.len() > 0 ==> !is_white(s[0]) && !is_white(s.last()),
    ensures
        trimmed(s) == s,
{
}

/// Nothing follows the last occurrence of what does not occur.
pub proof fn lemma_no_last(s: Seq<char>, c: char)
    requires
        forall|i: int| 0 <= i < s.len() ==> #[trigger] s[i] != c,
    ensures
        after_last(s, c) is None,
{
    lemma_after_last(s, c, 0);
}

/// What counts as white space: of the ASCII characters the blank and those from the tabulator to the
/// carriage return, and none that is visible; of the others those with the Unicode property.
pub proof fn law_white_space(c: char)
    ensures
        (c as u32) < 128 ==> (is_white(c) <==> c == ' ' || '\t' <= c <= '\r'),
        '!' <= c <= '~' ==> !is_white(c),
        (c as u32) >= 128 ==> (is_white(c) <==> c == '\u{85}' || c == '\u{a0}' || c == '\u{1680}'
            || '\u{2000}' <= c <= '\u{200a}' || c == '\u{2028}' || c == '\u{2029}' || c == '\u{202f}'
            || c == '\u{205f}' || c == '\u{3000}'),
{
}

proof fn lemma_stripped_start(s: Seq<char>, p: spec_fn(char) -> bool)
    ensures
        ({
            let n = s.len() - strip_start(s, p).len();
            &&& 0 <= n <= s.len()
            &&& strip_start(s, p) == s.skip(n)
            &&& forall|i: int| 0 <= i < n ==> p(#[trigger] s[i])
            &&& n < s.len() ==> !p(s[n])
        }),
    decreases s.len(),
{
    if s.len() > 0 && p(s[0]) {
        let rest = s.drop_first();
        lemma_stripped_start(rest, p);
        let n = s.len() - strip_start(s, p).len();
        assert(rest.skip(n - 1) =~= s.skip(n));
        assert forall|i: int| 0 <= i < n implies p(#[trigger] s[i]) by {
            if i > 0 {
                assert(rest[i - 1] == s[i]);
            }
        }
    } else {
        assert(s.skip(0) =~= s);
    }
}

proof fn lemma_stripped_end(s: Seq<char>, p: spec_fn(char) -> bool)
    ensures
        ({
            let n = strip_end(s, p).len();
            &&& 0 <= n <= s.len()
            &&& strip_end(s, p) == s.take(n as int)
            &&& forall|i: int| n <= i < s.len() ==> p(#[trigger] s[i])
            &&& n > 0 ==> !p(s[n - 1])
        }),
    decreases s.len(),
{
    if s.len() > 0 && p(s.last()) {
        let rest = s.drop_last();
        lemma_stripped_end(rest, p);
        let n = strip_end(s, p).len();
        assert(rest.take(n as int) =~= s.take(n as int));
        assert forall|i: int| n <= i < s.len() implies p(#[trigger] s[i]) by {
            if i < s.len() - 1 {
                assert(rest[i] == s[i]);
            }
        }
    } else {
        assert(s.take(s.len() as int) =~= s);
    }
}

proof fn lemma_stripped(s: Seq<char>, p: spec_fn(char) -> bool) -> (ends: (int, int))
    ensures
        ({
            let (i, j) = ends;
            let r = strip_end(strip_start(s, p), p);
            &&& 0 <= i <= j <= s.len()
            &&& r == s.subrange(i, j)
            &&& forall|k: int| 0 <= k < i ==> p(#[trigger] s[k])
            &&& forall|k: int| j <= k < s.len() ==> p(#[trigger] s[k])
            &&& i < j ==> !p(s[i]) && !p(s[j - 1])
        }),
{
    lemma_stripped_start(s, p);
    let rest = strip_start(s, p);
    lemma_stripped_end(rest, p);
    let i = s.len() - rest.len();
    let j = i + strip_end(rest, p).len();
    assert(rest.take(j - i) =~= s.subrange(i, j));
    assert forall|k: int| j <= k < s.len() implies p(#[trigger] s[k]) by {
        assert(rest[k - i] == s[k]);
    }
    if i < j {
        assert(rest[0] == s[i]);
        assert(rest[j - i - 1] == s[j - 1]);
    }
    (i, j)
}

/// A trimmed text is a piece of the text with nothing but white space before and after it, and neither
/// begins nor ends with white space.
pub proof fn law_trimmed(s: Seq<char>)
    ensures
        exists|i: int, j: int|
            {
                &&& 0 <= i <= j <= s.len()
                &&& trimmed(s) == #[trigger] s.subrange(i, j)
                &&& forall|k: int| 0 <= k < i ==> is_white(#[trigger] s[k])
                &&& forall|k: int| j <= k < s.len() ==> is_white(#[trigger] s[k])
            },
        trimmed(s).len() > 0 ==> !is_white(trimmed(s)[0]) && !is_white(trimmed(s).last()),
        trimmed(s).len() == 0 <==> forall|k: int| 0 <= k < s.len() ==> is_white(#[trigger] s[k]),
{
    let (i, j) = lemma_stripped(s, |c: char| is_white(c));
    let piece = s.subrange(i, j);
    assert(trimmed(s) == piece);
    if i < j {
        assert(!is_white(s[i]));
    }
}

/// A text without its quotes is a piece of the text with nothing but double quotes before and after
/// it, and neither begins nor ends with one.
pub proof fn law_unquoted(s: Seq<char>)
    ensures
        exists|i: int, j: int|
            {
                &&& 0 <= i <= j <= s.len()
                &&& unquoted(s) == #[trigger] s.subrange(i, j)
                &&& forall|k: int| 0 <= k < i ==> #[trigger] s[k] == '"'
                &&& forall|k: int| j <= k < s.len() ==> #[trigger] s[k] == '"'
            },
        unquoted(s).len() > 0 ==> unquoted(s)[0] != '"' && unquoted(s).last() != '"',
{
    let (i, j) = lemma_stripped(s, |c: char| c == '"');
    assert(unquoted(s) == s.subrange(i, j));
}

/// A text that has no quotes at its ends is what it is in quotes without them.
pub proof fn lemma_unquoted(s: Seq<char>)
    requires
        s.len() > 0 ==> s[0] != '"' && s.last() != '"',
    ensures
        unquoted(s) == s,
        unquoted(seq!['"'] + s + seq!['"']) == s,
{
    let p = |c: char| c == '"';
    let (i, j) = lemma_stripped(s, p);
    if s.len() > 0 {
        assert(i == 0);
        assert(j == s.len());
    }
    assert(s.subrange(i, j) =~= s);
    let q = seq!['"'] + s + seq!['"'];
    let (a, b) = lemma_stripped(q, p);
    if s.len() > 0 {
        assert(q[1] == s[0]);
        assert(q[s.len() as int] == s.last());
        if a < 1 {
            assert(q[a] == '"');
        }
        assert(a == 1);
        if b > s.len() + 1 {
            assert(q[b - 1] == '"');
        }
        assert(b == s.len() + 1);
    } else {
        if a < b {
            assert(q[a] == '"');
        }
    }
    assert(q.subrange(a, b) =~= s);
}

/// In small letters each ASCII capital is the letter 32 places on, and every other character stays.
pub proof fn law_lowered(s: Seq<char>, i: int)
    requires
        0 <= i < s.len(),
    ensures
        lowered(s).len() == s.len(),
        'A' <= s[i] <= 'Z' ==> lowered(s)[i] as u32 == s[i] as u32 + 32,
        !('A' <= s[i] <= 'Z') ==> lowered(s)[i] == s[i],
        lowered(lowered(s)) == lowered(s),
{
    assert(lowered(lowered(s)) =~= lowered(s));
}

/// A text occurs in another exactly if the other is made of something, the text, and something else.
pub proof fn law_occurs(part: Seq<char>, s: Seq<char>)
    ensures
        occurs(part, s) <==> exists|a: Seq<char>, b: Seq<char>| s == #[trigger] (a + part + b),
{
    if occurs(part, s) {
        let i = choose|i: int| occurs_at(part, s, i);
        let a = s.take(i);
        let b = s.skip(i + part.len());
        assert(s =~= a + part + b);
    }
    if exists|a: Seq<char>, b: Seq<char>| s == #[trigger] (a + part + b) {
        let (a, b) = choose|a: Seq<char>, b: Seq<char>| s == #[trigger] (a + part + b);
        assert(s.subrange(a.len() as int, (a.len() + part.len()) as int) =~= part);
        assert(occurs_at(part, s, a.len() as int));
    }
}

/// What follows a prefix is what the prefix has to be continued with.
pub proof fn law_after_prefix(s: Seq<char>, prefix: Seq<char>, rest: Seq<char>)
    ensures
        after_prefix(s, prefix) == Some(rest) <==> s == prefix + rest,
{
    if s == prefix + rest {
        assert(s.take(prefix.len() as int) =~= prefix);
        assert(s.skip(prefix.len() as int) =~= rest);
    }
    if after_prefix(s, prefix) == Some(rest) {
        assert(s =~= prefix + rest);
    }
}

/// `rest` follows an occurrence of a character in a text.
pub open spec fn follows(s: Seq<char>, c: char, rest: Seq<char>) -> bool {
    exists|before: Seq<char>| s == #[trigger] (before + seq![c] + rest)
}

/// What follows the last occurrence of a character holds it no more, and there is none exactly if the
/// character does not occur.
pub proof fn law_after_last(s: Seq<char>, c: char)
    ensures
        after_last(s, c) matches Some(rest) ==> !rest.contains(c) && follows(s, c, rest),
        after_last(s, c) is None <==> !s.contains(c),
    decreases s.len(),
{
    if s.len() > 0 {
        let init = s.drop_last();
        assert(s =~= init.push(s.last()));
        assert(s[s.len() - 1] == s.last());
        if s.last() == c {
            let rest = Seq::<char>::empty();
            assert(after_last(s, c) == Some(rest));
            assert(s =~= init + seq![c] + rest);
            assert(follows(s, c, rest));
            assert(!rest.contains(c));
        } else {
            law_after_last(init, c);
            if let Some(rest) = after_last(init, c) {
                assert(follows(init, c, rest));
                let before = choose|before: Seq<char>| init == #[trigger] (before + seq![c] + rest);
                let longer = rest.push(s.last());
                assert(after_last(s, c) == Some(longer));
                assert(s =~= before + seq![c] + longer);
                assert(follows(s, c, longer));
                assert(s[before.len() as int] == c);
                assert(s.contains(c));
                if longer.contains(c) {
                    let k = choose|k: int| 0 <= k < longer.len() && longer[k] == c;
                    assert(rest[k] == c);
                }
            } else {
                assert(after_last(s, c) is None);
                if s.contains(c) {
                    let k = choose|k: int| 0 <= k < s.len() && s[k] == c;
                    assert(init[k] == c);
                }
            }
        }
    }
}

/// Texts that are joined stand one after the other with the separator between each two: joining two
/// groups of them is joining each group, and the separator between.
pub proof fn law_joined(a: Seq<Seq<char>>, b: Seq<Seq<char>>, sep: Seq<char>)
    ensures
        joined(Seq::empty(), sep) == Seq::<char>::empty(),
        a.len() == 1 ==> joined(a, sep) == a[0],
        a.len() > 0 && b.len() > 0 ==> joined(a + b, sep) == joined(a, sep) + sep + joined(b, sep),
    decreases b.len(),
{
    if a.len() > 0 && b.len() > 0 {
        let init = b.drop_last();
        assert((a + b).drop_last() =~= a + init);
        assert((a + b).last() == b.last());
        if b.len() == 1 {
            assert(a + init =~= a);
        } else {
            law_joined(a, init, sep);
            assert(joined(a, sep) + sep + joined(init, sep) + sep + b.last() =~= joined(a, sep) + sep
                + (joined(init, sep) + sep + b.last()));
        }
    }
}

proof fn lemma_split_nonempty(s: Seq<char>, sep: char)
    ensures
        split_on(s, sep).len() > 0,
    decreases s.len(),
{
    if s.len() > 0 {
        lemma_split_nonempty(s.drop_last(), sep);
    }
}

/// A text is split at each separator: one without a separator stays whole, and of two texts with a
/// separator between them each is split.
pub proof fn law_split_on(a: Seq<char>, b: Seq<char>, sep: char)
    ensures
        !a.contains(sep) ==> split_on(a, sep) == seq![a],
        split_on(a + seq![sep] + b, sep) == split_on(a, sep) + split_on(b, sep),
    decreases a.len() + b.len(),
{
    if !a.contains(sep) && a.len() > 0 {
        let init = a.drop_last();
        assert forall|k: int| 0 <= k < init.len() implies init[k] != sep by {
            assert(a[k] == init[k]);
        }
        assert(!init.contains(sep));
        assert(a[a.len() - 1] == a.last());
        law_split_on(init, Seq::empty(), sep);
        assert(a =~= init.push(a.last()));
        assert(split_on(a, sep) =~= seq![a]);
    }
    if a.len() == 0 {
        assert(a =~= Seq::<char>::empty());
    }
    let whole = a + seq![sep] + b;
    lemma_split_nonempty(a, sep);
    lemma_split_nonempty(b, sep);
    if b.len() == 0 {
        assert(whole.drop_last() =~= a);
        assert(split_on(whole, sep) =~= split_on(a, sep) + split_on(b, sep));
    } else {
        let init = b.drop_last();
        law_split_on(a, init, sep);
        assert(whole.drop_last() =~= a + seq![sep] + init);
        assert(whole.last() == b.last());
        lemma_split_nonempty(init, sep);
        let before = split_on(a, sep) + split_on(init, sep);
        assert(before.last() == split_on(init, sep).last());
        assert(before.drop_last() =~= split_on(a, sep) + split_on(init, sep).drop_last());
        assert(split_on(whole, sep) =~= split_on(a, sep) + split_on(b, sep));
    }
}

/// A number is written digit by digit, the last of them last, without zeros before it, and a negative
/// one with a minus sign.
pub proof fn law_int_text(n: nat, digit: nat)
    requires
        digit < 10,
    ensures
        int_text(digit as int).len() == 1,
        int_text(digit as int)[0] as u32 == '0' as u32 + digit,
        n > 0 ==> int_text((10 * n + digit) as int) == int_text(n as int) + int_text(digit as int),
        n > 0 ==> int_text(-(n as int)) == seq!['-'] + int_text(n as int),
{
    if n > 0 {
        assert((10 * n + digit) / 10 == n);
        assert((10 * n + digit) % 10 == digit);
        assert(int_text((10 * n + digit) as int) =~= int_text(n as int) + int_text(digit as int));
    }
}

proof fn lemma_decimal_reads_back(n: nat)
    ensures
        decimal(n).len() > 0,
        all_digits(decimal(n)),
        digits_value(decimal(n)) == n,
    decreases n,
{
    if n >= 10 {
        lemma_decimal_reads_back(n / 10);
        assert(decimal(n).drop_last() =~= decimal(n / 10));
    } else {
        assert(decimal(n).drop_last() =~= Seq::<char>::empty());
        assert(digits_value(decimal(n).drop_last()) == 0);
    }
}

/// A number that is written reads back, also with a plus sign. Where there are no signs below zero, a
/// negative number does not read.
pub proof fn law_number_reads_back(n: nat)
    ensures
        int_value(int_text(n as int), true) == Some(n as int),
        int_value(int_text(n as int), false) == Some(n as int),
        int_value(seq!['+'] + int_text(n as int), false) == Some(n as int),
        int_value(seq!['+'] + int_text(n as int), true) == Some(n as int),
        n > 0 ==> int_value(int_text(-(n as int)), true) == Some(-(n as int)),
        n > 0 ==> int_value(int_text(-(n as int)), false) is None,
{
    lemma_decimal_reads_back(n);
    let digits = decimal(n);
    assert(is_digit(digits[0]));
    assert((seq!['+'] + digits).drop_first() =~= digits);
    assert((seq!['-'] + digits).drop_first() =~= digits);
    assert((seq!['-'] + digits)[0] == '-');
}

/// What holds anything but digits after its first character, or nothing but a sign, is no number.
pub proof fn law_what_is_no_number(s: Seq<char>, signed: bool)
    ensures
        s.len() == 0 ==> int_value(s, signed) is None,
        s.len() == 1 && !('0' <= s[0] <= '9') ==> int_value(s, signed) is None,
        s.len() > 0 && !('0' <= s[0] <= '9') && s[0] != '+' && s[0] != '-' ==> int_value(
            s,
            signed,
        ) is None,
        (exists|k: int| 0 < k < s.len() && !('0' <= #[trigger] s[k] <= '9')) ==> int_value(
            s,
            signed,
        ) is None,
{
    if exists|k: int| 0 < k < s.len() && !('0' <= #[trigger] s[k] <= '9') {
        let k = choose|k: int| 0 < k < s.len() && !('0' <= #[trigger] s[k] <= '9');
        assert(s.drop_first()[k - 1] == s[k]);
        assert(!is_digit(s[k]));
    }
    if s.len() > 0 && !('0' <= s[0] <= '9') {
        assert(!is_digit(s[0]));
    }
}

/// One digit more is ten times the number and the digit.
pub proof fn law_digit_by_digit(s: Seq<char>, c: char)
    requires
        s.len() > 0,
        forall|k: int| 0 <= k < s.len() ==> '0' <= #[trigger] s[k] <= '9',
        '0' <= c <= '9',
    ensures
        int_value(s, false) is Some,
        int_value(s.push(c), false) == Some(10 * int_value(s, false)->0 + (c as u32 - '0' as u32)),
{
    let t = s.push(c);
    assert(is_digit(s[0]));
    assert(t[0] == s[0]);
    assert forall|k: int| 0 <= k < t.len() implies is_digit(#[trigger] t[k]) by {
        if k < s.len() {
            assert(t[k] == s[k]);
        }
    }
    assert forall|k: int| 0 <= k < s.len() implies is_digit(#[trigger] s[k]) by {}
    assert(t.drop_last() =~= s);
}

/// A number is taken where it lies within the bounds, the bounds among them, and only there.
pub proof fn law_numbers_within_bounds(s: Seq<char>, signed: bool, low: int, high: int, n: int)
    ensures
        int_value_within(s, signed, low, high) == Some(n) <==> int_value(s, signed) == Some(n)
            && low <= n && n <= high,
{
}

/// Of two different texts the one comes first that has the lesser character where they first differ,
/// or that ends there.
pub proof fn law_text_before(a: Seq<char>, b: Seq<char>, k: int)
    requires
        0 <= k <= a.len(),
        k <= b.len(),
        forall|i: int| 0 <= i < k ==> a[i] == b[i],
    ensures
        k < a.len() && k < b.len() && a[k] < b[k] ==> text_before(a, b) && !text_before(b, a),
        k == a.len() && k < b.len() ==> text_before(a, b) && !text_before(b, a),
        k == a.len() && k == b.len() ==> !text_before(a, b),
{
    assert(a.take(k) =~= b.take(k));
    lemma_text_before_at(a, b, k);
    lemma_text_before_at(b, a, k);
}

proof fn lemma_strip_start_last(s: Seq<char>, p: spec_fn(char) -> bool)
    requires
        s.len() > 0,
        !p(s.last()),
    ensures
        strip_start(s, p).len() > 0,
        strip_start(s, p).last() == s.last(),
    decreases s.len(),
{
    if p(s[0]) {
        assert(s.len() > 1);
        assert(s.drop_first().last() == s.last());
        lemma_strip_start_last(s.drop_first(), p);
    }
}

/// What ends in no white space keeps its end when it is trimmed.
pub proof fn law_trimmed_end(s: Seq<char>)
    requires
        s.len() > 0,
        !is_white(s.last()),
    ensures
        trimmed(s).len() > 0,
        trimmed(s).last() == s.last(),
{
    lemma_strip_start_last(s, |c: char| is_white(c));
}

} // verus!
