//! Text handling shared by the parsers and report builders: character access,
//! integer parsing and rendering, tokenising, joining and searching.

use vstd::prelude::*;

verus! {

/// Whether `a` and `b` hold the same characters.
#[verifier::external_body]
pub(crate) fn str_eq(a: &str, b: &str) -> (res: bool)
    ensures
        res == (a@ == b@),
{
    a == b
}

/// Appends one character to `s`.
#[verifier::external_body]
pub(crate) fn push_char(s: &mut String, c: char)
    ensures
        final(s)@ == old(s)@.push(c),
{
    s.push(c)
}

/// The characters of `s`, in order.
pub fn chars_of(s: &str) -> (res: Vec<char>)
    ensures
        res@ == s@,
{
    let mut res: Vec<char> = Vec::new();
    for c in it: s.chars()
        invariant
            res@ == it.seq().take(it.index() as int),
    {
        res.push(c);
    }
    res
}

/// A string holding the characters `v[from..to]`.
pub fn string_from_chars(v: &Vec<char>, from: usize, to: usize) -> (res: String)
    requires
        from <= to <= v@.len(),
    ensures
        res@ == v@.subrange(from as int, to as int),
{
    let mut res = String::new();
    let mut i = from;
    while i < to
        invariant
            from <= i <= to <= v@.len(),
            res@ == v@.subrange(from as int, i as int),
        decreases to - i,
    {
        push_char(&mut res, v[i]);
        assert(v@.subrange(from as int, i + 1) =~= v@.subrange(from as int, i as int).push(v@[i as int]));
        i = i + 1;
    }
    res
}

/// The views of a sequence of strings.
pub open spec fn views(v: Seq<String>) -> Seq<Seq<char>> {
    v.map_values(|s: String| s@)
}

// ---------------------------------------------------------------------------
// Rendering numbers and booleans

/// The decimal digit `d` as a character.
pub open spec fn digit_char(d: nat) -> char {
    if d == 0 { '0' }
    else if d == 1 { '1' }
    else if d == 2 { '2' }
    else if d == 3 { '3' }
    else if d == 4 { '4' }
    else if d == 5 { '5' }
    else if d == 6 { '6' }
    else if d == 7 { '7' }
    else if d == 8 { '8' }
    else { '9' }
}

/// The decimal representation of `n`, without leading zeros.
pub open spec fn decimal(n: nat) -> Seq<char>
    decreases n,
{
    if n < 10 {
        seq![digit_char(n)]
    } else {
        decimal(n / 10).push(digit_char(n % 10))
    }
}

fn digit_to_char(d: u64) -> (c: char)
    requires
        d < 10,
    ensures
        c == digit_char(d as nat),
{
    if d == 0 { '0' }
    else if d == 1 { '1' }
    else if d == 2 { '2' }
    else if d == 3 { '3' }
    else if d == 4 { '4' }
    else if d == 5 { '5' }
    else if d == 6 { '6' }
    else if d == 7 { '7' }
    else if d == 8 { '8' }
    else { '9' }
}

/// Appends the decimal representation of `n` to `s`.
pub fn push_decimal(s: &mut String, n: u64)
    ensures
        final(s)@ == old(s)@ + decimal(n as nat),
    decreases n,
{
    if n >= 10 {
        push_decimal(s, n / 10);
    }
    let c = digit_to_char(n % 10);
    push_char(s, c);
    assert(final(s)@ =~= old(s)@ + decimal(n as nat));
}

/// The decimal representation of the signed number `i`.
pub open spec fn signed_decimal(i: int) -> Seq<char> {
    if i < 0 { seq!['-'] + decimal((-i) as nat) } else { decimal(i as nat) }
}

/// Appends the decimal representation of the signed number `i` to `s`.
pub fn push_signed_decimal(s: &mut String, i: i64)
    ensures
        final(s)@ == old(s)@ + signed_decimal(i as int),
{
    if i < 0 {
        push_char(s, '-');
        let m: u64 = if i == i64::MIN { 0x8000_0000_0000_0000u64 } else { (-i) as u64 };
        push_decimal(s, m);
        assert(final(s)@ =~= old(s)@ + signed_decimal(i as int));
    } else {
        push_decimal(s, i as u64);
    }
}

/// The lower-case hexadecimal digit `d`.
pub open spec fn hex_digit_char(d: nat) -> char {
    if d < 10 { digit_char(d) }
    else if d == 10 { 'a' }
    else if d == 11 { 'b' }
    else if d == 12 { 'c' }
    else if d == 13 { 'd' }
    else if d == 14 { 'e' }
    else { 'f' }
}

/// The lower-case hexadecimal representation of `n`, without leading zeros.
pub open spec fn hex(n: nat) -> Seq<char>
    decreases n,
{
    if n < 16 {
        seq![hex_digit_char(n)]
    } else {
        hex(n / 16).push(hex_digit_char(n % 16))
    }
}

fn hex_digit_to_char(d: u64) -> (c: char)
    requires
        d < 16,
    ensures
        c == hex_digit_char(d as nat),
{
    if d < 10 { digit_to_char(d) }
    else if d == 10 { 'a' }
    else if d == 11 { 'b' }
    else if d == 12 { 'c' }
    else if d == 13 { 'd' }
    else if d == 14 { 'e' }
    else { 'f' }
}

/// Appends the lower-case hexadecimal representation of `n` to `s`.
pub fn push_hex(s: &mut String, n: u64)
    ensures
        final(s)@ == old(s)@ + hex(n as nat),
    decreases n,
{
    if n >= 16 {
        push_hex(s, n / 16);
    }
    let c = hex_digit_to_char(n % 16);
    push_char(s, c);
    assert(final(s)@ =~= old(s)@ + hex(n as nat));
}

/// `"true"` or `"false"`.
pub open spec fn bool_text(b: bool) -> Seq<char> {
    if b { "true"@ } else { "false"@ }
}

pub fn bool_str(b: bool) -> (res: &'static str)
    ensures
        res@ == bool_text(b),
{
    if b { "true" } else { "false" }
}

// ---------------------------------------------------------------------------
// Joining

/// The items separated by `sep`.
pub open spec fn join(items: Seq<Seq<char>>, sep: Seq<char>) -> Seq<char>
    decreases items.len(),
{
    if items.len() == 0 {
        Seq::empty()
    } else if items.len() == 1 {
        items[0]
    } else {
        join(items.drop_last(), sep) + sep + items.last()
    }
}

/// Joining one more item onto a prefix.
pub proof fn lemma_join_step(items: Seq<Seq<char>>, sep: Seq<char>, i: int)
    requires
        0 <= i < items.len(),
    ensures
        join(items.take(i + 1), sep) == if i == 0 {
            items[0]
        } else {
            join(items.take(i), sep) + sep + items[i]
        },
{
    assert(items.take(i + 1).drop_last() =~= items.take(i));
}

/// Appends `item` to `s`, preceded by `sep` unless it is the first item.
pub fn push_joined(s: &mut String, first: bool, sep: &str, item: &str)
    ensures
        final(s)@ == if first { old(s)@ + item@ } else { old(s)@ + sep@ + item@ },
{
    if !first {
        s.append(sep);
    }
    s.append(item);
}

// ---------------------------------------------------------------------------
// Searching

/// Whether `p` occurs in `s` at position `i`.
pub open spec fn occurs_at(s: Seq<char>, p: Seq<char>, i: int) -> bool {
    0 <= i && i + p.len() <= s.len() && s.subrange(i, i + p.len()) == p
}

/// Whether `p` occurs somewhere in `s`.
pub open spec fn has_substring(s: Seq<char>, p: Seq<char>) -> bool {
    exists|i: int| occurs_at(s, p, i)
}

fn matches_at(s: &Vec<char>, p: &Vec<char>, i: usize) -> (res: bool)
    requires
        i + p@.len() <= s@.len(),
    ensures
        res == occurs_at(s@, p@, i as int),
{
    let mut j: usize = 0;
    while j < p.len()
        invariant
            0 <= j <= p@.len(),
            i + p@.len() <= s@.len(),
            forall|k: int| 0 <= k < j ==> s@[i + k] == p@[k],
        decreases p@.len() - j,
    {
        let n = s.len();
        assert(i + j < n);
        if s[i + j] != p[j] {
            assert(s@.subrange(i as int, i + p@.len())[j as int] != p@[j as int]);
            return false;
        }
        j = j + 1;
    }
    assert(s@.subrange(i as int, i + p@.len()) =~= p@);
    true
}

/// Whether `pat` occurs in `s`.
pub fn contains_str(s: &str, pat: &str) -> (res: bool)
    ensures
        res == has_substring(s@, pat@),
{
    let sv = chars_of(s);
    let pv = chars_of(pat);
    if pv.len() > sv.len() {
        assert forall|i: int| !occurs_at(s@, pat@, i) by {}
        return false;
    }
    if pv.len() == 0 {
        assert(s@.subrange(0, 0) =~= pat@);
        assert(occurs_at(s@, pat@, 0));
        return true;
    }
    let last = sv.len() - pv.len();
    let n = sv.len();
    assert(sv@.len() == n);
    let mut i: usize = 0;
    while i <= last
        invariant
            sv@ == s@,
            pv@ == pat@,
            last == sv@.len() - pv@.len(),
            pv@.len() >= 1,
            sv@.len() <= usize::MAX,
            0 <= i <= last + 1,
            forall|k: int| 0 <= k < i ==> !occurs_at(s@, pat@, k),
        decreases last + 1 - i,
    {
        if matches_at(&sv, &pv, i) {
            return true;
        }
        i = i + 1;
    }
    assert forall|k: int| !occurs_at(s@, pat@, k) by {}
    false
}

/// Whether `s` begins with `pat`.
pub fn starts_with_str(s: &str, pat: &str) -> (res: bool)
    ensures
        res == pat@.is_prefix_of(s@),
{
    let sv = chars_of(s);
    let pv = chars_of(pat);
    if pv.len() > sv.len() {
        return false;
    }
    let r = matches_at(&sv, &pv, 0);
    assert(r == occurs_at(s@, pat@, 0));
    r
}

// ---------------------------------------------------------------------------
// Tokenising

/// ASCII whitespace: space, tab, line feed, form feed, carriage return.
pub open spec fn is_ascii_ws(c: char) -> bool {
    c == ' ' || c == '\t' || c == '\n' || c == '\x0C' || c == '\r'
}

/// Number of leading characters of `s` that are not ASCII whitespace.
pub open spec fn word_len(s: Seq<char>) -> nat
    decreases s.len(),
{
    if s.len() == 0 || is_ascii_ws(s[0]) {
        0
    } else {
        1 + word_len(s.drop_first())
    }
}

/// The maximal runs of non-whitespace characters of `s`, in order.
pub open spec fn tokens(s: Seq<char>) -> Seq<Seq<char>>
    decreases s.len(),
{
    if s.len() == 0 {
        Seq::empty()
    } else if is_ascii_ws(s[0]) {
        tokens(s.drop_first())
    } else {
        proof {
            lemma_word_len(s);
        }
        let n = word_len(s);
        seq![s.take(n as int)] + tokens(s.skip(n as int))
    }
}

pub proof fn lemma_word_len(s: Seq<char>)
    ensures
        word_len(s) <= s.len(),
        forall|k: int| 0 <= k < word_len(s) ==> !is_ascii_ws(#[trigger] s[k]),
        word_len(s) < s.len() ==> is_ascii_ws(s[word_len(s) as int]),
    decreases s.len(),
{
    if s.len() > 0 && !is_ascii_ws(s[0]) {
        lemma_word_len(s.drop_first());
        assert forall|k: int| 0 <= k < word_len(s) implies !is_ascii_ws(#[trigger] s[k]) by {
            if k > 0 {
                assert(s[k] == s.drop_first()[k - 1]);
            }
        }
    }
}

/// `word_len` of a suffix that starts inside a word.
pub proof fn lemma_word_len_skip(s: Seq<char>, i: int)
    requires
        0 <= i <= word_len(s),
    ensures
        word_len(s.skip(i)) == word_len(s) - i,
    decreases i,
{
    lemma_word_len(s);
    if i > 0 {
        lemma_word_len_skip(s.drop_first(), i - 1);
        assert(s.drop_first().skip(i - 1) =~= s.skip(i));
    } else {
        assert(s.skip(0) =~= s);
    }
}

/// The whitespace-separated tokens of `s`.
pub fn split_ascii_whitespace(s: &str) -> (res: Vec<String>)
    ensures
        views(res@) == tokens(s@),
{
    let v = chars_of(s);
    let mut res: Vec<String> = Vec::new();
    let mut i: usize = 0;
    assert(v@.skip(0) =~= v@);
    assert(views(res@) =~= Seq::<Seq<char>>::empty());
    assert(views(res@) + tokens(v@.skip(0)) =~= tokens(s@));
    while i < v.len()
        invariant
            v@ == s@,
            0 <= i <= v@.len(),
            views(res@) + tokens(v@.skip(i as int)) == tokens(s@),
        decreases v@.len() - i,
    {
        let ghost rest = v@.skip(i as int);
        if v[i] == ' ' || v[i] == '\t' || v[i] == '\n' || v[i] == '\x0C' || v[i] == '\r' {
            assert(rest.drop_first() =~= v@.skip(i + 1));
            i = i + 1;
        } else {
            let start = i;
            proof {
                lemma_word_len(rest);
            }
            while i < v.len() && !(v[i] == ' ' || v[i] == '\t' || v[i] == '\n' || v[i] == '\x0C'
                || v[i] == '\r')
                invariant
                    v@ == s@,
                    start <= i <= v@.len(),
                    rest == v@.skip(start as int),
                    i - start <= word_len(rest),
                    word_len(rest) <= rest.len(),
                    forall|k: int| 0 <= k < word_len(rest) ==> !is_ascii_ws(#[trigger] rest[k]),
                    word_len(rest) < rest.len() ==> is_ascii_ws(rest[word_len(rest) as int]),
                decreases v@.len() - i,
            {
                assert(rest[i - start] == v@[i as int]);
                i = i + 1;
            }
            assert(i - start == word_len(rest)) by {
                if i < v@.len() {
                    assert(rest[i - start] == v@[i as int]);
                }
            }
            let tok = string_from_chars(&v, start, i);
            let ghost old_res = res@;
            res.push(tok);
            assert(rest.take(word_len(rest) as int) =~= v@.subrange(start as int, i as int));
            assert(rest.skip(word_len(rest) as int) =~= v@.skip(i as int));
            assert(views(res@) =~= views(old_res).push(tok@));
            assert(tokens(rest) == seq![rest.take(word_len(rest) as int)] + tokens(rest.skip(word_len(rest) as int)));
            assert(views(res@) + tokens(v@.skip(i as int)) =~= views(old_res) + tokens(rest));
        }
    }
    assert(v@.skip(i as int) =~= Seq::<char>::empty());
    assert(views(res@) =~= views(res@) + tokens(v@.skip(i as int)));
    res
}

// ---------------------------------------------------------------------------
// Parsing integers

/// The reasons for which an integer cannot be parsed.
#[derive(Clone, Copy, Debug, PartialEq, Eq, Structural)]
pub enum IntErrorKind {
    Empty,
    InvalidDigit,
    PosOverflow,
    NegOverflow,
}

impl IntErrorKind {
    /// The text by which the standard library describes the error.
    pub open spec fn spec_message(self) -> Seq<char> {
        match self {
            IntErrorKind::Empty => "cannot parse integer from empty string"@,
            IntErrorKind::InvalidDigit => "invalid digit found in string"@,
            IntErrorKind::PosOverflow => "number too large to fit in target type"@,
            IntErrorKind::NegOverflow => "number too small to fit in target type"@,
        }
    }

    pub fn message(&self) -> (res: &'static str)
        ensures
            res@ == self.spec_message(),
    {
        match self {
            IntErrorKind::Empty => "cannot parse integer from empty string",
            IntErrorKind::InvalidDigit => "invalid digit found in string",
            IntErrorKind::PosOverflow => "number too large to fit in target type",
            IntErrorKind::NegOverflow => "number too small to fit in target type",
        }
    }
}

/// Value of `c` as a digit in base `radix` (10 or 16), if it is one.
pub open spec fn digit_value(c: char, radix: nat) -> Option<nat> {
    if '0' <= c && c <= '9' {
        Some((c as nat - '0' as nat) as nat)
    } else if radix == 16 && 'a' <= c && c <= 'f' {
        Some((c as nat - 'a' as nat + 10) as nat)
    } else if radix == 16 && 'A' <= c && c <= 'F' {
        Some((c as nat - 'A' as nat + 10) as nat)
    } else {
        None
    }
}

/// Number of leading digits of `s` in base `radix`.
pub open spec fn leading_digits(s: Seq<char>, radix: nat) -> nat
    decreases s.len(),
{
    if s.len() == 0 || digit_value(s[0], radix) is None {
        0
    } else {
        1 + leading_digits(s.drop_first(), radix)
    }
}

/// Value of the digit string `s` in base `radix`.
pub open spec fn digits_value(s: Seq<char>, radix: nat) -> nat
    decreases s.len(),
{
    if s.len() == 0 {
        0
    } else {
        digits_value(s.drop_last(), radix) * radix + match digit_value(s.last(), radix) {
            Some(d) => d,
            None => 0,
        }
    }
}

/// What the standard library's `from_str_radix` gives for an unsigned type
/// whose largest value is `max`, on the text `s`.
pub open spec fn parse_unsigned(s: Seq<char>, radix: nat, max: nat) -> Result<nat, IntErrorKind> {
    if s.len() == 0 {
        Err(IntErrorKind::Empty)
    } else if s.len() == 1 && (s[0] == '+' || s[0] == '-') {
        Err(IntErrorKind::InvalidDigit)
    } else {
        let body = if s[0] == '+' { s.drop_first() } else { s };
        let k = leading_digits(body, radix);
        if digits_value(body.take(k as int), radix) > max {
            Err(IntErrorKind::PosOverflow)
        } else if k < body.len() {
            Err(IntErrorKind::InvalidDigit)
        } else {
            Ok(digits_value(body, radix))
        }
    }
}

/// The leading digits are digits, and the character after them is none.
pub proof fn lemma_leading_digits(s: Seq<char>, radix: nat)
    ensures
        leading_digits(s, radix) <= s.len(),
        forall|j: int| 0 <= j < leading_digits(s, radix) ==> (digit_value(#[trigger] s[j], radix) is Some),
        leading_digits(s, radix) < s.len() ==> digit_value(s[leading_digits(s, radix) as int], radix) is None,
    decreases s.len(),
{
    if s.len() > 0 && digit_value(s[0], radix) is Some {
        lemma_leading_digits(s.drop_first(), radix);
        assert forall|j: int| 0 <= j < leading_digits(s, radix) implies (digit_value(#[trigger] s[j], radix) is Some) by {
            if j > 0 {
                assert(s[j] == s.drop_first()[j - 1]);
            }
        }
    }
}

/// A longer prefix of digits is worth at least as much.
proof fn lemma_digits_value_mono(s: Seq<char>, radix: nat, i: int, j: int)
    requires
        radix >= 1,
        0 <= i <= j <= s.len(),
    ensures
        digits_value(s.take(i), radix) <= digits_value(s.take(j), radix),
    decreases j - i,
{
    if i < j {
        lemma_digits_value_mono(s, radix, i, j - 1);
        assert(s.take(j).drop_last() =~= s.take(j - 1));
        let v = digits_value(s.take(j - 1), radix);
        assert(v * radix >= v) by (nonlinear_arith)
            requires radix >= 1;
    }
}

fn char_digit_value(c: char, radix: u32) -> (res: Option<u64>)
    requires
        radix == 10 || radix == 16,
    ensures
        match digit_value(c, radix as nat) {
            Some(d) => res == Some(d as u64),
            None => res is None,
        },
        res matches Some(d) ==> d < radix,
{
    if '0' <= c && c <= '9' {
        Some((c as u32 - '0' as u32) as u64)
    } else if radix == 16 && 'a' <= c && c <= 'f' {
        Some((c as u32 - 'a' as u32 + 10) as u64)
    } else if radix == 16 && 'A' <= c && c <= 'F' {
        Some((c as u32 - 'A' as u32 + 10) as u64)
    } else {
        None
    }
}

/// Parses `s` as `from_str_radix` does for an unsigned type whose largest value is `max`.
pub fn parse_unsigned_exec(s: &str, radix: u32, max: u64) -> (res: Result<u64, IntErrorKind>)
    requires
        radix == 10 || radix == 16,
    ensures
        match parse_unsigned(s@, radix as nat, max as nat) {
            Ok(v) => res == Ok::<u64, IntErrorKind>(v as u64),
            Err(e) => res == Err::<u64, IntErrorKind>(e),
        },
        res matches Ok(v) ==> v <= max,
        parse_unsigned(s@, radix as nat, max as nat) matches Ok(v) ==> v <= max,
{
    let v = chars_of(s);
    if v.len() == 0 {
        return Err(IntErrorKind::Empty);
    }
    if v.len() == 1 && (v[0] == '+' || v[0] == '-') {
        return Err(IntErrorKind::InvalidDigit);
    }
    let start: usize = if v[0] == '+' { 1 } else { 0 };
    let ghost body = if s@[0] == '+' { s@.drop_first() } else { s@ };
    assert(body =~= v@.skip(start as int));
    proof {
        lemma_leading_digits(body, radix as nat);
    }
    let ghost k = leading_digits(body, radix as nat);
    let mut acc: u64 = 0;
    let mut i: usize = start;
    while i < v.len()
        invariant
            v@ == s@,
            radix == 10 || radix == 16,
            start <= i <= v@.len(),
            s@.len() != 0,
            !(s@.len() == 1 && (s@[0] == '+' || s@[0] == '-')),
            body == (if s@[0] == '+' { s@.drop_first() } else { s@ }),
            body == v@.skip(start as int),
            i - start <= k,
            k == leading_digits(body, radix as nat),
            k <= body.len(),
            forall|j: int| 0 <= j < k ==> (digit_value(#[trigger] body[j], radix as nat) is Some),
            k < body.len() ==> digit_value(body[k as int], radix as nat) is None,
            acc == digits_value(body.take(i - start), radix as nat),
            acc <= max,
        decreases v@.len() - i,
    {
        assert(body[i - start] == v@[i as int]);
        let d = char_digit_value(v[i], radix);
        match d {
            None => {
                assert(i - start == k);
                return Err(IntErrorKind::InvalidDigit);
            }
            Some(d) => {
                assert(acc as u128 * radix as u128 + d as u128 <= 0xffff_ffff_ffff_ffffu128 * 16 + 16) by (nonlinear_arith)
                    requires
                        acc <= 0xffff_ffff_ffff_ffffu64,
                        radix <= 16,
                        d < 16;
                let wide: u128 = acc as u128 * radix as u128 + d as u128;
                proof {
                    assert(body.take(i - start + 1).drop_last() =~= body.take(i - start));
                    assert(body.take(i - start + 1).last() == body[i - start]);
                    assert(wide == digits_value(body.take(i - start + 1), radix as nat));
                }
                if wide > max as u128 {
                    proof {
                        assert(i - start < k);
                        lemma_digits_value_mono(body, radix as nat, i - start + 1, k as int);
                    }
                    return Err(IntErrorKind::PosOverflow);
                }
                acc = wide as u64;
                i = i + 1;
            }
        }
    }
    assert(i - start == body.len());
    assert(k == body.len());
    assert(body.take(body.len() as int) =~= body);
    Ok(acc)
}

/// What the standard library's `str::parse::<i32>` gives on `s`.
pub open spec fn parse_i32(s: Seq<char>) -> Result<int, IntErrorKind> {
    if s.len() >= 2 && s[0] == '-' {
        let body = s.drop_first();
        if body[0] == '+' || body[0] == '-' {
            Err(IntErrorKind::InvalidDigit)
        } else {
            match parse_unsigned(body, 10, 0x8000_0000) {
                Ok(v) => Ok(-v),
                Err(IntErrorKind::PosOverflow) => Err(IntErrorKind::NegOverflow),
                Err(e) => Err(e),
            }
        }
    } else {
        match parse_unsigned(s, 10, 0x7fff_ffff) {
            Ok(v) => Ok(v as int),
            Err(e) => Err(e),
        }
    }
}

/// Parses `s` as `str::parse::<i32>` does.
pub fn parse_i32_exec(s: &str) -> (res: Result<i32, IntErrorKind>)
    ensures
        match parse_i32(s@) {
            Ok(v) => res == Ok::<i32, IntErrorKind>(v as i32),
            Err(e) => res == Err::<i32, IntErrorKind>(e),
        },
        parse_i32(s@) matches Ok(v) ==> i32::MIN <= v <= i32::MAX,
{
    let n = s.unicode_len();
    if n >= 2 && s.get_char(0) == '-' {
        let body = s.substring_char(1, n);
        assert(body@ =~= s@.drop_first());
        let c = body.get_char(0);
        if c == '+' || c == '-' {
            return Err(IntErrorKind::InvalidDigit);
        }
        assert(body@[0] != '+');
        assert(parse_i32(s@) == match parse_unsigned(body@, 10, 0x8000_0000) {
            Ok(v) => Ok(-v),
            Err(IntErrorKind::PosOverflow) => Err(IntErrorKind::NegOverflow),
            Err(e) => Err::<int, IntErrorKind>(e),
        });
        match parse_unsigned_exec(body, 10, 0x8000_0000) {
            Ok(v) => {
                let r = (0i64 - (v as i64)) as i32;
                assert(r == -v);
                Ok(r)
            }
            Err(IntErrorKind::PosOverflow) => Err(IntErrorKind::NegOverflow),
            Err(e) => Err(e),
        }
    } else {
        match parse_unsigned_exec(s, 10, 0x7fff_ffff) {
            Ok(v) => Ok(v as i32),
            Err(e) => Err(e),
        }
    }
}

// ---------------------------------------------------------------------------
// Whitespace and fields

/// An ASCII decimal digit.
pub open spec fn is_digit(c: char) -> bool {
    '0' <= c && c <= '9'
}

/// An ASCII letter.
pub open spec fn is_alpha(c: char) -> bool {
    ('a' <= c && c <= 'z') || ('A' <= c && c <= 'Z')
}

pub fn is_digit_exec(c: char) -> (res: bool)
    ensures
        res == is_digit(c),
{
    '0' <= c && c <= '9'
}

/// Unicode white space, as `char::is_whitespace` decides.
pub open spec fn is_unicode_ws(c: char) -> bool {
    ('\t' <= c && c <= '\r') || c == ' ' || c == '\u{85}' || c == '\u{a0}' || c == '\u{1680}'
        || ('\u{2000}' <= c && c <= '\u{200a}') || c == '\u{2028}' || c == '\u{2029}' || c == '\u{202f}'
        || c == '\u{205f}' || c == '\u{3000}'
}

pub fn is_unicode_ws_exec(c: char) -> (res: bool)
    ensures
        res == is_unicode_ws(c),
{
    ('\t' <= c && c <= '\r') || c == ' ' || c == '\u{85}' || c == '\u{a0}' || c == '\u{1680}'
        || ('\u{2000}' <= c && c <= '\u{200a}') || c == '\u{2028}' || c == '\u{2029}' || c == '\u{202f}'
        || c == '\u{205f}' || c == '\u{3000}'
}

/// Number of leading white-space characters of `s`.
pub open spec fn leading_ws(s: Seq<char>) -> nat
    decreases s.len(),
{
    if s.len() == 0 || !is_unicode_ws(s[0]) {
        0
    } else {
        1 + leading_ws(s.drop_first())
    }
}

/// Number of trailing white-space characters of `s`.
pub open spec fn trailing_ws(s: Seq<char>) -> nat
    decreases s.len(),
{
    if s.len() == 0 || !is_unicode_ws(s.last()) {
        0
    } else {
        1 + trailing_ws(s.drop_last())
    }
}

/// `s` without leading and trailing white space, as `str::trim` gives it.
pub open spec fn trim(s: Seq<char>) -> Seq<char> {
    if leading_ws(s) == s.len() {
        Seq::empty()
    } else {
        s.subrange(leading_ws(s) as int, s.len() - trailing_ws(s))
    }
}

proof fn lemma_leading_ws(s: Seq<char>, i: int)
    requires
        0 <= i <= s.len(),
        forall|k: int| 0 <= k < i ==> is_unicode_ws(#[trigger] s[k]),
        i == s.len() || !is_unicode_ws(s[i]),
    ensures
        leading_ws(s) == i,
    decreases i,
{
    if i > 0 {
        assert forall|k: int| 0 <= k < i - 1 implies is_unicode_ws(#[trigger] s.drop_first()[k]) by {
            assert(s.drop_first()[k] == s[k + 1]);
        }
        if i < s.len() {
            assert(s.drop_first()[i - 1] == s[i]);
        }
        lemma_leading_ws(s.drop_first(), i - 1);
    }
}

proof fn lemma_trailing_ws(s: Seq<char>, j: int)
    requires
        0 <= j <= s.len(),
        forall|k: int| j <= k < s.len() ==> is_unicode_ws(#[trigger] s[k]),
        j == 0 || !is_unicode_ws(s[j - 1]),
    ensures
        trailing_ws(s) == s.len() - j,
    decreases s.len() - j,
{
    if j < s.len() {
        assert forall|k: int| j <= k < s.len() - 1 implies is_unicode_ws(#[trigger] s.drop_last()[k]) by {
            assert(s.drop_last()[k] == s[k]);
        }
        if j > 0 {
            assert(s.drop_last()[j - 1] == s[j - 1]);
        }
        lemma_trailing_ws(s.drop_last(), j);
    }
}

/// `s` without leading and trailing white space.
pub fn trim_exec(s: &str) -> (res: String)
    ensures
        res@ == trim(s@),
{
    let v = chars_of(s);
    let mut i: usize = 0;
    while i < v.len() && is_unicode_ws_exec(v[i])
        invariant
            v@ == s@,
            0 <= i <= v@.len(),
            forall|k: int| 0 <= k < i ==> is_unicode_ws(#[trigger] v@[k]),
        decreases v@.len() - i,
    {
        i = i + 1;
    }
    proof {
        lemma_leading_ws(s@, i as int);
    }
    if i == v.len() {
        return String::new();
    }
    let mut j: usize = v.len();
    while j > i && is_unicode_ws_exec(v[j - 1])
        invariant
            v@ == s@,
            i < v@.len(),
            !is_unicode_ws(v@[i as int]),
            i <= j <= v@.len(),
            forall|k: int| j <= k < v@.len() ==> is_unicode_ws(#[trigger] v@[k]),
        decreases j,
    {
        j = j - 1;
    }
    proof {
        if j == i {
            assert(false);
        }
        lemma_trailing_ws(s@, j as int);
    }
    string_from_chars(&v, i, j)
}

/// The pieces of `s` between occurrences of `sep`, as `str::split(sep)`
/// gives them.
pub open spec fn split_on(s: Seq<char>, sep: char) -> Seq<Seq<char>>
    decreases s.len(),
{
    if s.len() == 0 {
        seq![Seq::empty()]
    } else {
        let rest = split_on(s.drop_last(), sep);
        if s.last() == sep {
            rest.push(Seq::empty())
        } else {
            rest.update(rest.len() - 1, rest.last().push(s.last()))
        }
    }
}

/// The pieces of `s` between single spaces, as `str::split(' ')` gives them.
pub open spec fn split_spaces(s: Seq<char>) -> Seq<Seq<char>> {
    split_on(s, ' ')
}

proof fn lemma_split_on_len(s: Seq<char>, sep: char)
    ensures
        split_on(s, sep).len() >= 1,
    decreases s.len(),
{
    if s.len() > 0 {
        lemma_split_on_len(s.drop_last(), sep);
    }
}

/// The pieces of `s` between occurrences of `sep`.
pub fn split_on_exec(s: &str, sep: char) -> (res: Vec<String>)
    ensures
        views(res@) == split_on(s@, sep),
{
    let v = chars_of(s);
    let mut res: Vec<String> = Vec::new();
    let mut cur = String::new();
    let mut i: usize = 0;
    assert(split_on(v@.take(0), sep) =~= seq![Seq::<char>::empty()]) by {
        assert(v@.take(0).len() == 0);
    }
    while i < v.len()
        invariant
            v@ == s@,
            0 <= i <= v@.len(),
            views(res@).push(cur@) == split_on(v@.take(i as int), sep),
        decreases v@.len() - i,
    {
        proof {
            lemma_split_on_len(v@.take(i as int), sep);
        }
        assert(v@.take(i + 1).drop_last() =~= v@.take(i as int));
        assert(v@.take(i + 1).last() == v@[i as int]);
        let ghost prev = views(res@).push(cur@);
        if v[i] == sep {
            let done = cur;
            let ghost old_res = res@;
            res.push(done);
            cur = String::new();
            assert(views(res@) =~= views(old_res).push(done@));
            assert(views(res@).push(cur@) =~= prev.push(Seq::<char>::empty()));
        } else {
            push_char(&mut cur, v[i]);
            assert(views(res@).push(cur@) =~= prev.update(prev.len() - 1, prev.last().push(v@[i as int])));
        }
        i = i + 1;
    }
    assert(v@.take(v@.len() as int) =~= v@);
    res.push(cur);
    res
}

/// The pieces of `s` between single spaces.
pub fn split_spaces_exec(s: &str) -> (res: Vec<String>)
    ensures
        views(res@) == split_spaces(s@),
{
    split_on_exec(s, ' ')
}

/// Whether `path`, read as a path, begins with the components of `base`, as
/// `std::path::Path::starts_with` decides.
pub uninterp spec fn path_has_prefix(path: Seq<char>, base: Seq<char>) -> bool;

/// `Path::new(path).starts_with(base)` of the standard library.
#[verifier::external_body]
pub(crate) fn path_starts_with(path: &str, base: &str) -> (res: bool)
    ensures
        res == path_has_prefix(path@, base@),
{
    std::path::Path::new(path).starts_with(base)
}

} // verus!
