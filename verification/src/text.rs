//! Character-level text handling: trimming, ASCII case folding, substring
//! search, prefix stripping, unsigned integer parsing and decimal/hex
//! rendering, each stated over `Seq<char>`.

use vstd::prelude::*;

verus! {

// ---------------------------------------------------------------------
// Specifications
// ---------------------------------------------------------------------

/// The characters that `char::is_whitespace` accepts (Unicode `White_Space`).
pub open spec fn is_ws(c: char) -> bool {
    ||| ('\t' <= c && c <= '\r')
    ||| c == ' '
    ||| c == '\u{85}'
    ||| c == '\u{A0}'
    ||| c == '\u{1680}'
    ||| ('\u{2000}' <= c && c <= '\u{200A}')
    ||| c == '\u{2028}'
    ||| c == '\u{2029}'
    ||| c == '\u{202F}'
    ||| c == '\u{205F}'
    ||| c == '\u{3000}'
}

/// `s` with its leading whitespace removed.
pub open spec fn trim_start(s: Seq<char>) -> Seq<char>
    decreases s.len(),
{
    if s.len() > 0 && is_ws(s[0]) {
        trim_start(s.drop_first())
    } else {
        s
    }
}

/// `s` with its trailing whitespace removed.
pub open spec fn trim_end(s: Seq<char>) -> Seq<char>
    decreases s.len(),
{
    if s.len() > 0 && is_ws(s.last()) {
        trim_end(s.drop_last())
    } else {
        s
    }
}

/// `str::trim`: whitespace removed at both ends.
pub open spec fn trim(s: Seq<char>) -> Seq<char> {
    trim_end(trim_start(s))
}

pub open spec fn is_ascii_upper(c: char) -> bool {
    'A' <= c && c <= 'Z'
}

/// `char::to_ascii_lowercase`.
pub open spec fn lower_char(c: char) -> char {
    if is_ascii_upper(c) {
        ((c as u32) + 32) as char
    } else {
        c
    }
}

/// `str::to_ascii_lowercase`.
pub open spec fn lower(s: Seq<char>) -> Seq<char> {
    s.map_values(|c: char| lower_char(c))
}

/// Trimmed and ASCII-lowercased: the form in which names are compared.
pub open spec fn normalized(s: Seq<char>) -> Seq<char> {
    lower(trim(s))
}

/// `str::eq_ignore_ascii_case`.
pub open spec fn eq_ignore_case(a: Seq<char>, b: Seq<char>) -> bool {
    lower(a) == lower(b)
}

/// `needle` occurs in `hay` at position `i`.
pub open spec fn occurs_at(hay: Seq<char>, needle: Seq<char>, i: int) -> bool {
    0 <= i && i + needle.len() <= hay.len() && hay.subrange(i, i + needle.len()) == needle
}

/// `str::contains` for a string pattern.
pub open spec fn contains(hay: Seq<char>, needle: Seq<char>) -> bool {
    exists|i: int| occurs_at(hay, needle, i)
}

/// `str::strip_prefix`.
pub open spec fn strip_prefix(s: Seq<char>, prefix: Seq<char>) -> Option<Seq<char>> {
    if prefix.len() <= s.len() && s.take(prefix.len() as int) == prefix {
        Some(s.skip(prefix.len() as int))
    } else {
        None
    }
}

/// The value of one digit in the given radix (`char::to_digit`).
pub open spec fn digit_value(c: char, radix: nat) -> Option<nat> {
    let v: int = if '0' <= c && c <= '9' {
        (c as int) - ('0' as int)
    } else if 'a' <= c && c <= 'z' {
        (c as int) - ('a' as int) + 10
    } else if 'A' <= c && c <= 'Z' {
        (c as int) - ('A' as int) + 10
    } else {
        radix as int
    };
    if v < radix {
        Some(v as nat)
    } else {
        None
    }
}

pub open spec fn all_digits(d: Seq<char>, radix: nat) -> bool {
    forall|i: int| 0 <= i < d.len() ==> (#[trigger] digit_value(d[i], radix)) is Some
}

/// The number that a run of digits spells in the given radix.
pub open spec fn digits_value(d: Seq<char>, radix: nat) -> nat
    decreases d.len(),
{
    if d.len() == 0 {
        0
    } else {
        digits_value(d.drop_last(), radix) * radix + match digit_value(d.last(), radix) {
            Some(v) => v,
            None => 0,
        }
    }
}

/// `from_str_radix` of an unsigned type whose largest value is `max`:
/// an optional `+`, then at least one digit, and a value that fits.
pub open spec fn parse_unsigned(s: Seq<char>, radix: nat, max: nat) -> Option<nat> {
    let d = if s.len() > 0 && s[0] == '+' {
        s.drop_first()
    } else {
        s
    };
    if d.len() > 0 && all_digits(d, radix) && digits_value(d, radix) <= max {
        Some(digits_value(d, radix))
    } else {
        None
    }
}

/// Parsing as the library reads VCP codes and values: trimmed, then hex
/// after a `0x` prefix, decimal otherwise.
pub open spec fn parse_number(s: Seq<char>, max: nat) -> Option<nat> {
    match strip_prefix(trim(s), "0x"@) {
        Some(hex) => parse_unsigned(hex, 16, max),
        None => parse_unsigned(trim(s), 10, max),
    }
}

pub open spec fn digit_char(d: nat) -> char {
    ((d % 10) + 48) as char
}

pub open spec fn hex_char(d: nat) -> char {
    let d = d % 16;
    if d < 10 {
        (d + 48) as char
    } else {
        (d - 10 + 65) as char
    }
}

/// Decimal rendering (`{}`).
pub open spec fn decimal(n: nat) -> Seq<char>
    decreases n,
{
    if n < 10 {
        seq![digit_char(n)]
    } else {
        decimal(n / 10).push(digit_char(n % 10))
    }
}

/// Upper-case hex rendering padded with zeros to `width` digits (`{:0wX}`).
pub open spec fn hex_padded(n: nat, width: nat) -> Seq<char>
    decreases n + width,
{
    if n < 16 && width <= 1 {
        seq![hex_char(n)]
    } else {
        hex_padded(n / 16, if width > 0 { (width - 1) as nat } else { 0 }).push(hex_char(n % 16))
    }
}

/// `0x` followed by two upper-case hex digits (`0x{:02X}`).
pub open spec fn hex_code(n: nat) -> Seq<char> {
    "0x"@ + hex_padded(n, 2)
}

/// `0x` followed by four upper-case hex digits (`0x{:04X}`).
pub open spec fn hex_word(n: nat) -> Seq<char> {
    "0x"@ + hex_padded(n, 4)
}

/// `parts` joined with `sep` between consecutive parts.
pub open spec fn join(parts: Seq<Seq<char>>, sep: Seq<char>) -> Seq<char>
    decreases parts.len(),
{
    if parts.len() == 0 {
        seq![]
    } else if parts.len() == 1 {
        parts[0]
    } else {
        join(parts.drop_last(), sep) + sep + parts.last()
    }
}

// ---------------------------------------------------------------------
// Lemmas
// ---------------------------------------------------------------------

/// Lower-casing keeps the length.
pub proof fn lemma_lower_len(s: Seq<char>)
    ensures
        lower(s).len() == s.len(),
{
}

proof fn lemma_trim_start_skip(s: Seq<char>, i: int)
    requires
        0 <= i <= s.len(),
        forall|j: int| 0 <= j < i ==> is_ws(#[trigger] s[j]),
    ensures
        trim_start(s) == trim_start(s.skip(i)),
    decreases i,
{
    if i > 0 {
        assert(s.drop_first().skip(i - 1) =~= s.skip(i));
        lemma_trim_start_skip(s.drop_first(), i - 1);
    } else {
        assert(s.skip(0) =~= s);
    }
}

proof fn lemma_trim_end_take(s: Seq<char>, j: int)
    requires
        0 <= j <= s.len(),
        forall|k: int| j <= k < s.len() ==> is_ws(#[trigger] s[k]),
    ensures
        trim_end(s) == trim_end(s.take(j)),
    decreases s.len() - j,
{
    if j < s.len() {
        assert(s.drop_last().take(j) =~= s.take(j));
        lemma_trim_end_take(s.drop_last(), j);
    } else {
        assert(s.take(j) =~= s);
    }
}

/// A whitespace character stays whitespace under case folding, and a
/// non-whitespace one stays non-whitespace.
proof fn lemma_lower_char_ws(c: char)
    ensures
        is_ws(lower_char(c)) == is_ws(c),
{
}

proof fn lemma_trim_start_lower(s: Seq<char>)
    ensures
        trim_start(lower(s)) == lower(trim_start(s)),
    decreases s.len(),
{
    if s.len() > 0 {
        lemma_lower_char_ws(s[0]);
        assert(lower(s)[0] == lower_char(s[0]));
        if is_ws(s[0]) {
            assert(lower(s).drop_first() =~= lower(s.drop_first()));
            lemma_trim_start_lower(s.drop_first());
        }
    }
}

proof fn lemma_trim_end_lower(s: Seq<char>)
    ensures
        trim_end(lower(s)) == lower(trim_end(s)),
    decreases s.len(),
{
    if s.len() > 0 {
        lemma_lower_char_ws(s.last());
        assert(lower(s).last() == lower_char(s.last()));
        if is_ws(s.last()) {
            assert(lower(s).drop_last() =~= lower(s.drop_last()));
            lemma_trim_end_lower(s.drop_last());
        }
    }
}

proof fn lemma_trim_start_idem(s: Seq<char>)
    ensures
        trim_start(trim_start(s)) == trim_start(s),
    decreases s.len(),
{
    if s.len() > 0 && is_ws(s[0]) {
        lemma_trim_start_idem(s.drop_first());
    }
}

proof fn lemma_trim_end_idem(s: Seq<char>)
    ensures
        trim_end(trim_end(s)) == trim_end(s),
    decreases s.len(),
{
    if s.len() > 0 && is_ws(s.last()) {
        lemma_trim_end_idem(s.drop_last());
    }
}

proof fn lemma_trim_start_head(s: Seq<char>)
    ensures
        trim_start(s).len() == 0 || !is_ws(trim_start(s)[0]),
    decreases s.len(),
{
    if s.len() > 0 && is_ws(s[0]) {
        lemma_trim_start_head(s.drop_first());
    }
}

/// Trimming the end of text that starts with a non-blank keeps that first
/// character, and leaves nothing for trimming the start to remove.
pub proof fn lemma_trim_end_keeps_first(s: Seq<char>)
    requires
        s.len() > 0,
        !is_ws(s[0]),
    ensures
        trim_end(s).len() > 0,
        trim_end(s)[0] == s[0],
        trim_start(trim_end(s)) == trim_end(s),
    decreases s.len(),
{
    if is_ws(s.last()) {
        lemma_trim_end_keeps_first(s.drop_last());
    }
}

/// Texts equal up to ASCII case are equal once normalized.
pub proof fn lemma_eq_ignore_case_normalized(a: Seq<char>, b: Seq<char>)
    requires
        eq_ignore_case(a, b),
    ensures
        normalized(a) == normalized(b),
{
    lemma_trim_start_lower(a);
    lemma_trim_end_lower(trim_start(a));
    lemma_trim_start_lower(b);
    lemma_trim_end_lower(trim_start(b));
    assert(trim(lower(a)) == normalized(a));
    assert(trim(lower(b)) == normalized(b));
}

/// Normalizing twice is normalizing once.
pub proof fn lemma_normalized_idempotent(s: Seq<char>)
    ensures
        normalized(normalized(s)) == normalized(s),
{
    let t = trim(s);
    lemma_trim_start_lower(t);
    lemma_trim_end_lower(trim_start(t));
    lemma_trim_start_head(s);
    if trim_start(s).len() > 0 {
        lemma_trim_end_keeps_first(trim_start(s));
    }
    lemma_trim_end_idem(trim_start(s));
    assert(trim_start(t) == t);
    assert(trim_end(t) == t);
    lemma_lower_idem(t);
}

proof fn lemma_lower_idem(s: Seq<char>)
    ensures
        lower(lower(s)) == lower(s),
{
    assert(lower(lower(s)) =~= lower(s));
}

proof fn lemma_digits_value_prefix(d: Seq<char>, i: int, radix: nat)
    requires
        0 <= i <= d.len(),
        radix >= 1,
    ensures
        digits_value(d.take(i), radix) <= digits_value(d, radix),
    decreases d.len() - i,
{
    if i < d.len() {
        assert(d.drop_last().take(i) =~= d.take(i));
        lemma_digits_value_prefix(d.drop_last(), i, radix);
        let p = digits_value(d.drop_last(), radix);
        assert(p * radix >= p) by (nonlinear_arith)
            requires
                radix >= 1,
        ;
    } else {
        assert(d.take(i) =~= d);
    }
}

proof fn lemma_digits_value_step(d: Seq<char>, i: int, radix: nat)
    requires
        0 <= i < d.len(),
    ensures
        digits_value(d.take(i + 1), radix) == digits_value(d.take(i), radix) * radix + match digit_value(d[i], radix) {
            Some(v) => v,
            None => 0,
        },
{
    assert(d.take(i + 1).drop_last() =~= d.take(i));
}

/// Rendering a number in decimal and reading it back gives the number.
pub proof fn lemma_decimal_parses(n: nat)
    ensures
        decimal(n).len() > 0,
        decimal(n)[0] != '+',
        all_digits(decimal(n), 10),
        digits_value(decimal(n), 10) == n,
    decreases n,
{
    lemma_digit_char_value(n);
    if n >= 10 {
        lemma_decimal_parses(n / 10);
        let d = decimal(n);
        assert(d.drop_last() =~= decimal(n / 10));
        assert(d.last() == digit_char(n % 10));
        assert(digits_value(d, 10) == digits_value(decimal(n / 10), 10) * 10 + n % 10);
        assert((n / 10) * 10 + n % 10 == n) by (nonlinear_arith);
        assert(digits_value(d, 10) == n);
        assert forall|i: int| 0 <= i < d.len() implies (#[trigger] digit_value(d[i], 10)) is Some by {
            if i < d.len() - 1 {
                assert(d[i] == decimal(n / 10)[i]);
            }
        }
    } else {
        let d = decimal(n);
        assert(d.drop_last() =~= Seq::<char>::empty());
        assert(digits_value(Seq::<char>::empty(), 10) == 0);
        assert(d.last() == digit_char(n));
        assert(n % 10 == n);
        assert(digits_value(d, 10) == n);
    }
}

proof fn lemma_digit_char_value(n: nat)
    ensures
        digit_value(digit_char(n), 10) == Some(n % 10),
        !is_ws(digit_char(n)),
        digit_char(n) != '+',
{
    let x = (n % 10) + 48;
    assert(48 <= x < 58);
    assert((x as char) as int == x);
}

proof fn lemma_hex_char_value(n: nat)
    ensures
        digit_value(hex_char(n), 16) == Some(n % 16),
        !is_ws(hex_char(n)),
        hex_char(n) != '+',
{
    let d = n % 16;
    if d < 10 {
        assert(((d + 48) as char) as int == d + 48);
    } else {
        assert(((d - 10 + 65) as char) as int == d - 10 + 65);
    }
}

/// Padded hex digits are hex digits, read back as the number they show,
/// with no sign and no whitespace.
pub proof fn lemma_hex_padded_digits(n: nat, width: nat)
    ensures
        hex_padded(n, width).len() > 0,
        hex_padded(n, width)[0] != '+',
        all_digits(hex_padded(n, width), 16),
        digits_value(hex_padded(n, width), 16) == n,
        forall|i: int|
            0 <= i < hex_padded(n, width).len() ==> !is_ws(#[trigger] hex_padded(n, width)[i]),
    decreases n + width,
{
    lemma_hex_char_value(n);
    if !(n < 16 && width <= 1) {
        let w2: nat = if width > 0 { (width - 1) as nat } else { 0 };
        lemma_hex_padded_digits(n / 16, w2);
        let d = hex_padded(n, width);
        assert(d.drop_last() =~= hex_padded(n / 16, w2));
        assert(d.last() == hex_char(n % 16));
        assert(digits_value(d, 16) == digits_value(hex_padded(n / 16, w2), 16) * 16 + n % 16);
        assert((n / 16) * 16 + n % 16 == n) by (nonlinear_arith);
        assert(digits_value(d, 16) == n);
        assert forall|i: int| 0 <= i < d.len() implies (#[trigger] digit_value(d[i], 16)) is Some by {
            if i < d.len() - 1 {
                assert(d[i] == hex_padded(n / 16, w2)[i]);
            }
        }
        assert forall|i: int| 0 <= i < d.len() implies !is_ws(#[trigger] d[i]) by {
            if i < d.len() - 1 {
                assert(d[i] == hex_padded(n / 16, w2)[i]);
            }
        }
    } else {
        let d = hex_padded(n, width);
        assert(d.drop_last() =~= Seq::<char>::empty());
        assert(digits_value(Seq::<char>::empty(), 16) == 0);
        assert(d.last() == hex_char(n));
        assert(n % 16 == n);
        assert(digits_value(d, 16) == n);
    }
}

// ---------------------------------------------------------------------
// Executable functions
// ---------------------------------------------------------------------

/// Appends one character to a `String` by `String::push`; trusted to add
/// exactly that character at the end, which is what std documents.
#[verifier::external_body]
pub(crate) fn push_char(s: &mut String, c: char)
    ensures
        final(s)@ == old(s)@.push(c),
{
    s.push(c);
}

/// The characters of a string slice.
pub fn chars_of(s: &str) -> (r: Vec<char>)
    ensures
        r@ == s@,
{
    let n = s.unicode_len();
    let mut r: Vec<char> = Vec::new();
    let mut i: usize = 0;
    while i < n
        invariant
            n == s@.len(),
            i <= n,
            r@ == s@.take(i as int),
        decreases n - i,
    {
        r.push(s.get_char(i));
        i = i + 1;
        assert(r@ =~= s@.take(i as int));
    }
    assert(s@.take(n as int) =~= s@);
    r
}

/// A `String` holding the given characters.
pub fn string_of(v: &Vec<char>) -> (r: String)
    ensures
        r@ == v@,
{
    let mut r = String::new();
    let mut i: usize = 0;
    while i < v.len()
        invariant
            i <= v.len(),
            r@ == v@.take(i as int),
        decreases v.len() - i,
    {
        push_char(&mut r, v[i]);
        i = i + 1;
        assert(r@ =~= v@.take(i as int));
    }
    assert(v@.take(v.len() as int) =~= v@);
    r
}

/// A `String` with the contents of a string slice.
pub fn owned(s: &str) -> (r: String)
    ensures
        r@ == s@,
{
    String::from_str(s)
}

/// Whether `c` is Unicode whitespace.
pub fn is_whitespace(c: char) -> (r: bool)
    ensures
        r == is_ws(c),
{
    ('\t' <= c && c <= '\r') || c == ' ' || c == '\u{85}' || c == '\u{A0}' || c == '\u{1680}' || (
    '\u{2000}' <= c && c <= '\u{200A}') || c == '\u{2028}' || c == '\u{2029}' || c == '\u{202F}'
        || c == '\u{205F}' || c == '\u{3000}'
}

/// `c` lower-cased when it is an ASCII capital, else `c`.
pub fn to_lower_char(c: char) -> (r: char)
    ensures
        r == lower_char(c),
{
    if 'A' <= c && c <= 'Z' {
        let b: u8 = c as u8;
        ((b + 32) as char)
    } else {
        c
    }
}

/// `s` trimmed of whitespace at both ends.
pub fn trim_chars(s: &Vec<char>) -> (r: Vec<char>)
    ensures
        r@ == trim(s@),
{
    let n = s.len();
    let mut i: usize = 0;
    while i < n && is_whitespace(s[i])
        invariant
            n == s@.len(),
            i <= n,
            forall|j: int| 0 <= j < i ==> is_ws(#[trigger] s@[j]),
        decreases n - i,
    {
        i = i + 1;
    }
    proof {
        lemma_trim_start_skip(s@, i as int);
        if i < n {
            assert(s@.skip(i as int)[0] == s@[i as int]);
        }
        assert(trim_start(s@) == s@.skip(i as int));
    }
    let mut j: usize = n;
    while j > i && is_whitespace(s[j - 1])
        invariant
            n == s@.len(),
            i <= j <= n,
            forall|k: int| j <= k < n ==> is_ws(#[trigger] s@[k]),
        decreases j,
    {
        j = j - 1;
    }
    let ghost t = s@.skip(i as int);
    proof {
        assert forall|k: int| j - i <= k < t.len() implies is_ws(#[trigger] t[k]) by {
            assert(t[k] == s@[k + i]);
        }
        lemma_trim_end_take(t, j - i);
        if j > i {
            assert(t.take(j - i).last() == s@[j - 1]);
        } else {
            assert(t.take(0) =~= seq![]);
        }
    }
    let mut r: Vec<char> = Vec::new();
    let mut k: usize = i;
    while k < j
        invariant
            n == s@.len(),
            i <= k <= j <= n,
            r@ == s@.subrange(i as int, k as int),
        decreases j - k,
    {
        r.push(s[k]);
        k = k + 1;
        assert(r@ =~= s@.subrange(i as int, k as int));
    }
    assert(r@ =~= t.take(j - i));
    r
}

/// `s` with ASCII upper-case letters folded to lower case.
pub fn lower_chars(s: &Vec<char>) -> (r: Vec<char>)
    ensures
        r@ == lower(s@),
{
    let mut r: Vec<char> = Vec::new();
    let mut i: usize = 0;
    while i < s.len()
        invariant
            i <= s.len(),
            r@ == lower(s@.take(i as int)),
        decreases s.len() - i,
    {
        r.push(to_lower_char(s[i]));
        i = i + 1;
        assert(r@ =~= lower(s@.take(i as int)));
    }
    assert(s@.take(s.len() as int) =~= s@);
    r
}

/// The normalized characters of a string slice: trimmed and lower-cased.
pub fn normalize(input: &str) -> (r: Vec<char>)
    ensures
        r@ == normalized(input@),
{
    let c = chars_of(input);
    let t = trim_chars(&c);
    lower_chars(&t)
}

/// Equality of two character sequences.
pub fn chars_eq(a: &Vec<char>, b: &Vec<char>) -> (r: bool)
    ensures
        r == (a@ == b@),
{
    if a.len() != b.len() {
        return false;
    }
    let mut i: usize = 0;
    while i < a.len()
        invariant
            a.len() == b.len(),
            i <= a.len(),
            forall|k: int| 0 <= k < i ==> a@[k] == b@[k],
        decreases a.len() - i,
    {
        if a[i] != b[i] {
            return false;
        }
        i = i + 1;
    }
    assert(a@ =~= b@);
    true
}

/// `a` and `b` are equal up to ASCII case.
pub fn chars_eq_ignore_case(a: &Vec<char>, b: &Vec<char>) -> (r: bool)
    ensures
        r == eq_ignore_case(a@, b@),
{
    let la = lower_chars(a);
    let lb = lower_chars(b);
    chars_eq(&la, &lb)
}

/// `needle` occurs somewhere in `hay`.
pub fn contains_chars(hay: &Vec<char>, needle: &Vec<char>) -> (r: bool)
    ensures
        r == contains(hay@, needle@),
{
    if needle.len() > hay.len() {
        assert forall|i: int| !occurs_at(hay@, needle@, i) by {}
        return false;
    }
    let last = hay.len() - needle.len();
    let mut i: usize = 0;
    while i <= last
        invariant
            last == hay.len() - needle.len(),
            needle.len() <= hay.len(),
            i <= last + 1,
            forall|k: int| 0 <= k < i ==> !occurs_at(hay@, needle@, k),
        decreases last + 1 - i,
    {
        let mut j: usize = 0;
        let mut same = true;
        while j < needle.len()
            invariant
                last == hay.len() - needle.len(),
                i <= last,
                j <= needle.len(),
                same == (forall|k: int| 0 <= k < j ==> hay@[i + k] == needle@[k]),
            decreases needle.len() - j,
        {
            if hay[i + j] != needle[j] {
                same = false;
            }
            j = j + 1;
        }
        if same {
            assert(hay@.subrange(i as int, i + needle.len()) =~= needle@);
            assert(occurs_at(hay@, needle@, i as int));
            return true;
        }
        assert(!occurs_at(hay@, needle@, i as int)) by {
            if hay@.subrange(i as int, i + needle.len()) == needle@ {
                let k = choose|k: int| 0 <= k < needle.len() && hay@[i + k] != needle@[k];
                assert(hay@.subrange(i as int, i + needle.len())[k] == hay@[i + k]);
            }
        }
        i = i + 1;
    }
    assert forall|k: int| !occurs_at(hay@, needle@, k) by {
        if 0 <= k && k + needle.len() <= hay.len() {
            assert(k < i);
        }
    }
    false
}

/// `s` without `prefix`, when it starts with it.
pub fn strip_prefix_chars(s: &Vec<char>, prefix: &Vec<char>) -> (r: Option<Vec<char>>)
    ensures
        match strip_prefix(s@, prefix@) {
            Some(rest) => r is Some && r->0@ == rest,
            None => r is None,
        },
{
    if prefix.len() > s.len() {
        return None;
    }
    let mut i: usize = 0;
    while i < prefix.len()
        invariant
            prefix.len() <= s.len(),
            i <= prefix.len(),
            forall|k: int| 0 <= k < i ==> s@[k] == prefix@[k],
        decreases prefix.len() - i,
    {
        if s[i] != prefix[i] {
            assert(s@.take(prefix.len() as int)[i as int] != prefix@[i as int]);
            return None;
        }
        i = i + 1;
    }
    assert(s@.take(prefix.len() as int) =~= prefix@);
    let mut r: Vec<char> = Vec::new();
    let mut k: usize = prefix.len();
    while k < s.len()
        invariant
            prefix.len() <= k <= s.len(),
            r@ == s@.subrange(prefix.len() as int, k as int),
        decreases s.len() - k,
    {
        r.push(s[k]);
        k = k + 1;
        assert(r@ =~= s@.subrange(prefix.len() as int, k as int));
    }
    assert(r@ =~= s@.skip(prefix.len() as int));
    Some(r)
}

fn digit_of(c: char, radix: u32) -> (r: Option<u32>)
    requires
        radix <= 36,
    ensures
        match digit_value(c, radix as nat) {
            Some(v) => r == Some(v as u32),
            None => r is None,
        },
{
    let v: u32 = if '0' <= c && c <= '9' {
        (c as u32) - ('0' as u32)
    } else if 'a' <= c && c <= 'z' {
        (c as u32) - ('a' as u32) + 10
    } else if 'A' <= c && c <= 'Z' {
        (c as u32) - ('A' as u32) + 10
    } else {
        radix
    };
    if v < radix {
        Some(v)
    } else {
        None
    }
}

proof fn lemma_parse_unsigned_none(s: Seq<char>, d: Seq<char>, radix: nat, max: nat)
    requires
        d == (if s.len() > 0 && s[0] == '+' { s.drop_first() } else { s }),
        !all_digits(d, radix) || digits_value(d, radix) > max,
    ensures
        parse_unsigned(s, radix, max) is None,
{
}

/// `from_str_radix` for an unsigned type whose largest value is `max`.
pub fn parse_unsigned_chars(s: &Vec<char>, radix: u32, max: u32) -> (r: Option<u32>)
    requires
        2 <= radix <= 16,
        max <= 0xFFFF,
    ensures
        match parse_unsigned(s@, radix as nat, max as nat) {
            Some(v) => r == Some(v as u32),
            None => r is None,
        },
{
    let start: usize = if s.len() > 0 && s[0] == '+' {
        1
    } else {
        0
    };
    let ghost d = if s@.len() > 0 && s@[0] == '+' {
        s@.drop_first()
    } else {
        s@
    };
    assert(d =~= s@.skip(start as int));
    if start >= s.len() {
        return None;
    }
    let mut acc: u32 = 0;
    let mut i: usize = start;
    while i < s.len()
        invariant
            2 <= radix <= 16,
            max <= 0xFFFF,
            start <= i <= s.len(),
            d == s@.skip(start as int),
            d == (if s@.len() > 0 && s@[0] == '+' { s@.drop_first() } else { s@ }),
            acc <= max,
            acc == digits_value(d.take(i - start), radix as nat),
            all_digits(d.take(i - start), radix as nat),
        decreases s.len() - i,
    {
        let ghost k = i - start;
        match digit_of(s[i], radix) {
            None => {
                assert(d[k] == s@[i as int]);
                assert(!all_digits(d, radix as nat));
                proof {
                    lemma_parse_unsigned_none(s@, d, radix as nat, max as nat);
                }
                return None;
            },
            Some(v) => {
                assert(d[k] == s@[i as int]);
                proof {
                    lemma_digits_value_step(d, k, radix as nat);
                }
                assert(acc * radix <= 0xFFFF * 16) by (nonlinear_arith)
                    requires
                        acc <= 0xFFFF,
                        radix <= 16,
                ;
                let next: u32 = acc * radix + v;
                assert forall|m: int| 0 <= m < k + 1 implies (#[trigger] digit_value(
                    d.take(k + 1)[m],
                    radix as nat,
                )) is Some by {
                    if m < k {
                        assert(d.take(k + 1)[m] == d.take(k)[m]);
                    }
                }
                assert(digits_value(d.take(k + 1), radix as nat) == next);
                if next > max {
                    proof {
                        if all_digits(d, radix as nat) {
                            lemma_digits_value_prefix(d, k + 1, radix as nat);
                        }
                    }
                    proof {
                        lemma_parse_unsigned_none(s@, d, radix as nat, max as nat);
                    }
                    return None;
                }
                acc = next;
                i = i + 1;
            },
        }
    }
    assert(d.take(i - start) =~= d);
    Some(acc)
}

/// Reads a number as VCP codes and values are written: trimmed, then hex
/// after a `0x` prefix, decimal otherwise.
pub fn parse_number_str(input: &str, max: u32) -> (r: Option<u32>)
    requires
        max <= 0xFFFF,
    ensures
        match parse_number(input@, max as nat) {
            Some(v) => r == Some(v as u32),
            None => r is None,
        },
{
    let c = chars_of(input);
    let t = trim_chars(&c);
    let prefix = chars_of("0x");
    match strip_prefix_chars(&t, &prefix) {
        Some(hex) => parse_unsigned_chars(&hex, 16, max),
        None => parse_unsigned_chars(&t, 10, max),
    }
}

/// Appends the decimal rendering of `n`.
pub fn push_decimal(s: &mut String, n: u64)
    ensures
        final(s)@ == old(s)@ + decimal(n as nat),
    decreases n,
{
    if n >= 10 {
        push_decimal(s, n / 10);
    }
    let d: u8 = (n % 10) as u8;
    push_char(s, (d + 48) as char);
    proof {
        if n >= 10 {
            assert(decimal(n as nat) == decimal((n / 10) as nat).push(digit_char((n % 10) as nat)));
        }
    }
    assert(s@ =~= old(s)@ + decimal(n as nat));
}

/// Appends `n` in upper-case hex, zero-padded to `width` digits.
pub fn push_hex(s: &mut String, n: u64, width: u64)
    requires
        width <= 16,
    ensures
        final(s)@ == old(s)@ + hex_padded(n as nat, width as nat),
    decreases n + width,
{
    if !(n < 16 && width <= 1) {
        let w2: u64 = if width > 0 {
            width - 1
        } else {
            0
        };
        push_hex(s, n / 16, w2);
    }
    let d: u8 = (n % 16) as u8;
    let c: char = if d < 10 {
        (d + 48) as char
    } else {
        (d - 10 + 65) as char
    };
    push_char(s, c);
    assert(s@ =~= old(s)@ + hex_padded(n as nat, width as nat));
}

/// The decimal rendering of `n`.
pub fn decimal_string(n: u64) -> (r: String)
    ensures
        r@ == decimal(n as nat),
{
    let mut s = String::new();
    push_decimal(&mut s, n);
    assert(s@ =~= decimal(n as nat));
    s
}

/// `0x{:02X}`.
pub fn hex_code_string(n: u64) -> (r: String)
    ensures
        r@ == hex_code(n as nat),
{
    let mut s = owned("0x");
    push_hex(&mut s, n, 2);
    s
}

/// `0x{:04X}`.
pub fn hex_word_string(n: u64) -> (r: String)
    ensures
        r@ == hex_word(n as nat),
{
    let mut s = owned("0x");
    push_hex(&mut s, n, 4);
    s
}

/// `parts` joined with `sep`.
pub fn join_strings(parts: &Vec<String>, sep: &str) -> (r: String)
    ensures
        r@ == join(parts@.map_values(|p: String| p@), sep@),
{
    let ghost views = parts@.map_values(|p: String| p@);
    let mut r = String::new();
    let mut i: usize = 0;
    while i < parts.len()
        invariant
            i <= parts.len(),
            views == parts@.map_values(|p: String| p@),
            r@ == join(views.take(i as int), sep@),
        decreases parts.len() - i,
    {
        if i > 0 {
            r.append(sep);
        }
        r.append(parts[i].as_str());
        proof {
            let t = views.take(i + 1);
            assert(t.drop_last() =~= views.take(i as int));
            if i == 0 {
                assert(r@ =~= t[0]);
            }
        }
        i = i + 1;
    }
    assert(views.take(parts.len() as int) =~= views);
    r
}

/// A number in decimal has nothing to trim, starts with a digit, and parses
/// back as the number.
pub proof fn lemma_decimal_number(n: nat, max: nat)
    ensures
        trim(decimal(n)) == decimal(n),
        decimal(n).len() > 0,
        '0' <= decimal(n)[0] <= '9',
        n <= max ==> parse_number(decimal(n), max) == Some(n),
{
    reveal_strlit("0x");
    lemma_decimal_parses(n);
    let d = decimal(n);
    assert forall|i: int| 0 <= i < d.len() implies '0' <= #[trigger] d[i] <= '9' by {
        assert(digit_value(d[i], 10) is Some);
    }
    assert(!is_ws(d[0]));
    assert(!is_ws(d.last()));
    assert(trim_start(d) == d);
    assert(trim_end(d) == d);
    if 2 <= d.len() && d.take(2) == "0x"@ {
        assert(d.take(2)[1] == d[1]);
        assert('0' <= d[1] <= '9');
    }
    assert(strip_prefix(d, "0x"@) is None);
}

/// `0x` and the hex digits of a code, in either case, parse back as the
/// code; neither form has whitespace to trim.
pub proof fn lemma_hex_code_parses(c: u8)
    ensures
        parse_number(hex_code(c as nat), 0xFF) == Some(c as nat),
        parse_number(lower(hex_code(c as nat)), 0xFF) == Some(c as nat),
        trim(hex_code(c as nat)) == hex_code(c as nat),
        trim(lower(hex_code(c as nat))) == lower(hex_code(c as nat)),
{
    reveal_strlit("0x");
    let d = hex_padded(c as nat, 2);
    let h = hex_code(c as nat);
    let l = lower(h);
    lemma_hex_padded_digits(c as nat, 2);
    assert(h.len() >= 3);
    assert(h[0] == '0' && h[1] == 'x');
    assert(forall|i: int| 0 <= i < d.len() ==> h[i + 2] == d[i]);
    // Both forms start with `0x` and end with a hex digit: nothing to trim.
    assert(!is_ws(h[0]) && !is_ws(h.last()));
    assert(trim_start(h) == h);
    assert(trim_end(h) == h);
    assert(l.len() == h.len());
    assert(l[0] == '0' && l[1] == 'x');
    assert(!is_ws(l.last())) by {
        assert(l.last() == lower_char(h.last()));
    }
    assert(trim_start(l) == l);
    assert(trim_end(l) == l);
    // The digits after `0x`, in upper case or folded to lower case.
    assert(h.take(2) =~= "0x"@);
    assert(h.skip(2) =~= d);
    assert(l.take(2) =~= "0x"@);
    let ld = l.skip(2);
    assert(ld =~= lower(d));
    assert forall|i: int| 0 <= i < ld.len() implies (#[trigger] digit_value(ld[i], 16)) == digit_value(d[i], 16) by {
        assert(ld[i] == lower_char(d[i]));
        let x = d[i];
        if 'A' <= x && x <= 'Z' {
            assert((((x as u32) + 32) as char) as int == (x as int) + 32);
        }
    }
    lemma_digits_value_same(ld, d, 16);
}

proof fn lemma_digits_value_same(a: Seq<char>, b: Seq<char>, radix: nat)
    requires
        a.len() == b.len(),
        forall|i: int| 0 <= i < a.len() ==> (#[trigger] digit_value(a[i], radix)) == digit_value(b[i], radix),
    ensures
        digits_value(a, radix) == digits_value(b, radix),
        all_digits(a, radix) == all_digits(b, radix),
    decreases a.len(),
{
    if a.len() > 0 {
        assert forall|i: int| 0 <= i < a.drop_last().len() implies (#[trigger] digit_value(
            a.drop_last()[i],
            radix,
        )) == digit_value(b.drop_last()[i], radix) by {
            assert(a.drop_last()[i] == a[i]);
            assert(b.drop_last()[i] == b[i]);
        }
        lemma_digits_value_same(a.drop_last(), b.drop_last(), radix);
        assert(digit_value(a.last(), radix) == digit_value(b.last(), radix));
    }
    if all_digits(a, radix) {
        assert forall|i: int| 0 <= i < b.len() implies (#[trigger] digit_value(b[i], radix)) is Some by {
            assert(digit_value(a[i], radix) is Some);
        }
    }
    if all_digits(b, radix) {
        assert forall|i: int| 0 <= i < a.len() implies (#[trigger] digit_value(a[i], radix)) is Some by {
            assert(digit_value(b[i], radix) is Some);
        }
    }
}

} // verus!
