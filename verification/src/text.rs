//! Verified string utilities: equality, trimming, splitting, decimal
//! parsing and formatting, prefix tests, and the leading/trailing
//! character strippers that name and URL handling need.

use vstd::prelude::*;
use vstd::string::StrSliceExecFns;
use vstd::string::StringExecFns;

verus! {

/// The characters that `str::trim` removes (the Unicode `White_Space` set).
pub open spec fn is_space(c: char) -> bool {
    c == ' ' || c == '\u{0085}' || c == '\u{00A0}' || c == '\u{1680}'
        || ('\u{0009}' <= c && c <= '\u{000D}')
        || ('\u{2000}' <= c && c <= '\u{200A}')
        || c == '\u{2028}' || c == '\u{2029}' || c == '\u{202F}' || c == '\u{205F}'
        || c == '\u{3000}'
}

pub open spec fn trim_start_spec(s: Seq<char>) -> Seq<char>
    decreases s.len(),
{
    if s.len() > 0 && is_space(s[0]) {
        trim_start_spec(s.drop_first())
    } else {
        s
    }
}

pub open spec fn trim_end_spec(s: Seq<char>) -> Seq<char>
    decreases s.len(),
{
    if s.len() > 0 && is_space(s.last()) {
        trim_end_spec(s.drop_last())
    } else {
        s
    }
}

/// What `str::trim` leaves: the text with leading and trailing whitespace gone.
pub open spec fn trim_spec(s: Seq<char>) -> Seq<char> {
    trim_end_spec(trim_start_spec(s))
}

proof fn lemma_trim_start_at(s: Seq<char>, i: int)
    requires
        0 <= i <= s.len(),
        forall|k: int| 0 <= k < i ==> is_space(s[k]),
        i < s.len() ==> !is_space(s[i]),
    ensures
        trim_start_spec(s) == s.skip(i),
    decreases i,
{
    if i == 0 {
        assert(s.skip(0) =~= s);
    } else {
        lemma_trim_start_at(s.drop_first(), i - 1);
        assert(s.drop_first().skip(i - 1) =~= s.skip(i));
    }
}

proof fn lemma_trim_end_at(s: Seq<char>, j: int)
    requires
        0 <= j <= s.len(),
        forall|k: int| j <= k < s.len() ==> is_space(s[k]),
        j > 0 ==> !is_space(s[j - 1]),
    ensures
        trim_end_spec(s) == s.take(j),
    decreases s.len(),
{
    if j == s.len() {
        if s.len() > 0 && is_space(s.last()) {
            lemma_trim_end_at(s.drop_last(), j - 1);
            assert(s.drop_last() =~= s.take(j - 1));
            assert(!is_space(s[j - 1]));
            assert(false);
        } else {
            assert(s.take(j) =~= s);
        }
    } else {
        assert(is_space(s.last()));
        lemma_trim_end_at(s.drop_last(), j);
        assert(s.drop_last().take(j) =~= s.take(j));
    }
}

/// Whether the character is in `str::trim`'s whitespace set.
pub fn is_space_char(c: char) -> (r: bool)
    ensures
        r == is_space(c),
{
    c == ' ' || c == '\u{0085}' || c == '\u{00A0}' || c == '\u{1680}'
        || ('\u{0009}' <= c && c <= '\u{000D}')
        || ('\u{2000}' <= c && c <= '\u{200A}')
        || c == '\u{2028}' || c == '\u{2029}' || c == '\u{202F}' || c == '\u{205F}'
        || c == '\u{3000}'
}

/// Removes leading and trailing whitespace, as `str::trim` does.
pub fn trim(s: &str) -> (r: String)
    ensures
        r@ == trim_spec(s@),
{
    let n = s.unicode_len();
    let mut i: usize = 0;
    while i < n && is_space_char(s.get_char(i))
        invariant
            n == s@.len(),
            i <= n,
            forall|k: int| 0 <= k < i ==> is_space(s@[k]),
        decreases n - i,
    {
        i += 1;
    }
    let mut j: usize = n;
    while j > i && is_space_char(s.get_char(j - 1))
        invariant
            n == s@.len(),
            i <= j <= n,
            forall|k: int| j <= k < n ==> is_space(s@[k]),
        decreases j,
    {
        j -= 1;
    }
    proof {
        lemma_trim_start_at(s@, i as int);
        if j == i {
            lemma_trim_end_at(s@.skip(i as int), 0);
        } else {
            lemma_trim_end_at(s@.skip(i as int), j - i);
        }
        assert(s@.skip(i as int).take(j - i) =~= s@.subrange(i as int, j as int));
    }
    String::from_str(s.substring_char(i, j))
}

/// The text with every leading `c` removed, as `str::trim_start_matches(c)`.
pub open spec fn strip_leading(s: Seq<char>, c: char) -> Seq<char>
    decreases s.len(),
{
    if s.len() > 0 && s[0] == c {
        strip_leading(s.drop_first(), c)
    } else {
        s
    }
}

/// The text with every trailing `c` removed, as `str::trim_end_matches(c)`.
pub open spec fn strip_trailing(s: Seq<char>, c: char) -> Seq<char>
    decreases s.len(),
{
    if s.len() > 0 && s.last() == c {
        strip_trailing(s.drop_last(), c)
    } else {
        s
    }
}

proof fn lemma_strip_leading_at(s: Seq<char>, c: char, i: int)
    requires
        0 <= i <= s.len(),
        forall|k: int| 0 <= k < i ==> s[k] == c,
        i < s.len() ==> s[i] != c,
    ensures
        strip_leading(s, c) == s.skip(i),
    decreases i,
{
    if i == 0 {
        assert(s.skip(0) =~= s);
    } else {
        lemma_strip_leading_at(s.drop_first(), c, i - 1);
        assert(s.drop_first().skip(i - 1) =~= s.skip(i));
    }
}

proof fn lemma_strip_trailing_at(s: Seq<char>, c: char, j: int)
    requires
        0 <= j <= s.len(),
        forall|k: int| j <= k < s.len() ==> s[k] == c,
        j > 0 ==> s[j - 1] != c,
    ensures
        strip_trailing(s, c) == s.take(j),
    decreases s.len(),
{
    if j == s.len() {
        if s.len() > 0 && s.last() == c {
            assert(false);
        } else {
            assert(s.take(j) =~= s);
        }
    } else {
        assert(s.last() == c);
        lemma_strip_trailing_at(s.drop_last(), c, j);
        assert(s.drop_last().take(j) =~= s.take(j));
    }
}

/// Drops every leading occurrence of `c`, as `str::trim_start_matches(c)`.
pub fn strip_leading_char(s: &str, c: char) -> (r: String)
    ensures
        r@ == strip_leading(s@, c),
{
    let n = s.unicode_len();
    let mut i: usize = 0;
    while i < n && s.get_char(i) == c
        invariant
            n == s@.len(),
            i <= n,
            forall|k: int| 0 <= k < i ==> s@[k] == c,
        decreases n - i,
    {
        i += 1;
    }
    proof {
        lemma_strip_leading_at(s@, c, i as int);
        assert(s@.subrange(i as int, n as int) =~= s@.skip(i as int));
    }
    String::from_str(s.substring_char(i, n))
}

/// Drops every trailing occurrence of `c`, as `str::trim_end_matches(c)`.
pub fn strip_trailing_char(s: &str, c: char) -> (r: String)
    ensures
        r@ == strip_trailing(s@, c),
{
    let n = s.unicode_len();
    let mut j: usize = n;
    while j > 0 && s.get_char(j - 1) == c
        invariant
            n == s@.len(),
            j <= n,
            forall|k: int| j <= k < n ==> s@[k] == c,
        decreases j,
    {
        j -= 1;
    }
    proof {
        lemma_strip_trailing_at(s@, c, j as int);
        assert(s@.subrange(0, j as int) =~= s@.take(j as int));
    }
    String::from_str(s.substring_char(0, j))
}

/// Position of the first occurrence of `c`, or the length when there is
/// none.
pub open spec fn first_occurrence(s: Seq<char>, c: char) -> nat
    decreases s.len(),
{
    if s.len() == 0 {
        0
    } else if s[0] == c {
        0
    } else {
        1 + first_occurrence(s.drop_first(), c)
    }
}

pub proof fn lemma_first_occurrence_at(s: Seq<char>, c: char, j: int)
    requires
        0 <= j <= s.len(),
        forall|k: int| 0 <= k < j ==> s[k] != c,
        j < s.len() ==> s[j] == c,
    ensures
        first_occurrence(s, c) == j,
    decreases j,
{
    if j == 0 {
    } else {
        lemma_first_occurrence_at(s.drop_first(), c, j - 1);
    }
}

/// The pieces of the text between its commas, in order; the commas
/// themselves are dropped and empty pieces are kept, as `str::split(',')`.
pub open spec fn split_commas(s: Seq<char>) -> Seq<Seq<char>>
    decreases s.len(),
{
    let i = first_occurrence(s, ',');
    if i >= s.len() {
        seq![s]
    } else {
        seq![s.take(i as int)] + split_commas(s.skip(i as int + 1))
    }
}

/// Splits at every comma, keeping the pieces in order.
pub fn split_commas_exec(s: &str) -> (r: Vec<String>)
    ensures
        r@.map_values(|p: String| p@) == split_commas(s@),
{
    let n = s.unicode_len();
    let mut pieces: Vec<String> = Vec::new();
    let mut start: usize = 0;
    let mut k: usize = 0;
    proof {
        assert(s@.skip(0) =~= s@);
        assert(pieces@.map_values(|p: String| p@) =~= Seq::<Seq<char>>::empty());
        assert(split_commas(s@) =~= pieces@.map_values(|p: String| p@) + split_commas(s@.skip(0)));
    }
    while k < n
        invariant
            n == s@.len(),
            start <= k <= n,
            forall|j: int| start <= j < k ==> s@[j] != ',',
            split_commas(s@) == pieces@.map_values(|p: String| p@) + split_commas(
                s@.skip(start as int),
            ),
        decreases n - k,
    {
        if s.get_char(k) == ',' {
            let piece = String::from_str(s.substring_char(start, k));
            proof {
                let rest = s@.skip(start as int);
                lemma_first_occurrence_at(rest, ',', k - start);
                assert(rest.take(k - start) =~= s@.subrange(start as int, k as int));
                assert(rest.skip(k - start + 1) =~= s@.skip(k as int + 1));
                assert(pieces@.push(piece).map_values(|p: String| p@) =~= pieces@.map_values(
                    |p: String| p@,
                ).push(piece@));
                assert(split_commas(s@) =~= pieces@.push(piece).map_values(|p: String| p@)
                    + split_commas(s@.skip(k as int + 1)));
            }
            pieces.push(piece);
            start = k + 1;
        }
        k += 1;
    }
    let piece = String::from_str(s.substring_char(start, n));
    proof {
        let rest = s@.skip(start as int);
        lemma_first_occurrence_at(rest, ',', n - start);
        assert(rest =~= s@.subrange(start as int, n as int));
        assert(split_commas(rest) =~= seq![rest]);
        assert(pieces@.push(piece).map_values(|p: String| p@) =~= pieces@.map_values(
            |p: String| p@,
        ).push(piece@));
        assert(split_commas(s@) =~= pieces@.push(piece).map_values(|p: String| p@));
    }
    pieces.push(piece);
    pieces
}

/// Splits at commas and trims each piece.
pub fn split_commas_trimmed(s: &str) -> (r: Vec<String>)
    ensures
        r@.map_values(|p: String| p@) == split_commas(s@).map_values(|p: Seq<char>| trim_spec(p)),
{
    let pieces = split_commas_exec(s);
    let mut out: Vec<String> = Vec::new();
    let mut i: usize = 0;
    while i < pieces.len()
        invariant
            i <= pieces@.len(),
            pieces@.map_values(|p: String| p@) == split_commas(s@),
            out@.map_values(|p: String| p@) == split_commas(s@).take(i as int).map_values(
                |p: Seq<char>| trim_spec(p),
            ),
        decreases pieces@.len() - i,
    {
        let t = trim(pieces[i].as_str());
        proof {
            let f = |p: String| p@;
            let g = |p: Seq<char>| trim_spec(p);
            assert(pieces@.map_values(f)[i as int] == pieces@[i as int]@);
            assert(out@.push(t).map_values(f) =~= out@.map_values(f).push(t@));
            assert(split_commas(s@).take(i + 1).map_values(g) =~= split_commas(s@).take(
                i as int,
            ).map_values(g).push(g(split_commas(s@)[i as int])));
        }
        out.push(t);
        i += 1;
    }
    proof {
        assert(split_commas(s@).take(pieces@.len() as int) =~= split_commas(s@));
    }
    out
}

pub open spec fn is_digit(c: char) -> bool {
    '0' <= c && c <= '9'
}

pub open spec fn digit_val(c: char) -> nat {
    ((c as int) - ('0' as int)) as nat
}

pub open spec fn all_digits(s: Seq<char>) -> bool {
    forall|i: int| 0 <= i < s.len() ==> is_digit(s[i])
}

/// The number the digit string denotes in base ten.
pub open spec fn digits_value(s: Seq<char>) -> nat
    decreases s.len(),
{
    if s.len() == 0 {
        0
    } else {
        digits_value(s.drop_last()) * 10 + digit_val(s.last())
    }
}

proof fn lemma_digits_value_mono(s: Seq<char>, i: int)
    requires
        0 <= i <= s.len(),
    ensures
        digits_value(s) >= digits_value(s.take(i)),
    decreases s.len() - i,
{
    if i == s.len() {
        assert(s.take(i) =~= s);
    } else {
        assert(s.take(i + 1).drop_last() =~= s.take(i));
        assert(digits_value(s.take(i + 1)) == digits_value(s.take(i)) * 10 + digit_val(
            s.take(i + 1).last(),
        ));
        lemma_digits_value_mono(s, i + 1);
    }
}

/// Reads an unsigned decimal number from position `from` to the end, or
/// reports why it cannot: nothing there, a non-digit, or a value over `cap`.
fn parse_digits(s: &str, from: usize, cap: u64) -> (r: Option<u64>)
    requires
        from <= s@.len(),
        cap <= 0x1_0000_0000,
    ensures
        match r {
            Option::Some(v) => from < s@.len() && all_digits(s@.skip(from as int)) && v
                == digits_value(s@.skip(from as int)) && v <= cap,
            Option::None => from == s@.len() || !all_digits(s@.skip(from as int)) || digits_value(
                s@.skip(from as int),
            ) > cap,
        },
{
    let n = s.unicode_len();
    if from == n {
        return None;
    }
    let ghost body = s@.skip(from as int);
    let mut acc: u64 = 0;
    let mut i: usize = from;
    while i < n
        invariant
            n == s@.len(),
            from <= i <= n,
            body == s@.skip(from as int),
            forall|k: int| from <= k < i ==> is_digit(s@[k]),
            acc == digits_value(body.take(i - from)),
            acc <= cap,
            cap <= 0x1_0000_0000,
        decreases n - i,
    {
        let c = s.get_char(i);
        if !('0' <= c && c <= '9') {
            assert(body[i - from] == s@[i as int]);
            assert(!all_digits(body));
            return None;
        }
        let d: u64 = (c as u32 - '0' as u32) as u64;
        proof {
            assert(body.take(i - from + 1).drop_last() =~= body.take(i - from));
            assert(body.take(i - from + 1).last() == s@[i as int]);
        }
        let next: u64 = acc * 10 + d;
        if next > cap {
            proof {
                lemma_digits_value_mono(body, i - from + 1);
            }
            return None;
        }
        acc = next;
        i += 1;
    }
    proof {
        assert(body.take(n - from) =~= body);
    }
    Some(acc)
}

/// What `str::parse::<u16>` accepts: an optional `+`, then only digits,
/// denoting a value within range.
pub open spec fn parse_u16_spec(s: Seq<char>) -> Option<u16> {
    let body = if s.len() > 0 && s[0] == '+' {
        s.drop_first()
    } else {
        s
    };
    if body.len() > 0 && all_digits(body) && digits_value(body) <= 65535 {
        Option::Some(digits_value(body) as u16)
    } else {
        Option::None
    }
}

/// What `str::parse::<u32>` accepts.
pub open spec fn parse_u32_spec(s: Seq<char>) -> Option<u32> {
    let body = if s.len() > 0 && s[0] == '+' {
        s.drop_first()
    } else {
        s
    };
    if body.len() > 0 && all_digits(body) && digits_value(body) <= 0xFFFF_FFFF {
        Option::Some(digits_value(body) as u32)
    } else {
        Option::None
    }
}

/// What `str::parse::<i32>` accepts: an optional sign, then only digits,
/// denoting a value within range.
pub open spec fn parse_i32_spec(s: Seq<char>) -> Option<i32> {
    if s.len() == 0 {
        Option::None
    } else {
        let neg = s[0] == '-';
        let body = if s[0] == '-' || s[0] == '+' {
            s.drop_first()
        } else {
            s
        };
        if body.len() > 0 && all_digits(body) {
            if neg {
                if digits_value(body) <= 0x8000_0000 {
                    Option::Some((0 - digits_value(body) as int) as i32)
                } else {
                    Option::None
                }
            } else {
                if digits_value(body) <= 0x7FFF_FFFF {
                    Option::Some(digits_value(body) as i32)
                } else {
                    Option::None
                }
            }
        } else {
            Option::None
        }
    }
}

pub fn parse_u16(s: &str) -> (r: Option<u16>)
    ensures
        r == parse_u16_spec(s@),
{
    let n = s.unicode_len();
    let from: usize = if n > 0 && s.get_char(0) == '+' {
        1
    } else {
        0
    };
    proof {
        if from == 1 {
            assert(s@.skip(1) =~= s@.drop_first());
        } else {
            assert(s@.skip(0) =~= s@);
        }
    }
    match parse_digits(s, from, 65535) {
        Option::Some(v) => Some(v as u16),
        Option::None => None,
    }
}

pub fn parse_u32(s: &str) -> (r: Option<u32>)
    ensures
        r == parse_u32_spec(s@),
{
    let n = s.unicode_len();
    let from: usize = if n > 0 && s.get_char(0) == '+' {
        1
    } else {
        0
    };
    proof {
        if from == 1 {
            assert(s@.skip(1) =~= s@.drop_first());
        } else {
            assert(s@.skip(0) =~= s@);
        }
    }
    match parse_digits(s, from, 0xFFFF_FFFF) {
        Option::Some(v) => Some(v as u32),
        Option::None => None,
    }
}

pub fn parse_i32(s: &str) -> (r: Option<i32>)
    ensures
        r == parse_i32_spec(s@),
{
    let n = s.unicode_len();
    if n == 0 {
        return None;
    }
    let c0 = s.get_char(0);
    let neg = c0 == '-';
    let from: usize = if c0 == '-' || c0 == '+' {
        1
    } else {
        0
    };
    proof {
        if from == 1 {
            assert(s@.skip(1) =~= s@.drop_first());
        } else {
            assert(s@.skip(0) =~= s@);
        }
    }
    if neg {
        match parse_digits(s, from, 0x8000_0000) {
            Option::Some(v) => {
                if v == 0x8000_0000 {
                    Some(-2147483648i32)
                } else {
                    Some(-(v as i32))
                }
            },
            Option::None => None,
        }
    } else {
        match parse_digits(s, from, 0x7FFF_FFFF) {
            Option::Some(v) => Some(v as i32),
            Option::None => None,
        }
    }
}

pub open spec fn dec_digit(n: nat) -> char {
    if n == 0 {
        '0'
    } else if n == 1 {
        '1'
    } else if n == 2 {
        '2'
    } else if n == 3 {
        '3'
    } else if n == 4 {
        '4'
    } else if n == 5 {
        '5'
    } else if n == 6 {
        '6'
    } else if n == 7 {
        '7'
    } else if n == 8 {
        '8'
    } else {
        '9'
    }
}

/// The decimal rendering of a number, most significant digit first.
pub open spec fn dec_str(n: nat) -> Seq<char>
    decreases n,
{
    if n < 10 {
        seq![dec_digit(n)]
    } else {
        dec_str(n / 10) + seq![dec_digit(n % 10)]
    }
}

fn digit_str(d: u16) -> (r: &'static str)
    requires
        d < 10,
    ensures
        r@ =~= seq![dec_digit(d as nat)],
{
    if d == 0 {
        let r = "0";
        proof {
            reveal_strlit("0");
        }
        r
    } else if d == 1 {
        let r = "1";
        proof {
            reveal_strlit("1");
        }
        r
    } else if d == 2 {
        let r = "2";
        proof {
            reveal_strlit("2");
        }
        r
    } else if d == 3 {
        let r = "3";
        proof {
            reveal_strlit("3");
        }
        r
    } else if d == 4 {
        let r = "4";
        proof {
            reveal_strlit("4");
        }
        r
    } else if d == 5 {
        let r = "5";
        proof {
            reveal_strlit("5");
        }
        r
    } else if d == 6 {
        let r = "6";
        proof {
            reveal_strlit("6");
        }
        r
    } else if d == 7 {
        let r = "7";
        proof {
            reveal_strlit("7");
        }
        r
    } else if d == 8 {
        let r = "8";
        proof {
            reveal_strlit("8");
        }
        r
    } else {
        let r = "9";
        proof {
            reveal_strlit("9");
        }
        r
    }
}

fn push_dec_u16(n: u16, out: &mut String)
    ensures
        final(out)@ == old(out)@ + dec_str(n as nat),
    decreases n,
{
    if n >= 10 {
        push_dec_u16(n / 10, out);
        out.append(digit_str(n % 10));
        proof {
            assert(old(out)@ + dec_str(n as nat) =~= old(out)@ + dec_str((n / 10) as nat) + seq![
                dec_digit((n % 10) as nat),
            ]);
        }
    } else {
        out.append(digit_str(n));
    }
}

/// Renders a port number in decimal, as `format!("{}")` would.
pub fn u16_to_string(n: u16) -> (r: String)
    ensures
        r@ == dec_str(n as nat),
{
    let mut out = String::new();
    push_dec_u16(n, &mut out);
    proof {
        assert(Seq::<char>::empty() + dec_str(n as nat) =~= dec_str(n as nat));
    }
    out
}

/// The pieces joined with the separator between consecutive pieces.
pub open spec fn joined(parts: Seq<Seq<char>>, sep: Seq<char>) -> Seq<char>
    decreases parts.len(),
{
    if parts.len() == 0 {
        Seq::empty()
    } else if parts.len() == 1 {
        parts[0]
    } else {
        parts[0] + sep + joined(parts.drop_first(), sep)
    }
}

proof fn lemma_joined_push(parts: Seq<Seq<char>>, sep: Seq<char>, x: Seq<char>)
    ensures
        joined(parts.push(x), sep) == if parts.len() == 0 {
            x
        } else {
            joined(parts, sep) + sep + x
        },
    decreases parts.len(),
{
    if parts.len() == 0 {
        assert(joined(parts.push(x), sep) == parts.push(x)[0]);
        assert(parts.push(x)[0] == x);
    } else {
        lemma_joined_push(parts.drop_first(), sep, x);
        assert(parts.push(x).drop_first() =~= parts.drop_first().push(x));
        if parts.len() == 1 {
            assert(joined(parts.push(x), sep) == parts[0] + sep + joined(
                parts.drop_first().push(x),
                sep,
            ));
            assert(parts.drop_first().push(x).len() == 1);
            assert(joined(parts.drop_first().push(x), sep) == x);
        } else {
            assert(joined(parts, sep) + sep + x =~= parts[0] + sep + (joined(
                parts.drop_first(),
                sep,
            ) + sep + x));
        }
    }
}

/// Joins the pieces with the separator between consecutive pieces.
pub fn join_with(parts: &Vec<String>, sep: &str) -> (r: String)
    ensures
        r@ == joined(parts@.map_values(|p: String| p@), sep@),
{
    let mut out = String::new();
    let mut i: usize = 0;
    proof {
        let f = |p: String| p@;
        assert(parts@.take(0).map_values(f) =~= Seq::<Seq<char>>::empty());
    }
    while i < parts.len()
        invariant
            i <= parts@.len(),
            out@ == joined(parts@.take(i as int).map_values(|p: String| p@), sep@),
        decreases parts@.len() - i,
    {
        if i > 0 {
            out.append(sep);
        }
        out.append(parts[i].as_str());
        proof {
            let f = |p: String| p@;
            let prev = parts@.take(i as int).map_values(f);
            assert(parts@.take(i + 1).map_values(f) =~= prev.push(parts@[i as int]@));
            lemma_joined_push(prev, sep@, parts@[i as int]@);
            assert(prev.len() == i);
        }
        i += 1;
    }
    proof {
        assert(parts@.take(parts@.len() as int) =~= parts@);
    }
    out
}

/// Whether `s` has `p` as a prefix starting at `at`.
fn matches_at(s: &str, p: &str, at: usize) -> (r: bool)
    requires
        at <= s@.len(),
    ensures
        r == (at + p@.len() <= s@.len() && s@.subrange(at as int, at + p@.len()) =~= p@),
{
    let np = p.unicode_len();
    let ns = s.unicode_len();
    if np > ns || at > ns - np {
        return false;
    }
    let mut j: usize = 0;
    while j < np
        invariant
            np == p@.len(),
            ns == s@.len(),
            at + np <= ns,
            j <= np,
            forall|k: int| 0 <= k < j ==> s@[at + k] == p@[k],
        decreases np - j,
    {
        if s.get_char(at + j) != p.get_char(j) {
            assert(s@.subrange(at as int, at + p@.len())[j as int] != p@[j as int]);
            return false;
        }
        j += 1;
    }
    proof {
        assert(s@.subrange(at as int, at + p@.len()) =~= p@);
    }
    true
}

/// Whether `s` begins with `p`.
pub open spec fn starts_with(s: Seq<char>, p: Seq<char>) -> bool {
    s.len() >= p.len() && s.take(p.len() as int) == p
}

/// Character-by-character string equality, proved against the views.
pub fn str_eq(a: &str, b: &str) -> (r: bool)
    ensures
        r == (a@ == b@),
{
    let na = a.unicode_len();
    let nb = b.unicode_len();
    if na != nb {
        assert(a@ != b@) by {
            assert(a@.len() != b@.len());
        }
        return false;
    }
    let mut i: usize = 0;
    while i < na
        invariant
            na == a@.len(),
            na == b@.len(),
            i <= na,
            forall|j: int| 0 <= j < i ==> a@[j] == b@[j],
        decreases na - i,
    {
        if a.get_char(i) != b.get_char(i) {
            assert(a@ != b@);
            return false;
        }
        i += 1;
    }
    proof {
        assert(a@ =~= b@);
    }
    true
}

/// Whether the text begins with the pattern, as `str::starts_with`.
pub fn starts_with_exec(s: &str, p: &str) -> (r: bool)
    ensures
        r == starts_with(s@, p@),
{
    let r = matches_at(s, p, 0);
    proof {
        if s@.len() >= p@.len() {
            assert(s@.subrange(0, p@.len() as int) =~= s@.take(p@.len() as int));
        }
    }
    r
}

} // verus!
