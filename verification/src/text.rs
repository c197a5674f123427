//! Character-level helpers with exact specifications: decimal and hexadecimal
//! rendering, string building, and line splitting.
use vstd::prelude::*;
use vstd::string::*;

verus! {

/// The ASCII digit for a value below ten.
pub open spec fn digit_char(d: nat) -> char {
    if d == 0 { '0' }
    else if d == 1 { '1' }
    else if d == 2 { '2' }
    else if d == 3 { '3' }
    else if d == 4 { '4' }
    else if d == 5 { '5' }
    else if d == 6 { '6' }
    else if d == 7 { '7' }
    else if d == 8 { '8' }
    else { '9' }
}

/// The decimal rendering of a natural number, most significant digit first,
/// without leading zeros ("0" for zero).
pub open spec fn decimal(n: nat) -> Seq<char>
    decreases n,
{
    if n < 10 {
        seq![digit_char(n)]
    } else {
        decimal(n / 10).push(digit_char(n % 10))
    }
}

/// The decimal rendering of an integer, with a leading '-' when negative.
pub open spec fn signed_decimal(n: int) -> Seq<char> {
    if n < 0 {
        seq!['-'] + decimal((-n) as nat)
    } else {
        decimal(n as nat)
    }
}

/// The value of a decimal digit character ('0' to '9'); other characters
/// count as -1.
pub open spec fn digit_value(c: char) -> int {
    if '0' <= c && c <= '9' {
        (c as u32) - ('0' as u32)
    } else {
        -1
    }
}

/// Whether every character is a decimal digit.
pub open spec fn all_digits(s: Seq<char>) -> bool {
    forall|i: int| 0 <= i < s.len() ==> '0' <= #[trigger] s[i] && s[i] <= '9'
}

/// The number that a string of decimal digits denotes, read most significant
/// digit first.
pub open spec fn digits_value(s: Seq<char>) -> int
    decreases s.len(),
{
    if s.len() == 0 {
        0
    } else {
        10 * digits_value(s.drop_last()) + digit_value(s.last())
    }
}

/// The integer that a decimal rendering denotes: a leading '-' negates the
/// digits that follow.
pub open spec fn signed_digits_value(s: Seq<char>) -> int {
    if s.len() > 0 && s[0] == '-' {
        -digits_value(s.drop_first())
    } else {
        digits_value(s)
    }
}

proof fn lemma_digit_char(d: nat)
    requires
        d < 10,
    ensures
        '0' <= digit_char(d) <= '9',
        digit_value(digit_char(d)) == d,
        d > 0 ==> digit_char(d) != '0',
{
    assert(('0' as u32) == 48);
    assert(('9' as u32) == 57);
    if d == 0 { assert(('0' as u32) == 48); }
    else if d == 1 { assert(('1' as u32) == 49); }
    else if d == 2 { assert(('2' as u32) == 50); }
    else if d == 3 { assert(('3' as u32) == 51); }
    else if d == 4 { assert(('4' as u32) == 52); }
    else if d == 5 { assert(('5' as u32) == 53); }
    else if d == 6 { assert(('6' as u32) == 54); }
    else if d == 7 { assert(('7' as u32) == 55); }
    else if d == 8 { assert(('8' as u32) == 56); }
    else { assert(('9' as u32) == 57); }
}

/// Decimal rendering is faithful: the rendering of `n` is a non-empty string
/// of digits, with no leading zero unless it is "0", that reads back as `n`.
pub proof fn lemma_decimal_reads_back(n: nat)
    ensures
        decimal(n).len() > 0,
        all_digits(decimal(n)),
        digits_value(decimal(n)) == n,
        decimal(n).len() > 1 ==> decimal(n)[0] != '0',
    decreases n,
{
    if n >= 10 {
        lemma_decimal_reads_back(n / 10);
        lemma_digit_char(n % 10);
        lemma_digit_char(n / 10 % 10);
        let s = decimal(n);
        let p = decimal(n / 10);
        assert(s.drop_last() =~= p);
        assert(s.last() == digit_char(n % 10));
        assert(s[0] == p[0]);
        assert(digits_value(s) == 10 * digits_value(p) + digit_value(s.last()));
        if p.len() == 1 {
            assert(n / 10 < 10) by {
                if n / 10 >= 10 {
                    assert(decimal(n / 10) == decimal(n / 10 / 10).push(digit_char(n / 10 % 10)));
                }
            }
            lemma_digit_char(n / 10);
            assert(p[0] == digit_char(n / 10));
        }
        assert forall|i: int| 0 <= i < s.len() implies '0' <= #[trigger] s[i] && s[i] <= '9' by {
            if i < s.len() - 1 {
                assert(s[i] == p[i]);
            }
        }
    } else {
        lemma_digit_char(n);
        let s = decimal(n);
        assert(s.drop_last() =~= Seq::<char>::empty());
        assert(digits_value(s) == 10 * digits_value(s.drop_last()) + digit_value(s.last()));
    }
}

/// Signed decimal rendering reads back as the integer rendered.
pub proof fn lemma_signed_decimal_reads_back(n: int)
    ensures
        signed_digits_value(signed_decimal(n)) == n,
{
    if n < 0 {
        lemma_decimal_reads_back((-n) as nat);
        let s = signed_decimal(n);
        assert(s.drop_first() =~= decimal((-n) as nat));
    } else {
        lemma_decimal_reads_back(n as nat);
        assert(decimal(n as nat)[0] != '-');
    }
}

fn digit_of(d: u64) -> (c: char)
    requires
        d < 10,
    ensures
        c == digit_char(d as nat),
{
    if d == 0 { '0' }
    else if d == 1 { '1' }
    else if d == 2 { '2' }
    else if d == 3 { '3' }
    else if d == 4 { '4' }
    else if d == 5 { '5' }
    else if d == 6 { '6' }
    else if d == 7 { '7' }
    else if d == 8 { '8' }
    else { '9' }
}

/// Appends one character to a string.
#[verifier::external_body]
pub(crate) fn string_push(s: &mut String, c: char)
    ensures
        final(s)@ == old(s)@.push(c),
{
    s.push(c);
}

/// Builds a string holding exactly the given characters.
pub fn string_from_chars(cs: &Vec<char>) -> (s: String)
    ensures
        s@ == cs@,
{
    let mut s = String::new();
    let mut i: usize = 0;
    while i < cs.len()
        invariant
            i <= cs.len(),
            s@ == cs@.take(i as int),
        decreases cs.len() - i,
    {
        string_push(&mut s, cs[i]);
        i = i + 1;
        assert(s@ =~= cs@.take(i as int));
    }
    assert(cs@.take(i as int) =~= cs@);
    s
}

/// The decimal digits of `n`, most significant first.
pub fn decimal_chars(n: u64) -> (ds: Vec<char>)
    ensures
        ds@ == decimal(n as nat),
{
    // Digits are produced least significant first, then reversed.
    let mut rev: Vec<char> = Vec::new();
    let mut m: u64 = n;
    let ghost mut acc: Seq<char> = seq![];
    while m >= 10
        invariant
            decimal(n as nat) == decimal(m as nat) + acc,
            rev@ == acc.reverse(),
        decreases m,
    {
        let c = digit_of(m % 10);
        proof {
            assert(decimal(m as nat) == decimal((m / 10) as nat).push(c));
            assert(decimal(m as nat) + acc =~= decimal((m / 10) as nat) + (seq![c] + acc));
            acc = seq![c] + acc;
        }
        rev.push(c);
        assert(rev@ =~= acc.reverse());
        m = m / 10;
    }
    let c = digit_of(m);
    proof {
        assert(decimal(m as nat) =~= seq![c]);
        acc = seq![c] + acc;
    }
    rev.push(c);
    assert(rev@ =~= acc.reverse());
    // reverse
    let mut ds: Vec<char> = Vec::new();
    let len = rev.len();
    let mut k: usize = 0;
    while k < len
        invariant
            len == rev.len(),
            k <= len,
            rev@ == acc.reverse(),
            acc == decimal(n as nat),
            ds@ == acc.take(k as int),
        decreases len - k,
    {
        ds.push(rev[len - 1 - k]);
        k = k + 1;
        assert(ds@ =~= acc.take(k as int));
    }
    assert(acc.take(k as int) =~= acc);
    ds
}

/// Renders an unsigned integer in decimal, as `to_string` does.
pub fn u64_to_decimal(n: u64) -> (s: String)
    ensures
        s@ == decimal(n as nat),
        all_digits(s@),
        digits_value(s@) == n,
{
    proof {
        lemma_decimal_reads_back(n as nat);
    }
    let ds = decimal_chars(n);
    string_from_chars(&ds)
}

/// Renders a signed integer in decimal, as `to_string` does.
pub fn i64_to_decimal(n: i64) -> (s: String)
    ensures
        s@ == signed_decimal(n as int),
        signed_digits_value(s@) == n,
{
    proof {
        lemma_signed_decimal_reads_back(n as int);
    }
    if n < 0 {
        let a: u64 = (-(n as i128)) as u64;
        let ds = decimal_chars(a);
        let mut v: Vec<char> = Vec::new();
        v.push('-');
        let mut i: usize = 0;
        while i < ds.len()
            invariant
                i <= ds.len(),
                v@ == seq!['-'] + ds@.take(i as int),
            decreases ds.len() - i,
        {
            v.push(ds[i]);
            i = i + 1;
            assert(v@ =~= seq!['-'] + ds@.take(i as int));
        }
        assert(ds@.take(i as int) =~= ds@);
        string_from_chars(&v)
    } else {
        u64_to_decimal(n as u64)
    }
}

/// The characters of a string slice, in order.
pub fn str_chars(s: &str) -> (v: Vec<char>)
    ensures
        v@ == s@,
{
    let n = s.unicode_len();
    let mut v: Vec<char> = Vec::new();
    let mut i: usize = 0;
    while i < n
        invariant
            n == s@.len(),
            i <= n,
            v@ == s@.take(i as int),
        decreases n - i,
    {
        v.push(s.get_char(i));
        i = i + 1;
        assert(v@ =~= s@.take(i as int));
    }
    assert(s@.take(i as int) =~= s@);
    v
}

/// Whether `a[start..end]` equals `b`, character by character.
pub fn chars_range_eq(a: &Vec<char>, start: usize, end: usize, b: &Vec<char>) -> (res: bool)
    requires
        start <= end <= a.len(),
    ensures
        res == (a@.subrange(start as int, end as int) == b@),
{
    if end - start != b.len() {
        return false;
    }
    let mut i: usize = 0;
    while i < b.len()
        invariant
            start <= end <= a.len(),
            end - start == b.len(),
            i <= b.len(),
            forall|k: int| 0 <= k < i ==> a@[start + k] == b@[k],
        decreases b.len() - i,
    {
        if a[start + i] != b[i] {
            assert(a@.subrange(start as int, end as int)[i as int] != b@[i as int]);
            return false;
        }
        i = i + 1;
    }
    assert(a@.subrange(start as int, end as int) =~= b@);
    true
}

/// Whether two character vectors hold the same characters.
pub fn chars_eq(a: &Vec<char>, b: &Vec<char>) -> (res: bool)
    ensures
        res == (a@ == b@),
{
    let r = chars_range_eq(a, 0, a.len(), b);
    assert(a@.subrange(0, a@.len() as int) =~= a@);
    r
}

/// Whether `s` ends with `suffix`.
pub open spec fn seq_ends_with(s: Seq<char>, suffix: Seq<char>) -> bool {
    suffix.len() <= s.len() && s.skip(s.len() - suffix.len()) == suffix
}

/// Whether the characters `s` end with the characters `suffix`.
pub fn chars_end_with(s: &Vec<char>, suffix: &Vec<char>) -> (res: bool)
    ensures
        res == seq_ends_with(s@, suffix@),
{
    if suffix.len() > s.len() {
        return false;
    }
    let r = chars_range_eq(s, s.len() - suffix.len(), s.len(), suffix);
    assert(s@.subrange(s@.len() - suffix@.len(), s@.len() as int) =~= s@.skip(s@.len() - suffix@.len()));
    r
}

/// The lowercase hexadecimal digit for a value below sixteen.
pub open spec fn hex_digit(d: nat) -> char {
    if d < 10 { digit_char(d) }
    else if d == 10 { 'a' }
    else if d == 11 { 'b' }
    else if d == 12 { 'c' }
    else if d == 13 { 'd' }
    else if d == 14 { 'e' }
    else { 'f' }
}

/// Lowercase hexadecimal rendering of bytes, two digits per byte, high nibble
/// first (the `{:x}` rendering of a byte array).
pub open spec fn lower_hex(bytes: Seq<u8>) -> Seq<char>
    decreases bytes.len(),
{
    if bytes.len() == 0 {
        seq![]
    } else {
        seq![hex_digit((bytes[0] / 16) as nat), hex_digit((bytes[0] % 16) as nat)]
            + lower_hex(bytes.drop_first())
    }
}

fn hex_digit_of(d: u8) -> (c: char)
    requires
        d < 16,
    ensures
        c == hex_digit(d as nat),
{
    if d < 10 {
        digit_of(d as u64)
    } else if d == 10 { 'a' }
    else if d == 11 { 'b' }
    else if d == 12 { 'c' }
    else if d == 13 { 'd' }
    else if d == 14 { 'e' }
    else { 'f' }
}

/// Renders bytes as lowercase hexadecimal.
pub fn to_lower_hex(bytes: &Vec<u8>) -> (s: String)
    ensures
        s@ == lower_hex(bytes@),
{
    let mut out: Vec<char> = Vec::new();
    let mut i: usize = 0;
    assert(bytes@.skip(0) =~= bytes@);
    while i < bytes.len()
        invariant
            i <= bytes.len(),
            lower_hex(bytes@) == out@ + lower_hex(bytes@.skip(i as int)),
        decreases bytes.len() - i,
    {
        let b = bytes[i];
        let hi = hex_digit_of(b / 16);
        let lo = hex_digit_of(b % 16);
        proof {
            let rest = bytes@.skip(i as int);
            assert(rest[0] == b);
            assert(rest.drop_first() =~= bytes@.skip(i + 1));
            assert(lower_hex(rest) == seq![hi, lo] + lower_hex(bytes@.skip(i + 1)));
        }
        out.push(hi);
        out.push(lo);
        i = i + 1;
        assert(lower_hex(bytes@) =~= out@ + lower_hex(bytes@.skip(i as int)));
    }
    assert(bytes@.skip(i as int) =~= Seq::<u8>::empty());
    assert(out@ + lower_hex(bytes@.skip(i as int)) =~= out@);
    string_from_chars(&out)
}

/// The index of the first line feed in `s`, or its length when it has none.
pub open spec fn first_newline(s: Seq<char>) -> nat
    decreases s.len(),
{
    if s.len() == 0 {
        0
    } else if s[0] == '\n' {
        0
    } else {
        1 + first_newline(s.drop_first())
    }
}

/// A line without the carriage return that ended it, if any.
pub open spec fn strip_cr(line: Seq<char>) -> Seq<char> {
    if line.len() > 0 && line.last() == '\r' {
        line.drop_last()
    } else {
        line
    }
}

/// The lines of a text, as `str::lines` yields them: the text is split at
/// each line feed, a carriage return just before a line feed is dropped, and
/// a final line feed does not start an empty last line.
pub open spec fn lines_of(s: Seq<char>) -> Seq<Seq<char>>
    decreases s.len(),
{
    if s.len() == 0 {
        seq![]
    } else {
        let i = first_newline(s);
        if i >= s.len() {
            seq![s]
        } else {
            seq![strip_cr(s.take(i as int))] + lines_of(s.skip((i + 1) as int))
        }
    }
}

pub proof fn lemma_first_newline(s: Seq<char>)
    ensures
        first_newline(s) <= s.len(),
        forall|k: int| 0 <= k < first_newline(s) ==> s[k] != '\n',
        first_newline(s) < s.len() ==> s[first_newline(s) as int] == '\n',
    decreases s.len(),
{
    if s.len() > 0 && s[0] != '\n' {
        lemma_first_newline(s.drop_first());
        assert forall|k: int| 0 <= k < first_newline(s) implies s[k] != '\n' by {
            if k > 0 {
                assert(s[k] == s.drop_first()[k - 1]);
            }
        }
    }
}

pub proof fn lemma_first_newline_at(s: Seq<char>, i: int)
    requires
        0 <= i <= s.len(),
        forall|k: int| 0 <= k < i ==> s[k] != '\n',
        i == s.len() || s[i] == '\n',
    ensures
        first_newline(s) == i,
{
    lemma_first_newline(s);
}

/// A final line ending does not add a line: a text that does not end in a
/// line feed has the same lines with "\r\n" appended, and, when it does not
/// end in a carriage return either, with "\n" appended. (The empty text is
/// left out: it has no lines, while "\n" has one empty line.)
pub proof fn lemma_lines_final_line_ending(s: Seq<char>)
    requires
        s.len() > 0,
        s.last() != '\n',
    ensures
        lines_of(s + seq!['\r', '\n']) == lines_of(s),
        s.last() != '\r' ==> lines_of(s + seq!['\n']) == lines_of(s),
    decreases s.len(),
{
    lemma_first_newline(s);
    let i = first_newline(s) as int;
    let n = s.len() as int;
    let crlf = s + seq!['\r', '\n'];
    let lf = s + seq!['\n'];
    if i == n {
        lemma_first_newline_at(crlf, n + 1);
        assert(crlf.take(n + 1) =~= s.push('\r'));
        assert(strip_cr(s.push('\r')) =~= s);
        assert(crlf.skip(n + 2) =~= Seq::<char>::empty());
        assert(crlf.len() > 0);
        assert(first_newline(crlf) == n + 1);
        assert(lines_of(crlf) == seq![strip_cr(crlf.take(n + 1))] + lines_of(crlf.skip(n + 2)));
        assert(lines_of(Seq::<char>::empty()) =~= Seq::<Seq<char>>::empty());
        assert(lines_of(crlf) =~= seq![s]);
        lemma_first_newline_at(lf, n);
        assert(lf.take(n) =~= s);
        assert(lf.skip(n + 1) =~= Seq::<char>::empty());
        if s.last() != '\r' {
            assert(lines_of(lf) =~= seq![s]);
        }
    } else {
        let rest = s.skip(i + 1);
        assert(rest.len() > 0) by {
            if rest.len() == 0 {
                assert(i == s.len() - 1);
            }
        }
        assert(rest.last() == s.last());
        lemma_lines_final_line_ending(rest);
        lemma_first_newline_at(crlf, i);
        lemma_first_newline_at(lf, i);
        assert(crlf.take(i) =~= s.take(i));
        assert(lf.take(i) =~= s.take(i));
        assert(crlf.skip(i + 1) =~= rest + seq!['\r', '\n']);
        assert(lf.skip(i + 1) =~= rest + seq!['\n']);
    }
}

/// Texts joined at a line boundary have the lines of both, in order: when
/// `a` is empty or ends in a line feed, the lines of `a + b` are the lines of
/// `a` followed by those of `b`.
pub proof fn lemma_lines_concat(a: Seq<char>, b: Seq<char>)
    requires
        a.len() == 0 || a.last() == '\n',
    ensures
        lines_of(a + b) == lines_of(a) + lines_of(b),
    decreases a.len(),
{
    if a.len() == 0 {
        assert(a + b =~= b);
        assert(lines_of(a) =~= Seq::<Seq<char>>::empty());
        assert(lines_of(a) + lines_of(b) =~= lines_of(b));
    } else {
        lemma_first_newline(a);
        let i = first_newline(a) as int;
        assert(i < a.len()) by {
            if i == a.len() {
                assert(a[a.len() - 1] != '\n');
            }
        }
        let ab = a + b;
        assert forall|k: int| 0 <= k < i implies ab[k] != '\n' by {
            assert(ab[k] == a[k]);
        }
        lemma_first_newline_at(ab, i);
        let rest = a.skip(i + 1);
        if rest.len() > 0 {
            assert(rest.last() == a.last());
        }
        lemma_lines_concat(rest, b);
        assert(ab.take(i) =~= a.take(i));
        assert(ab.skip(i + 1) =~= rest + b);
        assert(lines_of(ab) == seq![strip_cr(a.take(i))] + lines_of(rest + b));
        assert(lines_of(a) == seq![strip_cr(a.take(i))] + lines_of(rest));
        assert(lines_of(ab) =~= lines_of(a) + lines_of(b));
    }
}

/// Adding a token to an access-token list as a line of its own grants it:
/// when the list is empty or ends in a line feed, and the token holds no line
/// feed and does not end in a carriage return, the token is one of the lines
/// of the list followed by the token and a line feed.
pub proof fn lemma_appended_token_listed(list: Seq<char>, token: Seq<char>)
    requires
        list.len() == 0 || list.last() == '\n',
        forall|k: int| 0 <= k < token.len() ==> token[k] != '\n',
        token.len() == 0 || token.last() != '\r',
    ensures
        lines_of(list + token + seq!['\n']).contains(token),
{
    let line = token + seq!['\n'];
    assert(list + token + seq!['\n'] =~= list + line);
    lemma_lines_concat(list, line);
    lemma_first_newline_at(line, token.len() as int);
    assert(line.take(token.len() as int) =~= token);
    assert(line.skip(token.len() as int + 1) =~= Seq::<char>::empty());
    assert(lines_of(Seq::<char>::empty()) =~= Seq::<Seq<char>>::empty());
    assert(strip_cr(token) == token);
    assert(lines_of(line) =~= seq![token]);
    let all = lines_of(list) + lines_of(line);
    assert(all[lines_of(list).len() as int] == token);
}

/// No line holds a line feed, and a non-empty text without line feeds is a
/// single line, kept whole (a trailing carriage return included).
pub proof fn lemma_lines_hold_no_line_feed(s: Seq<char>)
    ensures
        forall|i: int, k: int| 0 <= i < lines_of(s).len() && 0 <= k < lines_of(s)[i].len()
            ==> lines_of(s)[i][k] != '\n',
        (s.len() > 0 && forall|k: int| 0 <= k < s.len() ==> s[k] != '\n') ==> lines_of(s) == seq![s],
    decreases s.len(),
{
    if s.len() > 0 {
        lemma_first_newline(s);
        let f = first_newline(s) as int;
        if f < s.len() {
            lemma_lines_hold_no_line_feed(s.skip(f + 1));
            let first = strip_cr(s.take(f));
            let rest = lines_of(s.skip(f + 1));
            assert(lines_of(s) == seq![first] + rest);
            assert forall|i: int, k: int| 0 <= i < lines_of(s).len() && 0 <= k < lines_of(s)[i].len()
                implies lines_of(s)[i][k] != '\n' by {
                if i == 0 {
                    assert(lines_of(s)[0] == first);
                    assert(first[k] == s[k]);
                } else {
                    assert(lines_of(s)[i] == rest[i - 1]);
                }
            }
        } else {
            assert forall|i: int, k: int| 0 <= i < lines_of(s).len() && 0 <= k < lines_of(s)[i].len()
                implies lines_of(s)[i][k] != '\n' by {
                assert(lines_of(s)[i] == s);
            }
        }
        if forall|k: int| 0 <= k < s.len() ==> s[k] != '\n' {
            lemma_first_newline_at(s, s.len() as int);
        }
    }
}

/// The value of a lowercase hexadecimal digit ('0' to '9', 'a' to 'f');
/// other characters count as -1.
pub open spec fn hex_digit_value(c: char) -> int {
    if '0' <= c && c <= '9' {
        (c as u32) - ('0' as u32)
    } else if 'a' <= c && c <= 'f' {
        (c as u32) - ('a' as u32) + 10
    } else {
        -1
    }
}

proof fn lemma_hex_digit(d: nat)
    requires
        d < 16,
    ensures
        hex_digit_value(hex_digit(d)) == d,
{
    if d < 10 {
        lemma_digit_char(d);
    } else if d == 10 { assert(('a' as u32) == 97); }
    else if d == 11 { assert(('b' as u32) == 98); }
    else if d == 12 { assert(('c' as u32) == 99); }
    else if d == 13 { assert(('d' as u32) == 100); }
    else if d == 14 { assert(('e' as u32) == 101); }
    else { assert(('f' as u32) == 102); }
}

/// Lowercase hexadecimal rendering reads back: two digits per byte, the
/// first the high nibble, so each pair of digits gives back its byte.
pub proof fn lemma_lower_hex_reads_back(bytes: Seq<u8>)
    ensures
        lower_hex(bytes).len() == 2 * bytes.len(),
        forall|i: int| 0 <= i < bytes.len() ==>
            16 * hex_digit_value(#[trigger] lower_hex(bytes)[2 * i]) + hex_digit_value(lower_hex(bytes)[2 * i + 1])
                == bytes[i],
    decreases bytes.len(),
{
    if bytes.len() > 0 {
        let rest = bytes.drop_first();
        lemma_lower_hex_reads_back(rest);
        lemma_hex_digit((bytes[0] / 16) as nat);
        lemma_hex_digit((bytes[0] % 16) as nat);
        let h = lower_hex(bytes);
        let head = seq![hex_digit((bytes[0] / 16) as nat), hex_digit((bytes[0] % 16) as nat)];
        assert(h == head + lower_hex(rest));
        assert forall|i: int| 0 <= i < bytes.len() implies
            16 * hex_digit_value(#[trigger] h[2 * i]) + hex_digit_value(h[2 * i + 1]) == bytes[i] by {
            if i > 0 {
                assert(h[2 * i] == lower_hex(rest)[2 * (i - 1)]);
                assert(h[2 * i + 1] == lower_hex(rest)[2 * (i - 1) + 1]);
                assert(bytes[i] == rest[i - 1]);
            }
        }
    }
}

} // verus!
