use vstd::prelude::*;

verus! {

broadcast use vstd::string::axiom_spec_iter;

// ---------------------------------------------------------------------------
// Character classes
// ---------------------------------------------------------------------------

/// The Unicode `White_Space` property, as `char::is_whitespace` decides it.
pub open spec fn is_white_space(c: char) -> bool {
    ||| c == ' '
    ||| ('\t' <= c && c <= '\r')
    ||| c == '\u{85}'
    ||| c == '\u{a0}'
    ||| c == '\u{1680}'
    ||| ('\u{2000}' <= c && c <= '\u{200a}')
    ||| c == '\u{2028}'
    ||| c == '\u{2029}'
    ||| c == '\u{202f}'
    ||| c == '\u{205f}'
    ||| c == '\u{3000}'
}

pub fn is_white_space_char(c: char) -> (r: bool)
    ensures
        r == is_white_space(c),
{
    c == ' ' || ('\t' <= c && c <= '\r') || c == '\u{85}' || c == '\u{a0}' || c == '\u{1680}'
        || ('\u{2000}' <= c && c <= '\u{200a}') || c == '\u{2028}' || c == '\u{2029}'
        || c == '\u{202f}' || c == '\u{205f}' || c == '\u{3000}'
}

// ---------------------------------------------------------------------------
// Trimming
// ---------------------------------------------------------------------------

/// `s` without its leading white space.
pub open spec fn trim_start(s: Seq<char>) -> Seq<char>
    decreases s.len(),
{
    if s.len() > 0 && is_white_space(s[0]) {
        trim_start(s.drop_first())
    } else {
        s
    }
}

/// `s` without its trailing white space.
pub open spec fn trim_end(s: Seq<char>) -> Seq<char>
    decreases s.len(),
{
    if s.len() > 0 && is_white_space(s.last()) {
        trim_end(s.drop_last())
    } else {
        s
    }
}

/// `s` without leading and trailing white space (what `str::trim` gives).
pub open spec fn trim(s: Seq<char>) -> Seq<char> {
    trim_end(trim_start(s))
}

pub proof fn lemma_trim_start_at(s: Seq<char>, i: int)
    requires
        0 <= i <= s.len(),
        forall|k: int| 0 <= k < i ==> is_white_space(#[trigger] s[k]),
        i == s.len() || !is_white_space(s[i]),
    ensures
        trim_start(s) == s.subrange(i, s.len() as int),
    decreases i,
{
    if i == 0 {
        assert(s.subrange(0, s.len() as int) =~= s);
    } else {
        let t = s.drop_first();
        assert forall|k: int| 0 <= k < i - 1 implies is_white_space(#[trigger] t[k]) by {
            assert(t[k] == s[k + 1]);
        }
        if i - 1 < t.len() {
            assert(t[i - 1] == s[i]);
        }
        lemma_trim_start_at(t, i - 1);
        assert(t.subrange(i - 1, t.len() as int) =~= s.subrange(i, s.len() as int));
    }
}

pub proof fn lemma_trim_end_at(s: Seq<char>, j: int)
    requires
        0 <= j <= s.len(),
        forall|k: int| j <= k < s.len() ==> is_white_space(#[trigger] s[k]),
        j == 0 || !is_white_space(s[j - 1]),
    ensures
        trim_end(s) == s.subrange(0, j),
    decreases s.len() - j,
{
    if j == s.len() {
        assert(s.subrange(0, j) =~= s);
    } else {
        let t = s.drop_last();
        assert forall|k: int| j <= k < t.len() implies is_white_space(#[trigger] t[k]) by {
            assert(t[k] == s[k]);
        }
        if j > 0 {
            assert(t[j - 1] == s[j - 1]);
        }
        assert(is_white_space(s[s.len() - 1]));
        lemma_trim_end_at(t, j);
        assert(t.subrange(0, j) =~= s.subrange(0, j));
    }
}

/// `trim_start` keeps a suffix whose first character is not white space, dropping
/// only white space.
pub proof fn lemma_trim_start_shape(s: Seq<char>)
    ensures
        trim_start(s).len() <= s.len(),
        trim_start(s) == s.subrange(s.len() - trim_start(s).len(), s.len() as int),
        trim_start(s).len() > 0 ==> !is_white_space(trim_start(s)[0]),
        forall|k: int|
            0 <= k < s.len() - trim_start(s).len() ==> is_white_space(#[trigger] s[k]),
    decreases s.len(),
{
    if s.len() > 0 && is_white_space(s[0]) {
        let t = s.drop_first();
        lemma_trim_start_shape(t);
        assert(t.subrange(t.len() - trim_start(t).len(), t.len() as int) =~= s.subrange(
            s.len() - trim_start(t).len(),
            s.len() as int,
        ));
        assert forall|k: int| 0 <= k < s.len() - trim_start(s).len() implies is_white_space(
            #[trigger] s[k],
        ) by {
            if k > 0 {
                assert(s[k] == t[k - 1]);
            }
        }
    } else {
        assert(s.subrange(0, s.len() as int) =~= s);
    }
}

/// `trim_end` keeps a prefix whose last character is not white space, dropping only
/// white space.
pub proof fn lemma_trim_end_shape(s: Seq<char>)
    ensures
        trim_end(s).len() <= s.len(),
        trim_end(s) == s.subrange(0, trim_end(s).len() as int),
        trim_end(s).len() > 0 ==> !is_white_space(trim_end(s).last()),
        forall|k: int| trim_end(s).len() <= k < s.len() ==> is_white_space(#[trigger] s[k]),
    decreases s.len(),
{
    if s.len() > 0 && is_white_space(s.last()) {
        let t = s.drop_last();
        lemma_trim_end_shape(t);
        assert(t.subrange(0, trim_end(t).len() as int) =~= s.subrange(
            0,
            trim_end(t).len() as int,
        ));
        assert forall|k: int| trim_end(s).len() <= k < s.len() implies is_white_space(
            #[trigger] s[k],
        ) by {
            if k < s.len() - 1 {
                assert(s[k] == t[k]);
            }
        }
    } else {
        assert(s.subrange(0, s.len() as int) =~= s);
    }
}

/// `trim` keeps a contiguous part of `s` that neither starts nor ends with white
/// space, and drops only white space.
pub proof fn lemma_trim_shape(s: Seq<char>) -> (start: int)
    ensures
        0 <= start,
        start + trim(s).len() <= s.len(),
        trim(s) == s.subrange(start, start + trim(s).len()),
        trim(s).len() > 0 ==> !is_white_space(trim(s)[0]) && !is_white_space(trim(s).last()),
        forall|k: int|
            0 <= k < s.len() && !(start <= k < start + trim(s).len()) ==> is_white_space(
                #[trigger] s[k],
            ),
{
    lemma_trim_start_shape(s);
    let t = trim_start(s);
    lemma_trim_end_shape(t);
    let start = s.len() - t.len();
    assert(trim(s) =~= s.subrange(start, start + trim(s).len()));
    if trim(s).len() > 0 {
        assert(trim(s)[0] == t[0]);
    }
    assert forall|k: int|
        0 <= k < s.len() && !(start <= k < start + trim(s).len()) implies is_white_space(
        #[trigger] s[k],
    ) by {
        if k >= start {
            assert(s[k] == t[k - start]);
        }
    }
    start
}

/// Trimming twice is trimming once.
pub proof fn lemma_trim_idempotent(s: Seq<char>)
    ensures
        trim(trim(s)) == trim(s),
{
    let t = trim(s);
    lemma_trim_shape(s);
    lemma_trim_start_at(t, 0);
    assert(t.subrange(0, t.len() as int) =~= t);
    lemma_trim_end_at(t, t.len() as int);
}

/// A copy of `s[from..to]`.
pub fn copy_range(s: &[char], from: usize, to: usize) -> (r: Vec<char>)
    requires
        from <= to <= s@.len(),
    ensures
        r@ == s@.subrange(from as int, to as int),
{
    let mut out: Vec<char> = Vec::new();
    let mut i = from;
    while i < to
        invariant
            from <= i <= to <= s@.len(),
            out@ == s@.subrange(from as int, i as int),
        decreases to - i,
    {
        out.push(s[i]);
        i = i + 1;
        assert(out@ =~= s@.subrange(from as int, i as int));
    }
    out
}

pub fn trim_chars(s: &[char]) -> (r: Vec<char>)
    ensures
        r@ == trim(s@),
{
    let n = s.len();
    let mut i: usize = 0;
    while i < n && is_white_space_char(s[i])
        invariant
            i <= n == s@.len(),
            forall|k: int| 0 <= k < i ==> is_white_space(#[trigger] s@[k]),
        decreases n - i,
    {
        i = i + 1;
    }
    let mut j: usize = n;
    while j > i && is_white_space_char(s[j - 1])
        invariant
            i <= j <= n == s@.len(),
            forall|k: int| j <= k < n ==> is_white_space(#[trigger] s@[k]),
        decreases j - i,
    {
        j = j - 1;
    }
    proof {
        lemma_trim_start_at(s@, i as int);
        let t = s@.subrange(i as int, n as int);
        assert forall|k: int| j - i <= k < t.len() implies is_white_space(#[trigger] t[k]) by {
            assert(t[k] == s@[k + i]);
        }
        if j > i {
            assert(t[j - i - 1] == s@[j - 1]);
        }
        lemma_trim_end_at(t, j - i);
        assert(t.subrange(0, j - i) =~= s@.subrange(i as int, j as int));
    }
    copy_range(s, i, j)
}

/// The characters of `s` without leading and trailing white space.
pub fn trim_str(s: &str) -> (r: Vec<char>)
    ensures
        r@ == trim(s@),
{
    let chars = to_chars(s);
    trim_chars(&chars)
}

// ---------------------------------------------------------------------------
// Carriage returns
// ---------------------------------------------------------------------------

/// `s` with every `'\r'` taken out.
pub open spec fn remove_cr(s: Seq<char>) -> Seq<char>
    decreases s.len(),
{
    if s.len() == 0 {
        s
    } else if s.last() == '\r' {
        remove_cr(s.drop_last())
    } else {
        remove_cr(s.drop_last()).push(s.last())
    }
}

pub proof fn lemma_remove_cr_no_cr(s: Seq<char>)
    ensures
        !remove_cr(s).contains('\r'),
        remove_cr(s).len() <= s.len(),
    decreases s.len(),
{
    if s.len() > 0 {
        lemma_remove_cr_no_cr(s.drop_last());
        let t = remove_cr(s.drop_last());
        if s.last() != '\r' {
            assert forall|k: int| 0 <= k < t.push(s.last()).len() implies t.push(s.last())[k]
                != '\r' by {
                if k < t.len() {
                    assert(t[k] != '\r') by {
                        if t[k] == '\r' {
                            assert(t.contains('\r'));
                        }
                    }
                }
            }
        }
    }
}

/// Taking out `'\r'` keeps every other character, and brings in none.
pub proof fn lemma_remove_cr_members(s: Seq<char>)
    ensures
        forall|c: char| c != '\r' && s.contains(c) ==> #[trigger] remove_cr(s).contains(c),
        forall|c: char| #[trigger] remove_cr(s).contains(c) ==> s.contains(c),
    decreases s.len(),
{
    if s.len() > 0 {
        let t = s.drop_last();
        lemma_remove_cr_members(t);
        let r = remove_cr(s);
        assert forall|c: char| c != '\r' && s.contains(c) implies #[trigger] remove_cr(s).contains(
            c,
        ) by {
            let k = choose|k: int| 0 <= k < s.len() && s[k] == c;
            if k < s.len() - 1 {
                assert(t[k] == c);
                assert(t.contains(c));
                assert(remove_cr(t).contains(c));
                let j = choose|j: int| 0 <= j < remove_cr(t).len() && remove_cr(t)[j] == c;
                if s.last() != '\r' {
                    assert(r[j] == c);
                } else {
                    assert(r == remove_cr(t));
                }
            } else {
                assert(r.last() == c);
            }
        }
        assert forall|c: char| #[trigger] remove_cr(s).contains(c) implies s.contains(c) by {
            let j = choose|j: int| 0 <= j < r.len() && r[j] == c;
            if s.last() != '\r' && j == r.len() - 1 {
                assert(s[s.len() - 1] == c);
            } else {
                assert(remove_cr(t)[j] == c);
                assert(remove_cr(t).contains(c));
                let k = choose|k: int| 0 <= k < t.len() && t[k] == c;
                assert(s[k] == c);
            }
        }
    }
}

/// Taking out `'\r'` leaves a text with no `'\r'` unchanged.
pub proof fn lemma_remove_cr_identity(s: Seq<char>)
    requires
        !s.contains('\r'),
    ensures
        remove_cr(s) == s,
    decreases s.len(),
{
    if s.len() > 0 {
        let t = s.drop_last();
        assert(!t.contains('\r')) by {
            if t.contains('\r') {
                let k = choose|k: int| 0 <= k < t.len() && t[k] == '\r';
                assert(s[k] == '\r');
            }
        }
        assert(s.last() != '\r') by {
            assert(s[s.len() - 1] == s.last());
        }
        lemma_remove_cr_identity(t);
        assert(t.push(s.last()) =~= s);
    }
}

pub fn remove_cr_chars(s: &[char]) -> (r: Vec<char>)
    ensures
        r@ == remove_cr(s@),
{
    let mut out: Vec<char> = Vec::new();
    let n = s.len();
    let mut i: usize = 0;
    while i < n
        invariant
            i <= n == s@.len(),
            out@ == remove_cr(s@.take(i as int)),
        decreases n - i,
    {
        assert(s@.take(i as int + 1).drop_last() =~= s@.take(i as int));
        if s[i] != '\r' {
            out.push(s[i]);
        }
        i = i + 1;
    }
    assert(s@.take(n as int) =~= s@);
    out
}

// ---------------------------------------------------------------------------
// Searching and comparing
// ---------------------------------------------------------------------------

pub fn contains_char(s: &[char], c: char) -> (r: bool)
    ensures
        r == s@.contains(c),
{
    let mut i: usize = 0;
    while i < s.len()
        invariant
            i <= s@.len(),
            forall|k: int| 0 <= k < i ==> s@[k] != c,
        decreases s.len() - i,
    {
        if s[i] == c {
            assert(s@[i as int] == c);
            return true;
        }
        i = i + 1;
    }
    false
}

pub fn chars_equal(a: &[char], b: &[char]) -> (r: bool)
    ensures
        r == (a@ == b@),
{
    if a.len() != b.len() {
        return false;
    }
    let mut i: usize = 0;
    while i < a.len()
        invariant
            i <= a@.len() == b@.len(),
            forall|k: int| 0 <= k < i ==> a@[k] == b@[k],
        decreases a.len() - i,
    {
        if a[i] != b[i] {
            return false;
        }
        i = i + 1;
    }
    assert(a@ =~= b@);
    true
}

pub open spec fn ends_with(s: Seq<char>, suffix: Seq<char>) -> bool {
    suffix.len() <= s.len() && s.subrange(s.len() - suffix.len(), s.len() as int) == suffix
}

pub fn ends_with_chars(s: &[char], suffix: &[char]) -> (r: bool)
    ensures
        r == ends_with(s@, suffix@),
{
    if suffix.len() > s.len() {
        return false;
    }
    let off = s.len() - suffix.len();
    let mut i: usize = 0;
    while i < suffix.len()
        invariant
            off + suffix@.len() == s@.len(),
            s@.len() == s.len(),
            i <= suffix@.len(),
            forall|k: int| 0 <= k < i ==> s@[off + k] == suffix@[k],
        decreases suffix.len() - i,
    {
        if s[off + i] != suffix[i] {
            assert(s@.subrange(off as int, s@.len() as int)[i as int] != suffix@[i as int]);
            return false;
        }
        i = i + 1;
    }
    assert(s@.subrange(off as int, s@.len() as int) =~= suffix@);
    true
}

// ---------------------------------------------------------------------------
// Building strings
// ---------------------------------------------------------------------------

/// `String::push`: appends one character.
#[verifier::external_body]
fn push_char(s: &mut String, c: char)
    ensures
        final(s)@ == old(s)@.push(c),
{
    s.push(c);
}

pub fn string_from_chars(v: &[char]) -> (r: String)
    ensures
        r@ == v@,
{
    let mut out = String::new();
    let mut i: usize = 0;
    while i < v.len()
        invariant
            i <= v@.len(),
            out@ == v@.take(i as int),
        decreases v.len() - i,
    {
        push_char(&mut out, v[i]);
        i = i + 1;
        assert(out@ =~= v@.take(i as int));
    }
    assert(v@.take(v@.len() as int) =~= v@);
    out
}

pub fn append_chars(out: &mut Vec<char>, more: &[char])
    ensures
        final(out)@ == old(out)@ + more@,
{
    let mut i: usize = 0;
    while i < more.len()
        invariant
            i <= more@.len(),
            out@ == old(out)@ + more@.take(i as int),
        decreases more.len() - i,
    {
        out.push(more[i]);
        i = i + 1;
        assert(out@ =~= old(out)@ + more@.take(i as int));
    }
    assert(more@.take(more@.len() as int) =~= more@);
}

pub fn append_str(out: &mut Vec<char>, more: &str)
    ensures
        final(out)@ == old(out)@ + more@,
{
    let m = to_chars(more);
    append_chars(out, &m);
}

/// The characters of `s`, in order.
pub fn to_chars(s: &str) -> (r: Vec<char>)
    ensures
        r@ == s@,
{
    let mut out: Vec<char> = Vec::new();
    for c in it: s.chars()
        invariant
            it.seq() == s@,
            out@ == s@.take(it.index()),
    {
        out.push(c);
    }
    out
}


// ---------------------------------------------------------------------------
// Numbers as text
// ---------------------------------------------------------------------------

/// The ASCII character for the digit `d` (0 to 15; `a` to `f` above 9).
pub open spec fn hex_digit(d: nat) -> char {
    if d < 10 {
        ((d + 48) as u8) as char
    } else {
        ((d + 87) as u8) as char
    }
}

/// The decimal digits of `n`, without leading zeros (`"0"` for zero).
pub open spec fn decimal(n: nat) -> Seq<char>
    decreases n,
{
    if n < 10 {
        seq![hex_digit(n)]
    } else {
        decimal(n / 10).push(hex_digit(n % 10))
    }
}

/// `n` as `{}` formats it: a minus sign before the digits of a negative number.
pub open spec fn signed_decimal(n: int) -> Seq<char> {
    if n < 0 {
        seq!['-'] + decimal((-n) as nat)
    } else {
        decimal(n as nat)
    }
}

/// Two lower-case hexadecimal digits per byte, as `{:x}` formats a digest.
pub open spec fn lower_hex(bytes: Seq<u8>) -> Seq<char>
    decreases bytes.len(),
{
    if bytes.len() == 0 {
        Seq::empty()
    } else {
        lower_hex(bytes.drop_last()) + seq![
            hex_digit((bytes.last() / 16) as nat),
            hex_digit((bytes.last() % 16) as nat),
        ]
    }
}

/// A character of `0`-`9` or `a`-`f`.
pub open spec fn is_lower_hex_digit(c: char) -> bool {
    ('0' <= c && c <= '9') || ('a' <= c && c <= 'f')
}

/// Lower-case hex has two digits per byte.
pub proof fn lemma_lower_hex_shape(bytes: Seq<u8>)
    ensures
        lower_hex(bytes).len() == 2 * bytes.len(),
        forall|k: int| 0 <= k < lower_hex(bytes).len() ==> is_lower_hex_digit(
            #[trigger] lower_hex(bytes)[k],
        ),
    decreases bytes.len(),
{
    if bytes.len() > 0 {
        let rest = bytes.drop_last();
        lemma_lower_hex_shape(rest);
        let b = bytes.last();
        let pair = seq![hex_digit((b / 16) as nat), hex_digit((b % 16) as nat)];
        assert(is_lower_hex_digit(pair[0]) && is_lower_hex_digit(pair[1]));
        assert forall|k: int| 0 <= k < lower_hex(bytes).len() implies is_lower_hex_digit(
            #[trigger] lower_hex(bytes)[k],
        ) by {
            if k < lower_hex(rest).len() {
                assert(lower_hex(bytes)[k] == lower_hex(rest)[k]);
            } else {
                assert(lower_hex(bytes)[k] == pair[k - lower_hex(rest).len()]);
            }
        }
    }
}

pub fn hex_digit_char(d: u8) -> (c: char)
    requires
        d < 16,
    ensures
        c == hex_digit(d as nat),
{
    if d < 10 {
        (d + 48) as char
    } else {
        (d + 87) as char
    }
}

pub fn decimal_chars(n: u64) -> (r: Vec<char>)
    ensures
        r@ == decimal(n as nat),
    decreases n,
{
    if n < 10 {
        let mut v: Vec<char> = Vec::new();
        v.push(hex_digit_char(n as u8));
        assert(v@ =~= seq![hex_digit(n as nat)]);
        v
    } else {
        let mut v = decimal_chars(n / 10);
        v.push(hex_digit_char((n % 10) as u8));
        v
    }
}

pub fn signed_decimal_chars(n: i64) -> (r: Vec<char>)
    ensures
        r@ == signed_decimal(n as int),
{
    if n < 0 {
        let magnitude: u64 = (0i128 - n as i128) as u64;
        let digits = decimal_chars(magnitude);
        let mut v: Vec<char> = Vec::new();
        v.push('-');
        append_chars(&mut v, &digits);
        assert(v@ =~= seq!['-'] + decimal((-n) as nat));
        v
    } else {
        decimal_chars(n as u64)
    }
}

pub fn lower_hex_chars(bytes: &[u8]) -> (r: Vec<char>)
    ensures
        r@ == lower_hex(bytes@),
{
    let mut out: Vec<char> = Vec::new();
    let mut i: usize = 0;
    while i < bytes.len()
        invariant
            i <= bytes@.len(),
            out@ == lower_hex(bytes@.take(i as int)),
        decreases bytes.len() - i,
    {
        assert(bytes@.take(i as int + 1).drop_last() =~= bytes@.take(i as int));
        let b = bytes[i];
        out.push(hex_digit_char(b / 16));
        out.push(hex_digit_char(b % 16));
        i = i + 1;
        assert(out@ =~= lower_hex(bytes@.take(i as int)));
    }
    assert(bytes@.take(bytes@.len() as int) =~= bytes@);
    out
}

} // verus!
