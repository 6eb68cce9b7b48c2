//! Text helpers: Unicode whitespace, blank checks, and form-value escaping.

use vstd::prelude::*;

verus! {

/// Unicode `White_Space` property, which is exactly what `char::is_whitespace` tests.
pub open spec fn spec_is_whitespace(c: char) -> bool {
    let u = c as u32;
    (0x9 <= u && u <= 0xd) || u == 0x20 || u == 0x85 || u == 0xa0 || u == 0x1680
        || (0x2000 <= u && u <= 0x200a) || u == 0x2028 || u == 0x2029 || u == 0x202f
        || u == 0x205f || u == 0x3000
}

/// A text is blank when every character in it is whitespace (the empty text is blank).
pub open spec fn spec_is_blank(s: Seq<char>) -> bool {
    forall|i: int| 0 <= i < s.len() ==> #[trigger] spec_is_whitespace(s[i])
}

/// Returns whether `c` is Unicode whitespace.
pub fn is_whitespace(c: char) -> (r: bool)
    ensures
        r == spec_is_whitespace(c),
{
    let u = c as u32;
    (0x9 <= u && u <= 0xd) || u == 0x20 || u == 0x85 || u == 0xa0 || u == 0x1680
        || (0x2000 <= u && u <= 0x200a) || u == 0x2028 || u == 0x2029 || u == 0x202f
        || u == 0x205f || u == 0x3000
}

/// Returns whether `s` is empty or made only of whitespace, i.e. whether `s.trim()` is empty.
pub fn is_blank(s: &str) -> (r: bool)
    ensures
        r == spec_is_blank(s@),
{
    let mut all = true;
    for c in it: s.chars()
        invariant
            it.seq() == s@,
            all <==> forall|j: int| 0 <= j < it.index() ==> #[trigger] spec_is_whitespace(s@[j]),
    {
        if !is_whitespace(c) {
            all = false;
        }
    }
    all
}


/// Appends one character to a string (`String::push`).
#[verifier::external_body]
pub(crate) fn push_char(s: &mut String, c: char)
    ensures
        final(s)@ == old(s)@.push(c),
{
    s.push(c);
}

/// Bytes that `application/x-www-form-urlencoded` values may carry unescaped.
pub open spec fn spec_is_unreserved(b: u8) -> bool {
    (65u8 <= b && b <= 90u8) || (97u8 <= b && b <= 122u8) || (48u8 <= b && b <= 57u8) || b == 45u8
        || b == 95u8 || b == 46u8 || b == 126u8
}

/// Upper-case hexadecimal digit of a value below 16.
pub open spec fn spec_hex_upper(d: u8) -> char {
    if d < 10 {
        (d + 48u8) as char
    } else {
        (d - 10 + 65u8) as char
    }
}

/// Encoding of one byte: itself when unreserved, otherwise `%` and two upper-case hex digits.
pub open spec fn spec_encode_byte(b: u8) -> Seq<char> {
    if spec_is_unreserved(b) {
        seq![b as char]
    } else {
        seq!['%', spec_hex_upper(b / 16), spec_hex_upper(b % 16)]
    }
}

/// Percent-encoding of a byte sequence, byte by byte.
pub open spec fn spec_percent_encode_bytes(bs: Seq<u8>) -> Seq<char>
    decreases bs.len(),
{
    if bs.len() == 0 {
        Seq::empty()
    } else {
        spec_percent_encode_bytes(bs.drop_last()) + spec_encode_byte(bs.last())
    }
}

/// Percent-encoding of the UTF-8 bytes of a text.
pub open spec fn spec_percent_encode(s: Seq<char>) -> Seq<char> {
    spec_percent_encode_bytes(vstd::utf8::encode_utf8(s))
}

fn hex_upper(d: u8) -> (c: char)
    requires
        d < 16,
    ensures
        c == spec_hex_upper(d),
{
    if d < 10 {
        (d + 48u8) as char
    } else {
        (d - 10 + 65u8) as char
    }
}

/// Escapes a form value: unreserved ASCII bytes stay, every other UTF-8 byte becomes `%XX`.
pub fn percent_encode(value: &str) -> (encoded: String)
    ensures
        encoded@ == spec_percent_encode(value@),
{
    let bytes = value.as_bytes();
    let mut encoded = String::new();
    let mut i: usize = 0;
    while i < bytes.len()
        invariant
            i <= bytes@.len(),
            bytes@ == vstd::utf8::encode_utf8(value@),
            encoded@ == spec_percent_encode_bytes(bytes@.take(i as int)),
        decreases bytes@.len() - i,
    {
        let byte = bytes[i];
        let unreserved = (65u8 <= byte && byte <= 90u8) || (97u8 <= byte && byte <= 122u8) || (48u8
            <= byte && byte <= 57u8) || byte == 45u8 || byte == 95u8 || byte == 46u8 || byte == 126u8;
        if unreserved {
            push_char(&mut encoded, byte as char);
        } else {
            push_char(&mut encoded, '%');
            push_char(&mut encoded, hex_upper(byte / 16));
            push_char(&mut encoded, hex_upper(byte % 16));
        }
        assert(bytes@.take(i + 1).drop_last() =~= bytes@.take(i as int));
        i = i + 1;
    }
    assert(bytes@.take(bytes@.len() as int) =~= bytes@);
    encoded
}


/// Drops leading whitespace.
pub open spec fn spec_trim_start(s: Seq<char>) -> Seq<char>
    decreases s.len(),
{
    if s.len() > 0 && spec_is_whitespace(s[0]) {
        spec_trim_start(s.drop_first())
    } else {
        s
    }
}

/// Drops trailing whitespace.
pub open spec fn spec_trim_end(s: Seq<char>) -> Seq<char>
    decreases s.len(),
{
    if s.len() > 0 && spec_is_whitespace(s.last()) {
        spec_trim_end(s.drop_last())
    } else {
        s
    }
}

/// `str::trim`: leading and trailing whitespace removed.
pub open spec fn spec_trim(s: Seq<char>) -> Seq<char> {
    spec_trim_end(spec_trim_start(s))
}

proof fn lemma_trim_start_skip(s: Seq<char>, k: int)
    requires
        0 <= k <= s.len(),
        forall|j: int| 0 <= j < k ==> #[trigger] spec_is_whitespace(s[j]),
    ensures
        spec_trim_start(s) == spec_trim_start(s.subrange(k, s.len() as int)),
    decreases k,
{
    if k == 0 {
        assert(s.subrange(0, s.len() as int) =~= s);
    } else {
        lemma_trim_start_skip(s, k - 1);
        let t = s.subrange(k - 1, s.len() as int);
        assert(t[0] == s[k - 1]);
        assert(t.drop_first() =~= s.subrange(k, s.len() as int));
    }
}

proof fn lemma_trim_end_skip(s: Seq<char>, k: int)
    requires
        0 <= k <= s.len(),
        forall|j: int| k <= j < s.len() ==> #[trigger] spec_is_whitespace(s[j]),
    ensures
        spec_trim_end(s) == spec_trim_end(s.subrange(0, k)),
    decreases s.len() - k,
{
    if k == s.len() {
        assert(s.subrange(0, s.len() as int) =~= s);
    } else {
        lemma_trim_end_skip(s, k + 1);
        let t = s.subrange(0, k + 1);
        assert(t.last() == s[k]);
        assert(t.drop_last() =~= s.subrange(0, k));
    }
}

/// Returns `s` with leading and trailing whitespace removed, as `str::trim` does.
pub fn trim(s: &str) -> (t: String)
    ensures
        t@ == spec_trim(s@),
{
    let mut chars: Vec<char> = Vec::new();
    for c in it: s.chars()
        invariant
            it.seq() == s@,
            chars@ == s@.take(it.index() as int),
    {
        chars.push(c);
        assert(s@.take(it.index() + 1) =~= s@.take(it.index() as int).push(c));
    }
    assert(chars@ =~= s@);
    let n = chars.len();
    let mut lo: usize = 0;
    while lo < n && is_whitespace(chars[lo])
        invariant
            n == chars@.len(),
            lo <= n,
            forall|j: int| 0 <= j < lo ==> #[trigger] spec_is_whitespace(chars@[j]),
        decreases n - lo,
    {
        lo = lo + 1;
    }
    let mut hi: usize = n;
    while hi > lo && is_whitespace(chars[hi - 1])
        invariant
            n == chars@.len(),
            lo <= hi <= n,
            forall|j: int| hi <= j < n ==> #[trigger] spec_is_whitespace(chars@[j]),
        decreases hi - lo,
    {
        hi = hi - 1;
    }
    proof {
        let s0 = chars@;
        lemma_trim_start_skip(s0, lo as int);
        let rest = s0.subrange(lo as int, n as int);
        assert(spec_trim_start(rest) == rest);
        lemma_trim_end_skip(rest, (hi - lo) as int);
        let mid = rest.subrange(0, (hi - lo) as int);
        assert(mid =~= s0.subrange(lo as int, hi as int));
        if hi > lo {
            assert(mid.last() == chars@[hi - 1]);
        }
        assert(spec_trim_end(mid) == mid);
    }
    let mut t = String::new();
    let mut k: usize = lo;
    while k < hi
        invariant
            n == chars@.len(),
            lo <= k <= hi <= n,
            t@ == chars@.subrange(lo as int, k as int),
        decreases hi - k,
    {
        push_char(&mut t, chars[k]);
        assert(chars@.subrange(lo as int, k + 1) =~= chars@.subrange(lo as int, k as int).push(
            chars@[k as int],
        ));
        k = k + 1;
    }
    t
}

/// Trimming leaves nothing exactly when the text is blank.
pub proof fn lemma_trim_blank(s: Seq<char>)
    ensures
        spec_trim(s).len() == 0 <==> spec_is_blank(s),
        spec_trim_start(s).len() == 0 <==> spec_is_blank(s),
    decreases s.len(),
{
    if s.len() > 0 {
        if spec_is_whitespace(s[0]) {
            lemma_trim_blank(s.drop_first());
            assert(spec_is_blank(s) <==> spec_is_blank(s.drop_first())) by {
                if spec_is_blank(s.drop_first()) {
                    assert forall|i: int| 0 <= i < s.len() implies #[trigger] spec_is_whitespace(s[i]) by {
                        if i > 0 {
                            assert(s[i] == s.drop_first()[i - 1]);
                        }
                    }
                }
                if spec_is_blank(s) {
                    assert forall|i: int| 0 <= i < s.drop_first().len() implies #[trigger] spec_is_whitespace(s.drop_first()[i]) by {
                        assert(s.drop_first()[i] == s[i + 1]);
                    }
                }
            }
            lemma_trim_end_nonempty(spec_trim_start(s));
        } else {
            assert(!spec_is_whitespace(s[0]));
            lemma_trim_end_nonempty(s);
        }
    }
}

/// Trimming the end of a text that starts with a non-whitespace character leaves that character.
proof fn lemma_trim_end_nonempty(s: Seq<char>)
    ensures
        s.len() > 0 && !spec_is_whitespace(s[0]) ==> spec_trim_end(s).len() > 0,
        s.len() == 0 ==> spec_trim_end(s).len() == 0,
    decreases s.len(),
{
    if s.len() > 1 && spec_is_whitespace(s.last()) {
        lemma_trim_end_nonempty(s.drop_last());
        assert(s.drop_last()[0] == s[0]);
    }
}

/// Whether an optional text is present and not blank.
pub open spec fn spec_has_non_blank_value(value: Option<Seq<char>>) -> bool {
    match value {
        Some(v) => !spec_is_blank(v),
        None => false,
    }
}

/// Returns whether `value` is present and holds something besides whitespace.
pub fn has_non_blank_value(value: Option<&str>) -> (r: bool)
    ensures
        r == match value {
            Some(v) => !spec_is_blank(v@),
            None => false,
        },
{
    match value {
        Some(v) => !is_blank(v),
        None => false,
    }
}

} // verus!
