use vstd::prelude::*;
use vstd::string::*;

verus! {

/// `p` is the beginning of `s`.
pub open spec fn is_prefix(p: Seq<char>, s: Seq<char>) -> bool {
    p.len() <= s.len() && s.subrange(0, p.len() as int) == p
}

/// `p` is the end of `s`.
pub open spec fn is_suffix(p: Seq<char>, s: Seq<char>) -> bool {
    p.len() <= s.len() && s.subrange(s.len() - p.len(), s.len() as int) == p
}

/// `p` stands in `s` at position `i`.
pub open spec fn occurs_at(p: Seq<char>, s: Seq<char>, i: int) -> bool {
    0 <= i && i + p.len() <= s.len() && s.subrange(i, i + p.len()) == p
}

/// `p` stands somewhere in `s`.
pub open spec fn occurs_in(p: Seq<char>, s: Seq<char>) -> bool {
    exists|i: int| occurs_at(p, s, i)
}

/// The decimal digit for `d`, which is below ten.
pub open spec fn digit_char(d: nat) -> char {
    (('0' as nat) + d) as char
}

/// The decimal numeral of `n`, without leading zeros.
pub open spec fn decimal(n: nat) -> Seq<char>
    decreases n,
{
    if n < 10 {
        seq![digit_char(n)]
    } else {
        decimal(n / 10).push(digit_char(n % 10))
    }
}

/// The decimal numeral of `n`, with a minus sign where `n` is negative.
pub open spec fn signed_decimal(n: int) -> Seq<char> {
    if n < 0 {
        seq!['-'] + decimal((-n) as nat)
    } else {
        decimal(n as nat)
    }
}

/// The characters of `s`, in order.
pub fn to_chars(s: &str) -> (v: Vec<char>)
    ensures
        v@ == s@,
{
    let mut v: Vec<char> = Vec::new();
    for c in it: s.chars()
        invariant
            v@ == it.seq().take(it.index()),
    {
        v.push(c);
    }
    v
}

/// Appends one character to `s`, as `String::push` does.
#[verifier::external_body]
pub(crate) fn push_char(s: &mut String, c: char)
    ensures
        final(s)@ == old(s)@.push(c),
{
    s.push(c);
}

/// Appends the characters `v[from..to]` to `s`.
pub fn push_range(s: &mut String, v: &Vec<char>, from: usize, to: usize)
    requires
        from <= to <= v.len(),
    ensures
        final(s)@ == old(s)@ + v@.subrange(from as int, to as int),
{
    let mut i: usize = from;
    while i < to
        invariant
            from <= i <= to <= v.len(),
            s@ == old(s)@ + v@.subrange(from as int, i as int),
        decreases to - i,
    {
        push_char(s, v[i]);
        i += 1;
    }
}

/// Whether `v[at..]` begins with `p`.
pub fn matches_at(v: &Vec<char>, p: &Vec<char>, at: usize) -> (b: bool)
    ensures
        b == occurs_at(p@, v@, at as int),
{
    if at > v.len() || p.len() > v.len() - at {
        return false;
    }
    let mut j: usize = 0;
    while j < p.len()
        invariant
            j <= p.len(),
            at + p.len() <= v.len(),
            forall|k: int| 0 <= k < j ==> v@[at + k] == p@[k],
        decreases p.len() - j,
    {
        if v[at + j] != p[j] {
            assert(v@.subrange(at as int, at + p.len())[j as int] == v@[at + j]);
            return false;
        }
        j += 1;
    }
    assert(v@.subrange(at as int, at + p.len()) =~= p@);
    true
}

/// Whether `s` begins with `p`.
pub fn starts_with(s: &str, p: &str) -> (b: bool)
    ensures
        b == is_prefix(p@, s@),
{
    let v = to_chars(s);
    let pv = to_chars(p);
    matches_at(&v, &pv, 0)
}

/// Whether `s` ends with `p`.
pub fn ends_with(s: &str, p: &str) -> (b: bool)
    ensures
        b == is_suffix(p@, s@),
{
    let v = to_chars(s);
    let pv = to_chars(p);
    if pv.len() > v.len() {
        return false;
    }
    matches_at(&v, &pv, v.len() - pv.len())
}

/// Whether `p` stands somewhere in `v`.
pub fn contains_chars(v: &Vec<char>, p: &Vec<char>) -> (b: bool)
    ensures
        b == occurs_in(p@, v@),
{
    if p.len() > v.len() {
        assert forall|i: int| !occurs_at(p@, v@, i) by {}
        return false;
    }
    let last: usize = v.len() - p.len();
    let mut i: usize = 0;
    while i < last
        invariant
            i <= last,
            last == v.len() - p.len(),
            forall|k: int| 0 <= k < i ==> !occurs_at(p@, v@, k),
        decreases last - i,
    {
        if matches_at(v, p, i) {
            return true;
        }
        i += 1;
    }
    if matches_at(v, p, last) {
        return true;
    }
    assert forall|k: int| !occurs_at(p@, v@, k) by {}
    false
}

/// Whether `p` stands somewhere in `s`.
pub fn contains(s: &str, p: &str) -> (b: bool)
    ensures
        b == occurs_in(p@, s@),
{
    let v = to_chars(s);
    let pv = to_chars(p);
    contains_chars(&v, &pv)
}

/// Whether two texts hold the same characters.
pub fn same_text(a: &str, b: &str) -> (r: bool)
    ensures
        r == (a@ == b@),
{
    let av = to_chars(a);
    let bv = to_chars(b);
    if av.len() != bv.len() {
        return false;
    }
    let mut i: usize = 0;
    while i < av.len()
        invariant
            i <= av.len(),
            av.len() == bv.len(),
            av@ == a@,
            bv@ == b@,
            forall|k: int| 0 <= k < i ==> av@[k] == bv@[k],
        decreases av.len() - i,
    {
        if av[i] != bv[i] {
            assert(a@[i as int] != b@[i as int]);
            return false;
        }
        i += 1;
    }
    assert(av@ =~= bv@);
    true
}

/// The character for the digit `d`.
pub fn digit(d: u8) -> (c: char)
    requires
        d < 10,
    ensures
        c == digit_char(d as nat),
{
    (48u8 + d) as char
}

/// Appends the decimal numeral of `n` to `s`.
pub fn push_decimal(s: &mut String, n: u64)
    ensures
        final(s)@ == old(s)@ + decimal(n as nat),
    decreases n,
{
    if n >= 10 {
        push_decimal(s, n / 10);
    }
    push_char(s, digit((n % 10) as u8));
}

/// Appends the decimal numeral of `n`, with a minus sign where `n` is
/// negative.
pub fn push_signed_decimal(s: &mut String, n: i64)
    ensures
        final(s)@ == old(s)@ + signed_decimal(n as int),
{
    if n < 0 {
        push_char(s, '-');
        let m: u64 = ((-(n + 1)) as u64) + 1;
        push_decimal(s, m);
        assert(s@ =~= old(s)@ + (seq!['-'] + decimal((-n) as nat)));
    } else {
        push_decimal(s, n as u64);
    }
}

/// The decimal numeral of `n`, with a minus sign where `n` is negative.
pub fn i64_to_string(n: i64) -> (s: String)
    ensures
        s@ == signed_decimal(n as int),
{
    let mut s = String::new();
    push_signed_decimal(&mut s, n);
    s
}

/// The number of characters of `s`.
pub fn char_len(s: &str) -> (n: usize)
    ensures
        n == s@.len(),
{
    s.unicode_len()
}

/// Puts `c` into `s` before the character at place `at`, or at the end where
/// `at` is the length.
pub fn insert_char(s: &mut String, at: usize, c: char)
    requires
        at <= old(s)@.len(),
    ensures
        final(s)@ == old(s)@.insert(at as int, c),
        final(s)@.len() <= usize::MAX,
{
    let chars = to_chars(s.as_str());
    let mut t = String::new();
    push_range(&mut t, &chars, 0, at);
    push_char(&mut t, c);
    push_range(&mut t, &chars, at, chars.len());
    assert(t@ =~= chars@.insert(at as int, c));
    // Counting the characters shows that their number fits a machine word.
    let _count: usize = char_len(t.as_str());
    *s = t;
}

/// Takes the character at place `at` out of `s`.
pub fn remove_char(s: &mut String, at: usize)
    requires
        at < old(s)@.len(),
    ensures
        final(s)@ == old(s)@.remove(at as int),
{
    let chars = to_chars(s.as_str());
    assert(at < chars.len());
    let mut t = String::new();
    push_range(&mut t, &chars, 0, at);
    push_range(&mut t, &chars, at + 1, chars.len());
    assert(t@ =~= chars@.remove(at as int));
    *s = t;
}

/// The text of `a` followed by that of `b`.
pub fn joined(a: &str, b: &str) -> (s: String)
    ensures
        s@ == a@ + b@,
{
    let mut s = String::from_str(a);
    s.append(b);
    s
}

/// The text of `a`, then `b`, then `c`.
pub fn joined3(a: &str, b: &str, c: &str) -> (s: String)
    ensures
        s@ == a@ + b@ + c@,
{
    let mut s = String::from_str(a);
    s.append(b);
    s.append(c);
    s
}

/// The number of bytes that `s` takes in UTF-8.
pub open spec fn byte_len(s: Seq<char>) -> nat {
    vstd::utf8::encode_utf8(s).len()
}

/// The number of bytes that `s` takes.
pub fn byte_length(s: &str) -> (n: usize)
    ensures
        n == byte_len(s@),
{
    s.as_bytes().len()
}

/// The lower-case form of a text, as `str::to_lowercase` gives it.
pub uninterp spec fn lowercase(s: Seq<char>) -> Seq<char>;

/// The lower-case form of `s`, by `str::to_lowercase`: each character is
/// replaced by its Unicode lower-case mapping.
#[verifier::external_body]
pub(crate) fn to_lowercase(s: &str) -> (r: String)
    ensures
        r@ == lowercase(s@),
{
    s.to_lowercase()
}

/// Whether a character is white space: one of the characters with the
/// Unicode property White_Space.
pub open spec fn is_whitespace(c: char) -> bool {
    let n = c as u32;
    ||| 0x09 <= n <= 0x0d
    ||| n == 0x20
    ||| n == 0x85
    ||| n == 0xa0
    ||| n == 0x1680
    ||| 0x2000 <= n <= 0x200a
    ||| n == 0x2028
    ||| n == 0x2029
    ||| n == 0x202f
    ||| n == 0x205f
    ||| n == 0x3000
}

/// Whether `c` is white space.
pub fn whitespace(c: char) -> (b: bool)
    ensures
        b == is_whitespace(c),
{
    let n: u32 = c as u32;
    (0x09 <= n && n <= 0x0d) || n == 0x20 || n == 0x85 || n == 0xa0 || n == 0x1680 || (0x2000 <= n
        && n <= 0x200a) || n == 0x2028 || n == 0x2029 || n == 0x202f || n == 0x205f || n == 0x3000
}

/// The number of white-space characters that `s` begins with.
pub open spec fn leading_space(s: Seq<char>) -> nat
    decreases s.len(),
{
    if s.len() > 0 && is_whitespace(s[0]) {
        1 + leading_space(s.drop_first())
    } else {
        0
    }
}

/// The number of white-space characters that `s` ends with.
pub open spec fn trailing_space(s: Seq<char>) -> nat
    decreases s.len(),
{
    if s.len() > 0 && is_whitespace(s.last()) {
        1 + trailing_space(s.drop_last())
    } else {
        0
    }
}

/// `s` without the white space at its beginning and at its end.
pub open spec fn trimmed(s: Seq<char>) -> Seq<char> {
    let rest = s.skip(leading_space(s) as int);
    rest.take(rest.len() - trailing_space(rest))
}

/// A text that begins with `n` white-space characters and goes on with
/// another character, or ends there, has `n` leading ones.
pub proof fn lemma_leading_space(s: Seq<char>, n: nat)
    requires
        n <= s.len(),
        forall|k: int| 0 <= k < n ==> is_whitespace(s[k]),
        n == s.len() || !is_whitespace(s[n as int]),
    ensures
        leading_space(s) == n,
    decreases n,
{
    if n > 0 {
        let rest = s.drop_first();
        assert forall|k: int| 0 <= k < n - 1 implies is_whitespace(rest[k]) by {
            assert(rest[k] == s[k + 1]);
        }
        if n < s.len() {
            assert(rest[n - 1] == s[n as int]);
        }
        lemma_leading_space(rest, (n - 1) as nat);
    }
}

/// A text that ends with `n` white-space characters behind another
/// character, or is made of them, has `n` trailing ones.
pub proof fn lemma_trailing_space(s: Seq<char>, n: nat)
    requires
        n <= s.len(),
        forall|k: int| s.len() - n <= k < s.len() ==> is_whitespace(s[k]),
        n == s.len() || !is_whitespace(s[s.len() - n - 1]),
    ensures
        trailing_space(s) == n,
    decreases n,
{
    if n > 0 {
        let rest = s.drop_last();
        assert forall|k: int| rest.len() - (n - 1) <= k < rest.len() implies is_whitespace(
            rest[k],
        ) by {
            assert(rest[k] == s[k]);
        }
        if n < s.len() {
            assert(rest[rest.len() - (n - 1) - 1] == s[s.len() - n - 1]);
        }
        lemma_trailing_space(rest, (n - 1) as nat);
    }
}

/// The text without the white space at its beginning and at its end.
pub fn clean_text(text: &str) -> (s: String)
    ensures
        s@ == trimmed(text@),
{
    let chars = to_chars(text);
    let mut start: usize = 0;
    while start < chars.len() && whitespace(chars[start])
        invariant
            start <= chars.len(),
            forall|k: int| 0 <= k < start ==> is_whitespace(chars@[k]),
        decreases chars.len() - start,
    {
        start += 1;
    }
    let mut end: usize = chars.len();
    while end > start && whitespace(chars[end - 1])
        invariant
            start <= end <= chars.len(),
            forall|k: int| end <= k < chars.len() ==> is_whitespace(chars@[k]),
        decreases end,
    {
        end -= 1;
    }
    proof {
        lemma_leading_space(chars@, start as nat);
        let rest = chars@.skip(start as int);
        assert forall|k: int| rest.len() - (chars.len() - end) <= k < rest.len() implies is_whitespace(
            rest[k],
        ) by {
            assert(rest[k] == chars@[k + start]);
        }
        if end > start {
            assert(rest[rest.len() - (chars.len() - end) - 1] == chars@[end - 1]);
        }
        lemma_trailing_space(rest, (chars.len() - end) as nat);
        assert(rest.take(rest.len() - (chars.len() - end)) =~= chars@.subrange(
            start as int,
            end as int,
        ));
    }
    let mut s = String::new();
    push_range(&mut s, &chars, start, end);
    s
}

/// `s` cut down to at most `max_len` characters: unchanged where it is that
/// short, else its beginning with three dots in place of the last three
/// characters kept, and without the dots where there is room for three
/// characters or fewer.
pub open spec fn truncated(s: Seq<char>, max_len: nat) -> Seq<char> {
    if s.len() <= max_len {
        s
    } else if max_len > 3 {
        s.take(max_len - 3) + "..."@
    } else {
        s.take(max_len as int)
    }
}

/// `s` cut down to at most `max_len` characters, the cut marked by three
/// dots where there is room for them.
pub fn truncate(s: &str, max_len: usize) -> (t: String)
    ensures
        t@ == truncated(s@, max_len as nat),
{
    let chars = to_chars(s);
    if chars.len() <= max_len {
        String::from_str(s)
    } else if max_len > 3 {
        let mut t = String::new();
        push_range(&mut t, &chars, 0, max_len - 3);
        t.append("...");
        assert(chars@.subrange(0, max_len - 3) =~= chars@.take(max_len - 3));
        t
    } else {
        let mut t = String::new();
        push_range(&mut t, &chars, 0, max_len);
        assert(chars@.subrange(0, max_len as int) =~= chars@.take(max_len as int));
        t
    }
}

/// `s` with every occurrence of `from` replaced by `to`, found from left to
/// right and never inside an earlier one; unchanged where `from` is empty.
pub open spec fn replaced(s: Seq<char>, from: Seq<char>, to: Seq<char>) -> Seq<char>
    decreases s.len(),
{
    if s.len() == 0 || from.len() == 0 {
        s
    } else if occurs_at(from, s, 0) {
        to + replaced(s.skip(from.len() as int), from, to)
    } else {
        seq![s[0]] + replaced(s.skip(1), from, to)
    }
}

/// `s` with every occurrence of `from` replaced by `to`.
pub fn replace_all(s: &str, from: &str, to: &str) -> (r: String)
    ensures
        r@ == replaced(s@, from@, to@),
{
    let chars = to_chars(s);
    let pattern = to_chars(from);
    if pattern.len() == 0 {
        return String::from_str(s);
    }
    let mut r = String::new();
    let mut i: usize = 0;
    assert(chars@.skip(0) =~= chars@);
    while i < chars.len()
        invariant
            i <= chars.len(),
            pattern@ == from@,
            pattern.len() > 0,
            r@ + replaced(chars@.skip(i as int), from@, to@) == replaced(chars@, from@, to@),
        decreases chars.len() - i,
    {
        let ghost rest = chars@.skip(i as int);
        let ghost before = r@;
        if matches_at(&chars, &pattern, i) {
            proof {
                assert(rest.subrange(0, pattern.len() as int) =~= chars@.subrange(
                    i as int,
                    i + pattern.len(),
                ));
                assert(occurs_at(from@, rest, 0));
                assert(rest.skip(pattern.len() as int) =~= chars@.skip(i + pattern.len()));
            }
            r.append(to);
            i += pattern.len();
            assert(r@ + replaced(chars@.skip(i as int), from@, to@) =~= before + (to@ + replaced(
                chars@.skip(i as int),
                from@,
                to@,
            )));
        } else {
            proof {
                if occurs_at(from@, rest, 0) {
                    assert(rest.subrange(0, pattern.len() as int) =~= chars@.subrange(
                        i as int,
                        i + pattern.len(),
                    ));
                }
                assert(rest.skip(1) =~= chars@.skip(i + 1));
                assert(rest[0] == chars@[i as int]);
            }
            push_char(&mut r, chars[i]);
            i += 1;
            assert(r@ + replaced(chars@.skip(i as int), from@, to@) =~= before + (seq![
                chars@[i - 1],
            ] + replaced(chars@.skip(i as int), from@, to@)));
        }
    }
    assert(replaced(chars@.skip(chars.len() as int), from@, to@) =~= Seq::empty());
    assert(r@ + Seq::<char>::empty() =~= r@);
    r
}

} // verus!
