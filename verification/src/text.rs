use vstd::prelude::*;

verus! {

/// Appends one character to a string.
/// Trusted: `String::push`, which std documents as appending the given char to the end.
#[verifier::external_body]
pub(crate) fn push_char(s: &mut String, c: char)
    ensures
        final(s)@ == old(s)@.push(c),
{
    s.push(c);
}

/// The uppercase hexadecimal digit for a value below 16.
pub open spec fn hex_digit(d: int) -> char
    recommends
        0 <= d < 16,
{
    if d < 10 {
        ((48 + d) as u8) as char
    } else {
        ((55 + d) as u8) as char
    }
}

/// Two uppercase hexadecimal digits of a byte, high nibble first.
pub open spec fn hex_byte(b: u8) -> Seq<char> {
    seq![hex_digit(b as int / 16), hex_digit(b as int % 16)]
}

/// The decimal digit for a value below 10.
pub open spec fn dec_digit(d: int) -> char {
    ((48 + d) as u8) as char
}

/// The decimal rendering of a natural number, without leading zeros.
pub open spec fn dec_text(n: nat) -> Seq<char>
    decreases n,
{
    if n < 10 {
        seq![dec_digit(n as int)]
    } else {
        dec_text(n / 10).push(dec_digit(n as int % 10))
    }
}

/// The uppercase hexadecimal digit for a value below 16.
pub(crate) fn hex_digit_char(d: u8) -> (c: char)
    requires
        d < 16,
    ensures
        c == hex_digit(d as int),
{
    if d < 10 {
        ((48 + d) as u8) as char
    } else {
        ((55 + d) as u8) as char
    }
}

/// Appends the two uppercase hexadecimal digits of `b`.
pub(crate) fn push_hex_byte(s: &mut String, b: u8)
    ensures
        final(s)@ == old(s)@ + hex_byte(b),
{
    push_char(s, hex_digit_char(b / 16));
    push_char(s, hex_digit_char(b % 16));
}

/// Appends the decimal rendering of `b`.
pub(crate) fn push_decimal(s: &mut String, b: u8)
    ensures
        final(s)@ == old(s)@ + dec_text(b as nat),
{
    let ghost n = b as nat;
    if b >= 100 {
        assert(dec_text(n) == dec_text(n / 10).push(dec_digit(n as int % 10)));
        assert(dec_text(n / 10) == dec_text(n / 100).push(dec_digit((n / 10) as int % 10)));
        assert(dec_text(n / 100) == seq![dec_digit((n / 100) as int)]);
        push_char(s, ((48 + b / 100) as u8) as char);
        push_char(s, ((48 + (b / 10) % 10) as u8) as char);
        push_char(s, ((48 + b % 10) as u8) as char);
    } else if b >= 10 {
        assert(dec_text(n) == dec_text(n / 10).push(dec_digit(n as int % 10)));
        assert(dec_text(n / 10) == seq![dec_digit((n / 10) as int)]);
        push_char(s, ((48 + b / 10) as u8) as char);
        push_char(s, ((48 + b % 10) as u8) as char);
    } else {
        push_char(s, ((48 + b) as u8) as char);
    }
    assert(s@ =~= old(s)@ + dec_text(n));
}

/// Unicode `White_Space` characters, the set that `str::trim` removes.
pub open spec fn is_unicode_whitespace(c: char) -> bool {
    let u = c as u32;
    ||| 0x09 <= u <= 0x0D
    ||| u == 0x20
    ||| u == 0x85
    ||| u == 0xA0
    ||| u == 0x1680
    ||| 0x2000 <= u <= 0x200A
    ||| u == 0x2028
    ||| u == 0x2029
    ||| u == 0x202F
    ||| u == 0x205F
    ||| u == 0x3000
}

/// `s` without its longest prefix of characters satisfying `p`.
pub open spec fn drop_while(s: Seq<char>, p: spec_fn(char) -> bool) -> Seq<char>
    decreases s.len(),
{
    if s.len() > 0 && p(s[0]) {
        drop_while(s.drop_first(), p)
    } else {
        s
    }
}

/// `s` without its longest suffix of characters satisfying `p`.
pub open spec fn drop_while_end(s: Seq<char>, p: spec_fn(char) -> bool) -> Seq<char>
    decreases s.len(),
{
    if s.len() > 0 && p(s.last()) {
        drop_while_end(s.drop_last(), p)
    } else {
        s
    }
}

/// The whitespace test as a predicate.
pub open spec fn whitespace_pred() -> spec_fn(char) -> bool {
    |c: char| is_unicode_whitespace(c)
}

/// The test for the `'#'` character as a predicate.
pub open spec fn hash_pred() -> spec_fn(char) -> bool {
    |c: char| c == '#'
}

/// What `str::trim` leaves of `s`.
pub open spec fn trim_text(s: Seq<char>) -> Seq<char> {
    drop_while_end(drop_while(s, whitespace_pred()), whitespace_pred())
}

/// What `trim_start_matches('#')` leaves of `s`.
pub open spec fn strip_hashes(s: Seq<char>) -> Seq<char> {
    drop_while(s, hash_pred())
}

/// Where the first `i` characters satisfy `p` and the next does not, `drop_while` keeps the rest.
pub proof fn lemma_drop_while_at(s: Seq<char>, p: spec_fn(char) -> bool, i: int)
    requires
        0 <= i <= s.len(),
        forall|k: int| 0 <= k < i ==> p(#[trigger] s[k]),
        i == s.len() || !p(s[i]),
    ensures
        drop_while(s, p) == s.subrange(i, s.len() as int),
    decreases i,
{
    if i == 0 {
        assert(s.subrange(0, s.len() as int) =~= s);
    } else {
        let t = s.drop_first();
        assert forall|k: int| 0 <= k < i - 1 implies p(#[trigger] t[k]) by {
            assert(t[k] == s[k + 1]);
        }
        assert(i - 1 == t.len() || t[i - 1] == s[i]);
        lemma_drop_while_at(t, p, i - 1);
        assert(t.subrange(i - 1, t.len() as int) =~= s.subrange(i, s.len() as int));
    }
}

/// Where the characters from `j` on satisfy `p` and the one before does not,
/// `drop_while_end` keeps the first `j` characters.
pub proof fn lemma_drop_while_end_at(s: Seq<char>, p: spec_fn(char) -> bool, j: int)
    requires
        0 <= j <= s.len(),
        forall|k: int| j <= k < s.len() ==> p(#[trigger] s[k]),
        j == 0 || !p(s[j - 1]),
    ensures
        drop_while_end(s, p) == s.subrange(0, j),
    decreases s.len() - j,
{
    if j == s.len() {
        assert(s.subrange(0, j) =~= s);
    } else {
        let t = s.drop_last();
        assert(p(s[s.len() - 1]));
        assert forall|k: int| j <= k < t.len() implies p(#[trigger] t[k]) by {
            assert(t[k] == s[k]);
        }
        lemma_drop_while_end_at(t, p, j);
        assert(t.subrange(0, j) =~= s.subrange(0, j));
    }
}

/// The number of bytes UTF-8 uses for `c`.
pub open spec fn utf8_width(c: char) -> nat {
    let u = c as u32;
    if u < 0x80 {
        1
    } else if u < 0x800 {
        2
    } else if u < 0x10000 {
        3
    } else {
        4
    }
}

/// The number of bytes UTF-8 uses for `s`: what `str::len` returns.
pub open spec fn utf8_len(s: Seq<char>) -> nat
    decreases s.len(),
{
    if s.len() == 0 {
        0
    } else {
        utf8_len(s.drop_last()) + utf8_width(s.last())
    }
}

/// The byte length of a text is that of a prefix plus that of the rest.
pub proof fn lemma_utf8_len_split(s: Seq<char>, m: int)
    requires
        0 <= m <= s.len(),
    ensures
        utf8_len(s) == utf8_len(s.subrange(0, m)) + utf8_len(s.subrange(m, s.len() as int)),
    decreases s.len(),
{
    if m == s.len() {
        assert(s.subrange(0, m) =~= s);
        assert(s.subrange(m, s.len() as int) =~= Seq::<char>::empty());
    } else {
        let t = s.drop_last();
        lemma_utf8_len_split(t, m);
        assert(t.subrange(0, m) =~= s.subrange(0, m));
        let rest = s.subrange(m, s.len() as int);
        assert(rest.drop_last() =~= t.subrange(m, t.len() as int));
        assert(rest.last() == s.last());
    }
}

/// A non-empty text has at least as many bytes as its first character.
pub proof fn lemma_utf8_len_first(s: Seq<char>)
    requires
        s.len() > 0,
    ensures
        utf8_len(s) == utf8_width(s[0]) + utf8_len(s.subrange(1, s.len() as int)),
{
    lemma_utf8_len_split(s, 1);
    let h = s.subrange(0, 1);
    assert(h.drop_last() =~= Seq::<char>::empty());
    assert(utf8_len(h.drop_last()) == 0);
    assert(h.last() == s[0]);
    assert(utf8_len(h) == utf8_len(h.drop_last()) + utf8_width(h.last()));
}

/// A prefix of single-byte characters has as many bytes as characters.
pub proof fn lemma_utf8_len_single_bytes(s: Seq<char>, m: int)
    requires
        0 <= m <= s.len(),
        forall|i: int| 0 <= i < m ==> utf8_width(#[trigger] s[i]) == 1,
    ensures
        utf8_len(s.subrange(0, m)) == m,
    decreases m,
{
    if m == 0 {
        assert(s.subrange(0, 0) =~= Seq::<char>::empty());
    } else {
        lemma_utf8_len_single_bytes(s, m - 1);
        assert(s.subrange(0, m).drop_last() =~= s.subrange(0, m - 1));
        assert(s.subrange(0, m).last() == s[m - 1]);
    }
}

/// What `PathBuf::push` makes of `base` and `part` on Unix: an absolute `part`
/// replaces `base`; otherwise `part` is appended, after a `'/'` unless `base` is
/// empty or already ends with one.
pub open spec fn path_join(base: Seq<char>, part: Seq<char>) -> Seq<char> {
    if part.len() > 0 && part[0] == '/' {
        part
    } else if base.len() > 0 && base.last() != '/' {
        base + seq!['/'] + part
    } else {
        base + part
    }
}

/// The characters of a string slice, in order.
pub(crate) fn chars_of(s: &str) -> (v: Vec<char>)
    ensures
        v@ == s@,
{
    broadcast use vstd::string::group_string_axioms;
    let mut v: Vec<char> = Vec::new();
    for c in it: s.chars()
        invariant
            v@ == it.seq().take(it.index() as int),
    {
        v.push(c);
    }
    v
}

/// The number of bytes UTF-8 uses for `c`.
pub(crate) fn utf8_width_of(c: char) -> (w: usize)
    ensures
        w == utf8_width(c),
{
    let u = c as u32;
    if u < 0x80 {
        1
    } else if u < 0x800 {
        2
    } else if u < 0x10000 {
        3
    } else {
        4
    }
}

/// Whether `c` is Unicode whitespace.
pub(crate) fn is_whitespace_char(c: char) -> (b: bool)
    ensures
        b == is_unicode_whitespace(c),
{
    let u = c as u32;
    (0x09 <= u && u <= 0x0D) || u == 0x20 || u == 0x85 || u == 0xA0 || u == 0x1680 || (0x2000
        <= u && u <= 0x200A) || u == 0x2028 || u == 0x2029 || u == 0x202F || u == 0x205F || u
        == 0x3000
}

/// Appends the characters `v[from..to]`.
pub(crate) fn push_chars(s: &mut String, v: &Vec<char>, from: usize, to: usize)
    requires
        from <= to <= v@.len(),
    ensures
        final(s)@ == old(s)@ + v@.subrange(from as int, to as int),
{
    let mut i = from;
    while i < to
        invariant
            from <= i <= to <= v@.len(),
            s@ == old(s)@ + v@.subrange(from as int, i as int),
        decreases to - i,
    {
        push_char(s, v[i]);
        i = i + 1;
        assert(v@.subrange(from as int, i as int) =~= v@.subrange(from as int, i - 1).push(v@[i - 1]));
    }
}

/// The text of `s` after its leading `'#'` characters.
pub fn strip_leading_hashes(s: &str) -> (res: String)
    ensures
        res@ == strip_hashes(s@),
{
    let v = chars_of(s);
    let mut k: usize = 0;
    while k < v.len() && v[k] == '#'
        invariant
            k <= v@.len(),
            forall|i: int| 0 <= i < k ==> v@[i] == '#',
        decreases v@.len() - k,
    {
        k = k + 1;
    }
    proof {
        lemma_drop_while_at(v@, hash_pred(), k as int);
    }
    let mut out = String::new();
    push_chars(&mut out, &v, k, v.len());
    assert(out@ =~= v@.subrange(k as int, v@.len() as int));
    out
}

/// Joins a path component onto a path, as `PathBuf::join` does on Unix.
pub fn join_path(base: &str, part: &str) -> (res: String)
    ensures
        res@ == path_join(base@, part@),
{
    let pv = chars_of(part);
    if pv.len() > 0 && pv[0] == '/' {
        return part.to_owned();
    }
    let bv = chars_of(base);
    let mut out = base.to_owned();
    if bv.len() > 0 && bv[bv.len() - 1] != '/' {
        push_char(&mut out, '/');
    }
    out.append(part);
    out
}

} // verus!
