use vstd::prelude::*;

verus! {

/// Specifies `String::push`, which std documents as appending the given
/// character to the end of the string: the string afterwards is the one
/// before with `ch` added at its end.
pub assume_specification[ String::push ](string: &mut String, ch: char)
    ensures
        final(string)@ == old(string)@.push(ch),
;

/// The characters of `s`, in order.
pub fn chars_of(s: &str) -> (v: Vec<char>)
    ensures
        v@ == s@,
{
    let mut v: Vec<char> = Vec::new();
    for c in it: s.chars()
        invariant
            v@ == it.seq().take(it.index() as int),
            it.seq() == s@,
    {
        v.push(c);
    }
    v
}

/// A `String` holding the characters `chars[from..to]`.
pub fn string_of_range(chars: &Vec<char>, from: usize, to: usize) -> (s: String)
    requires
        from <= to <= chars.len(),
    ensures
        s@ == chars@.subrange(from as int, to as int),
{
    let mut s = String::new();
    let mut i = from;
    while i < to
        invariant
            from <= i <= to <= chars.len(),
            s@ == chars@.subrange(from as int, i as int),
        decreases to - i,
    {
        s.push(chars[i]);
        i = i + 1;
    }
    s
}

/// A `String` holding all of `chars`.
pub fn string_of(chars: &Vec<char>) -> (s: String)
    ensures
        s@ == chars@,
{
    string_of_range(chars, 0, chars.len())
}

} // verus!

verus! {

/// Unicode `White_Space`: the characters for which `char::is_whitespace` holds.
pub open spec fn is_white_space(c: char) -> bool {
    let u = c as u32;
    ||| 0x09 <= u <= 0x0D
    ||| u == 0x20
    ||| u == 0x85
    ||| u == 0xA0
    ||| u == 0x1680
    ||| 0x2000 <= u <= 0x200A
    ||| u == 0x2028
    ||| u == 0x2029
    ||| u == 0x202F
    ||| u == 0x205F
    ||| u == 0x3000
}

/// `s` without its leading white space.
pub open spec fn trim_start(s: Seq<char>) -> Seq<char>
    decreases s.len(),
{
    if s.len() > 0 && is_white_space(s[0]) {
        trim_start(s.drop_first())
    } else {
        s
    }
}

/// `s` without its trailing white space.
pub open spec fn trim_end(s: Seq<char>) -> Seq<char>
    decreases s.len(),
{
    if s.len() > 0 && is_white_space(s.last()) {
        trim_end(s.drop_last())
    } else {
        s
    }
}

/// `s` without leading and trailing white space, as `str::trim` gives it.
pub open spec fn trim(s: Seq<char>) -> Seq<char> {
    trim_end(trim_start(s))
}

pub fn is_whitespace_char(c: char) -> (r: bool)
    ensures
        r == is_white_space(c),
{
    let u = c as u32;
    (0x09 <= u && u <= 0x0D) || u == 0x20 || u == 0x85 || u == 0xA0 || u == 0x1680 || (0x2000 <= u
        && u <= 0x200A) || u == 0x2028 || u == 0x2029 || u == 0x202F || u == 0x205F || u == 0x3000
}

/// The bounds `(from, to)` of `trim(chars[lo..hi])` inside `chars`.
pub fn trim_bounds(chars: &Vec<char>, lo: usize, hi: usize) -> (r: (usize, usize))
    requires
        lo <= hi <= chars.len(),
    ensures
        lo <= r.0 <= r.1 <= hi,
        chars@.subrange(r.0 as int, r.1 as int) == trim(chars@.subrange(lo as int, hi as int)),
{
    let ghost s = chars@.subrange(lo as int, hi as int);
    let mut a = lo;
    while a < hi && is_whitespace_char(chars[a])
        invariant
            lo <= a <= hi <= chars.len(),
            s == chars@.subrange(lo as int, hi as int),
            trim_start(s) == trim_start(chars@.subrange(a as int, hi as int)),
        decreases hi - a,
    {
        assert(chars@.subrange(a as int, hi as int).drop_first() =~= chars@.subrange(
            a + 1,
            hi as int,
        ));
        a = a + 1;
    }
    let ghost t = chars@.subrange(a as int, hi as int);
    assert(trim_start(s) == t);
    let mut b = hi;
    while b > a && is_whitespace_char(chars[b - 1])
        invariant
            lo <= a <= b <= hi <= chars.len(),
            t == chars@.subrange(a as int, hi as int),
            trim_end(t) == trim_end(chars@.subrange(a as int, b as int)),
        decreases b - a,
    {
        assert(chars@.subrange(a as int, b as int).drop_last() =~= chars@.subrange(
            a as int,
            b - 1,
        ));
        b = b - 1;
    }
    (a, b)
}

/// A copy of `chars[from..to]`.
pub fn sub_chars(chars: &Vec<char>, from: usize, to: usize) -> (r: Vec<char>)
    requires
        from <= to <= chars.len(),
    ensures
        r@ == chars@.subrange(from as int, to as int),
{
    let mut r: Vec<char> = Vec::new();
    let mut i = from;
    while i < to
        invariant
            from <= i <= to <= chars.len(),
            r@ == chars@.subrange(from as int, i as int),
        decreases to - i,
    {
        r.push(chars[i]);
        i = i + 1;
    }
    r
}

/// The characters of `chars` without leading and trailing white space.
pub fn trimmed_vec(chars: &Vec<char>) -> (r: Vec<char>)
    ensures
        r@ == trim(chars@),
{
    let (a, b) = trim_bounds(chars, 0, chars.len());
    assert(chars@.subrange(0, chars@.len() as int) =~= chars@);
    sub_chars(chars, a, b)
}

/// The characters of `str::trim(s)`.
pub fn trimmed_chars(s: &str) -> (r: Vec<char>)
    ensures
        r@ == trim(s@),
{
    let chars = chars_of(s);
    trimmed_vec(&chars)
}

/// Every character of `s` is white space.
pub open spec fn all_white(s: Seq<char>) -> bool {
    forall|i: int| 0 <= i < s.len() ==> #[trigger] is_white_space(s[i])
}

proof fn lemma_trim_start_shape(s: Seq<char>)
    ensures
        trim_start(s).len() == 0 <==> all_white(s),
        trim_start(s).len() > 0 ==> !is_white_space(trim_start(s)[0]),
    decreases s.len(),
{
    if s.len() > 0 {
        if is_white_space(s[0]) {
            lemma_trim_start_shape(s.drop_first());
            if all_white(s.drop_first()) {
                assert forall|i: int| 0 <= i < s.len() implies #[trigger] is_white_space(s[i]) by {
                    if i > 0 {
                        assert(s[i] == s.drop_first()[i - 1]);
                    }
                }
            }
            if all_white(s) {
                assert forall|i: int| 0 <= i < s.drop_first().len() implies #[trigger] is_white_space(
                    s.drop_first()[i],
                ) by {
                    assert(s.drop_first()[i] == s[i + 1]);
                }
            }
        }
    }
}

proof fn lemma_trim_end_keeps_start(t: Seq<char>)
    requires
        t.len() > 0,
        !is_white_space(t[0]),
    ensures
        trim_end(t).len() > 0,
    decreases t.len(),
{
    if is_white_space(t.last()) {
        assert(t.len() > 1);
        assert(t.drop_last()[0] == t[0]);
        lemma_trim_end_keeps_start(t.drop_last());
    }
}

/// `trim(s)` is empty exactly when every character of `s` is white space.
pub proof fn lemma_trim_empty_iff_all_white(s: Seq<char>)
    ensures
        trim(s).len() == 0 <==> all_white(s),
{
    lemma_trim_start_shape(s);
    if trim_start(s).len() > 0 {
        lemma_trim_end_keeps_start(trim_start(s));
    }
}

/// Whether `s` is empty or all white space, as `s.trim().is_empty()`.
pub fn is_blank(s: &str) -> (r: bool)
    ensures
        r == (trim(s@).len() == 0),
{
    for c in it: s.chars()
        invariant
            it.seq() == s@,
            all_white(it.seq().take(it.index() as int)),
    {
        if !is_whitespace_char(c) {
            proof {
                assert(s@[it.index() as int] == c);
                assert(!is_white_space(s@[it.index() as int]));
                lemma_trim_empty_iff_all_white(s@);
            }
            return false;
        }
        assert(it.seq().take(it.index() + 1) =~= it.seq().take(it.index() as int).push(c));
    }
    proof {
        assert(s@.take(s@.len() as int) =~= s@);
        lemma_trim_empty_iff_all_white(s@);
    }
    true
}

/// `str::trim`, as an owned `String`.
pub fn trim_string(s: &str) -> (r: String)
    ensures
        r@ == trim(s@),
{
    let v = trimmed_chars(s);
    string_of(&v)
}

/// Whether `a` and `b` hold the same characters.
pub fn chars_eq(a: &Vec<char>, b: &Vec<char>) -> (r: bool)
    ensures
        r == (a@ == b@),
{
    if a.len() != b.len() {
        return false;
    }
    let mut i: usize = 0;
    while i < a.len()
        invariant
            a.len() == b.len(),
            0 <= i <= a.len(),
            forall|j: int| 0 <= j < i ==> a@[j] == b@[j],
        decreases a.len() - i,
    {
        if a[i] != b[i] {
            return false;
        }
        i = i + 1;
    }
    assert(a@ =~= b@);
    true
}

/// Whether the characters `v` spell out `s`.
pub fn chars_eq_str(v: &Vec<char>, s: &str) -> (r: bool)
    ensures
        r == (v@ == s@),
{
    let w = chars_of(s);
    chars_eq(v, &w)
}

/// Whether `a` and `b` are the same string.
pub fn str_eq(a: &str, b: &str) -> (r: bool)
    ensures
        r == (a@ == b@),
{
    let v = chars_of(a);
    chars_eq_str(&v, b)
}

/// Whether `v` begins with the characters of `prefix`.
pub fn chars_start_with(v: &Vec<char>, prefix: &str) -> (r: bool)
    ensures
        r == (prefix@.len() <= v@.len() && v@.subrange(0, prefix@.len() as int) == prefix@),
{
    let p = chars_of(prefix);
    if p.len() > v.len() {
        return false;
    }
    let mut i: usize = 0;
    while i < p.len()
        invariant
            p.len() <= v.len(),
            p@ == prefix@,
            0 <= i <= p.len(),
            forall|j: int| 0 <= j < i ==> v@[j] == p@[j],
        decreases p.len() - i,
    {
        if v[i] != p[i] {
            assert(v@.subrange(0, p@.len() as int)[i as int] != p@[i as int]);
            return false;
        }
        i = i + 1;
    }
    assert(v@.subrange(0, p@.len() as int) =~= p@);
    true
}

/// Appends the characters of `v` to `s`.
pub fn push_chars(s: &mut String, v: &Vec<char>)
    ensures
        final(s)@ == old(s)@ + v@,
{
    let mut i: usize = 0;
    while i < v.len()
        invariant
            0 <= i <= v.len(),
            s@ == old(s)@ + v@.subrange(0, i as int),
        decreases v.len() - i,
    {
        s.push(v[i]);
        assert(v@.subrange(0, i + 1) =~= v@.subrange(0, i as int).push(v@[i as int]));
        i = i + 1;
    }
    assert(v@.subrange(0, v.len() as int) =~= v@);
}

/// The decimal digit character for `d < 10`.
pub open spec fn digit_char(d: nat) -> char {
    (('0' as u32) + d) as char
}

/// The decimal representation of `n`, as `Display` writes it.
pub open spec fn decimal(n: nat) -> Seq<char>
    decreases n,
{
    if n < 10 {
        seq![digit_char(n)]
    } else {
        decimal(n / 10).push(digit_char(n % 10))
    }
}

/// The decimal representation of the signed `n`, as `Display` writes it.
pub open spec fn signed_decimal(n: int) -> Seq<char> {
    if n < 0 {
        seq!['-'] + decimal((-n) as nat)
    } else {
        decimal(n as nat)
    }
}

/// The character of the decimal digit `d`.
pub fn digit(d: u8) -> (c: char)
    requires
        d < 10,
    ensures
        c == digit_char(d as nat),
{
    match d {
        0 => '0',
        1 => '1',
        2 => '2',
        3 => '3',
        4 => '4',
        5 => '5',
        6 => '6',
        7 => '7',
        8 => '8',
        _ => '9',
    }
}

/// Appends the decimal representation of `n` to `s`.
pub fn push_decimal(s: &mut String, n: u128)
    ensures
        final(s)@ == old(s)@ + decimal(n as nat),
    decreases n,
{
    if n >= 10 {
        push_decimal(s, n / 10);
    }
    let c = digit((n % 10) as u8);
    s.push(c);
}

/// Appends the decimal representation of the signed `n` to `s`.
pub fn push_signed_decimal(s: &mut String, n: i64)
    ensures
        final(s)@ == old(s)@ + signed_decimal(n as int),
{
    if n < 0 {
        s.push('-');
        let m: u128 = (0 - (n as i128)) as u128;
        push_decimal(s, m);
        assert(final(s)@ =~= old(s)@ + signed_decimal(n as int));
    } else {
        push_decimal(s, n as u128);
    }
}

/// `n` in decimal, padded with leading zeros to at least `width` digits.
pub open spec fn padded_decimal(n: nat, width: nat) -> Seq<char> {
    let d = decimal(n);
    if d.len() < width {
        Seq::new((width - d.len()) as nat, |i: int| '0') + d
    } else {
        d
    }
}

/// Appends `n` in decimal, padded with leading zeros to `width` digits.
pub fn push_padded_decimal(s: &mut String, n: u32, width: usize)
    ensures
        final(s)@ == old(s)@ + padded_decimal(n as nat, width as nat),
{
    let mut digits = String::new();
    push_decimal(&mut digits, n as u128);
    assert(digits@ =~= decimal(n as nat));
    let len = chars_of(digits.as_str()).len();
    let ghost start = s@;
    let mut i: usize = len;
    while i < width
        invariant
            len == decimal(n as nat).len(),
            len <= i,
            len < width ==> i <= width,
            len >= width ==> i == len,
            s@ == start + Seq::new((i - len) as nat, |j: int| '0'),
        decreases width - i,
    {
        s.push('0');
        assert(s@ =~= start + Seq::new((i + 1 - len) as nat, |j: int| '0'));
        i = i + 1;
    }
    s.append(digits.as_str());
    assert(final(s)@ =~= old(s)@ + padded_decimal(n as nat, width as nat));
}

/// The characters of an optional string.
pub open spec fn opt_view(o: Option<&str>) -> Option<Seq<char>> {
    match o {
        Some(s) => Some(s@),
        None => None,
    }
}

/// The character sequences of a list of strings.
pub open spec fn string_views(v: Seq<String>) -> Seq<Seq<char>> {
    v.map_values(|s: String| s@)
}

/// Appends an owned copy of `s` to the list `v`.
pub fn push_owned(v: &mut Vec<String>, s: &str)
    ensures
        string_views(final(v)@) == string_views(old(v)@).push(s@),
{
    v.push(String::from_str(s));
    assert(string_views(v@) =~= string_views(old(v)@).push(s@));
}

/// Appends the literal `lit` to `s`.
pub fn push_str(s: &mut String, lit: &str)
    ensures
        final(s)@ == old(s)@ + lit@,
{
    s.append(lit);
}

} // verus!

verus! {

/// What `str::to_lowercase` gives for `s` (Unicode lowercase mapping).
pub uninterp spec fn spec_lowercase(s: Seq<char>) -> Seq<char>;

/// Calls `str::to_lowercase`; Verus takes its result to be
/// `spec_lowercase` of the argument, which std defines by the Unicode
/// lowercase mapping and which depends on the argument alone.
#[verifier::external_body]
pub(crate) fn lowercase(s: &str) -> (r: String)
    ensures
        r@ == spec_lowercase(s@),
{
    s.to_lowercase()
}

/// Lexicographic order on character sequences by code point, which is the
/// order of `String`'s `Ord` (UTF-8 keeps code point order byte by byte).
pub open spec fn lex_le(a: Seq<char>, b: Seq<char>) -> bool
    decreases a.len(),
{
    if a.len() == 0 {
        true
    } else if b.len() == 0 {
        false
    } else if a[0] != b[0] {
        (a[0] as int) < (b[0] as int)
    } else {
        lex_le(a.drop_first(), b.drop_first())
    }
}

pub proof fn lemma_lex_total(a: Seq<char>, b: Seq<char>)
    ensures
        lex_le(a, b) || lex_le(b, a),
    decreases a.len(),
{
    if a.len() > 0 && b.len() > 0 {
        if a[0] == b[0] {
            lemma_lex_total(a.drop_first(), b.drop_first());
        } else {
            assert((a[0] as int) != (b[0] as int));
        }
    }
}

pub proof fn lemma_lex_antisymmetric(a: Seq<char>, b: Seq<char>)
    requires
        lex_le(a, b),
        lex_le(b, a),
    ensures
        a == b,
    decreases a.len(),
{
    if a.len() == 0 {
        assert(b.len() == 0);
        assert(a =~= b);
    } else {
        assert(b.len() > 0);
        assert(a[0] == b[0]);
        lemma_lex_antisymmetric(a.drop_first(), b.drop_first());
        assert(a =~= seq![a[0]] + a.drop_first());
        assert(b =~= seq![b[0]] + b.drop_first());
    }
}

pub proof fn lemma_lex_transitive(a: Seq<char>, b: Seq<char>, c: Seq<char>)
    requires
        lex_le(a, b),
        lex_le(b, c),
    ensures
        lex_le(a, c),
    decreases a.len(),
{
    if a.len() > 0 {
        assert(b.len() > 0);
        assert(c.len() > 0);
        if a[0] == b[0] && b[0] == c[0] {
            lemma_lex_transitive(a.drop_first(), b.drop_first(), c.drop_first());
        }
    }
}

pub proof fn lemma_lex_reflexive(a: Seq<char>)
    ensures
        lex_le(a, a),
    decreases a.len(),
{
    if a.len() > 0 {
        lemma_lex_reflexive(a.drop_first());
    }
}

/// Whether `a` comes no later than `b` in code point order.
pub fn lex_le_chars(a: &Vec<char>, b: &Vec<char>) -> (r: bool)
    ensures
        r == lex_le(a@, b@),
{
    let mut i: usize = 0;
    assert(a@.skip(0) =~= a@);
    assert(b@.skip(0) =~= b@);
    while i < a.len() && i < b.len() && a[i] == b[i]
        invariant
            0 <= i <= a.len(),
            i <= b.len(),
            lex_le(a@, b@) == lex_le(a@.skip(i as int), b@.skip(i as int)),
        decreases a.len() - i,
    {
        assert(a@.skip(i as int).drop_first() =~= a@.skip(i + 1));
        assert(b@.skip(i as int).drop_first() =~= b@.skip(i + 1));
        i = i + 1;
    }
    if i == a.len() {
        true
    } else if i == b.len() {
        false
    } else {
        assert(a@.skip(i as int)[0] == a@[i as int]);
        assert(b@.skip(i as int)[0] == b@[i as int]);
        a[i] < b[i]
    }
}

} // verus!

verus! {

/// What `String::from_utf8_lossy` gives for `bytes`.
pub uninterp spec fn spec_utf8_lossy(bytes: Seq<u8>) -> Seq<char>;

/// Calls `String::from_utf8_lossy`: valid UTF-8 decodes as itself, and the
/// result is a function of the bytes alone (invalid sequences become
/// U+FFFD, which is left unstated here).
#[verifier::external_body]
pub(crate) fn utf8_lossy(bytes: &[u8]) -> (r: String)
    ensures
        r@ == spec_utf8_lossy(bytes@),
        vstd::utf8::valid_utf8(bytes@) ==> r@ == vstd::utf8::decode_utf8(bytes@),
{
    String::from_utf8_lossy(bytes).to_string()
}

/// `s` cut to its first `max` characters, followed by
/// `... [truncated, N total characters]` when it was longer.
pub open spec fn truncated_with_count(s: Seq<char>, max: nat) -> Seq<char> {
    if s.len() > max {
        s.take(max as int) + "... [truncated, "@ + decimal(s.len()) + " total characters]"@
    } else {
        s
    }
}

/// `s` cut to its first `max` characters, followed by `... [truncated]`
/// when it was longer.
pub open spec fn truncated_with_marker(s: Seq<char>, max: nat) -> Seq<char> {
    if s.len() > max {
        s.take(max as int) + "... [truncated]"@
    } else {
        s
    }
}

/// The first `max` characters of `s` (all of it when shorter).
pub open spec fn first_chars(s: Seq<char>, max: nat) -> Seq<char> {
    if s.len() > max {
        s.take(max as int)
    } else {
        s
    }
}

/// The first `max` characters of `s`, as `s.chars().take(max).collect()`.
pub fn take_chars(s: &str, max: usize) -> (r: String)
    ensures
        r@ == first_chars(s@, max as nat),
{
    let v = chars_of(s);
    if v.len() > max {
        string_of_range(&v, 0, max)
    } else {
        string_of(&v)
    }
}

/// `s` bounded to `max` characters with a note of its full length.
pub fn truncate_with_count(s: &str, max: usize) -> (r: String)
    ensures
        r@ == truncated_with_count(s@, max as nat),
{
    let v = chars_of(s);
    if v.len() > max {
        let mut r = string_of_range(&v, 0, max);
        push_str(&mut r, "... [truncated, ");
        push_decimal(&mut r, v.len() as u128);
        push_str(&mut r, " total characters]");
        r
    } else {
        string_of(&v)
    }
}

/// `s` bounded to `max` characters with a truncation marker.
pub fn truncate_with_marker(s: &str, max: usize) -> (r: String)
    ensures
        r@ == truncated_with_marker(s@, max as nat),
{
    let v = chars_of(s);
    if v.len() > max {
        let mut r = string_of_range(&v, 0, max);
        push_str(&mut r, "... [truncated]");
        r
    } else {
        string_of(&v)
    }
}

} // verus!

verus! {

/// What `char::to_uppercase` yields for `c`, collected into a string.
pub uninterp spec fn spec_char_uppercase(c: char) -> Seq<char>;

/// Calls `char::to_uppercase` and collects the characters it yields (one
/// or more, by the Unicode uppercase mapping of `c` alone).
#[verifier::external_body]
pub(crate) fn char_uppercase(c: char) -> (r: String)
    ensures
        r@ == spec_char_uppercase(c),
{
    c.to_uppercase().collect::<String>()
}

/// What `format!("{:?}", s)` gives for a string: `s` quoted, with the
/// characters that `char::escape_debug` escapes written as escapes.
pub uninterp spec fn spec_debug_str(s: Seq<char>) -> Seq<char>;

/// Calls `<str as Debug>::fmt` through `format!`.
#[verifier::external_body]
pub(crate) fn debug_str(s: &str) -> (r: String)
    ensures
        r@ == spec_debug_str(s@),
{
    format!("{:?}", s)
}

} // verus!
