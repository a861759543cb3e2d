//! Character-level text operations with their mathematical meaning.
//!
//! Strings are modelled by their view, a `Seq<char>`. Each executable
//! function here states its result over that view.
use vstd::prelude::*;

verus! {

// ---------------------------------------------------------------------------
// Specifications
// ---------------------------------------------------------------------------

/// The Unicode `White_Space` property, which `char::is_whitespace`,
/// `str::trim` and `str::split_whitespace` use.
pub open spec fn is_white_space(c: char) -> bool {
    let u = c as u32;
    ||| 0x9 <= u <= 0xd
    ||| u == 0x20
    ||| u == 0x85
    ||| u == 0xa0
    ||| u == 0x1680
    ||| 0x2000 <= u <= 0x200a
    ||| u == 0x2028
    ||| u == 0x2029
    ||| u == 0x202f
    ||| u == 0x205f
    ||| u == 0x3000
}

/// The text with its leading white space removed.
pub open spec fn trim_start(s: Seq<char>) -> Seq<char>
    decreases s.len(),
{
    if s.len() > 0 && is_white_space(s[0]) {
        trim_start(s.drop_first())
    } else {
        s
    }
}

/// The text with its trailing white space removed.
pub open spec fn trim_end(s: Seq<char>) -> Seq<char>
    decreases s.len(),
{
    if s.len() > 0 && is_white_space(s.last()) {
        trim_end(s.drop_last())
    } else {
        s
    }
}

/// The text with leading and trailing white space removed.
pub open spec fn trim(s: Seq<char>) -> Seq<char> {
    trim_end(trim_start(s))
}

/// ASCII lower case of one character; every other character is unchanged.
pub open spec fn ascii_lower_char(c: char) -> char {
    if 'A' <= c && c <= 'Z' {
        ((c as u32) + 32) as char
    } else {
        c
    }
}

/// ASCII lower case of a text.
pub open spec fn ascii_lower(s: Seq<char>) -> Seq<char> {
    s.map_values(|c: char| ascii_lower_char(c))
}

/// `p` occurs in `s` at position `i`.
pub open spec fn occurs_at(s: Seq<char>, p: Seq<char>, i: int) -> bool {
    0 <= i && i + p.len() <= s.len() && s.subrange(i, i + p.len()) == p
}

/// `p` occurs somewhere in `s`.
pub open spec fn contains(s: Seq<char>, p: Seq<char>) -> bool {
    exists|i: int| occurs_at(s, p, i)
}

/// `s` begins with `p`.
pub open spec fn starts_with(s: Seq<char>, p: Seq<char>) -> bool {
    p.len() <= s.len() && s.take(p.len() as int) == p
}

/// `s` without the prefix `p`, when `s` begins with `p`.
pub open spec fn strip_prefix(s: Seq<char>, p: Seq<char>) -> Option<Seq<char>> {
    if starts_with(s, p) {
        Some(s.skip(p.len() as int))
    } else {
        None
    }
}

/// `s` without its prefix `p` when it has one, else `s` itself.
pub open spec fn strip_prefix_or_self(s: Seq<char>, p: Seq<char>) -> Seq<char> {
    if starts_with(s, p) {
        s.skip(p.len() as int)
    } else {
        s
    }
}

/// `s` with every trailing occurrence of `c` removed.
pub open spec fn trim_end_char(s: Seq<char>, c: char) -> Seq<char>
    decreases s.len(),
{
    if s.len() > 0 && s.last() == c {
        trim_end_char(s.drop_last(), c)
    } else {
        s
    }
}

/// `s` with every leading occurrence of `c` removed.
pub open spec fn trim_start_char(s: Seq<char>, c: char) -> Seq<char>
    decreases s.len(),
{
    if s.len() > 0 && s[0] == c {
        trim_start_char(s.drop_first(), c)
    } else {
        s
    }
}

/// `s` with the prefix `p` removed as many times as it repeats; `s` itself
/// when `p` is empty.
pub open spec fn trim_start_matches(s: Seq<char>, p: Seq<char>) -> Seq<char>
    decreases s.len(),
{
    if p.len() > 0 && starts_with(s, p) {
        trim_start_matches(s.skip(p.len() as int), p)
    } else {
        s
    }
}

/// `s` with every non-overlapping occurrence of `from`, scanned from the
/// left, replaced by `to`; `s` itself when `from` is empty.
pub open spec fn replace_all(s: Seq<char>, from: Seq<char>, to: Seq<char>) -> Seq<char>
    decreases s.len(),
{
    if from.len() == 0 || s.len() == 0 {
        s
    } else if starts_with(s, from) {
        to + replace_all(s.skip(from.len() as int), from, to)
    } else {
        seq![s[0]] + replace_all(s.drop_first(), from, to)
    }
}

/// The pieces joined, with `sep` between each two neighbours.
pub open spec fn join(pieces: Seq<Seq<char>>, sep: Seq<char>) -> Seq<char>
    decreases pieces.len(),
{
    if pieces.len() == 0 {
        seq![]
    } else if pieces.len() == 1 {
        pieces[0]
    } else {
        join(pieces.drop_last(), sep) + sep + pieces.last()
    }
}

/// The decimal digit for `d`, for `0 <= d < 10`.
pub open spec fn digit_char(d: nat) -> char {
    (('0' as u32) + d) as char
}

/// Decimal notation of a natural number, without leading zeros.
pub open spec fn decimal(n: nat) -> Seq<char>
    decreases n,
{
    if n < 10 {
        seq![digit_char(n)]
    } else {
        decimal(n / 10).push(digit_char(n % 10))
    }
}

/// Decimal notation of an integer, with a leading `-` when negative.
pub open spec fn signed_decimal(n: int) -> Seq<char> {
    if n < 0 {
        seq!['-'] + decimal((-n) as nat)
    } else {
        decimal(n as nat)
    }
}

/// Upper-case hexadecimal digit for `d`, for `0 <= d < 16`.
pub open spec fn hex_digit_upper(d: nat) -> char {
    if d < 10 {
        digit_char(d)
    } else {
        (('A' as u32) + (d - 10)) as char
    }
}

/// Two upper-case hexadecimal digits for each byte, most significant first.
pub open spec fn hex_upper(bytes: Seq<u8>) -> Seq<char>
    decreases bytes.len(),
{
    if bytes.len() == 0 {
        seq![]
    } else {
        hex_upper(bytes.drop_last()) + seq![
            hex_digit_upper((bytes.last() / 16) as nat),
            hex_digit_upper((bytes.last() % 16) as nat),
        ]
    }
}

/// The words of a text read so far from the left: the completed words and
/// the word being read.
pub open spec fn words_scan(s: Seq<char>) -> (Seq<Seq<char>>, Seq<char>)
    decreases s.len(),
{
    if s.len() == 0 {
        (seq![], seq![])
    } else {
        let (done, cur) = words_scan(s.drop_last());
        let c = s.last();
        if is_white_space(c) {
            if cur.len() > 0 {
                (done.push(cur), seq![])
            } else {
                (done, cur)
            }
        } else {
            (done, cur.push(c))
        }
    }
}

/// The maximal runs of non-white-space characters, from left to right, as
/// `str::split_whitespace` yields them.
pub open spec fn split_whitespace(s: Seq<char>) -> Seq<Seq<char>> {
    let (done, cur) = words_scan(s);
    if cur.len() > 0 {
        done.push(cur)
    } else {
        done
    }
}

/// The pieces of `s` between occurrences of `c`, from left to right, as
/// `str::split` with a character yields them: always at least one piece.
pub open spec fn split_char(s: Seq<char>, c: char) -> Seq<Seq<char>>
    decreases s.len(),
{
    if s.len() == 0 {
        seq![Seq::<char>::empty()]
    } else {
        let rest = split_char(s.drop_last(), c);
        if s.last() == c {
            rest.push(Seq::<char>::empty())
        } else {
            rest.update(rest.len() - 1, rest.last().push(s.last()))
        }
    }
}

// ---------------------------------------------------------------------------
// Lemmas
// ---------------------------------------------------------------------------

proof fn lemma_trim_start_skip(s: Seq<char>, i: int)
    requires
        0 <= i < s.len(),
        is_white_space(s[i]),
        trim_start(s) == trim_start(s.skip(i)),
    ensures
        trim_start(s) == trim_start(s.skip(i + 1)),
{
    assert(s.skip(i).drop_first() =~= s.skip(i + 1));
}

proof fn lemma_trim_end_take(s: Seq<char>, j: int)
    requires
        0 < j <= s.len(),
        is_white_space(s[j - 1]),
        trim_end(s) == trim_end(s.take(j)),
    ensures
        trim_end(s) == trim_end(s.take(j - 1)),
{
    assert(s.take(j).drop_last() =~= s.take(j - 1));
}

proof fn lemma_trim_end_char_take(s: Seq<char>, c: char, j: int)
    requires
        0 < j <= s.len(),
        s[j - 1] == c,
        trim_end_char(s, c) == trim_end_char(s.take(j), c),
    ensures
        trim_end_char(s, c) == trim_end_char(s.take(j - 1), c),
{
    assert(s.take(j).drop_last() =~= s.take(j - 1));
}

proof fn lemma_trim_start_char_skip(s: Seq<char>, c: char, i: int)
    requires
        0 <= i < s.len(),
        s[i] == c,
        trim_start_char(s, c) == trim_start_char(s.skip(i), c),
    ensures
        trim_start_char(s, c) == trim_start_char(s.skip(i + 1), c),
{
    assert(s.skip(i).drop_first() =~= s.skip(i + 1));
}

/// The upper-case hexadecimal notation has two characters per byte, all of
/// them hexadecimal digits.
pub proof fn lemma_hex_upper_shape(bytes: Seq<u8>)
    ensures
        hex_upper(bytes).len() == 2 * bytes.len(),
        forall|i: int|
            0 <= i < hex_upper(bytes).len() ==> {
                let c = #[trigger] hex_upper(bytes)[i];
                ('0' <= c <= '9') || ('A' <= c <= 'F')
            },
    decreases bytes.len(),
{
    if bytes.len() > 0 {
        lemma_hex_upper_shape(bytes.drop_last());
    }
}

// ---------------------------------------------------------------------------
// Executable operations
// ---------------------------------------------------------------------------

/// `String::push`: appends one character.
#[verifier::external_body]
pub(crate) fn push_char(s: &mut String, c: char)
    ensures
        final(s)@ == old(s)@.push(c),
{
    s.push(c);
}

/// The characters of a string slice.
pub fn chars_of(s: &str) -> (v: Vec<char>)
    ensures
        v@ == s@,
{
    let mut v: Vec<char> = Vec::new();
    for c in it: s.chars()
        invariant
            v@ == it.seq().take(it.index() as int),
    {
        v.push(c);
    }
    v
}

/// Appends the characters `chars[from..to]` to `out`.
pub fn push_chars(out: &mut String, chars: &Vec<char>, from: usize, to: usize)
    requires
        from <= to <= chars.len(),
    ensures
        final(out)@ == old(out)@ + chars@.subrange(from as int, to as int),
{
    let mut i = from;
    while i < to
        invariant
            from <= i <= to <= chars.len(),
            out@ == old(out)@ + chars@.subrange(from as int, i as int),
        decreases to - i,
    {
        push_char(out, chars[i]);
        i = i + 1;
        assert(chars@.subrange(from as int, i as int) =~= chars@.subrange(from as int, i - 1).push(
            chars@[i - 1],
        ));
    }
}

/// A new string holding `chars[from..to]`.
pub fn string_of_range(chars: &Vec<char>, from: usize, to: usize) -> (s: String)
    requires
        from <= to <= chars.len(),
    ensures
        s@ == chars@.subrange(from as int, to as int),
{
    let mut s = String::new();
    push_chars(&mut s, chars, from, to);
    s
}

/// A new string holding the characters.
pub fn string_of(chars: &Vec<char>) -> (s: String)
    ensures
        s@ == chars@,
{
    let s = string_of_range(chars, 0, chars.len());
    assert(chars@.subrange(0, chars@.len() as int) =~= chars@);
    s
}

/// A copy of a string slice as an owned string.
pub fn owned(s: &str) -> (r: String)
    ensures
        r@ == s@,
{
    let mut r = String::new();
    r.append(s);
    assert(r@ =~= s@);
    r
}

/// `char::is_whitespace`.
pub fn is_white_space_char(c: char) -> (b: bool)
    ensures
        b == is_white_space(c),
{
    let u = c as u32;
    (0x9 <= u && u <= 0xd) || u == 0x20 || u == 0x85 || u == 0xa0 || u == 0x1680 || (0x2000 <= u
        && u <= 0x200a) || u == 0x2028 || u == 0x2029 || u == 0x202f || u == 0x205f || u == 0x3000
}

/// Bounds of the trimmed part of `chars`: `chars[lo..hi]`.
pub fn trim_bounds(chars: &Vec<char>) -> (r: (usize, usize))
    ensures
        r.0 <= r.1 <= chars.len(),
        chars@.subrange(r.0 as int, r.1 as int) == trim(chars@),
{
    let n = chars.len();
    let mut i: usize = 0;
    assert(chars@.skip(0) =~= chars@);
    while i < n && is_white_space_char(chars[i])
        invariant
            i <= n == chars.len(),
            trim_start(chars@) == trim_start(chars@.skip(i as int)),
        decreases n - i,
    {
        proof {
            lemma_trim_start_skip(chars@, i as int);
        }
        i = i + 1;
    }
    let ghost t = chars@.skip(i as int);
    assert(trim_start(t) == t);
    let mut j: usize = n;
    assert(t.take((n - i) as int) =~= t);
    while j > i && is_white_space_char(chars[j - 1])
        invariant
            i <= j <= n == chars.len(),
            t == chars@.skip(i as int),
            trim_end(t) == trim_end(t.take(j - i)),
        decreases j,
    {
        proof {
            lemma_trim_end_take(t, (j - i) as int);
            assert(t.take(j - i - 1) =~= t.take(j - 1 - i));
        }
        j = j - 1;
    }
    assert(trim_end(t.take(j - i)) == t.take(j - i));
    assert(chars@.subrange(i as int, j as int) =~= t.take(j - i));
    (i, j)
}

/// `str::trim`, as an owned string.
pub fn trim_str(s: &str) -> (r: String)
    ensures
        r@ == trim(s@),
{
    let chars = chars_of(s);
    let (lo, hi) = trim_bounds(&chars);
    string_of_range(&chars, lo, hi)
}

/// `str::to_ascii_lowercase`.
pub fn ascii_lowercase(s: &Vec<char>) -> (r: Vec<char>)
    ensures
        r@ == ascii_lower(s@),
{
    let mut r: Vec<char> = Vec::new();
    let mut i: usize = 0;
    while i < s.len()
        invariant
            i <= s.len(),
            r@ == ascii_lower(s@.take(i as int)),
        decreases s.len() - i,
    {
        let c = s[i];
        let l = if 'A' <= c && c <= 'Z' {
            let u = (c as u32) + 32;
            assert(0x61 <= u <= 0x7a);
            char_from_ascii(u)
        } else {
            c
        };
        r.push(l);
        i = i + 1;
        assert(ascii_lower(s@.take(i as int)) =~= ascii_lower(s@.take(i - 1)).push(
            ascii_lower_char(c),
        ));
    }
    assert(s@.take(s.len() as int) =~= s@);
    r
}

/// The character with an ASCII code point.
fn char_from_ascii(u: u32) -> (c: char)
    requires
        u < 128,
    ensures
        c == u as char,
{
    let b = u as u8;
    b as char
}

/// Whether `p` occurs in `s` at position `i`.
pub fn occurs_at_exec(s: &Vec<char>, p: &Vec<char>, i: usize) -> (b: bool)
    ensures
        b == occurs_at(s@, p@, i as int),
{
    if i > s.len() || p.len() > s.len() - i {
        return false;
    }
    let mut k: usize = 0;
    while k < p.len()
        invariant
            i + p.len() <= s.len(),
            k <= p.len(),
            forall|m: int| 0 <= m < k ==> s@[i + m] == p@[m],
        decreases p.len() - k,
    {
        if s[i + k] != p[k] {
            assert(s@.subrange(i as int, i + p.len())[k as int] != p@[k as int]);
            return false;
        }
        k = k + 1;
    }
    assert(s@.subrange(i as int, i + p.len()) =~= p@);
    true
}

/// `str::contains` for a text pattern.
pub fn contains_exec(s: &Vec<char>, p: &Vec<char>) -> (b: bool)
    ensures
        b == contains(s@, p@),
{
    if p.len() == 0 {
        assert(s@.subrange(0, 0) =~= p@);
        assert(occurs_at(s@, p@, 0));
        return true;
    }
    if p.len() > s.len() {
        return false;
    }
    let last = s.len() - p.len();
    let mut i: usize = 0;
    while i <= last
        invariant
            last == s.len() - p.len(),
            0 < p.len() <= s.len(),
            i <= last + 1,
            forall|j: int| 0 <= j < i ==> !occurs_at(s@, p@, j),
        decreases last + 1 - i,
    {
        if occurs_at_exec(s, p, i) {
            return true;
        }
        i = i + 1;
    }
    assert forall|j: int| !occurs_at(s@, p@, j) by {
        if 0 <= j < i {
        }
    }
    false
}

/// `str::starts_with` for a text pattern.
pub fn starts_with_exec(s: &Vec<char>, p: &Vec<char>) -> (b: bool)
    ensures
        b == starts_with(s@, p@),
{
    let b = occurs_at_exec(s, p, 0);
    proof {
        if p@.len() <= s@.len() {
            assert(s@.take(p@.len() as int) =~= s@.subrange(0, p@.len() as int));
        }
    }
    b
}

/// Equality of two texts.
pub fn chars_eq(a: &Vec<char>, b: &Vec<char>) -> (r: bool)
    ensures
        r == (a@ == b@),
{
    if a.len() != b.len() {
        return false;
    }
    let r = starts_with_exec(a, b);
    proof {
        assert(a@.take(b@.len() as int) =~= a@);
    }
    r
}

/// Appends the decimal notation of `n`.
pub fn push_decimal(out: &mut String, n: u64)
    ensures
        final(out)@ == old(out)@ + decimal(n as nat),
    decreases n,
{
    if n >= 10 {
        push_decimal(out, n / 10);
    }
    let d = (n % 10) as u32;
    let c = char_from_ascii(('0' as u32) + d);
    push_char(out, c);
    if n >= 10 {
        assert(decimal(n as nat) =~= decimal((n / 10) as nat).push(digit_char((n % 10) as nat)));
    } else {
        assert(decimal(n as nat) =~= seq![digit_char(n as nat)]);
    }
}

/// Appends the decimal notation of a signed integer, with `-` when negative.
pub fn push_signed_decimal(out: &mut String, n: i64)
    ensures
        final(out)@ == old(out)@ + signed_decimal(n as int),
{
    if n < 0 {
        push_char(out, '-');
        let m: u64 = (0i128 - (n as i128)) as u64;
        push_decimal(out, m);
    } else {
        push_decimal(out, n as u64);
    }
}

/// Appends the upper-case hexadecimal digit for `d`.
fn push_hex_digit(out: &mut String, d: u8)
    requires
        d < 16,
    ensures
        final(out)@ == old(out)@.push(hex_digit_upper(d as nat)),
{
    let c = if d < 10 {
        char_from_ascii(('0' as u32) + (d as u32))
    } else {
        char_from_ascii(('A' as u32) + (d as u32) - 10)
    };
    push_char(out, c);
}

/// Upper-case hexadecimal notation of the bytes, two digits per byte, as
/// `format!("{:02X}", b)` gives for each byte.
pub fn to_hex_upper(bytes: &[u8]) -> (r: String)
    ensures
        r@ == hex_upper(bytes@),
{
    let mut r = String::new();
    let mut i: usize = 0;
    while i < bytes.len()
        invariant
            i <= bytes.len(),
            r@ == hex_upper(bytes@.take(i as int)),
        decreases bytes.len() - i,
    {
        let b = bytes[i];
        push_hex_digit(&mut r, b / 16);
        push_hex_digit(&mut r, b % 16);
        i = i + 1;
        assert(bytes@.take(i as int).drop_last() =~= bytes@.take(i - 1));
    }
    assert(bytes@.take(bytes.len() as int) =~= bytes@);
    r
}

/// Appends `pieces` joined by `sep`.
pub fn join_strings(pieces: &Vec<String>, sep: &str) -> (r: String)
    ensures
        r@ == join(pieces@.map_values(|p: String| p@), sep@),
{
    let ghost views = pieces@.map_values(|p: String| p@);
    let mut r = String::new();
    let mut i: usize = 0;
    while i < pieces.len()
        invariant
            i <= pieces.len(),
            views == pieces@.map_values(|p: String| p@),
            r@ == join(views.take(i as int), sep@),
        decreases pieces.len() - i,
    {
        if i > 0 {
            r.append(sep);
        }
        r.append(pieces[i].as_str());
        i = i + 1;
        assert(views.take(i as int).drop_last() =~= views.take(i - 1));
        assert(views.take(i as int).last() == pieces@[i - 1]@);
        if i == 1 {
            assert(join(views.take(1), sep@) == views.take(1)[0]);
        }
    }
    assert(views.take(pieces.len() as int) =~= views);
    r
}


/// What `str::to_lowercase` returns: the Unicode lower case of the text, as
/// that function defines it (a capital sigma, for one, depends on the
/// characters around it).
pub uninterp spec fn unicode_lowercase(s: Seq<char>) -> Seq<char>;

/// `str::to_lowercase`; the contract claims only that the result is the
/// Unicode lower case of the argument, whatever that mapping is.
#[verifier::external_body]
pub(crate) fn to_lowercase(s: &str) -> (r: String)
    ensures
        r@ == unicode_lowercase(s@),
{
    s.to_lowercase()
}

/// Whether a text equals a literal.
pub fn chars_eq_str(a: &Vec<char>, lit: &str) -> (r: bool)
    ensures
        r == (a@ == lit@),
{
    let b = chars_of(lit);
    chars_eq(a, &b)
}

/// `s.strip_prefix(p).unwrap_or(s)`, as an owned string.
pub fn strip_prefix_or_self_str(s: &str, p: &str) -> (r: String)
    ensures
        r@ == strip_prefix_or_self(s@, p@),
{
    let sc = chars_of(s);
    let pc = chars_of(p);
    if starts_with_exec(&sc, &pc) {
        string_of_range(&sc, pc.len(), sc.len())
    } else {
        string_of(&sc)
    }
}

/// `s.trim_end_matches(c)`, as an owned string.
pub fn trim_end_char_str(s: &str, c: char) -> (r: String)
    ensures
        r@ == trim_end_char(s@, c),
{
    let chars = chars_of(s);
    let mut j = chars.len();
    assert(chars@.take(j as int) =~= chars@);
    while j > 0 && chars[j - 1] == c
        invariant
            j <= chars.len(),
            trim_end_char(chars@, c) == trim_end_char(chars@.take(j as int), c),
        decreases j,
    {
        proof {
            lemma_trim_end_char_take(chars@, c, j as int);
        }
        j = j - 1;
    }
    assert(chars@.subrange(0, j as int) =~= chars@.take(j as int));
    string_of_range(&chars, 0, j)
}

/// `s.trim_start_matches(c)`, as an owned string.
pub fn trim_start_char_str(s: &str, c: char) -> (r: String)
    ensures
        r@ == trim_start_char(s@, c),
{
    let chars = chars_of(s);
    let mut i: usize = 0;
    assert(chars@.skip(0) =~= chars@);
    while i < chars.len() && chars[i] == c
        invariant
            i <= chars.len(),
            trim_start_char(chars@, c) == trim_start_char(chars@.skip(i as int), c),
        decreases chars.len() - i,
    {
        proof {
            lemma_trim_start_char_skip(chars@, c, i as int);
        }
        i = i + 1;
    }
    assert(chars@.subrange(i as int, chars@.len() as int) =~= chars@.skip(i as int));
    string_of_range(&chars, i, chars.len())
}


/// The view of an optional string.
pub open spec fn opt_view(o: Option<String>) -> Option<Seq<char>> {
    match o {
        Some(s) => Some(s@),
        None => None,
    }
}

/// `split_char` yields at least one piece, and no piece holds `c`.
pub proof fn lemma_split_char_shape(s: Seq<char>, c: char)
    ensures
        split_char(s, c).len() >= 1,
        forall|i: int| 0 <= i < split_char(s, c).len() ==> !(#[trigger] split_char(s, c)[i]).contains(c),
    decreases s.len(),
{
    if s.len() > 0 {
        lemma_split_char_shape(s.drop_last(), c);
        let rest = split_char(s.drop_last(), c);
        if s.last() != c {
            assert forall|i: int| 0 <= i < split_char(s, c).len() implies !(
            #[trigger] split_char(s, c)[i]).contains(c) by {
                if i == rest.len() - 1 {
                    let p = rest.last().push(s.last());
                    assert(!rest[i].contains(c));
                    if p.contains(c) {
                        let k = choose|k: int| 0 <= k < p.len() && p[k] == c;
                        assert(rest[i][k] == c);
                    }
                }
            }
        }
    }
}

/// Joining the pieces with `c` gives back the text: splitting loses nothing.
pub proof fn law_split_char_join(s: Seq<char>, c: char)
    ensures
        join(split_char(s, c), seq![c]) == s,
    decreases s.len(),
{
    if s.len() > 0 {
        let rest = split_char(s.drop_last(), c);
        law_split_char_join(s.drop_last(), c);
        lemma_split_char_shape(s.drop_last(), c);
        let x = s.last();
        if x == c {
            let p = rest.push(Seq::<char>::empty());
            assert(p.drop_last() =~= rest);
            assert(join(p, seq![c]) == join(rest, seq![c]) + seq![c] + Seq::<char>::empty());
        } else {
            let p = rest.update(rest.len() - 1, rest.last().push(x));
            if rest.len() == 1 {
                assert(join(rest, seq![c]) == rest[0]);
                assert(join(p, seq![c]) == p[0]);
            } else {
                assert(p.drop_last() =~= rest.drop_last());
                assert(join(p, seq![c]) == join(rest.drop_last(), seq![c]) + seq![c] + p.last());
                assert(join(rest, seq![c]) == join(rest.drop_last(), seq![c]) + seq![c] + rest.last());
            }
        }
        assert(s =~= s.drop_last().push(x));
    }
}

/// The pieces of `s` between occurrences of `c`.
pub fn split_on_char(s: &str, c: char) -> (r: Vec<String>)
    ensures
        r@.map_values(|p: String| p@) == split_char(s@, c),
{
    let chars = chars_of(s);
    let mut pieces: Vec<String> = Vec::new();
    let mut cur = String::new();
    let mut i: usize = 0;
    assert(chars@.take(0) =~= Seq::<char>::empty());
    assert(pieces@.map_values(|p: String| p@).push(cur@) =~= seq![Seq::<char>::empty()]);
    while i < chars.len()
        invariant
            i <= chars.len(),
            pieces@.map_values(|p: String| p@).push(cur@) == split_char(chars@.take(i as int), c),
        decreases chars.len() - i,
    {
        let ghost before = pieces@.map_values(|p: String| p@);
        let ghost cur_before = cur@;
        let ch = chars[i];
        assert(chars@.take(i + 1).drop_last() =~= chars@.take(i as int));
        assert(chars@.take(i + 1).last() == ch);
        if ch == c {
            pieces.push(cur);
            cur = String::new();
            assert(pieces@.map_values(|p: String| p@) =~= before.push(cur_before));
        } else {
            push_char(&mut cur, ch);
            assert(pieces@.map_values(|p: String| p@) =~= before);
            assert(before.push(cur_before).update(before.len() as int, cur_before.push(ch))
                =~= before.push(cur@));
        }
        i = i + 1;
    }
    assert(chars@.take(chars.len() as int) =~= chars@);
    let ghost before = pieces@.map_values(|p: String| p@);
    let ghost last = cur@;
    pieces.push(cur);
    assert(pieces@.map_values(|p: String| p@) =~= before.push(last));
    pieces
}

/// Whether two texts are equal.
pub fn str_eq(a: &str, b: &str) -> (r: bool)
    ensures
        r == (a@ == b@),
{
    let ac = chars_of(a);
    let bc = chars_of(b);
    chars_eq(&ac, &bc)
}

/// `s.trim_start_matches(p)`, as an owned string.
pub fn trim_start_matches_str(s: &str, p: &str) -> (r: String)
    ensures
        r@ == trim_start_matches(s@, p@),
{
    let sc = chars_of(s);
    let pc = chars_of(p);
    if pc.len() == 0 {
        return string_of(&sc);
    }
    let mut i: usize = 0;
    assert(sc@.skip(0) =~= sc@);
    while occurs_at_exec(&sc, &pc, i)
        invariant
            i <= sc.len(),
            pc.len() > 0,
            trim_start_matches(sc@, pc@) == trim_start_matches(sc@.skip(i as int), pc@),
        decreases sc.len() - i,
    {
        assert(sc@.skip(i as int).take(pc@.len() as int) =~= sc@.subrange(
            i as int,
            i + pc@.len(),
        ));
        assert(sc@.skip(i as int).skip(pc@.len() as int) =~= sc@.skip(i + pc@.len()));
        i = i + pc.len();
    }
    if pc.len() <= sc.len() - i {
        assert(sc@.skip(i as int).take(pc@.len() as int) =~= sc@.subrange(
            i as int,
            i + pc@.len(),
        ));
    }
    assert(sc@.subrange(i as int, sc@.len() as int) =~= sc@.skip(i as int));
    string_of_range(&sc, i, sc.len())
}

/// `s.strip_prefix(p)`, as an owned string.
pub fn strip_prefix_str(s: &str, p: &str) -> (r: Option<String>)
    ensures
        opt_view(r) == strip_prefix(s@, p@),
{
    let sc = chars_of(s);
    let pc = chars_of(p);
    if starts_with_exec(&sc, &pc) {
        let r = string_of_range(&sc, pc.len(), sc.len());
        assert(sc@.subrange(pc@.len() as int, sc@.len() as int) =~= sc@.skip(pc@.len() as int));
        Some(r)
    } else {
        None
    }
}

/// `s.replace(from, to)`, for a non-empty `from`.
pub fn replace_all_str(s: &str, from: &str, to: &str) -> (r: String)
    requires
        from@.len() > 0,
    ensures
        r@ == replace_all(s@, from@, to@),
{
    let sc = chars_of(s);
    let fc = chars_of(from);
    let mut r = String::new();
    let mut i: usize = 0;
    assert(sc@.skip(0) =~= sc@);
    while i < sc.len()
        invariant
            i <= sc.len(),
            fc@ == from@,
            fc@.len() > 0,
            r@ + replace_all(sc@.skip(i as int), fc@, to@) == replace_all(sc@, fc@, to@),
        decreases sc.len() - i,
    {
        let ghost rest = sc@.skip(i as int);
        let ghost before = r@;
        if occurs_at_exec(&sc, &fc, i) {
            assert(rest.take(fc@.len() as int) =~= sc@.subrange(i as int, i + fc@.len()));
            assert(rest.skip(fc@.len() as int) =~= sc@.skip(i + fc@.len()));
            r.append(to);
            i = i + fc.len();
            assert(r@ + replace_all(sc@.skip(i as int), fc@, to@) =~= before + (to@ + replace_all(
                rest.skip(fc@.len() as int),
                fc@,
                to@,
            )));
        } else {
            if fc.len() <= sc.len() - i {
                assert(rest.take(fc@.len() as int) =~= sc@.subrange(i as int, i + fc@.len()));
            }
            assert(rest.drop_first() =~= sc@.skip(i + 1));
            assert(rest[0] == sc@[i as int]);
            push_char(&mut r, sc[i]);
            i = i + 1;
            assert(r@ + replace_all(sc@.skip(i as int), fc@, to@) =~= before + (seq![rest[0]]
                + replace_all(rest.drop_first(), fc@, to@)));
        }
    }
    assert(sc@.skip(sc.len() as int) =~= Seq::<char>::empty());
    assert(r@ + replace_all(Seq::<char>::empty(), fc@, to@) =~= r@);
    r
}

/// A copy of an optional string.
pub fn clone_opt_string(o: &Option<String>) -> (r: Option<String>)
    ensures
        r == *o,
{
    match o {
        Some(s) => Some(s.clone()),
        None => None,
    }
}

} // verus!
