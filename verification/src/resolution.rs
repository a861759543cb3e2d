//! Ranking of video resolution labels ("4K", "1080p", "SD", ...).
use vstd::prelude::*;

use crate::text::{
    ascii_lower, ascii_lower_char, ascii_lowercase, chars_of, contains, contains_exec, is_white_space,
    string_of, trim, trim_bounds, trim_end, trim_start,
};

verus! {

/// The label as it is compared: trimmed and in ASCII lower case.
pub open spec fn normalized_label(value: Seq<char>) -> Seq<char> {
    ascii_lower(trim(value))
}

/// The rank of a normalized label: 4 for 2160p/4K, 3 for 1080, 2 for 720,
/// 1 for 576, 480 and SD, none otherwise. Earlier tests win.
pub open spec fn weight_of_normalized(n: Seq<char>) -> Option<u8> {
    if contains(n, "2160"@) || contains(n, "4k"@) {
        Some(4u8)
    } else if contains(n, "1080"@) {
        Some(3u8)
    } else if contains(n, "720"@) {
        Some(2u8)
    } else if contains(n, "576"@) || contains(n, "480"@) || contains(n, "sd"@) {
        Some(1u8)
    } else {
        None
    }
}

/// The rank of a resolution label.
pub open spec fn label_weight(value: Seq<char>) -> Option<u8> {
    weight_of_normalized(normalized_label(value))
}

/// Whether `actual` ranks strictly below `requested`; false when either
/// label has no rank.
pub open spec fn label_lower(actual: Seq<char>, requested: Seq<char>) -> bool {
    match (label_weight(actual), label_weight(requested)) {
        (Some(a), Some(r)) => a < r,
        _ => false,
    }
}

/// The characters of a label as it is compared.
fn normalized_chars(value: &str) -> (r: Vec<char>)
    ensures
        r@ == normalized_label(value@),
{
    let chars = chars_of(value);
    let (lo, hi) = trim_bounds(&chars);
    let mut trimmed: Vec<char> = Vec::new();
    let mut i = lo;
    while i < hi
        invariant
            lo <= i <= hi <= chars.len(),
            trimmed@ == chars@.subrange(lo as int, i as int),
        decreases hi - i,
    {
        trimmed.push(chars[i]);
        i = i + 1;
        assert(trimmed@ =~= chars@.subrange(lo as int, i as int));
    }
    ascii_lowercase(&trimmed)
}

/// A label as it is compared: trimmed, in ASCII lower case.
pub fn normalize_resolution_label(value: &str) -> (r: String)
    ensures
        r@ == normalized_label(value@),
{
    string_of(&normalized_chars(value))
}

/// Whether the normalized label contains the literal.
fn label_has(n: &Vec<char>, lit: &str) -> (b: bool)
    ensures
        b == contains(n@, lit@),
{
    let p = chars_of(lit);
    contains_exec(n, &p)
}

/// The rank of a resolution label: 4 for 2160p/4K, 3 for 1080, 2 for 720,
/// 1 for 576/480/SD, `None` for labels it does not know.
pub fn resolution_weight(value: &str) -> (r: Option<u8>)
    ensures
        r == label_weight(value@),
{
    let normalized = normalized_chars(value);
    if label_has(&normalized, "2160") || label_has(&normalized, "4k") {
        return Some(4);
    }
    if label_has(&normalized, "1080") {
        return Some(3);
    }
    if label_has(&normalized, "720") {
        return Some(2);
    }
    if label_has(&normalized, "576") || label_has(&normalized, "480") || label_has(
        &normalized,
        "sd",
    ) {
        return Some(1);
    }
    None
}

/// Whether `actual` ranks strictly below `requested`. Labels without a rank
/// are never lower, and nothing is lower than them.
pub fn is_resolution_lower(actual: &str, requested: &str) -> (r: bool)
    ensures
        r == label_lower(actual@, requested@),
{
    match (resolution_weight(actual), resolution_weight(requested)) {
        (Some(actual_weight), Some(requested_weight)) => actual_weight < requested_weight,
        _ => false,
    }
}

// ---------------------------------------------------------------------------
// Laws
// ---------------------------------------------------------------------------

/// Every rank that a label gets lies between 1 and 4.
pub proof fn law_weight_range(value: Seq<char>)
    ensures
        label_weight(value) matches Some(w) ==> 1 <= w <= 4,
{
}

/// No label ranks below itself.
pub proof fn law_lower_irreflexive(value: Seq<char>)
    ensures
        !label_lower(value, value),
{
}

/// If `a` ranks below `b`, then `b` does not rank below `a`.
pub proof fn law_lower_asymmetric(a: Seq<char>, b: Seq<char>)
    ensures
        label_lower(a, b) ==> !label_lower(b, a),
{
}

/// Ranking below is transitive.
pub proof fn law_lower_transitive(a: Seq<char>, b: Seq<char>, c: Seq<char>)
    ensures
        label_lower(a, b) && label_lower(b, c) ==> label_lower(a, c),
{
}

proof fn lemma_ascii_lower_char_ws(c: char)
    ensures
        is_white_space(ascii_lower_char(c)) == is_white_space(c),
{
}

proof fn lemma_trim_start_shape(s: Seq<char>)
    ensures
        trim_start(s).len() == 0 || !is_white_space(trim_start(s)[0]),
    decreases s.len(),
{
    if s.len() > 0 && is_white_space(s[0]) {
        lemma_trim_start_shape(s.drop_first());
    }
}

proof fn lemma_trim_end_shape(s: Seq<char>)
    ensures
        trim_end(s).len() <= s.len(),
        trim_end(s) == s.take(trim_end(s).len() as int),
        trim_end(s).len() == 0 || !is_white_space(trim_end(s).last()),
    decreases s.len(),
{
    if s.len() > 0 && is_white_space(s.last()) {
        lemma_trim_end_shape(s.drop_last());
        assert(s.drop_last().take(trim_end(s).len() as int) =~= s.take(
            trim_end(s).len() as int,
        ));
    } else {
        assert(s.take(s.len() as int) =~= s);
    }
}

proof fn lemma_trim_shape(s: Seq<char>)
    ensures
        trim(s).len() == 0 || (!is_white_space(trim(s)[0]) && !is_white_space(trim(s).last())),
{
    lemma_trim_start_shape(s);
    lemma_trim_end_shape(trim_start(s));
    if trim(s).len() > 0 {
        assert(trim(s)[0] == trim_start(s)[0]);
    }
}

proof fn lemma_trim_of_trimmed(t: Seq<char>)
    requires
        t.len() == 0 || (!is_white_space(t[0]) && !is_white_space(t.last())),
    ensures
        trim(t) == t,
{
}

/// Normalizing a label twice gives what normalizing it once gives, so a
/// label and its normalized form have the same rank.
pub proof fn law_normalize_idempotent(value: Seq<char>)
    ensures
        normalized_label(normalized_label(value)) == normalized_label(value),
        label_weight(normalized_label(value)) == label_weight(value),
{
    let t = trim(value);
    lemma_trim_shape(value);
    let l = ascii_lower(t);
    if t.len() > 0 {
        lemma_ascii_lower_char_ws(t[0]);
        lemma_ascii_lower_char_ws(t.last());
        assert(l[0] == ascii_lower_char(t[0]));
        assert(l.last() == ascii_lower_char(t.last()));
    }
    lemma_trim_of_trimmed(l);
    assert forall|i: int| 0 <= i < l.len() implies ascii_lower_char(#[trigger] l[i]) == l[i] by {
        assert(l[i] == ascii_lower_char(t[i]));
    }
    assert(ascii_lower(l) =~= l);
}

/// ASCII upper case of one character; every other character is unchanged.
pub open spec fn ascii_upper_char(c: char) -> char {
    if 'a' <= c && c <= 'z' {
        ((c as u32) - 32) as char
    } else {
        c
    }
}

/// ASCII upper case of a text.
pub open spec fn ascii_upper(s: Seq<char>) -> Seq<char> {
    s.map_values(|c: char| ascii_upper_char(c))
}

/// Every character of the text is white space.
pub open spec fn all_white_space(s: Seq<char>) -> bool {
    forall|i: int| 0 <= i < s.len() ==> is_white_space(#[trigger] s[i])
}

proof fn lemma_ascii_upper_char(c: char)
    ensures
        is_white_space(ascii_upper_char(c)) == is_white_space(c),
        ascii_lower_char(ascii_upper_char(c)) == ascii_lower_char(c),
{
}

proof fn lemma_trim_start_upper(s: Seq<char>)
    ensures
        trim_start(ascii_upper(s)) == ascii_upper(trim_start(s)),
    decreases s.len(),
{
    if s.len() > 0 {
        lemma_ascii_upper_char(s[0]);
        assert(ascii_upper(s)[0] == ascii_upper_char(s[0]));
        if is_white_space(s[0]) {
            assert(ascii_upper(s).drop_first() =~= ascii_upper(s.drop_first()));
            lemma_trim_start_upper(s.drop_first());
        }
    }
}

proof fn lemma_trim_end_upper(s: Seq<char>)
    ensures
        trim_end(ascii_upper(s)) == ascii_upper(trim_end(s)),
    decreases s.len(),
{
    if s.len() > 0 {
        lemma_ascii_upper_char(s.last());
        assert(ascii_upper(s).last() == ascii_upper_char(s.last()));
        if is_white_space(s.last()) {
            assert(ascii_upper(s).drop_last() =~= ascii_upper(s.drop_last()));
            lemma_trim_end_upper(s.drop_last());
        }
    }
}

/// Putting a label in ASCII upper case keeps its normalized form, and so its
/// rank: "1080P" ranks as "1080p" does.
pub proof fn law_weight_ignores_ascii_case(value: Seq<char>)
    ensures
        normalized_label(ascii_upper(value)) == normalized_label(value),
        label_weight(ascii_upper(value)) == label_weight(value),
{
    lemma_trim_start_upper(value);
    lemma_trim_end_upper(trim_start(value));
    let t = trim(value);
    assert(trim(ascii_upper(value)) == ascii_upper(t));
    assert forall|i: int| 0 <= i < t.len() implies #[trigger] ascii_lower(ascii_upper(t))[i]
        == ascii_lower(t)[i] by {
        lemma_ascii_upper_char(t[i]);
    }
    assert(ascii_lower(ascii_upper(t)) =~= ascii_lower(t));
}

proof fn lemma_trim_start_ws_prefix(pre: Seq<char>, s: Seq<char>)
    requires
        all_white_space(pre),
    ensures
        trim_start(pre + s) == trim_start(s),
    decreases pre.len(),
{
    if pre.len() == 0 {
        assert(pre + s =~= s);
    } else {
        assert((pre + s)[0] == pre[0]);
        assert((pre + s).drop_first() =~= pre.drop_first() + s);
        assert forall|i: int| 0 <= i < pre.drop_first().len() implies is_white_space(
            #[trigger] pre.drop_first()[i],
        ) by {
            assert(pre.drop_first()[i] == pre[i + 1]);
        }
        lemma_trim_start_ws_prefix(pre.drop_first(), s);
    }
}

proof fn lemma_trim_end_ws_suffix(s: Seq<char>, post: Seq<char>)
    requires
        all_white_space(post),
    ensures
        trim_end(s + post) == trim_end(s),
    decreases post.len(),
{
    if post.len() == 0 {
        assert(s + post =~= s);
    } else {
        assert((s + post).last() == post.last());
        assert((s + post).drop_last() =~= s + post.drop_last());
        assert forall|i: int| 0 <= i < post.drop_last().len() implies is_white_space(
            #[trigger] post.drop_last()[i],
        ) by {
            assert(post.drop_last()[i] == post[i]);
        }
        lemma_trim_end_ws_suffix(s, post.drop_last());
    }
}

proof fn lemma_trim_start_concat(v: Seq<char>, w: Seq<char>)
    ensures
        trim_start(v).len() > 0 ==> trim_start(v + w) == trim_start(v) + w,
        trim_start(v).len() == 0 ==> trim_start(v + w) == trim_start(w),
    decreases v.len(),
{
    if v.len() == 0 {
        assert(v + w =~= w);
    } else {
        assert((v + w)[0] == v[0]);
        if is_white_space(v[0]) {
            assert((v + w).drop_first() =~= v.drop_first() + w);
            lemma_trim_start_concat(v.drop_first(), w);
        }
    }
}

/// White space around a label changes neither its normalized form nor its
/// rank: "  1080p  " ranks as "1080p" does.
pub proof fn law_weight_ignores_padding(value: Seq<char>, pre: Seq<char>, post: Seq<char>)
    requires
        all_white_space(pre),
        all_white_space(post),
    ensures
        normalized_label(pre + value + post) == normalized_label(value),
        label_weight(pre + value + post) == label_weight(value),
{
    assert(pre + value + post =~= pre + (value + post));
    lemma_trim_start_ws_prefix(pre, value + post);
    lemma_trim_start_concat(value, post);
    if trim_start(value).len() > 0 {
        lemma_trim_end_ws_suffix(trim_start(value), post);
    } else {
        lemma_trim_start_ws_prefix(post, Seq::<char>::empty());
        assert(post + Seq::<char>::empty() =~= post);
        assert(trim_start(post) =~= Seq::<char>::empty());
        assert(trim_start(value) =~= Seq::<char>::empty());
    }
    assert(trim(pre + value + post) == trim(value));
}

/// Whether a normalized label names 2160p/4K.
pub open spec fn names_uhd(n: Seq<char>) -> bool {
    contains(n, "2160"@) || contains(n, "4k"@)
}

/// The ranks by what the normalized label names, the highest resolution
/// named winning: 4 for 2160/4K, 3 for 1080, 2 for 720, 1 for 576, 480 or
/// SD, and no rank for a label that names none of them.
pub proof fn law_weight_tiers(value: Seq<char>)
    ensures
        ({
            let n = normalized_label(value);
            &&& names_uhd(n) ==> label_weight(value) == Some(4u8)
            &&& !names_uhd(n) && contains(n, "1080"@) ==> label_weight(value) == Some(3u8)
            &&& !names_uhd(n) && !contains(n, "1080"@) && contains(n, "720"@) ==> label_weight(
                value,
            ) == Some(2u8)
            &&& !names_uhd(n) && !contains(n, "1080"@) && !contains(n, "720"@) && (contains(
                n,
                "576"@,
            ) || contains(n, "480"@) || contains(n, "sd"@)) ==> label_weight(value) == Some(1u8)
            &&& label_weight(value) is None <==> !names_uhd(n) && !contains(n, "1080"@)
                && !contains(n, "720"@) && !contains(n, "576"@) && !contains(n, "480"@)
                && !contains(n, "sd"@)
        }),
{
}

/// A label that names 576p (and nothing higher) ranks like 480p and SD, and
/// below every label that names 720, 1080 or 2160/4K.
pub proof fn law_576_ranks_with_sd(a: Seq<char>, b: Seq<char>)
    requires
        contains(normalized_label(a), "576"@),
        !names_uhd(normalized_label(a)),
        !contains(normalized_label(a), "1080"@),
        !contains(normalized_label(a), "720"@),
        names_uhd(normalized_label(b)) || contains(normalized_label(b), "1080"@) || contains(
            normalized_label(b),
            "720"@,
        ),
    ensures
        label_weight(a) == Some(1u8),
        label_lower(a, b),
        !label_lower(b, a),
{
    law_weight_tiers(a);
    law_weight_tiers(b);
}

} // verus!
