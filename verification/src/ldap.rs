//! The directory lookup of a member by Plex username: the servers tried,
//! the escaping of the username into a search filter, and what is read
//! from the answer.
use vstd::prelude::*;
use rand::seq::SliceRandom;
use crate::text::{
    chars_of, opt_view, owned, push_char, replace_all, starts_with, trim_end_char,
    trim_end_char_str,
};

verus! {

// ---------------------------------------------------------------------------
// Escaping a value for a search filter
// ---------------------------------------------------------------------------

/// The escape of one character of a filter value: the five characters that
/// RFC 4515 reserves become a backslash and two hexadecimal digits, any other
/// character stands for itself.
pub open spec fn escape_char(c: char) -> Seq<char> {
    if c == '\\' {
        seq!['\\', '5', 'c']
    } else if c == '*' {
        seq!['\\', '2', 'a']
    } else if c == '(' {
        seq!['\\', '2', '8']
    } else if c == ')' {
        seq!['\\', '2', '9']
    } else if c == '\0' {
        seq!['\\', '0', '0']
    } else {
        seq![c]
    }
}

/// A filter value with each character escaped, from left to right.
pub open spec fn escaped(s: Seq<char>) -> Seq<char>
    decreases s.len(),
{
    if s.len() == 0 {
        seq![]
    } else {
        escape_char(s[0]) + escaped(s.drop_first())
    }
}

/// Whether a character is one of the five a filter value must escape.
pub open spec fn is_filter_special(c: char) -> bool {
    c == '\\' || c == '*' || c == '(' || c == ')' || c == '\0'
}

/// The search filter that finds the member with the given Plex username.
pub open spec fn plex_filter(username: Seq<char>) -> Seq<char> {
    "(plex="@ + escaped(username) + ")"@
}

/// Escapes a filter value.
pub fn escape_filter_value(value: &str) -> (r: String)
    ensures
        r@ == escaped(value@),
{
    let chars = chars_of(value);
    let mut r = String::new();
    let mut k: usize = 0;
    assert(chars@.skip(0) =~= chars@);
    while k < chars.len()
        invariant
            k <= chars.len(),
            r@ + escaped(chars@.skip(k as int)) == escaped(chars@),
        decreases chars.len() - k,
    {
        let c = chars[k];
        assert(chars@.skip(k as int).drop_first() =~= chars@.skip(k + 1));
        assert(chars@.skip(k as int)[0] == c);
        let ghost before = r@;
        if c == '\\' {
            r.append("\\5c");
            proof { reveal_strlit("\\5c"); }
        } else if c == '*' {
            r.append("\\2a");
            proof { reveal_strlit("\\2a"); }
        } else if c == '(' {
            r.append("\\28");
            proof { reveal_strlit("\\28"); }
        } else if c == ')' {
            r.append("\\29");
            proof { reveal_strlit("\\29"); }
        } else if c == '\0' {
            r.append("\\00");
            proof { reveal_strlit("\\00"); }
        } else {
            push_char(&mut r, c);
        }
        assert(r@ =~= before + escape_char(c));
        k = k + 1;
    }
    assert(chars@.skip(chars.len() as int) =~= Seq::<char>::empty());
    assert(r@ + escaped(Seq::<char>::empty()) =~= r@);
    r
}

/// The search filter for a member's Plex username.
pub fn plex_user_filter(username: &str) -> (r: String)
    ensures
        r@ == plex_filter(username@),
{
    let mut r = owned("(plex=");
    let e = escape_filter_value(username);
    r.append(e.as_str());
    r.append(")");
    r
}

/// The escape of a value holds none of the reserved characters but the
/// backslashes that begin escapes, each followed by two hexadecimal digits.
pub proof fn law_escaped_is_safe(s: Seq<char>)
    ensures
        forall|i: int|
            0 <= i < escaped(s).len() && is_filter_special(#[trigger] escaped(s)[i]) ==> {
                &&& escaped(s)[i] == '\\'
                &&& i + 2 < escaped(s).len()
                &&& !is_filter_special(escaped(s)[i + 1])
                &&& !is_filter_special(escaped(s)[i + 2])
            },
    decreases s.len(),
{
    if s.len() > 0 {
        law_escaped_is_safe(s.drop_first());
        let head = escape_char(s[0]);
        let tail = escaped(s.drop_first());
        assert(escaped(s) == head + tail);
        assert forall|i: int|
            0 <= i < escaped(s).len() && is_filter_special(#[trigger] escaped(s)[i]) implies {
                &&& escaped(s)[i] == '\\'
                &&& i + 2 < escaped(s).len()
                &&& !is_filter_special(escaped(s)[i + 1])
                &&& !is_filter_special(escaped(s)[i + 2])
            } by {
            if i >= head.len() {
                assert(escaped(s)[i] == tail[i - head.len()]);
                assert(escaped(s)[i + 1] == tail[i + 1 - head.len()]);
                assert(escaped(s)[i + 2] == tail[i + 2 - head.len()]);
            }
        }
    }
}

/// Two usernames with the same escape are the same: the search filter of a
/// username finds no other username's entry.
pub proof fn law_escaped_injective(a: Seq<char>, b: Seq<char>)
    requires
        escaped(a) == escaped(b),
    ensures
        a == b,
    decreases a.len(),
{
    if a.len() == 0 {
        if b.len() > 0 {
            assert(escaped(b).len() > 0);
        }
        assert(a =~= b);
    } else {
        if b.len() == 0 {
            assert(escaped(a).len() > 0);
        }
        let ha = escape_char(a[0]);
        let hb = escape_char(b[0]);
        let ta = escaped(a.drop_first());
        let tb = escaped(b.drop_first());
        assert(escaped(a) == ha + ta);
        assert(escaped(b) == hb + tb);
        assert((ha + ta)[0] == ha[0]);
        assert((hb + tb)[0] == hb[0]);
        if is_filter_special(a[0]) {
            assert(hb[0] == '\\');
            assert((ha + ta)[1] == ha[1]);
            assert((hb + tb)[1] == hb[1]);
            assert((ha + ta)[2] == ha[2]);
            assert((hb + tb)[2] == hb[2]);
        }
        assert(a[0] == b[0]);
        assert(ha == hb);
        assert(ta =~= (ha + ta).skip(ha.len() as int));
        assert(tb =~= (hb + tb).skip(hb.len() as int));
        law_escaped_injective(a.drop_first(), b.drop_first());
        assert(a =~= seq![a[0]] + a.drop_first());
        assert(b =~= seq![b[0]] + b.drop_first());
    }
}

/// A text begins with a one-character text exactly when its first
/// character is that character.
proof fn lemma_starts_with_char(x: Seq<char>, a: char)
    ensures
        starts_with(x, seq![a]) <==> (x.len() > 0 && x[0] == a),
{
    if x.len() > 0 {
        assert(x.take(1) =~= seq![x[0]]);
        if x.take(1) == seq![a] {
            assert(x.take(1)[0] == a);
        }
    }
}

/// Replacing a character that does not occur changes nothing.
proof fn lemma_replace_absent(x: Seq<char>, a: char, to: Seq<char>)
    requires
        !x.contains(a),
    ensures
        replace_all(x, seq![a], to) == x,
    decreases x.len(),
{
    if x.len() > 0 {
        lemma_starts_with_char(x, a);
        assert(x[0] != a);
        assert(!x.drop_first().contains(a)) by {
            if x.drop_first().contains(a) {
                let i = choose|i: int| 0 <= i < x.drop_first().len() && x.drop_first()[i] == a;
                assert(x[i + 1] == a);
            }
        }
        lemma_replace_absent(x.drop_first(), a, to);
        assert(x =~= seq![x[0]] + x.drop_first());
    }
}

/// Replacing a character in a concatenation replaces it in each part.
proof fn lemma_replace_concat(x: Seq<char>, y: Seq<char>, a: char, to: Seq<char>)
    ensures
        replace_all(x + y, seq![a], to) == replace_all(x, seq![a], to) + replace_all(
            y,
            seq![a],
            to,
        ),
    decreases x.len(),
{
    if x.len() == 0 {
        assert(x + y =~= y);
        assert(replace_all(x, seq![a], to) == x);
        assert(x + replace_all(y, seq![a], to) =~= replace_all(y, seq![a], to));
    } else {
        let xy = x + y;
        lemma_starts_with_char(xy, a);
        lemma_starts_with_char(x, a);
        assert(xy.drop_first() =~= x.drop_first() + y);
        assert(xy.skip(1) =~= xy.drop_first());
        assert(x.skip(1) =~= x.drop_first());
        lemma_replace_concat(x.drop_first(), y, a, to);
        assert(xy[0] == x[0]);
        if x[0] != a {
            assert((seq![x[0]] + (x.drop_first() + y)) =~= seq![x[0]] + x.drop_first() + y);
        }
    }
}

/// Replacing a character in a one-character text.
proof fn lemma_replace_single(c: char, a: char, to: Seq<char>)
    ensures
        replace_all(seq![c], seq![a], to) == if c == a {
            to
        } else {
            seq![c]
        },
{
    let x = seq![c];
    lemma_starts_with_char(x, a);
    assert(x.skip(1) =~= Seq::<char>::empty());
    assert(x.drop_first() =~= Seq::<char>::empty());
    assert(replace_all(Seq::<char>::empty(), seq![a], to) == Seq::<char>::empty());
    if c == a {
        assert(to + Seq::<char>::empty() =~= to);
    } else {
        assert(seq![c] + Seq::<char>::empty() =~= seq![c]);
    }
}

/// The five replacements the escape is written as, in their order.
pub open spec fn replace_chain(s: Seq<char>) -> Seq<char> {
    let s1 = replace_all(s, seq!['\\'], seq!['\\', '5', 'c']);
    let s2 = replace_all(s1, seq!['*'], seq!['\\', '2', 'a']);
    let s3 = replace_all(s2, seq!['('], seq!['\\', '2', '8']);
    let s4 = replace_all(s3, seq![')'], seq!['\\', '2', '9']);
    replace_all(s4, seq!['\0'], seq!['\\', '0', '0'])
}

proof fn lemma_chain_concat(x: Seq<char>, y: Seq<char>)
    ensures
        replace_chain(x + y) == replace_chain(x) + replace_chain(y),
{
    let x1 = replace_all(x, seq!['\\'], seq!['\\', '5', 'c']);
    let y1 = replace_all(y, seq!['\\'], seq!['\\', '5', 'c']);
    lemma_replace_concat(x, y, '\\', seq!['\\', '5', 'c']);
    let x2 = replace_all(x1, seq!['*'], seq!['\\', '2', 'a']);
    let y2 = replace_all(y1, seq!['*'], seq!['\\', '2', 'a']);
    lemma_replace_concat(x1, y1, '*', seq!['\\', '2', 'a']);
    let x3 = replace_all(x2, seq!['('], seq!['\\', '2', '8']);
    let y3 = replace_all(y2, seq!['('], seq!['\\', '2', '8']);
    lemma_replace_concat(x2, y2, '(', seq!['\\', '2', '8']);
    let x4 = replace_all(x3, seq![')'], seq!['\\', '2', '9']);
    let y4 = replace_all(y3, seq![')'], seq!['\\', '2', '9']);
    lemma_replace_concat(x3, y3, ')', seq!['\\', '2', '9']);
    lemma_replace_concat(x4, y4, '\0', seq!['\\', '0', '0']);
}

proof fn lemma_chain_single(c: char)
    ensures
        replace_chain(seq![c]) == escape_char(c),
{
    let t1 = seq!['\\', '5', 'c'];
    let t2 = seq!['\\', '2', 'a'];
    let t3 = seq!['\\', '2', '8'];
    let t4 = seq!['\\', '2', '9'];
    let t5 = seq!['\\', '0', '0'];
    lemma_replace_single(c, '\\', t1);
    let s1 = replace_all(seq![c], seq!['\\'], t1);
    if c == '\\' {
        assert(s1 == t1);
        assert(!t1.contains('*') && !t1.contains('(') && !t1.contains(')') && !t1.contains('\0')) by {
            assert(forall|i: int| 0 <= i < t1.len() ==> t1[i] == '\\' || t1[i] == '5' || t1[i] == 'c');
        }
        lemma_replace_absent(t1, '*', t2);
        lemma_replace_absent(t1, '(', t3);
        lemma_replace_absent(t1, ')', t4);
        lemma_replace_absent(t1, '\0', t5);
    } else {
        assert(s1 == seq![c]);
        lemma_replace_single(c, '*', t2);
        if c == '*' {
            assert(!t2.contains('(') && !t2.contains(')') && !t2.contains('\0')) by {
                assert(forall|i: int| 0 <= i < t2.len() ==> t2[i] == '\\' || t2[i] == '2' || t2[i] == 'a');
            }
            lemma_replace_absent(t2, '(', t3);
            lemma_replace_absent(t2, ')', t4);
            lemma_replace_absent(t2, '\0', t5);
        } else {
            lemma_replace_single(c, '(', t3);
            if c == '(' {
                assert(!t3.contains(')') && !t3.contains('\0')) by {
                    assert(forall|i: int| 0 <= i < t3.len() ==> t3[i] == '\\' || t3[i] == '2' || t3[i] == '8');
                }
                lemma_replace_absent(t3, ')', t4);
                lemma_replace_absent(t3, '\0', t5);
            } else {
                lemma_replace_single(c, ')', t4);
                if c == ')' {
                    assert(!t4.contains('\0')) by {
                        assert(forall|i: int| 0 <= i < t4.len() ==> t4[i] == '\\' || t4[i] == '2' || t4[i] == '9');
                    }
                    lemma_replace_absent(t4, '\0', t5);
                } else {
                    lemma_replace_single(c, '\0', t5);
                }
            }
        }
    }
}

/// The escape is what replacing, in turn, `\` by `\5c`, `*` by `\2a`, `(` by
/// `\28`, `)` by `\29` and NUL by `\00` in the whole value gives.
pub proof fn law_escape_is_replace_chain(s: Seq<char>)
    ensures
        escaped(s) == replace_chain(s),
    decreases s.len(),
{
    if s.len() == 0 {
        assert(replace_all(s, seq!['\\'], seq!['\\', '5', 'c']) == s);
        assert(replace_all(s, seq!['*'], seq!['\\', '2', 'a']) == s);
        assert(replace_all(s, seq!['('], seq!['\\', '2', '8']) == s);
        assert(replace_all(s, seq![')'], seq!['\\', '2', '9']) == s);
        assert(replace_all(s, seq!['\0'], seq!['\\', '0', '0']) == s);
    } else {
        law_escape_is_replace_chain(s.drop_first());
        assert(s =~= seq![s[0]] + s.drop_first());
        lemma_chain_concat(seq![s[0]], s.drop_first());
        lemma_chain_single(s[0]);
    }
}

// ---------------------------------------------------------------------------
// The directory servers
// ---------------------------------------------------------------------------

/// The address of a directory server named by a DNS service record: the
/// target without its trailing dots, over LDAPS.
pub open spec fn ldap_server_url_of(target: Seq<char>) -> Seq<char> {
    "ldaps://"@ + trim_end_char(target, '.')
}

/// The address of the directory server a DNS service record names.
pub fn ldap_server_url(target: &str) -> (r: String)
    ensures
        r@ == ldap_server_url_of(target@),
{
    let mut r = owned("ldaps://");
    let t = trim_end_char_str(target, '.');
    r.append(t.as_str());
    r
}

/// The servers tried when the DNS lookup fails.
pub fn default_ldap_servers() -> (r: Vec<String>)
    ensures
        r@.len() == 2,
        r@[0]@ == "ldaps://ipa10-nrh.csh.rit.edu"@,
        r@[1]@ == "ldaps://ipa11-tss.csh.rit.edu"@,
{
    let mut r: Vec<String> = Vec::new();
    r.push(owned("ldaps://ipa10-nrh.csh.rit.edu"));
    r.push(owned("ldaps://ipa11-tss.csh.rit.edu"));
    r
}

/// The servers to connect to, given the targets of the DNS service records
/// found, or `None` where the lookup failed.
pub fn ldap_servers_from_lookup(targets: Option<Vec<String>>) -> (r: Vec<String>)
    ensures
        match targets {
            Some(t) => r@.len() == t@.len() && forall|i: int|
                0 <= i < t@.len() ==> #[trigger] r@[i]@ == ldap_server_url_of(t@[i]@),
            None => r@.len() == 2 && r@[0]@ == "ldaps://ipa10-nrh.csh.rit.edu"@ && r@[1]@
                == "ldaps://ipa11-tss.csh.rit.edu"@,
        },
{
    match targets {
        Some(t) => {
            let mut r: Vec<String> = Vec::new();
            let mut i: usize = 0;
            while i < t.len()
                invariant
                    i <= t.len(),
                    r@.len() == i,
                    forall|j: int| 0 <= j < i ==> #[trigger] r@[j]@ == ldap_server_url_of(t@[j]@),
                decreases t.len() - i,
            {
                r.push(ldap_server_url(t[i].as_str()));
                i = i + 1;
            }
            r
        },
        None => default_ldap_servers(),
    }
}

/// `SliceRandom::choose` with the thread's random generator: none for no
/// servers, else one of them; which one is left to chance.
#[verifier::external_body]
fn choose_random(servers: &[String]) -> (r: Option<&String>)
    ensures
        r is None <==> servers@.len() == 0,
        r matches Some(s) ==> exists|i: int| 0 <= i < servers@.len() && servers@[i] == *s,
{
    servers.choose(&mut rand::thread_rng())
}

/// How the connection pool reaches the directory.
#[derive(Clone, Debug)]
pub struct LdapManager {
    ldap_servers: Vec<String>,
    bind_dn: String,
    bind_pw: String,
}

impl LdapManager {
    /// The servers, in the order found.
    pub closed spec fn servers_spec(&self) -> Seq<Seq<char>> {
        self.ldap_servers@.map_values(|s: String| s@)
    }

    /// The name the pool binds as.
    pub closed spec fn bind_dn_spec(&self) -> Seq<char> {
        self.bind_dn@
    }

    /// The password the pool binds with.
    pub closed spec fn bind_pw_spec(&self) -> Seq<char> {
        self.bind_pw@
    }

    /// A manager for the given servers and credentials.
    pub fn new(ldap_servers: Vec<String>, bind_dn: &str, bind_pw: &str) -> (r: Self)
        ensures
            r.servers_spec() == ldap_servers@.map_values(|s: String| s@),
            r.bind_dn_spec() == bind_dn@,
            r.bind_pw_spec() == bind_pw@,
    {
        LdapManager { ldap_servers, bind_dn: owned(bind_dn), bind_pw: owned(bind_pw) }
    }

    /// The name the pool binds as.
    pub fn bind_dn(&self) -> (r: &str)
        ensures
            r@ == self.bind_dn_spec(),
    {
        self.bind_dn.as_str()
    }

    /// The password the pool binds with.
    pub fn bind_pw(&self) -> (r: &str)
        ensures
            r@ == self.bind_pw_spec(),
    {
        self.bind_pw.as_str()
    }

    /// The server a new connection goes to: one of the servers, picked at
    /// random; none when there are none.
    pub fn pick_server(&self) -> (r: Option<String>)
        ensures
            r is None <==> self.servers_spec().len() == 0,
            r matches Some(s) ==> self.servers_spec().contains(s@),
    {
        match choose_random(self.ldap_servers.as_slice()) {
            Some(s) => {
                let ghost i = choose|i: int| 0 <= i < self.ldap_servers@.len() && self.ldap_servers@[i] == *s;
                assert(self.servers_spec()[i] == s@);
                Some(s.clone())
            },
            None => None,
        }
    }
}

/// The uid of the first entry a search returned: `entries` holds, for each
/// entry, its `uid` values where it has that attribute.
pub fn uid_of_first_entry(entries: &Vec<Option<Vec<String>>>) -> (r: Option<String>)
    ensures
        opt_view(r) == if entries@.len() > 0 && entries@[0] is Some && entries@[0]->0@.len() > 0 {
            Some(entries@[0]->0@[0]@)
        } else {
            None
        },
{
    if entries.len() == 0 {
        return None;
    }
    match &entries[0] {
        Some(values) => if values.len() > 0 {
            Some(values[0].clone())
        } else {
            None
        },
        None => None,
    }
}

} // verus!
