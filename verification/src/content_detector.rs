//! Content-type classification of clipboard text.
//!
//! `detect_content_type` assigns every string one of seven tags. The input is
//! trimmed first; the tags are tried in a fixed priority order (color, URL,
//! e-mail, phone, number, code) and the first matching pattern wins, with
//! plain text as the fallback. Each pattern is specified character by
//! character below; whitespace and word characters are the ASCII classes of
//! `crate::text`.

use vstd::prelude::*;

use crate::text::chars_of;
use crate::text::contains_pat;
use crate::text::contains_seq;
use crate::text::digit_char;
use crate::text::hex_digit_char;
use crate::text::is_digit_char;
use crate::text::is_alpha_char;
use crate::text::is_hex_digit_char;
use crate::text::is_space_char;
use crate::text::is_word_char;
use crate::text::match_at;
use crate::text::match_at_exec;
use crate::text::space_char;
use crate::text::starts_with;
use crate::text::trim_chars;
use crate::text::trimmed;
use crate::text::word_char;

verus! {

/// The closed set of content-type tags.
#[derive(Debug, Clone, PartialEq, Eq, Structural)]
pub enum ContentType {
    Color,
    Url,
    Email,
    Phone,
    Number,
    Code,
    Text,
}

/// The category string each tag maps to, used for downstream organization.
pub open spec fn category_str(t: ContentType) -> Seq<char> {
    match t {
        ContentType::Color => "color"@,
        ContentType::Url => "links"@,
        ContentType::Email => "email"@,
        ContentType::Phone => "phone"@,
        ContentType::Number => "number"@,
        ContentType::Code => "code"@,
        ContentType::Text => "text"@,
    }
}

impl ContentType {
    /// The stable string form of the tag.
    pub fn as_str(&self) -> (r: &'static str)
        ensures
            r@ == category_str(*self),
    {
        match self {
            ContentType::Color => "color",
            ContentType::Url => "links",
            ContentType::Email => "email",
            ContentType::Phone => "phone",
            ContentType::Number => "number",
            ContentType::Code => "code",
            ContentType::Text => "text",
        }
    }
}

// ---------------------------------------------------------------------------
// Hex color: '#' followed by exactly 3, 6 or 8 hex digits
// ---------------------------------------------------------------------------

pub open spec fn is_hex_color(s: Seq<char>) -> bool {
    &&& (s.len() == 4 || s.len() == 7 || s.len() == 9)
    &&& s[0] == '#'
    &&& forall|i: int| 1 <= i < s.len() ==> is_hex_digit_char(#[trigger] s[i])
}

pub fn match_hex_color(v: &Vec<char>) -> (r: bool)
    ensures
        r == is_hex_color(v@),
{
    let n = v.len();
    if !(n == 4 || n == 7 || n == 9) {
        return false;
    }
    if v[0] != '#' {
        return false;
    }
    let mut i: usize = 1;
    while i < n
        invariant
            n == v@.len(),
            1 <= i <= n,
            forall|j: int| 1 <= j < i ==> is_hex_digit_char(#[trigger] v@[j]),
        decreases n - i,
    {
        if !hex_digit_char(v[i]) {
            return false;
        }
        i = i + 1;
    }
    true
}

// ---------------------------------------------------------------------------
// URL: scheme/www prefix, or a bare domain ending in a known TLD
// ---------------------------------------------------------------------------

/// The top-level domains that make a bare token count as a URL.
pub open spec fn tld_seqs() -> Seq<Seq<char>> {
    seq![
        "com"@,
        "org"@,
        "net"@,
        "edu"@,
        "gov"@,
        "io"@,
        "co"@,
        "app"@,
        "dev"@,
        "tech"@,
        "ai"@,
        "me"@,
        "info"@,
        "biz"@,
    ]
}

pub open spec fn is_tld(t: Seq<char>) -> bool {
    exists|m: int| 0 <= m < tld_seqs().len() && tld_seqs()[m] == t
}

/// A character allowed in the host part of a bare domain: no whitespace, and
/// no `@`, so that an e-mail address is never taken for a bare domain.
pub open spec fn is_host_char(c: char) -> bool {
    !is_space_char(c) && c != '@'
}

pub fn host_char(c: char) -> (r: bool)
    ensures
        r == is_host_char(c),
{
    !space_char(c) && c != '@'
}

/// After the TLD the string either ends or continues with `/` and a
/// whitespace-free path.
pub open spec fn url_tail_ok(s: Seq<char>, j: int) -> bool {
    j == s.len() || (j < s.len() && s[j] == '/' && forall|k: int|
        j < k < s.len() ==> !is_space_char(#[trigger] s[k]))
}

/// The bare-domain pattern, split at the dot before the TLD (`i`) and the end
/// of the TLD (`j`).
pub open spec fn domain_split_at(s: Seq<char>, i: int, j: int) -> bool {
    &&& 1 <= i && i + 1 < j && j <= s.len()
    &&& forall|k: int| 0 <= k < i ==> is_host_char(#[trigger] s[k])
    &&& s[i] == '.'
    &&& is_tld(s.subrange(i + 1, j))
    &&& url_tail_ok(s, j)
}

pub open spec fn is_bare_domain(s: Seq<char>) -> bool {
    exists|i: int, j: int| domain_split_at(s, i, j)
}

/// `http://`, `https://` or `www.` followed by at least one character that is
/// not whitespace.
pub open spec fn has_url_prefix(s: Seq<char>) -> bool {
    ||| (starts_with(s, "http://"@) && s.len() > 7 && !is_space_char(s[7]))
    ||| (starts_with(s, "https://"@) && s.len() > 8 && !is_space_char(s[8]))
    ||| (starts_with(s, "www."@) && s.len() > 4 && !is_space_char(s[4]))
}

pub open spec fn is_url(s: Seq<char>) -> bool {
    has_url_prefix(s) || is_bare_domain(s)
}

/// Checks one candidate TLD right after the dot at `i1 - 1`: does `t` match
/// at `i1`, followed by an acceptable tail? `clean` is the start of the
/// longest whitespace-free suffix of `v`.
fn tld_tail_at(v: &Vec<char>, i1: usize, t: &Vec<char>, clean: usize) -> (r: bool)
    requires
        i1 <= v@.len(),
        clean <= v@.len(),
        forall|k: int| clean <= k < v@.len() ==> !is_space_char(#[trigger] v@[k]),
        clean == 0 || is_space_char(v@[clean as int - 1]),
    ensures
        r == (match_at(v@, t@, i1 as int) && url_tail_ok(v@, i1 + t@.len())),
{
    let n = v.len();
    if t.len() > n - i1 {
        return false;
    }
    if !match_at_exec(v, t, i1) {
        return false;
    }
    let j = i1 + t.len();
    if j == n {
        return true;
    }
    if v[j] != '/' {
        return false;
    }
    if j + 1 >= clean {
        return true;
    }
    proof {
        assert(is_space_char(v@[clean as int - 1]));
        assert(!url_tail_ok(v@, j as int));
    }
    false
}

/// Builds the TLD list as character vectors; entry `m` views as
/// `tld_seqs()[m]`.
fn tld_list() -> (r: Vec<Vec<char>>)
    ensures
        r@.len() == tld_seqs().len(),
        forall|m: int| 0 <= m < r@.len() ==> (#[trigger] r@[m])@ == tld_seqs()[m],
{
    let mut r: Vec<Vec<char>> = Vec::new();
    r.push(chars_of("com"));
    r.push(chars_of("org"));
    r.push(chars_of("net"));
    r.push(chars_of("edu"));
    r.push(chars_of("gov"));
    r.push(chars_of("io"));
    r.push(chars_of("co"));
    r.push(chars_of("app"));
    r.push(chars_of("dev"));
    r.push(chars_of("tech"));
    r.push(chars_of("ai"));
    r.push(chars_of("me"));
    r.push(chars_of("info"));
    r.push(chars_of("biz"));
    r
}

/// Is there a TLD starting at `i1` with an acceptable tail?
fn any_tld_tail_at(v: &Vec<char>, i1: usize, tlds: &Vec<Vec<char>>, clean: usize) -> (r: bool)
    requires
        i1 <= v@.len(),
        clean <= v@.len(),
        forall|k: int| clean <= k < v@.len() ==> !is_space_char(#[trigger] v@[k]),
        clean == 0 || is_space_char(v@[clean as int - 1]),
        tlds@.len() == tld_seqs().len(),
        forall|m: int| 0 <= m < tlds@.len() ==> (#[trigger] tlds@[m])@ == tld_seqs()[m],
    ensures
        r == exists|j: int|
            i1 <= j <= v@.len() && is_tld(v@.subrange(i1 as int, j)) && url_tail_ok(v@, j),
{
    let mut m: usize = 0;
    while m < tlds.len()
        invariant
            i1 <= v@.len(),
            clean <= v@.len(),
            forall|k: int| clean <= k < v@.len() ==> !is_space_char(#[trigger] v@[k]),
            clean == 0 || is_space_char(v@[clean as int - 1]),
            tlds@.len() == tld_seqs().len(),
            forall|q: int| 0 <= q < tlds@.len() ==> (#[trigger] tlds@[q])@ == tld_seqs()[q],
            m <= tlds@.len(),
            forall|q: int|
                0 <= q < m ==> !(match_at(v@, (#[trigger] tlds@[q])@, i1 as int) && url_tail_ok(
                    v@,
                    i1 + tlds@[q]@.len(),
                )),
        decreases tlds@.len() - m,
    {
        let t = &tlds[m];
        if tld_tail_at(v, i1, t, clean) {
            proof {
                let j = i1 + t@.len();
                assert(v@.subrange(i1 as int, j as int) == t@);
                assert(tld_seqs()[m as int] == t@);
                assert(is_tld(v@.subrange(i1 as int, j as int)));
            }
            return true;
        }
        m = m + 1;
    }
    proof {
        assert forall|j: int|
            i1 <= j <= v@.len() && is_tld(v@.subrange(i1 as int, j)) && url_tail_ok(
                v@,
                j,
            ) implies false by {
            let t = v@.subrange(i1 as int, j);
            let q = choose|q: int| 0 <= q < tld_seqs().len() && tld_seqs()[q] == t;
            assert(tlds@[q]@ == t);
            assert(j == i1 + tlds@[q]@.len());
            assert(match_at(v@, tlds@[q]@, i1 as int));
        }
    }
    false
}

pub fn match_url(v: &Vec<char>) -> (r: bool)
    ensures
        r == is_url(v@),
{
    let n = v.len();
    proof {
        reveal_strlit("http://");
        reveal_strlit("https://");
        reveal_strlit("www.");
    }
    // prefix forms
    let pre_http = chars_of("http://");
    let pre_https = chars_of("https://");
    let pre_www = chars_of("www.");
    if n > 7 && match_at_exec(v, &pre_http, 0) && !space_char(v[7]) {
        return true;
    }
    if n > 8 && match_at_exec(v, &pre_https, 0) && !space_char(v[8]) {
        return true;
    }
    if n > 4 && match_at_exec(v, &pre_www, 0) && !space_char(v[4]) {
        return true;
    }
    proof {
        assert(!has_url_prefix(v@));
    }
    // bare domain: host prefix length
    let mut hp: usize = 0;
    while hp < n && host_char(v[hp])
        invariant
            n == v@.len(),
            hp <= n,
            forall|k: int| 0 <= k < hp ==> is_host_char(#[trigger] v@[k]),
        decreases n - hp,
    {
        hp = hp + 1;
    }
    // clean suffix start
    let mut clean: usize = n;
    while clean > 0 && !space_char(v[clean - 1])
        invariant
            n == v@.len(),
            clean <= n,
            forall|k: int| clean <= k < n ==> !is_space_char(#[trigger] v@[k]),
        decreases clean,
    {
        clean = clean - 1;
    }
    let tlds = tld_list();
    let mut i: usize = 1;
    if n == 0 {
        proof {
            assert(forall|i: int, j: int| !domain_split_at(v@, i, j));
        }
        return false;
    }
    while i < n
        invariant
            n == v@.len(),
            n > 0,
            1 <= i <= n,
            hp <= n,
            forall|k: int| 0 <= k < hp ==> is_host_char(#[trigger] v@[k]),
            hp == n || !is_host_char(v@[hp as int]),
            clean <= n,
            forall|k: int| clean <= k < n ==> !is_space_char(#[trigger] v@[k]),
            clean == 0 || is_space_char(v@[clean as int - 1]),
            tlds@.len() == tld_seqs().len(),
            forall|m: int| 0 <= m < tlds@.len() ==> (#[trigger] tlds@[m])@ == tld_seqs()[m],
            forall|i0: int, j0: int| 0 <= i0 < i ==> !domain_split_at(v@, i0, j0),
        decreases n - i,
    {
        if v[i] == '.' && i <= hp {
            if any_tld_tail_at(v, i + 1, &tlds, clean) {
                proof {
                    let j = choose|j: int|
                        i + 1 <= j <= v@.len() && is_tld(v@.subrange(i as int + 1, j))
                            && url_tail_ok(v@, j);
                    assert(is_tld(v@.subrange(i as int + 1, j)));
                    let t = v@.subrange(i as int + 1, j);
                    let q = choose|q: int| 0 <= q < tld_seqs().len() && tld_seqs()[q] == t;
                    assert(t.len() >= 2) by {
                        reveal_strlit("com");
                        reveal_strlit("org");
                        reveal_strlit("net");
                        reveal_strlit("edu");
                        reveal_strlit("gov");
                        reveal_strlit("io");
                        reveal_strlit("co");
                        reveal_strlit("app");
                        reveal_strlit("dev");
                        reveal_strlit("tech");
                        reveal_strlit("ai");
                        reveal_strlit("me");
                        reveal_strlit("info");
                        reveal_strlit("biz");
                    }
                    assert(domain_split_at(v@, i as int, j));
                }
                return true;
            }
            proof {
                assert forall|j0: int| !domain_split_at(v@, i as int, j0) by {
                    if domain_split_at(v@, i as int, j0) {
                        assert(is_tld(v@.subrange(i as int + 1, j0)));
                        assert(i + 1 <= j0 <= v@.len());
                    }
                }
            }
        } else {
            proof {
                assert forall|j0: int| !domain_split_at(v@, i as int, j0) by {
                    if domain_split_at(v@, i as int, j0) {
                        assert(v@[i as int] == '.');
                        if i > hp {
                            assert(is_host_char(v@[hp as int]));
                        }
                    }
                }
            }
        }
        i = i + 1;
    }
    proof {
        assert forall|i0: int, j0: int| !domain_split_at(v@, i0, j0) by {
            if domain_split_at(v@, i0, j0) {
                assert(1 <= i0 < v@.len());
            }
        }
    }
    false
}

// ---------------------------------------------------------------------------
// E-mail: local@domain.tld
// ---------------------------------------------------------------------------

pub open spec fn is_local_char(c: char) -> bool {
    is_alpha_char(c) || is_digit_char(c) || c == '.' || c == '_' || c == '%' || c == '+' || c == '-'
}

pub fn local_char(c: char) -> (r: bool)
    ensures
        r == is_local_char(c),
{
    crate::text::alpha_char(c) || digit_char(c) || c == '.' || c == '_' || c == '%' || c == '+'
        || c == '-'
}

pub open spec fn is_domain_char(c: char) -> bool {
    is_alpha_char(c) || is_digit_char(c) || c == '.' || c == '-'
}

pub fn domain_char(c: char) -> (r: bool)
    ensures
        r == is_domain_char(c),
{
    crate::text::alpha_char(c) || digit_char(c) || c == '.' || c == '-'
}

/// The e-mail pattern, split at the `@` (`a`) and the dot before the TLD
/// (`d`): a nonempty local part, a nonempty domain part, and an alphabetic
/// TLD of length at least two.
pub open spec fn email_split_at(s: Seq<char>, a: int, d: int) -> bool {
    &&& 1 <= a && a + 1 < d && d + 3 <= s.len()
    &&& forall|k: int| 0 <= k < a ==> is_local_char(#[trigger] s[k])
    &&& s[a] == '@'
    &&& forall|k: int| a < k < d ==> is_domain_char(#[trigger] s[k])
    &&& s[d] == '.'
    &&& forall|k: int| d < k < s.len() ==> is_alpha_char(#[trigger] s[k])
}

pub open spec fn is_email(s: Seq<char>) -> bool {
    exists|a: int, d: int| email_split_at(s, a, d)
}

pub fn match_email(v: &Vec<char>) -> (r: bool)
    ensures
        r == is_email(v@),
{
    let n = v.len();
    // the local part cannot contain '@', so only the first '@' can split
    let mut a: usize = 0;
    while a < n && v[a] != '@'
        invariant
            n == v@.len(),
            a <= n,
            forall|k: int| 0 <= k < a ==> v@[k] != '@',
        decreases n - a,
    {
        a = a + 1;
    }
    if a == n {
        proof {
            assert forall|a0: int, d0: int| !email_split_at(v@, a0, d0) by {
                if email_split_at(v@, a0, d0) {
                    assert(v@[a0] == '@');
                    assert(a0 < n);
                }
            }
        }
        return false;
    }
    if a == 0 {
        proof {
            assert forall|a0: int, d0: int| !email_split_at(v@, a0, d0) by {
                if email_split_at(v@, a0, d0) {
                    assert(is_local_char(v@[0]));
                    assert(v@[0] == '@');
                }
            }
        }
        return false;
    }
    // every character before the '@' must be a local character
    let mut k: usize = 0;
    while k < a
        invariant
            n == v@.len(),
            0 < a < n,
            v@[a as int] == '@',
            forall|k0: int| 0 <= k0 < a ==> v@[k0] != '@',
            k <= a,
            forall|j: int| 0 <= j < k ==> is_local_char(#[trigger] v@[j]),
        decreases a - k,
    {
        if !local_char(v[k]) {
            proof {
                assert forall|a0: int, d0: int| !email_split_at(v@, a0, d0) by {
                    if email_split_at(v@, a0, d0) {
                        assert(v@[a0] == '@');
                        assert(a0 == a) by {
                            if a0 < a {
                                assert(v@[a0] != '@');
                            }
                            if a0 > a {
                                assert(is_local_char(v@[a as int]));
                            }
                        }
                        assert(is_local_char(v@[k as int]));
                    }
                }
            }
            return false;
        }
        k = k + 1;
    }
    // the TLD cannot contain '.', so only the last '.' can split
    let mut d: usize = n;
    while d > a + 1 && v[d - 1] != '.'
        invariant
            n == v@.len(),
            0 < a < n,
            a + 1 <= d <= n,
            forall|k0: int| d <= k0 < n ==> v@[k0] != '.',
        decreases d,
    {
        d = d - 1;
    }
    if d == a + 1 {
        // no dot after the '@'
        proof {
            assert forall|a0: int, d0: int| !email_split_at(v@, a0, d0) by {
                if email_split_at(v@, a0, d0) {
                    assert(v@[a0] == '@');
                    assert(a0 == a) by {
                        if a0 < a {
                            assert(v@[a0] != '@');
                        }
                        if a0 > a {
                            assert(is_local_char(v@[a as int]));
                        }
                    }
                    assert(v@[d0] == '.');
                    assert(a + 1 < d0 < n);
                    assert(v@[d0] != '.');
                }
            }
        }
        return false;
    }
    let dd = d - 1;
    // dd is the last '.' in the string and lies after the '@'
    proof {
        assert(v@[dd as int] == '.');
    }
    if dd == a + 1 {
        // empty domain part between '@' and the last '.'
        proof {
            assert forall|a0: int, d0: int| !email_split_at(v@, a0, d0) by {
                if email_split_at(v@, a0, d0) {
                    assert(v@[a0] == '@');
                    assert(a0 == a) by {
                        if a0 < a {
                            assert(v@[a0] != '@');
                        }
                        if a0 > a {
                            assert(is_local_char(v@[a as int]));
                        }
                    }
                    assert(v@[d0] == '.');
                    assert(d0 == dd) by {
                        if d0 > dd {
                            assert(v@[d0] != '.');
                        }
                        if d0 < dd {
                            assert(is_alpha_char(v@[dd as int]));
                        }
                    }
                }
            }
        }
        return false;
    }
    let mut k2: usize = a + 1;
    while k2 < dd
        invariant
            n == v@.len(),
            0 < a,
            a + 1 < dd < n,
            v@[a as int] == '@',
            forall|k0: int| 0 <= k0 < a ==> v@[k0] != '@',
            forall|j: int| 0 <= j < a ==> is_local_char(#[trigger] v@[j]),
            v@[dd as int] == '.',
            forall|k0: int| dd < k0 < n ==> v@[k0] != '.',
            a + 1 <= k2 <= dd,
            forall|j: int| a < j < k2 ==> is_domain_char(#[trigger] v@[j]),
        decreases dd - k2,
    {
        if !domain_char(v[k2]) {
            proof {
                assert forall|a0: int, d0: int| !email_split_at(v@, a0, d0) by {
                    if email_split_at(v@, a0, d0) {
                        assert(v@[a0] == '@');
                        assert(a0 == a) by {
                            if a0 < a {
                                assert(v@[a0] != '@');
                            }
                            if a0 > a {
                                assert(is_local_char(v@[a as int]));
                            }
                        }
                        assert(d0 == dd) by {
                            if d0 > dd {
                                assert(v@[d0] != '.');
                            }
                            if d0 < dd {
                                assert(is_alpha_char(v@[dd as int]));
                            }
                        }
                        assert(is_domain_char(v@[k2 as int]));
                    }
                }
            }
            return false;
        }
        k2 = k2 + 1;
    }
    // TLD: all alphabetic, length at least 2
    if n - dd < 3 {
        proof {
            assert forall|a0: int, d0: int| !email_split_at(v@, a0, d0) by {
                if email_split_at(v@, a0, d0) {
                    assert(v@[a0] == '@');
                    assert(a0 == a) by {
                        if a0 < a {
                            assert(v@[a0] != '@');
                        }
                        if a0 > a {
                            assert(is_local_char(v@[a as int]));
                        }
                    }
                    assert(d0 == dd) by {
                        if d0 > dd {
                            assert(v@[d0] != '.');
                        }
                        if d0 < dd {
                            assert(is_alpha_char(v@[dd as int]));
                        }
                    }
                }
            }
        }
        return false;
    }
    let mut k3: usize = dd + 1;
    while k3 < n
        invariant
            n == v@.len(),
            0 < a,
            a + 1 < dd,
            dd + 3 <= n,
            v@[a as int] == '@',
            forall|k0: int| 0 <= k0 < a ==> v@[k0] != '@',
            forall|j: int| 0 <= j < a ==> is_local_char(#[trigger] v@[j]),
            forall|j: int| a < j < dd ==> is_domain_char(#[trigger] v@[j]),
            v@[dd as int] == '.',
            forall|k0: int| dd < k0 < n ==> v@[k0] != '.',
            dd + 1 <= k3 <= n,
            forall|j: int| dd < j < k3 ==> is_alpha_char(#[trigger] v@[j]),
        decreases n - k3,
    {
        if !crate::text::alpha_char(v[k3]) {
            proof {
                assert forall|a0: int, d0: int| !email_split_at(v@, a0, d0) by {
                    if email_split_at(v@, a0, d0) {
                        assert(v@[a0] == '@');
                        assert(a0 == a) by {
                            if a0 < a {
                                assert(v@[a0] != '@');
                            }
                            if a0 > a {
                                assert(is_local_char(v@[a as int]));
                            }
                        }
                        assert(d0 == dd) by {
                            if d0 > dd {
                                assert(v@[d0] != '.');
                            }
                            if d0 < dd {
                                assert(is_alpha_char(v@[dd as int]));
                            }
                        }
                        assert(is_alpha_char(v@[k3 as int]));
                    }
                }
            }
            return false;
        }
        k3 = k3 + 1;
    }
    proof {
        assert(email_split_at(v@, a as int, dd as int));
    }
    true
}

// ---------------------------------------------------------------------------
// Phone: optional +1 prefix, 3-digit area code (optionally parenthesized),
// then 3 and 4 digits with optional space/dash separators
// ---------------------------------------------------------------------------

pub open spec fn is_sep_char(c: char) -> bool {
    is_space_char(c) || c == '-'
}

pub fn sep_char(c: char) -> (r: bool)
    ensures
        r == is_sep_char(c),
{
    space_char(c) || c == '-'
}

pub open spec fn digits_at(s: Seq<char>, i: int, j: int) -> bool {
    forall|k: int| i <= k < j ==> is_digit_char(#[trigger] s[k])
}

/// Exactly four digits, ending the string.
pub open spec fn phone_last4(s: Seq<char>, i: int) -> bool {
    s.len() == i + 4 && digits_at(s, i, i + 4)
}

/// Optional separator, then four digits ending the string. A separator is
/// never a digit, so consuming it when present loses nothing.
pub open spec fn phone_last4_opt(s: Seq<char>, j: int) -> bool {
    if 0 <= j < s.len() && is_sep_char(s[j]) {
        phone_last4(s, j + 1)
    } else {
        phone_last4(s, j)
    }
}

/// Three digits, then an optionally separated final four digits.
pub open spec fn phone_mid3(s: Seq<char>, i: int) -> bool {
    i + 3 <= s.len() && digits_at(s, i, i + 3) && phone_last4_opt(s, i + 3)
}

/// Optional separator, then the middle three digits.
pub open spec fn phone_after_area(s: Seq<char>, j: int) -> bool {
    if 0 <= j < s.len() && is_sep_char(s[j]) {
        phone_mid3(s, j + 1)
    } else {
        phone_mid3(s, j)
    }
}

/// The area code: three digits, parenthesized or bare. A digit never starts
/// with `(`, so the parenthesized form applies exactly when `(` is present.
pub open spec fn phone_area(s: Seq<char>, i: int) -> bool {
    if 0 <= i < s.len() && s[i] == '(' {
        i + 5 <= s.len() && digits_at(s, i + 1, i + 4) && s[i + 4] == ')' && phone_after_area(
            s,
            i + 5,
        )
    } else {
        i + 3 <= s.len() && digits_at(s, i, i + 3) && phone_after_area(s, i + 3)
    }
}

/// The whole phone pattern: an optional `+`, optional `1`, optional
/// whitespace, then area code and seven digits.
pub open spec fn is_phone(s: Seq<char>) -> bool {
    ||| phone_area(s, 0)
    ||| (1 <= s.len() && (s[0] == '+' || s[0] == '1' || is_space_char(s[0])) && phone_area(s, 1))
    ||| (2 <= s.len() && ((s[0] == '+' && s[1] == '1') || (s[0] == '+' && is_space_char(s[1])) || (
    s[0] == '1' && is_space_char(s[1]))) && phone_area(s, 2))
    ||| (3 <= s.len() && s[0] == '+' && s[1] == '1' && is_space_char(s[2]) && phone_area(s, 3))
}

/// Checks that `v` holds digits at every index in `[i, j)`.
fn digits_at_exec(v: &Vec<char>, i: usize, j: usize) -> (r: bool)
    requires
        i <= j <= v@.len(),
    ensures
        r == digits_at(v@, i as int, j as int),
{
    let mut k: usize = i;
    while k < j
        invariant
            i <= k <= j <= v@.len(),
            forall|m: int| i <= m < k ==> is_digit_char(#[trigger] v@[m]),
        decreases j - k,
    {
        if !digit_char(v[k]) {
            return false;
        }
        k = k + 1;
    }
    true
}

fn phone_last4_opt_exec(v: &Vec<char>, j: usize) -> (r: bool)
    requires
        j <= v@.len(),
    ensures
        r == phone_last4_opt(v@, j as int),
{
    let n = v.len();
    let mut i = j;
    if i < n && sep_char(v[i]) {
        i = i + 1;
    }
    if n - i != 4 {
        return false;
    }
    digits_at_exec(v, i, n)
}

fn phone_after_area_exec(v: &Vec<char>, j: usize) -> (r: bool)
    requires
        j <= v@.len(),
    ensures
        r == phone_after_area(v@, j as int),
{
    let n = v.len();
    let mut i = j;
    if i < n && sep_char(v[i]) {
        i = i + 1;
    }
    if n - i < 3 {
        return false;
    }
    if !digits_at_exec(v, i, i + 3) {
        return false;
    }
    phone_last4_opt_exec(v, i + 3)
}

fn phone_area_exec(v: &Vec<char>, i: usize) -> (r: bool)
    requires
        i <= v@.len(),
    ensures
        r == phone_area(v@, i as int),
{
    let n = v.len();
    if i < n && v[i] == '(' {
        if n - i < 5 {
            return false;
        }
        if !digits_at_exec(v, i + 1, i + 4) {
            return false;
        }
        if v[i + 4] != ')' {
            return false;
        }
        phone_after_area_exec(v, i + 5)
    } else {
        if n - i < 3 {
            return false;
        }
        if !digits_at_exec(v, i, i + 3) {
            return false;
        }
        phone_after_area_exec(v, i + 3)
    }
}

pub fn match_phone(v: &Vec<char>) -> (r: bool)
    ensures
        r == is_phone(v@),
{
    let n = v.len();
    if phone_area_exec(v, 0) {
        return true;
    }
    if n >= 1 && (v[0] == '+' || v[0] == '1' || space_char(v[0])) && phone_area_exec(v, 1) {
        return true;
    }
    if n >= 2 && ((v[0] == '+' && v[1] == '1') || (v[0] == '+' && space_char(v[1])) || (v[0] == '1'
        && space_char(v[1]))) && phone_area_exec(v, 2) {
        return true;
    }
    if n >= 3 && v[0] == '+' && v[1] == '1' && space_char(v[2]) && phone_area_exec(v, 3) {
        return true;
    }
    false
}

// ---------------------------------------------------------------------------
// Number: optionally signed integer or decimal, including leading-dot forms
// ---------------------------------------------------------------------------

/// Digits from `i`, optionally followed by one dot and further digits, to the
/// end of the string.
pub open spec fn number_digits_then(s: Seq<char>, i: int) -> bool {
    exists|d: int|
        #![trigger digits_at(s, i, d)]
        i < d <= s.len() && digits_at(s, i, d) && (d == s.len() || (s[d] == '.' && digits_at(
            s,
            d + 1,
            s.len() as int,
        )))
}

pub open spec fn number_body(s: Seq<char>, i: int) -> bool {
    i < s.len() && ((s[i] == '.' && i + 1 < s.len() && digits_at(s, i + 1, s.len() as int)) || (
    is_digit_char(s[i]) && number_digits_then(s, i)))
}

pub open spec fn is_number(s: Seq<char>) -> bool {
    if s.len() >= 1 && (s[0] == '+' || s[0] == '-') {
        number_body(s, 1)
    } else {
        number_body(s, 0)
    }
}

fn number_body_exec(v: &Vec<char>, i: usize) -> (r: bool)
    requires
        i <= v@.len(),
    ensures
        r == number_body(v@, i as int),
{
    let n = v.len();
    if i >= n {
        return false;
    }
    if v[i] == '.' {
        if i + 1 >= n {
            return false;
        }
        return digits_at_exec(v, i + 1, n);
    }
    if !digit_char(v[i]) {
        return false;
    }
    // find the end of the leading digit run
    let mut d: usize = i;
    while d < n && digit_char(v[d])
        invariant
            i <= d <= n,
            n == v@.len(),
            forall|m: int| i <= m < d ==> is_digit_char(#[trigger] v@[m]),
        decreases n - d,
    {
        d = d + 1;
    }
    if d == n {
        proof {
            assert(digits_at(v@, i as int, n as int));
            assert(number_digits_then(v@, i as int));
        }
        return true;
    }
    if v[d] == '.' {
        if digits_at_exec(v, d + 1, n) {
            proof {
                assert(digits_at(v@, i as int, d as int));
                assert(number_digits_then(v@, i as int));
            }
            return true;
        }
        proof {
            assert forall|d0: int|
                !(i < d0 <= v@.len() && digits_at(v@, i as int, d0) && (d0 == v@.len() || (v@[d0]
                    == '.' && digits_at(v@, d0 + 1, v@.len() as int)))) by {
                if i < d0 <= v@.len() && digits_at(v@, i as int, d0) {
                    assert(d0 <= d) by {
                        if d0 > d {
                            assert(is_digit_char(v@[d as int]));
                        }
                    }
                    if d0 < d {
                        assert(is_digit_char(v@[d0]));
                    }
                }
            }
        }
        return false;
    }
    proof {
        assert forall|d0: int|
            !(i < d0 <= v@.len() && digits_at(v@, i as int, d0) && (d0 == v@.len() || (v@[d0] == '.'
                && digits_at(v@, d0 + 1, v@.len() as int)))) by {
            if i < d0 <= v@.len() && digits_at(v@, i as int, d0) {
                assert(d0 <= d) by {
                    if d0 > d {
                        assert(is_digit_char(v@[d as int]));
                    }
                }
                if d0 < d {
                    assert(is_digit_char(v@[d0]));
                }
            }
        }
    }
    false
}

pub fn match_number(v: &Vec<char>) -> (r: bool)
    ensures
        r == is_number(v@),
{
    let n = v.len();
    if n >= 1 && (v[0] == '+' || v[0] == '-') {
        number_body_exec(v, 1)
    } else {
        number_body_exec(v, 0)
    }
}

// ---------------------------------------------------------------------------
// Code: programming-syntax cues, searched for anywhere in the string
// ---------------------------------------------------------------------------

/// The first index at or after `i` holding a non-whitespace character.
pub open spec fn ws_run_end(s: Seq<char>, i: int) -> int
    decreases s.len() - i when 0 <= i <= s.len()
{
    if i < s.len() && is_space_char(s[i]) {
        ws_run_end(s, i + 1)
    } else {
        i
    }
}

/// The first index at or after `i` holding a non-word character.
pub open spec fn word_run_end(s: Seq<char>, i: int) -> int
    decreases s.len() - i when 0 <= i <= s.len()
{
    if i < s.len() && is_word_char(s[i]) {
        word_run_end(s, i + 1)
    } else {
        i
    }
}

/// The keyword at `i`, then at least one whitespace character, then a word
/// character (`function foo`, `class X`, `def f`).
pub open spec fn kw_ws_word_at(s: Seq<char>, kw: Seq<char>, i: int) -> bool {
    match_at(s, kw, i) && {
        let a = i + kw.len();
        let b = ws_run_end(s, a);
        b > a && b < s.len() && is_word_char(s[b])
    }
}

/// The keyword at `i`, whitespace, a word, optional whitespace, then `=`
/// (`const x =`, `let x =`, `var x =`).
pub open spec fn assign_at(s: Seq<char>, kw: Seq<char>, i: int) -> bool {
    match_at(s, kw, i) && {
        let a = i + kw.len();
        let b = ws_run_end(s, a);
        let c = word_run_end(s, b);
        let d = ws_run_end(s, c);
        b > a && b < s.len() && c > b && d < s.len() && s[d] == '='
    }
}

/// The keyword immediately followed by one whitespace character.
pub open spec fn kw_then_ws(s: Seq<char>, kw: Seq<char>) -> bool {
    exists|i: int| match_at(s, kw, i) && i + kw.len() < s.len() && is_space_char(s[i + kw.len()])
}

/// A `{` with a `}` somewhere after it.
pub open spec fn has_brace_block(s: Seq<char>) -> bool {
    exists|i: int, j: int| 0 <= i < j < s.len() && s[i] == '{' && s[j] == '}'
}

/// Any of the programming-syntax cues.
pub open spec fn is_code(s: Seq<char>) -> bool {
    ||| (exists|i: int| kw_ws_word_at(s, "function"@, i))
    ||| (exists|i: int| assign_at(s, "const"@, i))
    ||| (exists|i: int| assign_at(s, "let"@, i))
    ||| (exists|i: int| assign_at(s, "var"@, i))
    ||| (exists|i: int| kw_ws_word_at(s, "class"@, i))
    ||| (exists|i: int| kw_ws_word_at(s, "def"@, i))
    ||| kw_then_ws(s, "import"@)
    ||| kw_then_ws(s, "export"@)
    ||| kw_then_ws(s, "return"@)
    ||| kw_then_ws(s, "public"@)
    ||| kw_then_ws(s, "private"@)
    ||| kw_then_ws(s, "protected"@)
    ||| has_brace_block(s)
    ||| (s.len() > 0 && s[s.len() - 1] == ';')
    ||| contains_seq(s, "=>"@)
    ||| contains_seq(s, "::"@)
}

fn ws_run_end_exec(v: &Vec<char>, i: usize) -> (r: usize)
    requires
        i <= v@.len(),
    ensures
        r == ws_run_end(v@, i as int),
        i <= r <= v@.len(),
{
    let n = v.len();
    let mut k = i;
    while k < n && space_char(v[k])
        invariant
            i <= k <= n,
            n == v@.len(),
            ws_run_end(v@, i as int) == ws_run_end(v@, k as int),
        decreases n - k,
    {
        k = k + 1;
    }
    k
}

fn word_run_end_exec(v: &Vec<char>, i: usize) -> (r: usize)
    requires
        i <= v@.len(),
    ensures
        r == word_run_end(v@, i as int),
        i <= r <= v@.len(),
{
    let n = v.len();
    let mut k = i;
    while k < n && word_char(v[k])
        invariant
            i <= k <= n,
            n == v@.len(),
            word_run_end(v@, i as int) == word_run_end(v@, k as int),
        decreases n - k,
    {
        k = k + 1;
    }
    k
}

/// Does `kw_ws_word_at` hold anywhere in `v`?
fn find_kw_ws_word(v: &Vec<char>, kw: &Vec<char>) -> (r: bool)
    requires
        kw@.len() >= 1,
    ensures
        r == exists|i: int| kw_ws_word_at(v@, kw@, i),
{
    let n = v.len();
    let m = kw.len();
    if m > n {
        proof {
            assert forall|i: int| !kw_ws_word_at(v@, kw@, i) by {
                if kw_ws_word_at(v@, kw@, i) {
                    assert(match_at(v@, kw@, i));
                }
            }
        }
        return false;
    }
    let mut i: usize = 0;
    while i <= n - m
        invariant
            n == v@.len(),
            m == kw@.len(),
            1 <= m <= n,
            i <= n - m + 1,
            forall|i0: int| 0 <= i0 < i ==> !kw_ws_word_at(v@, kw@, i0),
        decreases n - m + 1 - i,
    {
        if match_at_exec(v, kw, i) {
            let b = ws_run_end_exec(v, i + m);
            if b > i + m && b < n && word_char(v[b]) {
                proof {
                    assert(kw_ws_word_at(v@, kw@, i as int));
                }
                return true;
            }
        }
        i = i + 1;
    }
    proof {
        assert forall|i0: int| !kw_ws_word_at(v@, kw@, i0) by {
            if kw_ws_word_at(v@, kw@, i0) {
                assert(match_at(v@, kw@, i0));
                assert(0 <= i0 <= n - m);
            }
        }
    }
    false
}

/// Does `assign_at` hold anywhere in `v`?
fn find_assign(v: &Vec<char>, kw: &Vec<char>) -> (r: bool)
    requires
        kw@.len() >= 1,
    ensures
        r == exists|i: int| assign_at(v@, kw@, i),
{
    let n = v.len();
    let m = kw.len();
    if m > n {
        proof {
            assert forall|i: int| !assign_at(v@, kw@, i) by {
                if assign_at(v@, kw@, i) {
                    assert(match_at(v@, kw@, i));
                }
            }
        }
        return false;
    }
    let mut i: usize = 0;
    while i <= n - m
        invariant
            n == v@.len(),
            m == kw@.len(),
            1 <= m <= n,
            i <= n - m + 1,
            forall|i0: int| 0 <= i0 < i ==> !assign_at(v@, kw@, i0),
        decreases n - m + 1 - i,
    {
        if match_at_exec(v, kw, i) {
            let b = ws_run_end_exec(v, i + m);
            if b > i + m && b < n {
                let c = word_run_end_exec(v, b);
                if c > b {
                    let d = ws_run_end_exec(v, c);
                    if d < n && v[d] == '=' {
                        proof {
                            assert(assign_at(v@, kw@, i as int));
                        }
                        return true;
                    }
                }
            }
        }
        i = i + 1;
    }
    proof {
        assert forall|i0: int| !assign_at(v@, kw@, i0) by {
            if assign_at(v@, kw@, i0) {
                assert(match_at(v@, kw@, i0));
                assert(0 <= i0 <= n - m);
            }
        }
    }
    false
}

/// Does the keyword occur immediately followed by whitespace?
fn find_kw_ws(v: &Vec<char>, kw: &Vec<char>) -> (r: bool)
    ensures
        r == kw_then_ws(v@, kw@),
{
    let n = v.len();
    let m = kw.len();
    if m >= n {
        proof {
            assert forall|i: int|
                !(match_at(v@, kw@, i) && i + kw@.len() < v@.len() && is_space_char(
                    v@[i + kw@.len()],
                )) by {}
        }
        return false;
    }
    let mut i: usize = 0;
    while i < n - m
        invariant
            n == v@.len(),
            m == kw@.len(),
            m < n,
            i <= n - m,
            forall|i0: int|
                0 <= i0 < i ==> !(match_at(v@, kw@, i0) && i0 + kw@.len() < v@.len()
                    && is_space_char(v@[i0 + kw@.len()])),
        decreases n - m - i,
    {
        if match_at_exec(v, kw, i) && space_char(v[i + m]) {
            return true;
        }
        i = i + 1;
    }
    proof {
        assert forall|i0: int|
            !(match_at(v@, kw@, i0) && i0 + kw@.len() < v@.len() && is_space_char(
                v@[i0 + kw@.len()],
            )) by {
            if match_at(v@, kw@, i0) && i0 + kw@.len() < v@.len() {
                assert(0 <= i0 < n - m);
            }
        }
    }
    false
}

/// Is there a `{` with a `}` after it?
fn find_brace_block(v: &Vec<char>) -> (r: bool)
    ensures
        r == has_brace_block(v@),
{
    let n = v.len();
    let mut i: usize = 0;
    while i < n && v[i] != '{'
        invariant
            n == v@.len(),
            i <= n,
            forall|k: int| 0 <= k < i ==> v@[k] != '{',
        decreases n - i,
    {
        i = i + 1;
    }
    if i == n {
        proof {
            assert forall|i0: int, j0: int|
                !(0 <= i0 < j0 < v@.len() && v@[i0] == '{' && v@[j0] == '}') by {}
        }
        return false;
    }
    let mut j: usize = i + 1;
    while j < n && v[j] != '}'
        invariant
            n == v@.len(),
            i < j <= n,
            v@[i as int] == '{',
            forall|k: int| i < k < j ==> v@[k] != '}',
        decreases n - j,
    {
        j = j + 1;
    }
    if j < n {
        proof {
            assert(v@[j as int] == '}');
            assert(has_brace_block(v@));
        }
        return true;
    }
    proof {
        assert forall|i0: int, j0: int|
            !(0 <= i0 < j0 < v@.len() && v@[i0] == '{' && v@[j0] == '}') by {
            if 0 <= i0 < j0 < v@.len() && v@[i0] == '{' && v@[j0] == '}' {
                assert(i0 >= i) by {
                    if i0 < i {
                        assert(v@[i0] != '{');
                    }
                }
                assert(v@[j0] != '}');
            }
        }
    }
    false
}

pub fn match_code(v: &Vec<char>) -> (r: bool)
    ensures
        r == is_code(v@),
{
    let n = v.len();
    proof {
        reveal_strlit("function");
        reveal_strlit("const");
        reveal_strlit("let");
        reveal_strlit("var");
        reveal_strlit("class");
        reveal_strlit("def");
    }
    let kw_function = chars_of("function");
    let kw_const = chars_of("const");
    let kw_let = chars_of("let");
    let kw_var = chars_of("var");
    let kw_class = chars_of("class");
    let kw_def = chars_of("def");
    let kw_import = chars_of("import");
    let kw_export = chars_of("export");
    let kw_return = chars_of("return");
    let kw_public = chars_of("public");
    let kw_private = chars_of("private");
    let kw_protected = chars_of("protected");
    let arrow = chars_of("=>");
    let scope = chars_of("::");
    if find_kw_ws_word(v, &kw_function) {
        return true;
    }
    if find_assign(v, &kw_const) {
        return true;
    }
    if find_assign(v, &kw_let) {
        return true;
    }
    if find_assign(v, &kw_var) {
        return true;
    }
    if find_kw_ws_word(v, &kw_class) {
        return true;
    }
    if find_kw_ws_word(v, &kw_def) {
        return true;
    }
    if find_kw_ws(v, &kw_import) {
        return true;
    }
    if find_kw_ws(v, &kw_export) {
        return true;
    }
    if find_kw_ws(v, &kw_return) {
        return true;
    }
    if find_kw_ws(v, &kw_public) {
        return true;
    }
    if find_kw_ws(v, &kw_private) {
        return true;
    }
    if find_kw_ws(v, &kw_protected) {
        return true;
    }
    if find_brace_block(v) {
        return true;
    }
    if n > 0 && v[n - 1] == ';' {
        return true;
    }
    if contains_pat(v, &arrow) {
        return true;
    }
    if contains_pat(v, &scope) {
        return true;
    }
    false
}

// ---------------------------------------------------------------------------
// The classifier
// ---------------------------------------------------------------------------

/// What `detect_content_type` returns: the input is trimmed, the empty string
/// is plain text, and otherwise the first matching pattern in priority order
/// decides.
pub open spec fn classify_spec(s: Seq<char>) -> ContentType {
    let t = trimmed(s);
    if t.len() == 0 {
        ContentType::Text
    } else if is_hex_color(t) {
        ContentType::Color
    } else if is_url(t) {
        ContentType::Url
    } else if is_email(t) {
        ContentType::Email
    } else if is_phone(t) {
        ContentType::Phone
    } else if is_number(t) {
        ContentType::Number
    } else if is_code(t) {
        ContentType::Code
    } else {
        ContentType::Text
    }
}

/// Detects the content type of the given text.
pub fn detect_content_type(content: &str) -> (t: ContentType)
    ensures
        t == classify_spec(content@),
{
    let cs = chars_of(content);
    let v = trim_chars(&cs);
    if v.len() == 0 {
        return ContentType::Text;
    }
    if match_hex_color(&v) {
        return ContentType::Color;
    }
    if match_url(&v) {
        return ContentType::Url;
    }
    if match_email(&v) {
        return ContentType::Email;
    }
    if match_phone(&v) {
        return ContentType::Phone;
    }
    if match_number(&v) {
        return ContentType::Number;
    }
    if match_code(&v) {
        return ContentType::Code;
    }
    ContentType::Text
}


// ---------------------------------------------------------------------------
// Classification laws
// ---------------------------------------------------------------------------


/// Every character of a recognized TLD is a letter.
proof fn lemma_tld_chars_alpha(t: Seq<char>, k: int)
    requires
        is_tld(t),
        0 <= k < t.len(),
    ensures
        is_alpha_char(t[k]),
{
    let q = choose|q: int| 0 <= q < tld_seqs().len() && tld_seqs()[q] == t;
    reveal_strlit("com");
    reveal_strlit("org");
    reveal_strlit("net");
    reveal_strlit("edu");
    reveal_strlit("gov");
    reveal_strlit("io");
    reveal_strlit("co");
    reveal_strlit("app");
    reveal_strlit("dev");
    reveal_strlit("tech");
    reveal_strlit("ai");
    reveal_strlit("me");
    reveal_strlit("info");
    reveal_strlit("biz");
    if q == 0 {
        assert(t == "com"@);
    } else if q == 1 {
        assert(t == "org"@);
    } else if q == 2 {
        assert(t == "net"@);
    } else if q == 3 {
        assert(t == "edu"@);
    } else if q == 4 {
        assert(t == "gov"@);
    } else if q == 5 {
        assert(t == "io"@);
    } else if q == 6 {
        assert(t == "co"@);
    } else if q == 7 {
        assert(t == "app"@);
    } else if q == 8 {
        assert(t == "dev"@);
    } else if q == 9 {
        assert(t == "tech"@);
    } else if q == 10 {
        assert(t == "ai"@);
    } else if q == 11 {
        assert(t == "me"@);
    } else if q == 12 {
        assert(t == "info"@);
    } else {
        assert(q == 13);
        assert(t == "biz"@);
    }
}

/// The color law: any hex color string is classified as Color. The color
/// pattern stands first in the priority order, so it always wins, whatever
/// else the string might resemble.
pub proof fn lemma_hex_color_wins(s: Seq<char>)
    requires
        is_hex_color(s),
    ensures
        classify_spec(s) == ContentType::Color,
{
    assert(!is_space_char(s[0]));
    assert(is_hex_digit_char(s[s.len() - 1]));
    crate::text::lemma_trim_identity(s);
}

/// The e-mail law: an e-mail address is classified as Email, not as a URL.
/// The `@` in it is not a host character, so the bare-domain pattern cannot
/// match it; only the explicit `http://`/`https://`/`www.` prefixes could
/// still claim it, and those are excluded here.
pub proof fn lemma_email_not_url(s: Seq<char>)
    requires
        is_email(s),
        !has_url_prefix(s),
    ensures
        classify_spec(s) == ContentType::Email,
{
    let (a, d) = choose|a: int, d: int| email_split_at(s, a, d);
    assert(email_split_at(s, a, d));
    // no character of an e-mail address is whitespace, so trimming is the
    // identity
    assert(is_local_char(s[0]));
    assert(!is_space_char(s[0]));
    assert(is_alpha_char(s[s.len() - 1]));
    assert(!is_space_char(s[s.len() - 1]));
    crate::text::lemma_trim_identity(s);
    // not a color: the first character is a local character, never '#'
    assert(!is_hex_color(s)) by {
        if is_hex_color(s) {
            assert(s[0] == '#');
        }
    }
    // not a bare domain: the '@' spoils the host part, and an e-mail address
    // has no '/' for a path tail
    assert forall|i: int, j: int| !domain_split_at(s, i, j) by {
        if domain_split_at(s, i, j) {
            if a < i {
                assert(is_host_char(s[a]));
            } else {
                assert(i < a);
                if j == s.len() {
                    // the '@' would have to be a letter of the TLD
                    let t = s.subrange(i + 1, j);
                    assert(t[a - (i + 1)] == s[a]);
                    lemma_tld_chars_alpha(t, a - (i + 1));
                    assert(is_alpha_char('@'));
                    assert(false);
                } else {
                    // the '/' after the TLD fits no position of an e-mail
                    assert(s[j] == '/');
                    if j < a {
                        assert(is_local_char(s[j]));
                    } else if j == a {
                    } else if j < d {
                        assert(is_domain_char(s[j]));
                    } else if j == d {
                    } else {
                        assert(is_alpha_char(s[j]));
                    }
                }
            }
        }
    }
}

} // verus!
