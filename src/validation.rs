//! Checks a search request must pass before it reaches the dispatcher:
//! bounds on the query and the limit, suspicious content, repetition and
//! control characters in the query, and the form of domain and URL lists.
use vstd::prelude::*;

use crate::client::names_of;
use crate::text::{
    alphanumeric, chars_of, contains_sub, find_sub, first_index, lemma_first_from_fits, is_alphanumeric, is_ascii_char,
    is_ascii_digit, is_control, is_control_char, lower_of, regex_is_match, regex_matches,
    regex_valid, split_words, string_of, to_lower, trim, trimmed, utf8_len, words_of,
};
use crate::types::BaseSearchParams;

verus! {

pub const MAX_QUERY_LENGTH: usize = 1000;

pub const MAX_RESULTS_LIMIT: u32 = 100;

pub const MIN_RESULTS_LIMIT: u32 = 1;

pub const MAX_DOMAIN_COUNT: usize = 50;

pub const MAX_DOMAIN_LENGTH: usize = 253;

pub const MAX_URL_LENGTH: usize = 2048;

pub const MAX_NAME_LENGTH: usize = 50;

// ---------------------------------------------------------------- counting

/// How many times `c` occurs in `s`.
pub open spec fn count_char(s: Seq<char>, c: char) -> nat
    decreases s.len(),
{
    if s.len() == 0 {
        0
    } else {
        count_char(s.drop_last(), c) + if s.last() == c { 1nat } else { 0nat }
    }
}

/// How many ASCII digits `s` holds.
pub open spec fn count_digits(s: Seq<char>) -> nat
    decreases s.len(),
{
    if s.len() == 0 {
        0
    } else {
        count_digits(s.drop_last()) + if is_ascii_digit(s.last()) { 1nat } else { 0nat }
    }
}

/// How many times `w` occurs in `ws`.
pub open spec fn count_word(ws: Seq<Seq<char>>, w: Seq<char>) -> nat
    decreases ws.len(),
{
    if ws.len() == 0 {
        0
    } else {
        count_word(ws.drop_last(), w) + if ws.last() == w { 1nat } else { 0nat }
    }
}

fn count_chars_in(s: &Vec<char>, c: char) -> (r: usize)
    ensures
        r == count_char(s@, c),
{
    let mut n: usize = 0;
    let mut i: usize = 0;
    while i < s.len()
        invariant
            i <= s@.len(),
            n == count_char(s@.take(i as int), c),
            n <= i,
        decreases s@.len() - i,
    {
        proof {
            assert(s@.take(i as int + 1).drop_last() =~= s@.take(i as int));
        }
        if s[i] == c {
            n = n + 1;
        }
        i = i + 1;
    }
    proof {
        assert(s@.take(i as int) =~= s@);
    }
    n
}

fn count_digits_in(s: &Vec<char>) -> (r: usize)
    ensures
        r == count_digits(s@),
{
    let mut n: usize = 0;
    let mut i: usize = 0;
    while i < s.len()
        invariant
            i <= s@.len(),
            n == count_digits(s@.take(i as int)),
            n <= i,
        decreases s@.len() - i,
    {
        proof {
            assert(s@.take(i as int + 1).drop_last() =~= s@.take(i as int));
        }
        if '0' <= s[i] && s[i] <= '9' {
            n = n + 1;
        }
        i = i + 1;
    }
    proof {
        assert(s@.take(i as int) =~= s@);
    }
    n
}

fn count_word_in(ws: &Vec<String>, w: &String) -> (r: usize)
    ensures
        r == count_word(names_of(ws@), w@),
{
    let ghost all = names_of(ws@);
    let mut n: usize = 0;
    let mut i: usize = 0;
    while i < ws.len()
        invariant
            i <= ws@.len(),
            all == names_of(ws@),
            n == count_word(all.take(i as int), w@),
            n <= i,
        decreases ws@.len() - i,
    {
        proof {
            assert(all.take(i as int + 1).drop_last() =~= all.take(i as int));
        }
        if ws[i] == *w {
            n = n + 1;
        }
        i = i + 1;
    }
    proof {
        assert(all.take(i as int) =~= all);
    }
    n
}

// ------------------------------------------------------------ repetition

/// The length of the run of equal characters that ends at position `i`.
pub open spec fn run_end(s: Seq<char>, i: int) -> nat
    decreases i,
{
    if i <= 0 {
        1
    } else if s[i] == s[i - 1] {
        run_end(s, i - 1) + 1
    } else {
        1
    }
}

/// Whether more than ten equal characters follow one another in `s`.
pub open spec fn has_long_run(s: Seq<char>) -> bool {
    exists|i: int| 0 <= i < s.len() && run_end(s, i) > 10
}

/// The words, each lowercased.
pub open spec fn lowered(ws: Seq<Seq<char>>) -> Seq<Seq<char>> {
    ws.map_values(|w: Seq<char>| lower_of(w))
}

/// Whether a list of at least five words has one word, compared without
/// case, that makes up more than 30% of it.
pub open spec fn word_spam(ws: Seq<Seq<char>>) -> bool {
    ws.len() >= 5 && exists|i: int|
        0 <= i < ws.len() && count_word(lowered(ws), lowered(ws)[i]) * 10 > 3 * ws.len()
}

/// Whether a text repeats itself enough to look like spam.
pub open spec fn excessive_repetition(s: Seq<char>) -> bool {
    has_long_run(s) || word_spam(words_of(s))
}

/// Whether `text` repeats a character more than ten times in a row, or
/// has five or more words of which one, without case, makes up more than
/// 30%.
pub fn has_excessive_repetition(text: &str) -> (r: bool)
    ensures
        r == excessive_repetition(text@),
{
    let cs = chars_of(text);
    let mut run: usize = 1;
    let mut i: usize = 1;
    if cs.len() > 0 {
        while i < cs.len()
            invariant
                cs@ == text@,
                1 <= i <= cs@.len(),
                run == run_end(cs@, i - 1),
                run <= i,
                forall|j: int| 0 <= j < i ==> run_end(cs@, j) <= 10,
            decreases cs@.len() - i,
        {
            if cs[i] == cs[i - 1] {
                run = run + 1;
                proof {
                    assert(run_end(cs@, i as int) == run);
                }
                if run > 10 {
                    return true;
                }
            } else {
                run = 1;
            }
            i = i + 1;
        }
    }
    proof {
        assert(!has_long_run(cs@));
    }
    let words = split_words(text);
    let n = words.len();
    if n < 5 {
        return false;
    }
    let mut lw: Vec<String> = Vec::new();
    let mut k: usize = 0;
    while k < n
        invariant
            n == words@.len(),
            k <= n,
            names_of(lw@) == lowered(names_of(words@)).take(k as int),
        decreases n - k,
    {
        let l = to_lower(words[k].as_str());
        let ghost before = lw@;
        lw.push(l);
        proof {
            crate::client::lemma_names_push(before, l);
            assert(lowered(names_of(words@)).take(k as int + 1) =~= lowered(names_of(words@)).take(k as int).push(lower_of(words@[k as int]@)));
        }
        k = k + 1;
    }
    proof {
        assert(lowered(names_of(words@)).take(n as int) =~= lowered(names_of(words@)));
    }
    let mut j: usize = 0;
    while j < n
        invariant
            n == words@.len(),
            n >= 5,
            j <= n,
            names_of(lw@) == lowered(words_of(text@)),
            words_of(text@) == names_of(words@),
            forall|m: int| 0 <= m < j ==> count_word(lowered(words_of(text@)), lowered(words_of(text@))[m]) * 10 <= 3 * n,
        decreases n - j,
    {
        let c = count_word_in(&lw, &lw[j]);
        proof {
            assert(names_of(lw@)[j as int] == lw@[j as int]@);
            lemma_count_word_bound(names_of(lw@), lw@[j as int]@);
        }
        if (c as u128) * 10 > 3 * (n as u128) {
            return true;
        }
        j = j + 1;
    }
    false
}

proof fn lemma_count_word_bound(ws: Seq<Seq<char>>, w: Seq<char>)
    ensures
        count_word(ws, w) <= ws.len(),
    decreases ws.len(),
{
    if ws.len() > 0 {
        lemma_count_word_bound(ws.drop_last(), w);
    }
}

// ------------------------------------------------------- splitting, parsing

/// The parts of `s` between occurrences of `c`, as `str::split` gives them.
pub open spec fn split_on(s: Seq<char>, c: char) -> Seq<Seq<char>>
    decreases s.len(),
{
    if s.len() == 0 {
        seq![Seq::<char>::empty()]
    } else {
        let p = split_on(s.drop_last(), c);
        if s.last() == c {
            p.push(Seq::<char>::empty())
        } else {
            p.update(p.len() - 1, p.last().push(s.last()))
        }
    }
}

proof fn lemma_split_on_len(s: Seq<char>, c: char)
    ensures
        split_on(s, c).len() >= 1,
    decreases s.len(),
{
    if s.len() > 0 {
        lemma_split_on_len(s.drop_last(), c);
    }
}

fn split_chars(s: &Vec<char>, c: char) -> (r: Vec<Vec<char>>)
    ensures
        r@.map_values(|v: Vec<char>| v@) == split_on(s@, c),
{
    let mut parts: Vec<Vec<char>> = Vec::new();
    parts.push(Vec::new());
    let mut i: usize = 0;
    proof {
        assert(parts@.map_values(|v: Vec<char>| v@) =~= split_on(s@.take(0), c));
    }
    while i < s.len()
        invariant
            i <= s@.len(),
            parts@.map_values(|v: Vec<char>| v@) == split_on(s@.take(i as int), c),
            parts@.len() >= 1,
        decreases s@.len() - i,
    {
        let ghost pre = parts@.map_values(|v: Vec<char>| v@);
        proof {
            assert(s@.take(i as int + 1).drop_last() =~= s@.take(i as int));
            assert(s@.take(i as int + 1).last() == s@[i as int]);
        }
        if s[i] == c {
            parts.push(Vec::new());
            proof {
                assert(parts@.map_values(|v: Vec<char>| v@) =~= pre.push(Seq::<char>::empty()));
            }
        } else {
            let last = parts.len() - 1;
            parts[last].push(s[i]);
            proof {
                assert(parts@.map_values(|v: Vec<char>| v@) =~= pre.update(pre.len() - 1, pre.last().push(s@[i as int])));
            }
        }
        i = i + 1;
    }
    proof {
        assert(s@.take(i as int) =~= s@);
    }
    parts
}

/// The number that a string of ASCII digits denotes.
pub open spec fn digits_value(d: Seq<char>) -> int
    decreases d.len(),
{
    if d.len() == 0 {
        0
    } else {
        digits_value(d.drop_last()) * 10 + (d.last() as int - '0' as int)
    }
}

pub open spec fn all_digits(d: Seq<char>) -> bool {
    forall|i: int| 0 <= i < d.len() ==> is_ascii_digit(#[trigger] d[i])
}

/// Whether `str::parse::<u8>` accepts `p`: an optional `+`, then one or
/// more ASCII digits denoting at most 255.
pub open spec fn parses_as_u8(p: Seq<char>) -> bool {
    unsigned_digits(p).len() > 0 && all_digits(unsigned_digits(p)) && digits_value(unsigned_digits(p))
        <= 255
}

/// A numeral without its optional leading `+`.
pub open spec fn unsigned_digits(p: Seq<char>) -> Seq<char> {
    if p.len() > 0 && p[0] == '+' {
        p.skip(1)
    } else {
        p
    }
}

proof fn lemma_digits_value_grows(d: Seq<char>, k: int)
    requires
        all_digits(d),
        0 <= k <= d.len(),
    ensures
        digits_value(d.take(k)) <= digits_value(d),
        0 <= digits_value(d.take(k)),
    decreases d.len() - k,
{
    if k < d.len() {
        lemma_digits_value_grows(d, k + 1);
        assert(d.take(k + 1).drop_last() =~= d.take(k));
        assert(is_ascii_digit(d[k]));
    } else {
        assert(d.take(k) =~= d);
        lemma_digits_value_nonneg(d);
    }
}

proof fn lemma_digits_value_nonneg(d: Seq<char>)
    requires
        all_digits(d),
    ensures
        0 <= digits_value(d),
    decreases d.len(),
{
    if d.len() > 0 {
        assert(all_digits(d.drop_last()));
        lemma_digits_value_nonneg(d.drop_last());
        assert(is_ascii_digit(d[d.len() - 1]));
    }
}

fn parses_u8(p: &Vec<char>) -> (r: bool)
    ensures
        r == parses_as_u8(p@),
{
    let start: usize = if p.len() > 0 && p[0] == '+' {
        1
    } else {
        0
    };
    let ghost d = unsigned_digits(p@);
    proof {
        assert(d =~= p@.skip(start as int));
    }
    if start >= p.len() {
        return false;
    }
    let mut value: u32 = 0;
    let mut i: usize = start;
    while i < p.len()
        invariant
            start <= i <= p@.len(),
            d == p@.skip(start as int),
            d == unsigned_digits(p@),
            all_digits(d.take(i - start)),
            value == digits_value(d.take(i - start)),
            value <= 255,
        decreases p@.len() - i,
    {
        let ch = p[i];
        proof {
            assert(d[i - start] == ch);
            assert(d.take(i - start + 1).drop_last() =~= d.take(i - start));
        }
        if !('0' <= ch && ch <= '9') {
            proof {
                assert(!is_ascii_digit(d[i - start]));
                assert(!all_digits(d));
                assert(!parses_as_u8(p@));
            }
            return false;
        }
        value = value * 10 + (ch as u32 - '0' as u32);
        proof {
            assert(all_digits(d.take(i - start + 1)));
        }
        if value > 255 {
            proof {
                if all_digits(d) {
                    lemma_digits_value_grows(d, i - start + 1);
                    assert(digits_value(d) > 255);
                }
                assert(!parses_as_u8(p@));
            }
            return false;
        }
        i = i + 1;
    }
    proof {
        assert(d.take(i - start) =~= d);
    }
    true
}

// ------------------------------------------------------------ suspicion

/// Top-level labels that are often abused.
pub open spec fn is_suspicious_tld(t: Seq<char>) -> bool {
    t == "tk"@ || t == "ml"@ || t == "ga"@ || t == "cf"@ || t == "xyz"@
}

/// Whether every character of `s` is ASCII.
pub open spec fn all_ascii(s: Seq<char>) -> bool {
    forall|i: int| 0 <= i < s.len() ==> is_ascii_char(#[trigger] s[i])
}

/// Whether a domain looks suspicious once lowercased: an abused top-level
/// label, more than three hyphens, digits making up more than half of it,
/// or a character outside ASCII.
pub open spec fn suspicious_domain(domain: Seq<char>) -> bool {
    let l = lower_of(domain);
    is_suspicious_tld(split_on(l, '.').last()) || count_char(l, '-') > 3 || count_digits(l) > l.len()
        / 2 || !all_ascii(l)
}

fn is_one_of(s: &Vec<char>, lits: &[&str]) -> (r: bool)
    ensures
        r == exists|i: int| 0 <= i < lits@.len() && s@ == #[trigger] lits@[i]@,
{
    let mut i: usize = 0;
    while i < lits.len()
        invariant
            i <= lits@.len(),
            forall|j: int| 0 <= j < i ==> s@ != #[trigger] lits@[j]@,
        decreases lits@.len() - i,
    {
        let t = chars_of(lits[i]);
        if vec_eq(s, &t) {
            return true;
        }
        i = i + 1;
    }
    false
}

fn vec_eq(a: &Vec<char>, b: &Vec<char>) -> (r: bool)
    ensures
        r == (a@ == b@),
{
    if a.len() != b.len() {
        return false;
    }
    let mut i: usize = 0;
    while i < a.len()
        invariant
            a@.len() == b@.len(),
            i <= a@.len(),
            forall|j: int| 0 <= j < i ==> a@[j] == b@[j],
        decreases a@.len() - i,
    {
        if a[i] != b[i] {
            return false;
        }
        i = i + 1;
    }
    proof {
        assert(a@ =~= b@);
    }
    true
}

/// Whether `domain` looks suspicious: an abused top-level label, more than
/// three hyphens, digits making up more than half of it, or a character
/// outside ASCII (a possible homograph).
pub fn is_suspicious_domain(domain: &str) -> (r: bool)
    ensures
        r == suspicious_domain(domain@),
{
    let lower = to_lower(domain);
    let l = chars_of(lower.as_str());
    let parts = split_chars(&l, '.');
    proof {
        lemma_split_on_len(l@, '.');
        assert(parts@.len() == split_on(l@, '.').len());
    }
    let tld = &parts[parts.len() - 1];
    proof {
        assert(tld@ == split_on(l@, '.').last());
    }
    let tlds: [&str; 5] = ["tk", "ml", "ga", "cf", "xyz"];
    let tld_hit = is_one_of(tld, &tlds);
    proof {
        assert(tld_hit == is_suspicious_tld(tld@)) by {
            if tld_hit {
                let i = choose|i: int| 0 <= i < 5 && tld@ == #[trigger] tlds@[i]@;
            }
            if is_suspicious_tld(tld@) {
                if tld@ == "tk"@ { assert(tld@ == tlds@[0]@); }
                else if tld@ == "ml"@ { assert(tld@ == tlds@[1]@); }
                else if tld@ == "ga"@ { assert(tld@ == tlds@[2]@); }
                else if tld@ == "cf"@ { assert(tld@ == tlds@[3]@); }
                else { assert(tld@ == tlds@[4]@); }
            }
        }
    }
    let hyphens = count_chars_in(&l, '-');
    let digits = count_digits_in(&l);
    let mut ascii = true;
    let mut i: usize = 0;
    while i < l.len()
        invariant
            i <= l@.len(),
            ascii == (forall|j: int| 0 <= j < i ==> is_ascii_char(#[trigger] l@[j])),
        decreases l@.len() - i,
    {
        if (l[i] as u32) >= 0x80 {
            ascii = false;
        }
        i = i + 1;
    }
    tld_hit || hyphens > 3 || digits > l.len() / 2 || !ascii
}

/// Fragments of URLs that point at shorteners, IP loggers, raw pastes or
/// invites.
pub open spec fn url_marker(i: int) -> Seq<char> {
    if i == 0 { "bit.ly"@ }
    else if i == 1 { "tinyurl"@ }
    else if i == 2 { "t.co"@ }
    else if i == 3 { "goo.gl"@ }
    else if i == 4 { "iplogger"@ }
    else if i == 5 { "grabify"@ }
    else if i == 6 { "blasze"@ }
    else if i == 7 { "pastebin.com/raw"@ }
    else { "discord.gg"@ }
}

fn url_marker_str(i: usize) -> (r: &'static str)
    requires
        i < 9,
    ensures
        r@ == url_marker(i as int),
{
    if i == 0 { "bit.ly" }
    else if i == 1 { "tinyurl" }
    else if i == 2 { "t.co" }
    else if i == 3 { "goo.gl" }
    else if i == 4 { "iplogger" }
    else if i == 5 { "grabify" }
    else if i == 6 { "blasze" }
    else if i == 7 { "pastebin.com/raw" }
    else { "discord.gg" }
}

/// The host of a lowercased URL: what follows the first `://`, up to the
/// next `/`.
pub open spec fn host_part(l: Seq<char>) -> Seq<char> {
    let rest = l.skip(first_index(l, "://"@) + 3);
    if first_index(rest, "/"@) >= 0 {
        rest.take(first_index(rest, "/"@))
    } else {
        rest
    }
}

/// Whether a host is written as four dot-separated numbers of at most 255.
pub open spec fn is_ip_address(h: Seq<char>) -> bool {
    split_on(h, '.').len() == 4 && forall|i: int| 0 <= i < 4 ==> parses_as_u8(#[trigger] split_on(h, '.')[i])
}

/// Whether a URL looks suspicious once lowercased: it names a shortener, an
/// IP logger, a raw paste or an invite; it has no `://`; or its host is an
/// IP address.
pub open spec fn suspicious_url(url: Seq<char>) -> bool {
    let l = lower_of(url);
    (exists|i: int| 0 <= i < 9 && first_index(l, #[trigger] url_marker(i)) >= 0) || first_index(l, "://"@) < 0
        || is_ip_address(host_part(l))
}

/// Whether `url` looks suspicious: it names a URL shortener, an IP logger,
/// a raw paste or an invite; it has no scheme separator; or its host is an
/// IP address.
pub fn is_suspicious_url(url: &str) -> (r: bool)
    ensures
        r == suspicious_url(url@),
{
    let lower = to_lower(url);
    let l = chars_of(lower.as_str());
    let mut i: usize = 0;
    while i < 9
        invariant
            i <= 9,
            l@ == lower_of(url@),
            forall|j: int| 0 <= j < i ==> first_index(l@, #[trigger] url_marker(j)) < 0,
        decreases 9 - i,
    {
        if contains_sub(&l, url_marker_str(i)) {
            return true;
        }
        i = i + 1;
    }
    let sep = chars_of("://");
    proof {
        reveal_strlit("://");
        reveal_strlit("/");
    }
    let start = match find_sub(&l, &sep) {
        Some(s) => s,
        None => {
            return true;
        },
    };
    proof {
        assert(start + 3 <= l@.len()) by {
            lemma_first_from_fits(l@, sep@, 0);
        }
    }
    let mut rest: Vec<char> = Vec::new();
    let ln = l.len();
    proof {
        lemma_first_from_fits(l@, sep@, 0);
        assert(sep@.len() == 3);
    }
    let mut k: usize = start + 3;
    while k < l.len()
        invariant
            start + 3 <= k <= l@.len(),
            rest@ == l@.subrange(start + 3, k as int),
            l@ == lower_of(url@),
            start == first_index(l@, "://"@),
            forall|j: int| 0 <= j < 9 ==> first_index(l@, #[trigger] url_marker(j)) < 0,
        decreases l@.len() - k,
    {
        rest.push(l[k]);
        k = k + 1;
        proof {
            assert(rest@ =~= l@.subrange(start + 3, k as int));
        }
    }
    proof {
        assert(rest@ =~= l@.skip(start + 3));
    }
    let slash = chars_of("/");
    let host: Vec<char> = match find_sub(&rest, &slash) {
        Some(e) => {
            proof {
                lemma_first_from_fits(rest@, slash@, 0);
            }
            let mut h: Vec<char> = Vec::new();
            let mut m: usize = 0;
            while m < e
                invariant
                    m <= e <= rest@.len(),
                    h@ == rest@.take(m as int),
                    l@ == lower_of(url@),
                    start == first_index(l@, "://"@),
                    rest@ == l@.skip(start + 3),
                    e == first_index(rest@, "/"@),
                    forall|j: int| 0 <= j < 9 ==> first_index(l@, #[trigger] url_marker(j)) < 0,
                decreases e - m,
            {
                h.push(rest[m]);
                m = m + 1;
                proof {
                    assert(h@ =~= rest@.take(m as int));
                }
            }
            h
        },
        None => rest,
    };
    proof {
        assert(host@ == host_part(l@));
        assert(first_index(l@, "://"@) >= 0);
    }
    let parts = split_chars(&host, '.');
    proof {
        assert(parts@.len() == split_on(host@, '.').len());
    }
    if parts.len() != 4 {
        return false;
    }
    let mut q: usize = 0;
    while q < 4
        invariant
            q <= 4,
            parts@.len() == 4,
            parts@.map_values(|v: Vec<char>| v@) == split_on(host@, '.'),
            forall|j: int| 0 <= j < q ==> parses_as_u8(#[trigger] split_on(host@, '.')[j]),
            l@ == lower_of(url@),
            host@ == host_part(l@),
            first_index(l@, "://"@) >= 0,
            forall|j: int| 0 <= j < 9 ==> first_index(l@, #[trigger] url_marker(j)) < 0,
        decreases 4 - q,
    {
        proof {
            assert(parts@.map_values(|v: Vec<char>| v@)[q as int] == parts@[q as int]@);
        }
        if !parses_u8(&parts[q]) {
            return false;
        }
        q = q + 1;
    }
    true
}


// ------------------------------------------------------------- patterns

/// Whether the pattern compiles and matches somewhere in the text. A
/// pattern the engine refuses matches nothing.
pub open spec fn pattern_hits(pattern: Seq<char>, text: Seq<char>) -> bool {
    regex_valid(pattern) && regex_matches(pattern, text)
}

fn hits(pattern: &str, text: &str) -> (r: bool)
    ensures
        r == pattern_hits(pattern@, text@),
{
    match regex_is_match(pattern, text) {
        Some(b) => b,
        None => false,
    }
}

/// Patterns of script injection, script URLs, encoded payloads, inline
/// event handlers, SQL keywords and HTML special characters.
pub open spec fn malicious_pattern(i: int) -> Seq<char> {
    if i == 0 { r"(?i)<script\b[^<]*(?:(?!<\/script>)<[^<]*)*<\/script>"@ }
    else if i == 1 { r"(?i)javascript:"@ }
    else if i == 2 { r"(?i)data:.*base64"@ }
    else if i == 3 { r"(?i)vbscript:"@ }
    else if i == 4 { r"(?i)on\w+\s*="@ }
    else if i == 5 { r"\b(union|select|insert|delete|update|drop|create|alter|exec|execute)\b"@ }
    else { r#"[<>"'&]"#@ }
}

fn malicious_pattern_str(i: usize) -> (r: &'static str)
    requires
        i < 7,
    ensures
        r@ == malicious_pattern(i as int),
{
    if i == 0 { r"(?i)<script\b[^<]*(?:(?!<\/script>)<[^<]*)*<\/script>" }
    else if i == 1 { r"(?i)javascript:" }
    else if i == 2 { r"(?i)data:.*base64" }
    else if i == 3 { r"(?i)vbscript:" }
    else if i == 4 { r"(?i)on\w+\s*=" }
    else if i == 5 { r"\b(union|select|insert|delete|update|drop|create|alter|exec|execute)\b" }
    else { r#"[<>"'&]"# }
}

/// Patterns of content that is not searched for.
pub open spec fn blocked_pattern(i: int) -> Seq<char> {
    if i == 0 { r"(?i)\b(porn|xxx|adult|nude|sex|erotic)\b"@ }
    else if i == 1 { r"(?i)\b(crack|piracy|warez|torrent|illegal)\b"@ }
    else if i == 2 { r"(?i)\b(bomb|weapon|terrorist|violence)\b"@ }
    else { r"(?i)\b(drug|cocaine|heroin|meth)\b"@ }
}

fn blocked_pattern_str(i: usize) -> (r: &'static str)
    requires
        i < 4,
    ensures
        r@ == blocked_pattern(i as int),
{
    if i == 0 { r"(?i)\b(porn|xxx|adult|nude|sex|erotic)\b" }
    else if i == 1 { r"(?i)\b(crack|piracy|warez|torrent|illegal)\b" }
    else if i == 2 { r"(?i)\b(bomb|weapon|terrorist|violence)\b" }
    else { r"(?i)\b(drug|cocaine|heroin|meth)\b" }
}

/// The form of a domain name: dot-separated labels of letters, digits and
/// inner hyphens, each at most 63 long.
pub open spec fn domain_pattern() -> Seq<char> {
    r"^(?:[a-zA-Z0-9](?:[a-zA-Z0-9-]{0,61}[a-zA-Z0-9])?\.)*[a-zA-Z0-9](?:[a-zA-Z0-9-]{0,61}[a-zA-Z0-9])?$"@
}

fn domain_pattern_str() -> (r: &'static str)
    ensures
        r@ == domain_pattern(),
{
    r"^(?:[a-zA-Z0-9](?:[a-zA-Z0-9-]{0,61}[a-zA-Z0-9])?\.)*[a-zA-Z0-9](?:[a-zA-Z0-9-]{0,61}[a-zA-Z0-9])?$"
}

/// The form of a URL: http or https, a host, an optional port, path, query
/// and fragment.
pub open spec fn url_pattern() -> Seq<char> {
    r"^https?://(?:[-\w.])+(?:\:[0-9]+)?(?:/(?:[\w/_.])*(?:\?(?:[\w&=%.])*)?(?:#(?:[\w.])*)?)?$"@
}

fn url_pattern_str() -> (r: &'static str)
    ensures
        r@ == url_pattern(),
{
    r"^https?://(?:[-\w.])+(?:\:[0-9]+)?(?:/(?:[\w/_.])*(?:\?(?:[\w&=%.])*)?(?:#(?:[\w.])*)?)?$"
}

// ---------------------------------------------------------- field checks

/// What a failed check found.
#[derive(Debug, Clone, Copy, PartialEq, Eq, Structural)]
pub enum ValidationCode {
    Length,
    Range,
    ContainsMaliciousContent,
    ContainsBlockedContent,
    ExcessiveRepetition,
    ContainsControlCharacters,
    TooManyDomains,
    DomainTooLong,
    InvalidDomainFormat,
    DuplicateDomain,
    SuspiciousDomain,
    TooManyUrls,
    InvalidUrlFormat,
    DuplicateUrl,
    SuspiciousUrl,
    UrlTooLong,
}

impl ValidationCode {
    /// The words shown for the finding.
    pub fn message(&self) -> (r: &'static str)
        ensures
            r@ == code_message(*self),
    {
        match self {
            ValidationCode::Length => "Invalid length",
            ValidationCode::Range => "Value out of range",
            ValidationCode::ContainsMaliciousContent => "Contains potentially malicious content",
            ValidationCode::ContainsBlockedContent => "Contains blocked content",
            ValidationCode::ExcessiveRepetition => "Contains excessive repetition",
            ValidationCode::ContainsControlCharacters => "Contains invalid control characters",
            ValidationCode::TooManyDomains => "Too many domains specified",
            ValidationCode::DomainTooLong => "Domain name too long",
            ValidationCode::InvalidDomainFormat => "Invalid domain format",
            ValidationCode::DuplicateDomain => "Duplicate domains not allowed",
            ValidationCode::SuspiciousDomain => "Suspicious domain detected",
            ValidationCode::TooManyUrls => "Too many URLs specified",
            ValidationCode::InvalidUrlFormat => "Invalid URL format",
            ValidationCode::DuplicateUrl => "Duplicate URLs not allowed",
            ValidationCode::SuspiciousUrl => "Suspicious URL detected",
            ValidationCode::UrlTooLong => "URL too long",
        }
    }
}

pub open spec fn code_message(c: ValidationCode) -> Seq<char> {
    match c {
        ValidationCode::Length => "Invalid length"@,
        ValidationCode::Range => "Value out of range"@,
        ValidationCode::ContainsMaliciousContent => "Contains potentially malicious content"@,
        ValidationCode::ContainsBlockedContent => "Contains blocked content"@,
        ValidationCode::ExcessiveRepetition => "Contains excessive repetition"@,
        ValidationCode::ContainsControlCharacters => "Contains invalid control characters"@,
        ValidationCode::TooManyDomains => "Too many domains specified"@,
        ValidationCode::DomainTooLong => "Domain name too long"@,
        ValidationCode::InvalidDomainFormat => "Invalid domain format"@,
        ValidationCode::DuplicateDomain => "Duplicate domains not allowed"@,
        ValidationCode::SuspiciousDomain => "Suspicious domain detected"@,
        ValidationCode::TooManyUrls => "Too many URLs specified"@,
        ValidationCode::InvalidUrlFormat => "Invalid URL format"@,
        ValidationCode::DuplicateUrl => "Duplicate URLs not allowed"@,
        ValidationCode::SuspiciousUrl => "Suspicious URL detected"@,
        ValidationCode::UrlTooLong => "URL too long"@,
    }
}

/// Whether a query character is a control code other than newline and tab.
pub open spec fn is_bad_control(c: char) -> bool {
    is_control_char(c) && c != '\n' && c != '\t'
}

/// What is wrong with the content of a query, checked in this order:
/// malicious patterns, blocked patterns, repetition, control characters.
pub open spec fn query_content_problem(q: Seq<char>) -> Option<ValidationCode> {
    if exists|i: int| 0 <= i < 7 && pattern_hits(#[trigger] malicious_pattern(i), q) {
        Some(ValidationCode::ContainsMaliciousContent)
    } else if exists|i: int| 0 <= i < 4 && pattern_hits(#[trigger] blocked_pattern(i), q) {
        Some(ValidationCode::ContainsBlockedContent)
    } else if excessive_repetition(q) {
        Some(ValidationCode::ExcessiveRepetition)
    } else if exists|i: int| 0 <= i < q.len() && is_bad_control(#[trigger] q[i]) {
        Some(ValidationCode::ContainsControlCharacters)
    } else {
        None
    }
}

pub open spec fn as_check(p: Option<ValidationCode>) -> Result<(), ValidationCode> {
    match p {
        Some(c) => Err(c),
        None => Ok(()),
    }
}

/// Checks the content of a query.
pub fn validate_query_content(query: &str) -> (r: Result<(), ValidationCode>)
    ensures
        r == as_check(query_content_problem(query@)),
{
    let mut i: usize = 0;
    while i < 7
        invariant
            i <= 7,
            forall|j: int| 0 <= j < i ==> !pattern_hits(#[trigger] malicious_pattern(j), query@),
        decreases 7 - i,
    {
        if hits(malicious_pattern_str(i), query) {
            return Err(ValidationCode::ContainsMaliciousContent);
        }
        i = i + 1;
    }
    let mut k: usize = 0;
    while k < 4
        invariant
            k <= 4,
            forall|j: int| 0 <= j < 7 ==> !pattern_hits(#[trigger] malicious_pattern(j), query@),
            forall|j: int| 0 <= j < k ==> !pattern_hits(#[trigger] blocked_pattern(j), query@),
        decreases 4 - k,
    {
        if hits(blocked_pattern_str(k), query) {
            return Err(ValidationCode::ContainsBlockedContent);
        }
        k = k + 1;
    }
    if has_excessive_repetition(query) {
        return Err(ValidationCode::ExcessiveRepetition);
    }
    let cs = chars_of(query);
    let mut m: usize = 0;
    while m < cs.len()
        invariant
            m <= cs@.len(),
            cs@ == query@,
            forall|j: int| 0 <= j < 7 ==> !pattern_hits(#[trigger] malicious_pattern(j), query@),
            forall|j: int| 0 <= j < 4 ==> !pattern_hits(#[trigger] blocked_pattern(j), query@),
            !excessive_repetition(query@),
            forall|j: int| 0 <= j < m ==> !is_bad_control(#[trigger] cs@[j]),
        decreases cs@.len() - m,
    {
        let c = cs[m];
        if is_control(c) && c != '\n' && c != '\t' {
            proof {
                assert(is_bad_control(query@[m as int]));
            }
            return Err(ValidationCode::ContainsControlCharacters);
        }
        m = m + 1;
    }
    Ok(())
}

/// The problem of domain `i` of a list whose earlier domains all passed:
/// too long, malformed or without a dot, a repeat of an earlier one
/// without case, or suspicious.
pub open spec fn domain_problem_at(ds: Seq<Seq<char>>, i: int) -> Option<ValidationCode> {
    if utf8_len(ds[i]) > MAX_DOMAIN_LENGTH {
        Some(ValidationCode::DomainTooLong)
    } else if !(pattern_hits(domain_pattern(), ds[i]) && first_index(ds[i], "."@) >= 0) {
        Some(ValidationCode::InvalidDomainFormat)
    } else if exists|j: int| 0 <= j < i && lower_of(#[trigger] ds[j]) == lower_of(ds[i]) {
        Some(ValidationCode::DuplicateDomain)
    } else if suspicious_domain(ds[i]) {
        Some(ValidationCode::SuspiciousDomain)
    } else {
        None
    }
}

/// The first problem among the first `k` domains.
pub open spec fn domains_problem_upto(ds: Seq<Seq<char>>, k: int) -> Option<ValidationCode>
    decreases k,
{
    if k <= 0 {
        None
    } else {
        match domains_problem_upto(ds, k - 1) {
            Some(c) => Some(c),
            None => domain_problem_at(ds, k - 1),
        }
    }
}

/// What is wrong with a list of domains: more than 50 of them, or the
/// first problem of one of them.
pub open spec fn domain_list_problem(ds: Seq<Seq<char>>) -> Option<ValidationCode> {
    if ds.len() > MAX_DOMAIN_COUNT {
        Some(ValidationCode::TooManyDomains)
    } else {
        domains_problem_upto(ds, ds.len() as int)
    }
}

proof fn lemma_domains_upto_settles(ds: Seq<Seq<char>>, k: int, n: int)
    requires
        0 <= k <= n,
        domains_problem_upto(ds, k) is Some,
    ensures
        domains_problem_upto(ds, n) == domains_problem_upto(ds, k),
    decreases n - k,
{
    if n > k {
        lemma_domains_upto_settles(ds, k, n - 1);
    }
}

/// Checks a list of domains.
pub fn validate_domains(domains: &Vec<String>) -> (r: Result<(), ValidationCode>)
    ensures
        r == as_check(domain_list_problem(names_of(domains@))),
{
    let ghost ds = names_of(domains@);
    if domains.len() > MAX_DOMAIN_COUNT {
        return Err(ValidationCode::TooManyDomains);
    }
    let mut seen: Vec<String> = Vec::new();
    let mut i: usize = 0;
    while i < domains.len()
        invariant
            i <= domains@.len(),
            ds == names_of(domains@),
            ds.len() <= MAX_DOMAIN_COUNT,
            domains_problem_upto(ds, i as int) is None,
            seen@.len() == i,
            forall|j: int| 0 <= j < i ==> #[trigger] seen@[j]@ == lower_of(ds[j]),
        decreases domains@.len() - i,
    {
        let d = domains[i].as_str();
        proof {
            assert(ds[i as int] == d@);
            if domain_problem_at(ds, i as int) is Some {
                lemma_domains_upto_settles(ds, i + 1, ds.len() as int);
            }
        }
        if d.len() > MAX_DOMAIN_LENGTH {
            return Err(ValidationCode::DomainTooLong);
        }
        let dc = chars_of(d);
        if !(hits(domain_pattern_str(), d) && contains_sub(&dc, ".")) {
            return Err(ValidationCode::InvalidDomainFormat);
        }
        let l = to_lower(d);
        let mut j: usize = 0;
        while j < i
            invariant
                j <= i,
                i < domains@.len(),
                ds == names_of(domains@),
                ds.len() <= MAX_DOMAIN_COUNT,
                ds[i as int] == d@,
                l@ == lower_of(d@),
                seen@.len() == i,
                forall|m: int| 0 <= m < i ==> #[trigger] seen@[m]@ == lower_of(ds[m]),
                forall|m: int| 0 <= m < j ==> seen@[m]@ != l@,
                domains_problem_upto(ds, i as int) is None,
                domain_problem_at(ds, i as int) is Some ==> domains_problem_upto(ds, ds.len() as int) == domain_problem_at(ds, i as int),
                utf8_len(ds[i as int]) <= MAX_DOMAIN_LENGTH,
                pattern_hits(domain_pattern(), ds[i as int]) && first_index(ds[i as int], "."@) >= 0,
            decreases i - j,
        {
            if seen[j] == l {
                proof {
                    assert(seen@[j as int]@ == lower_of(ds[j as int]));
                    assert(lower_of(ds[j as int]) == lower_of(ds[i as int]));
                }
                return Err(ValidationCode::DuplicateDomain);
            }
            j = j + 1;
        }
        proof {
            assert forall|m: int| 0 <= m < i implies lower_of(#[trigger] ds[m]) != lower_of(ds[i as int]) by {
                assert(seen@[m]@ == lower_of(ds[m]));
            }
        }
        if is_suspicious_domain(d) {
            return Err(ValidationCode::SuspiciousDomain);
        }
        let ghost before = seen@;
        seen.push(l);
        proof {
            assert(domain_problem_at(ds, i as int) is None);
            assert forall|m: int| 0 <= m < i + 1 implies #[trigger] seen@[m]@ == lower_of(ds[m]) by {
                if m < i {
                    assert(seen@[m] == before[m]);
                }
            }
        }
        i = i + 1;
    }
    proof {
        assert(ds.len() == domains@.len());
    }
    Ok(())
}

/// The problem of URL `i` of a list whose earlier URLs all passed:
/// malformed, a repeat of an earlier one without case, suspicious, or too
/// long.
pub open spec fn url_problem_at(us: Seq<Seq<char>>, i: int) -> Option<ValidationCode> {
    if !pattern_hits(url_pattern(), us[i]) {
        Some(ValidationCode::InvalidUrlFormat)
    } else if exists|j: int| 0 <= j < i && lower_of(#[trigger] us[j]) == lower_of(us[i]) {
        Some(ValidationCode::DuplicateUrl)
    } else if suspicious_url(us[i]) {
        Some(ValidationCode::SuspiciousUrl)
    } else if utf8_len(us[i]) > MAX_URL_LENGTH {
        Some(ValidationCode::UrlTooLong)
    } else {
        None
    }
}

/// The first problem among the first `k` URLs.
pub open spec fn urls_problem_upto(us: Seq<Seq<char>>, k: int) -> Option<ValidationCode>
    decreases k,
{
    if k <= 0 {
        None
    } else {
        match urls_problem_upto(us, k - 1) {
            Some(c) => Some(c),
            None => url_problem_at(us, k - 1),
        }
    }
}

/// What is wrong with a list of URLs: more than 50 of them, or the first
/// problem of one of them.
pub open spec fn url_list_problem(us: Seq<Seq<char>>) -> Option<ValidationCode> {
    if us.len() > MAX_DOMAIN_COUNT {
        Some(ValidationCode::TooManyUrls)
    } else {
        urls_problem_upto(us, us.len() as int)
    }
}

proof fn lemma_urls_upto_settles(us: Seq<Seq<char>>, k: int, n: int)
    requires
        0 <= k <= n,
        urls_problem_upto(us, k) is Some,
    ensures
        urls_problem_upto(us, n) == urls_problem_upto(us, k),
    decreases n - k,
{
    if n > k {
        lemma_urls_upto_settles(us, k, n - 1);
    }
}

/// Checks a list of URLs.
pub fn validate_urls(urls: &Vec<String>) -> (r: Result<(), ValidationCode>)
    ensures
        r == as_check(url_list_problem(names_of(urls@))),
{
    let ghost us = names_of(urls@);
    if urls.len() > MAX_DOMAIN_COUNT {
        return Err(ValidationCode::TooManyUrls);
    }
    let mut seen: Vec<String> = Vec::new();
    let mut i: usize = 0;
    while i < urls.len()
        invariant
            i <= urls@.len(),
            us == names_of(urls@),
            us.len() <= MAX_DOMAIN_COUNT,
            urls_problem_upto(us, i as int) is None,
            seen@.len() == i,
            forall|j: int| 0 <= j < i ==> #[trigger] seen@[j]@ == lower_of(us[j]),
        decreases urls@.len() - i,
    {
        let u = urls[i].as_str();
        proof {
            assert(us[i as int] == u@);
            if url_problem_at(us, i as int) is Some {
                lemma_urls_upto_settles(us, i + 1, us.len() as int);
            }
        }
        if !hits(url_pattern_str(), u) {
            return Err(ValidationCode::InvalidUrlFormat);
        }
        let l = to_lower(u);
        let mut j: usize = 0;
        while j < i
            invariant
                j <= i,
                i < urls@.len(),
                us == names_of(urls@),
                us.len() <= MAX_DOMAIN_COUNT,
                us[i as int] == u@,
                l@ == lower_of(u@),
                seen@.len() == i,
                forall|m: int| 0 <= m < i ==> #[trigger] seen@[m]@ == lower_of(us[m]),
                forall|m: int| 0 <= m < j ==> seen@[m]@ != l@,
                urls_problem_upto(us, i as int) is None,
                url_problem_at(us, i as int) is Some ==> urls_problem_upto(us, us.len() as int) == url_problem_at(us, i as int),
                pattern_hits(url_pattern(), us[i as int]),
            decreases i - j,
        {
            if seen[j] == l {
                proof {
                    assert(seen@[j as int]@ == lower_of(us[j as int]));
                    assert(lower_of(us[j as int]) == lower_of(us[i as int]));
                }
                return Err(ValidationCode::DuplicateUrl);
            }
            j = j + 1;
        }
        proof {
            assert forall|m: int| 0 <= m < i implies lower_of(#[trigger] us[m]) != lower_of(us[i as int]) by {
                assert(seen@[m]@ == lower_of(us[m]));
            }
        }
        if is_suspicious_url(u) {
            return Err(ValidationCode::SuspiciousUrl);
        }
        if u.len() > MAX_URL_LENGTH {
            return Err(ValidationCode::UrlTooLong);
        }
        let ghost before = seen@;
        seen.push(l);
        proof {
            assert(url_problem_at(us, i as int) is None);
            assert forall|m: int| 0 <= m < i + 1 implies #[trigger] seen@[m]@ == lower_of(us[m]) by {
                if m < i {
                    assert(seen@[m] == before[m]);
                }
            }
        }
        i = i + 1;
    }
    proof {
        assert(us.len() == urls@.len());
    }
    Ok(())
}


// ------------------------------------------------------------ parameters

/// The fields that a check can find fault with.
#[derive(Debug, Clone, Copy, PartialEq, Eq, Structural)]
pub enum Field {
    Query,
    Limit,
    IncludeDomains,
    ExcludeDomains,
    Urls,
}

impl Field {
    pub fn name(&self) -> (r: &'static str)
        ensures
            r@ == field_name(*self),
    {
        match self {
            Field::Query => "query",
            Field::Limit => "limit",
            Field::IncludeDomains => "include_domains",
            Field::ExcludeDomains => "exclude_domains",
            Field::Urls => "urls",
        }
    }
}

pub open spec fn field_name(f: Field) -> Seq<char> {
    match f {
        Field::Query => "query"@,
        Field::Limit => "limit"@,
        Field::IncludeDomains => "include_domains"@,
        Field::ExcludeDomains => "exclude_domains"@,
        Field::Urls => "urls"@,
    }
}

/// The names in an optional list.
pub open spec fn opt_names(o: Option<Vec<String>>) -> Option<Seq<Seq<char>>> {
    match o {
        Some(v) => Some(names_of(v@)),
        None => None,
    }
}

/// One finding per failed check, field by field: the query's length (1 to
/// 1000 characters) and content, the limit's range (1 to 100), then each
/// list that is present.
pub open spec fn findings(
    query: Seq<char>,
    limit: Option<u32>,
    kept_domains: Option<Seq<Seq<char>>>,
    dropped_domains: Option<Seq<Seq<char>>>,
    urls: Option<Seq<Seq<char>>>,
) -> Seq<(Field, ValidationCode)> {
    (if query.len() < 1 || query.len() > MAX_QUERY_LENGTH {
        seq![(Field::Query, ValidationCode::Length)]
    } else {
        Seq::empty()
    }) + (match query_content_problem(query) {
        Some(c) => seq![(Field::Query, c)],
        None => Seq::empty(),
    }) + (match limit {
        Some(l) => if l < MIN_RESULTS_LIMIT || l > MAX_RESULTS_LIMIT {
            seq![(Field::Limit, ValidationCode::Range)]
        } else {
            Seq::empty()
        },
        None => Seq::empty(),
    }) + list_findings(Field::IncludeDomains, kept_domains, false) + list_findings(
        Field::ExcludeDomains,
        dropped_domains,
        false,
    ) + list_findings(Field::Urls, urls, true)
}

pub open spec fn list_findings(f: Field, l: Option<Seq<Seq<char>>>, as_urls: bool) -> Seq<
    (Field, ValidationCode),
> {
    match l {
        Some(items) => match (if as_urls {
            url_list_problem(items)
        } else {
            domain_list_problem(items)
        }) {
            Some(c) => seq![(f, c)],
            None => Seq::empty(),
        },
        None => Seq::empty(),
    }
}

/// A request that passed every check.
#[derive(Debug, Clone)]
pub struct ValidatedSearchParams {
    pub query: String,
    pub limit: Option<u32>,
    pub include_domains: Option<Vec<String>>,
    pub exclude_domains: Option<Vec<String>>,
    pub urls: Option<Vec<String>>,
}

/// The checks a request failed.
#[derive(Debug, Clone)]
pub struct ValidationFailure {
    pub errors: Vec<(Field, ValidationCode)>,
}

/// "field: message" for each finding, separated by ", ".
pub open spec fn findings_text(es: Seq<(Field, ValidationCode)>) -> Seq<char>
    decreases es.len(),
{
    if es.len() == 0 {
        Seq::empty()
    } else if es.len() == 1 {
        field_name(es[0].0) + ": "@ + code_message(es[0].1)
    } else {
        findings_text(es.drop_last()) + ", "@ + field_name(es.last().0) + ": "@ + code_message(
            es.last().1,
        )
    }
}

impl ValidationFailure {
    /// "Validation failed: " and the findings.
    pub fn message(&self) -> (r: String)
        ensures
            r@ == "Validation failed: "@ + findings_text(self.errors@),
    {
        let mut m = String::from_str("Validation failed: ");
        let ghost head = m@;
        let mut i: usize = 0;
        while i < self.errors.len()
            invariant
                i <= self.errors@.len(),
                head == "Validation failed: "@,
                m@ == head + findings_text(self.errors@.take(i as int)),
            decreases self.errors@.len() - i,
        {
            let (f, c) = self.errors[i];
            proof {
                assert(self.errors@.take(i as int + 1).drop_last() =~= self.errors@.take(i as int));
            }
            if i > 0 {
                m.append(", ");
            }
            m.append(f.name());
            m.append(": ");
            m.append(c.message());
            i = i + 1;
            proof {
                assert(m@ =~= head + findings_text(self.errors@.take(i as int)));
            }
        }
        proof {
            assert(self.errors@.take(i as int) =~= self.errors@);
        }
        m
    }
}

fn push_finding(v: &mut Vec<(Field, ValidationCode)>, f: Field, p: Result<(), ValidationCode>)
    ensures
        final(v)@ == old(v)@ + match p {
            Err(c) => seq![(f, c)],
            Ok(_) => Seq::<(Field, ValidationCode)>::empty(),
        },
{
    match p {
        Err(c) => {
            v.push((f, c));
            proof {
                assert(final(v)@ =~= old(v)@ + seq![(f, c)]);
            }
        },
        Ok(_) => {
            proof {
                assert(old(v)@ + Seq::<(Field, ValidationCode)>::empty() =~= old(v)@);
            }
        },
    }
}

fn clone_list(v: &Vec<String>) -> (r: Vec<String>)
    ensures
        names_of(r@) == names_of(v@),
{
    let mut r: Vec<String> = Vec::new();
    let mut i: usize = 0;
    while i < v.len()
        invariant
            i <= v@.len(),
            names_of(r@) == names_of(v@).take(i as int),
        decreases v@.len() - i,
    {
        let ghost before = r@;
        let x = v[i].clone();
        r.push(x);
        proof {
            crate::client::lemma_names_push(before, x);
            assert(names_of(v@).take(i as int + 1) =~= names_of(v@).take(i as int).push(v@[i as int]@));
        }
        i = i + 1;
    }
    proof {
        assert(names_of(v@).take(i as int) =~= names_of(v@));
    }
    r
}

fn clone_opt_list(o: &Option<Vec<String>>) -> (r: Option<Vec<String>>)
    ensures
        opt_names(r) == opt_names(*o),
{
    match o {
        Some(v) => Some(clone_list(v)),
        None => None,
    }
}

impl ValidatedSearchParams {
    /// Runs every check on `params`; the request is accepted when none
    /// finds fault, and refused with all the findings otherwise.
    pub fn from_base_params(params: BaseSearchParams) -> (r: Result<Self, ValidationFailure>)
        ensures
            ({
                let fs = findings(
                    params.query@,
                    params.limit,
                    opt_names(params.include_domains),
                    opt_names(params.exclude_domains),
                    None,
                );
                &&& (r is Ok) == (fs.len() == 0)
                &&& r matches Err(e) ==> e.errors@ == fs
                &&& r matches Ok(v) ==> v.query == params.query && v.limit == params.limit
                    && v.include_domains == params.include_domains && v.exclude_domains
                    == params.exclude_domains && v.urls is None
            }),
    {
        let mut errors: Vec<(Field, ValidationCode)> = Vec::new();
        let n = chars_of(params.query.as_str()).len();
        if n < 1 || n > MAX_QUERY_LENGTH {
            errors.push((Field::Query, ValidationCode::Length));
        }
        push_finding(&mut errors, Field::Query, validate_query_content(params.query.as_str()));
        match params.limit {
            Some(l) => {
                if l < MIN_RESULTS_LIMIT || l > MAX_RESULTS_LIMIT {
                    errors.push((Field::Limit, ValidationCode::Range));
                }
            },
            None => {},
        }
        match &params.include_domains {
            Some(d) => push_finding(&mut errors, Field::IncludeDomains, validate_domains(d)),
            None => {},
        }
        match &params.exclude_domains {
            Some(d) => push_finding(&mut errors, Field::ExcludeDomains, validate_domains(d)),
            None => {},
        }
        proof {
            let fs = findings(
                params.query@,
                params.limit,
                opt_names(params.include_domains),
                opt_names(params.exclude_domains),
                None,
            );
            assert(errors@ =~= fs);
        }
        if errors.len() > 0 {
            return Err(ValidationFailure { errors });
        }
        Ok(ValidatedSearchParams {
            query: params.query,
            limit: params.limit,
            include_domains: params.include_domains,
            exclude_domains: params.exclude_domains,
            urls: None,
        })
    }

    /// The request as provider parameters.
    pub fn to_base_params(&self) -> (r: BaseSearchParams)
        ensures
            r.query@ == self.query@,
            r.limit == self.limit,
            opt_names(r.include_domains) == opt_names(self.include_domains),
            opt_names(r.exclude_domains) == opt_names(self.exclude_domains),
    {
        BaseSearchParams {
            query: self.query.clone(),
            limit: self.limit,
            include_domains: clone_opt_list(&self.include_domains),
            exclude_domains: clone_opt_list(&self.exclude_domains),
        }
    }
}

/// Runs every check on a copy of `params`.
pub fn validate_search_params(params: &BaseSearchParams) -> (r: Result<ValidatedSearchParams, ValidationFailure>)
    ensures
        ({
            let fs = findings(
                params.query@,
                params.limit,
                opt_names(params.include_domains),
                opt_names(params.exclude_domains),
                None,
            );
            &&& (r is Ok) == (fs.len() == 0)
            &&& r matches Err(e) ==> e.errors@ == fs
            &&& r matches Ok(v) ==> v.query@ == params.query@ && v.limit == params.limit
                && opt_names(v.include_domains) == opt_names(params.include_domains) && opt_names(
                v.exclude_domains,
            ) == opt_names(params.exclude_domains) && v.urls is None
        }),
{
    let copy = BaseSearchParams {
        query: params.query.clone(),
        limit: params.limit,
        include_domains: clone_opt_list(&params.include_domains),
        exclude_domains: clone_opt_list(&params.exclude_domains),
    };
    ValidatedSearchParams::from_base_params(copy)
}

// -------------------------------------------------------------- cleaning

/// Whether a character survives cleaning: anything but a control code,
/// except newline and tab.
pub open spec fn kept(c: char) -> bool {
    !is_control_char(c) || c == '\n' || c == '\t'
}

pub open spec fn kept_fn() -> spec_fn(char) -> bool {
    |c: char| kept(c)
}

/// A trimmed query without control codes (newline and tab kept), cut to
/// 1000 characters.
pub open spec fn cleaned(t: Seq<char>) -> Seq<char> {
    let f = t.filter(kept_fn());
    if f.len() > MAX_QUERY_LENGTH {
        f.take(MAX_QUERY_LENGTH as int)
    } else {
        f
    }
}

/// Cleans an already trimmed query: drops control codes other than newline
/// and tab, and keeps at most the first 1000 characters.
pub fn clean_trimmed_query(trimmed_query: &str) -> (r: String)
    ensures
        r@ == cleaned(trimmed_query@),
{
    let cs = chars_of(trimmed_query);
    let ghost pred = kept_fn();
    let mut out: Vec<char> = Vec::new();
    let mut i: usize = 0;
    while i < cs.len()
        invariant
            i <= cs@.len(),
            pred == kept_fn(),
            out@ == cs@.take(i as int).filter(pred),
        decreases cs@.len() - i,
    {
        let ghost s = cs@.take(i as int + 1);
        proof {
            assert(s.drop_last() =~= cs@.take(i as int));
            assert(s.last() == cs@[i as int]);
            reveal(Seq::filter);
            assert(s.filter(pred) == (if pred(s.last()) {
                s.drop_last().filter(pred).push(s.last())
            } else {
                s.drop_last().filter(pred)
            }));
        }
        let c = cs[i];
        if !is_control(c) || c == '\n' || c == '\t' {
            out.push(c);
        }
        i = i + 1;
    }
    proof {
        assert(cs@.take(i as int) =~= cs@);
    }
    if out.len() > MAX_QUERY_LENGTH {
        out.truncate(MAX_QUERY_LENGTH);
    }
    string_of(&out)
}

/// Cleans a query: trims it, drops control codes other than newline and
/// tab, and keeps at most the first 1000 characters.
pub fn sanitize_query(query: &str) -> (r: String)
    ensures
        r@ == cleaned(trimmed(query@)),
{
    clean_trimmed_query(trim(query))
}

// ----------------------------------------------------------------- names

/// What is wrong with a provider or operation name.
#[derive(Debug, Clone, Copy, PartialEq, Eq, Structural)]
pub enum NameProblem {
    Empty,
    TooLong,
    InvalidCharacters,
}

/// The characters allowed in a name.
pub open spec fn name_char(c: char) -> bool {
    alphanumeric(c) || c == '_' || c == '-'
}

/// What is wrong with a name: empty, longer than 50 bytes, or holding a
/// character other than a letter, a digit, `_` or `-`.
pub open spec fn name_problem(n: Seq<char>) -> Option<NameProblem> {
    if n.len() == 0 {
        Some(NameProblem::Empty)
    } else if utf8_len(n) > MAX_NAME_LENGTH {
        Some(NameProblem::TooLong)
    } else if exists|i: int| 0 <= i < n.len() && !name_char(#[trigger] n[i]) {
        Some(NameProblem::InvalidCharacters)
    } else {
        None
    }
}

pub open spec fn as_name_check(p: Option<NameProblem>) -> Result<(), NameProblem> {
    match p {
        Some(c) => Err(c),
        None => Ok(()),
    }
}

fn check_name(name: &str) -> (r: Result<(), NameProblem>)
    ensures
        r == as_name_check(name_problem(name@)),
{
    let cs = chars_of(name);
    if cs.len() == 0 {
        return Err(NameProblem::Empty);
    }
    if name.len() > MAX_NAME_LENGTH {
        return Err(NameProblem::TooLong);
    }
    let mut i: usize = 0;
    while i < cs.len()
        invariant
            i <= cs@.len(),
            cs@ == name@,
            cs@.len() > 0,
            utf8_len(name@) <= MAX_NAME_LENGTH,
            forall|j: int| 0 <= j < i ==> name_char(#[trigger] cs@[j]),
        decreases cs@.len() - i,
    {
        let c = cs[i];
        if !(is_alphanumeric(c) || c == '_' || c == '-') {
            proof {
                assert(!name_char(name@[i as int]));
            }
            return Err(NameProblem::InvalidCharacters);
        }
        i = i + 1;
    }
    Ok(())
}

/// Checks a provider name.
pub fn validate_provider_name(provider: &str) -> (r: Result<(), NameProblem>)
    ensures
        r == as_name_check(name_problem(provider@)),
{
    check_name(provider)
}

/// Checks an operation name.
pub fn validate_operation_name(operation: &str) -> (r: Result<(), NameProblem>)
    ensures
        r == as_name_check(name_problem(operation@)),
{
    check_name(operation)
}

} // verus!
