//! Scrubbing sensitive values from text meant for public logs.

use vstd::prelude::*;
use vstd::utf8::*;
use vstd::string::StringSliceAdditionalSpecFns;
use regex_automata::Regex;
use crate::util::text::{chars_of, push_char, string_from_utf8};

verus! {

/// Index of the first line feed in `t`, or its length if there is none.
pub open spec fn first_newline(t: Seq<char>) -> int
    decreases t.len(),
{
    if t.len() == 0 {
        0
    } else if t[0] == '\n' {
        0
    } else {
        1 + first_newline(t.drop_first())
    }
}

/// A line without the carriage return that ended it, if any.
pub open spec fn strip_cr(l: Seq<char>) -> Seq<char> {
    if l.len() > 0 && l.last() == '\r' {
        l.drop_last()
    } else {
        l
    }
}

/// The lines of a text as `str::lines` gives them: split at line feeds, a
/// carriage return before a line feed dropped, and no empty last line after a
/// final line feed.
pub open spec fn text_lines(t: Seq<char>) -> Seq<Seq<char>>
    decreases t.len(),
{
    if t.len() == 0 {
        seq![]
    } else {
        let k = first_newline(t);
        if k < 0 || k >= t.len() {
            seq![t]
        } else {
            seq![strip_cr(t.take(k))] + text_lines(t.skip(k + 1))
        }
    }
}

/// Lines joined with line feeds between them.
pub open spec fn join_lines(ls: Seq<Seq<char>>) -> Seq<char>
    decreases ls.len(),
{
    if ls.len() == 0 {
        seq![]
    } else if ls.len() == 1 {
        ls[0]
    } else {
        join_lines(ls.drop_last()) + seq!['\n'] + ls.last()
    }
}

/// Whether `pat` occurs in `l`.
pub open spec fn contains_text(l: Seq<char>, pat: Seq<char>) -> bool {
    exists|p: int| 0 <= p && p + pat.len() <= l.len() && #[trigger] l.subrange(p, p + pat.len()) == pat
}

/// The marker of an ICE password.
pub open spec fn ice_pwd_marker() -> Seq<char> {
    "ice-pwd"@
}

/// What a line holding an ICE password is replaced with.
pub open spec fn redacted_ice_line() -> Seq<char> {
    "a=ice-pwd:[ REDACTED ]"@
}

/// A line, or its replacement if it holds an ICE password.
pub open spec fn redact_ice_line(l: Seq<char>) -> Seq<char> {
    if contains_text(l, ice_pwd_marker()) {
        redacted_ice_line()
    } else {
        l
    }
}

/// The text with every line that holds an ICE password replaced; the lines
/// are joined with line feeds.  A text without such a line is kept as it is.
pub open spec fn redact_ice_text(t: Seq<char>) -> Seq<char> {
    let ls = text_lines(t);
    if exists|i: int| 0 <= i < ls.len() && contains_text(#[trigger] ls[i], ice_pwd_marker()) {
        join_lines(ls.map_values(|l: Seq<char>| redact_ice_line(l)))
    } else {
        t
    }
}

proof fn lemma_first_newline(t: Seq<char>, m: int)
    requires
        0 <= m <= t.len(),
        forall|k: int| 0 <= k < m ==> t[k] != '\n',
        m == t.len() || t[m] == '\n',
    ensures
        first_newline(t) == m,
    decreases t.len(),
{
    if t.len() > 0 && m > 0 {
        lemma_first_newline(t.drop_first(), m - 1);
    }
}

proof fn lemma_join_lines_push(ls: Seq<Seq<char>>, l: Seq<char>)
    ensures
        join_lines(ls.push(l)) == if ls.len() == 0 {
            l
        } else {
            join_lines(ls) + seq!['\n'] + l
        },
{
    assert(ls.push(l).drop_last() =~= ls);
}

/// Whether `pat` occurs in `l[start..end]`.
fn contains_at(l: &Vec<char>, start: usize, end: usize, pat: &Vec<char>) -> (r: bool)
    requires
        start <= end <= l@.len(),
    ensures
        r == contains_text(l@.subrange(start as int, end as int), pat@),
{
    let ghost line = l@.subrange(start as int, end as int);
    if pat.len() > end - start {
        assert forall|p: int| 0 <= p && p + pat@.len() <= line.len() implies #[trigger] line.subrange(p, p + pat@.len()) != pat@ by {}
        return false;
    }
    let mut p: usize = start;
    while p <= end - pat.len()
        invariant
            start <= p,
            pat@.len() <= end - start,
            start <= end <= l@.len(),
            line == l@.subrange(start as int, end as int),
            forall|q: int| 0 <= q < p - start ==> #[trigger] line.subrange(q, q + pat@.len()) != pat@,
        decreases end - p,
    {
        let mut k: usize = 0;
        let mut same = true;
        while k < pat.len()
            invariant
                k <= pat@.len(),
                p + pat@.len() <= end <= l@.len(),
                same == (forall|x: int| 0 <= x < k ==> l@[p + x] == pat@[x]),
            decreases pat@.len() - k,
        {
            if l[p + k] != pat[k] {
                same = false;
            }
            k = k + 1;
        }
        let ghost q = p - start;
        if same {
            assert(line.subrange(q, q + pat@.len()) =~= pat@);
            return true;
        }
        assert(line.subrange(q, q + pat@.len()) != pat@) by {
            let x = choose|x: int| 0 <= x < pat@.len() && l@[p + x] != pat@[x];
            assert(line.subrange(q, q + pat@.len())[x] == l@[p + x]);
        }
        p = p + 1;
    }
    assert forall|q: int| 0 <= q && q + pat@.len() <= line.len() implies #[trigger] line.subrange(q, q + pat@.len()) != pat@ by {
        assert(q < p - start);
    }
    false
}

/// Appends `cs[start..end]`.
fn push_chars(out: &mut String, cs: &Vec<char>, start: usize, end: usize)
    requires
        start <= end <= cs@.len(),
    ensures
        final(out)@ == old(out)@ + cs@.subrange(start as int, end as int),
{
    let ghost base = out@;
    let mut k = start;
    while k < end
        invariant
            start <= k <= end <= cs@.len(),
            out@ == base + cs@.subrange(start as int, k as int),
        decreases end - k,
    {
        push_char(out, cs[k]);
        k = k + 1;
        assert(out@ =~= base + cs@.subrange(start as int, k as int));
    }
}

/// Replaces every line holding an ICE password, if there is one.
pub fn redact_ice_password(text: &str) -> (r: String)
    ensures
        r@ == redact_ice_text(text@),
{
    let chars = chars_of(text);
    let marker = chars_of("ice-pwd");
    let n = chars.len();
    let mut out = String::new();
    let mut found = false;
    let ghost mut done: Seq<Seq<char>> = seq![];
    let mut i: usize = 0;
    assert(chars@.skip(0) =~= chars@);
    while i < n
        invariant
            i <= n == chars@.len(),
            chars@ == text@,
            marker@ == ice_pwd_marker(),
            (i > 0) == (done.len() > 0),
            text_lines(chars@) == done + text_lines(chars@.skip(i as int)),
            out@ == join_lines(done.map_values(|l: Seq<char>| redact_ice_line(l))),
            found == exists|k: int| 0 <= k < done.len() && contains_text(#[trigger] done[k], ice_pwd_marker()),
        decreases n - i,
    {
        let mut j = i;
        while j < n && chars[j] != '\n'
            invariant
                i <= j <= n == chars@.len(),
                forall|k: int| i <= k < j ==> chars@[k] != '\n',
            decreases n - j,
        {
            j = j + 1;
        }
        let mut e = j;
        if j < n && e > i && chars[e - 1] == '\r' {
            e = e - 1;
        }
        let ghost t = chars@.skip(i as int);
        let ghost line = chars@.subrange(i as int, e as int);
        proof {
            lemma_first_newline(t, j - i);
            if j < n {
                assert(t.take(j - i) =~= chars@.subrange(i as int, j as int));
                assert(strip_cr(t.take(j - i)) =~= line);
                assert(t.skip(j - i + 1) =~= chars@.skip(j + 1));
                assert(text_lines(t) == seq![line] + text_lines(chars@.skip(j + 1)));
            } else {
                assert(t =~= line);
                assert(chars@.skip(n as int) =~= Seq::<char>::empty());
            }
        }
        let has = contains_at(&chars, i, e, &marker);
        let ghost found_before = found;
        if i > 0 {
            push_char(&mut out, '\n');
        }
        if has {
            out.append("a=ice-pwd:[ REDACTED ]");
            found = true;
        } else {
            push_chars(&mut out, &chars, i, e);
        }
        proof {
            let f = |l: Seq<char>| redact_ice_line(l);
            assert(done.push(line).map_values(f) =~= done.map_values(f).push(redact_ice_line(line)));
            lemma_join_lines_push(done.map_values(f), redact_ice_line(line));
            assert(out@ =~= join_lines(done.push(line).map_values(f)));
            assert(done.push(line) + text_lines(chars@.skip(if j < n { j + 1 } else { n as int })) =~= done + text_lines(t));
            let next = done.push(line);
            assert(forall|k: int| 0 <= k < done.len() ==> next[k] == done[k]);
            if has {
                assert(contains_text(next[done.len() as int], ice_pwd_marker()));
            } else {
                assert(!contains_text(next[done.len() as int], ice_pwd_marker()));
                if exists|k: int| 0 <= k < next.len() && contains_text(#[trigger] next[k], ice_pwd_marker()) {
                    let k = choose|k: int| 0 <= k < next.len() && contains_text(#[trigger] next[k], ice_pwd_marker());
                    assert(contains_text(done[k], ice_pwd_marker()));
                }
            }
            if found_before {
                let k = choose|k: int| 0 <= k < done.len() && contains_text(#[trigger] done[k], ice_pwd_marker());
                assert(contains_text(next[k], ice_pwd_marker()));
            }
            done = next;
        }
        i = if j < n { j + 1 } else { n };
    }
    assert(chars@.skip(n as int) =~= Seq::<char>::empty());
    assert(done =~= text_lines(text@));
    if found {
        out
    } else {
        text.to_owned()
    }
}
/// A compiled automaton.  `regex_automata::Regex` is generic over the
/// crate's DFA trait, so the automaton is held opaque here and used only
/// through the two functions below.
#[verifier::external_body]
struct RegexAutomaton {
    re: Regex,
}

/// Whether the regex crate accepts a pattern.
pub uninterp spec fn pattern_compiles(pattern: Seq<char>) -> bool;

/// The matches, as byte ranges, that `find_iter` yields for a pattern on a
/// text: non-overlapping leftmost-first matches, in order.
pub uninterp spec fn regex_find_all(pattern: Seq<char>, text: Seq<u8>) -> Seq<(usize, usize)>;

/// Calls `regex_automata::Regex::new`.  Trusted to succeed exactly for the
/// patterns named as compiling; what it succeeds on is left to the crate.
#[verifier::external_body]
fn compile_automaton(pattern: &str) -> (r: Option<RegexAutomaton>)
    ensures
        r is Some == pattern_compiles(pattern@),
{
    match Regex::new(pattern) {
        Ok(re) => Some(RegexAutomaton { re }),
        Err(_) => None,
    }
}

/// A regular expression and the pattern it was compiled from.  The fields
/// are private and `compile_regex` is the only place that makes one, from
/// the automaton compiled from the pattern it stores; `find_matches` relies
/// on that pairing.
pub struct CompiledRegex {
    pattern: String,
    automaton: RegexAutomaton,
}

impl View for CompiledRegex {
    type V = Seq<char>;

    /// The pattern.
    closed spec fn view(&self) -> Seq<char> {
        self.pattern@
    }
}

/// Compiles a pattern, if the regex crate accepts it.
pub fn compile_regex(pattern: &str) -> (r: Option<CompiledRegex>)
    ensures
        r is Some == pattern_compiles(pattern@),
        r matches Some(re) ==> re@ == pattern@,
{
    match compile_automaton(pattern) {
        Some(automaton) => Some(CompiledRegex { pattern: pattern.to_owned(), automaton }),
        None => None,
    }
}

/// Matches as `find_iter` yields them: each within the text and starting no
/// earlier than the previous one ended.
pub open spec fn in_order(ms: Seq<(usize, usize)>, len: int) -> bool {
    &&& forall|i: int| 0 <= i < ms.len() ==> #[trigger] ms[i].0 <= ms[i].1 <= len
    &&& forall|i: int, j: int| 0 <= i < j < ms.len() ==> #[trigger] ms[i].1 <= #[trigger] ms[j].0
}

/// Calls `Regex::find_iter` on the bytes and collects the matches.  Trusted
/// to give the matches named for the pattern and text, which, as the
/// source shows (each search starts where the last match ended, and a match
/// found from a position starts there or later), are in order.
#[verifier::external_body]
fn find_matches(re: &CompiledRegex, text: &[u8]) -> (r: Vec<(usize, usize)>)
    ensures
        r@ == regex_find_all(re@, text@),
        in_order(r@, text@.len() as int),
{
    re.automaton.re.find_iter(text).collect()
}

/// Where the `k`th match before the current one ended; 0 before any match.
pub open spec fn match_end(ms: Seq<(usize, usize)>, k: int) -> int {
    if k <= 0 {
        0
    } else {
        ms[k - 1].1 as int
    }
}

/// The text up to the end of the `k`th match, with the first `k` matches
/// replaced.
pub open spec fn spliced_prefix(b: Seq<u8>, ms: Seq<(usize, usize)>, rep: Seq<u8>, k: nat) -> Seq<u8>
    decreases k,
{
    if k == 0 {
        seq![]
    } else {
        spliced_prefix(b, ms, rep, (k - 1) as nat) + b.subrange(match_end(ms, k - 1), ms[k - 1].0 as int) + rep
    }
}

/// The text with each match replaced by `rep`; unchanged when no match ends
/// past its start.
pub open spec fn replaced(b: Seq<u8>, ms: Seq<(usize, usize)>, rep: Seq<u8>) -> Seq<u8> {
    if match_end(ms, ms.len() as int) == 0 {
        b
    } else {
        spliced_prefix(b, ms, rep, ms.len()) + b.subrange(match_end(ms, ms.len() as int), b.len() as int)
    }
}

proof fn lemma_valid_between(b: Seq<u8>, start: int, end: int)
    requires
        valid_utf8(b),
        0 <= start <= end <= b.len(),
        is_char_boundary(b, start),
        is_char_boundary(b, end),
    ensures
        valid_utf8(b.subrange(start, end)),
{
    valid_utf8_split(b, start);
    let tail = b.subrange(start, b.len() as int);
    if end < b.len() {
        is_char_boundary_iff_not_is_continuation_byte(b, end);
        is_char_boundary_iff_not_is_continuation_byte(tail, end - start);
        assert(tail[end - start] == b[end]);
    } else {
        is_char_boundary_start_end_of_seq(tail);
    }
    valid_utf8_split(tail, end - start);
    assert(tail.subrange(0, end - start) =~= b.subrange(start, end));
}

/// Appends `b[start..end]`.
fn push_bytes(out: &mut Vec<u8>, b: &[u8], start: usize, end: usize)
    requires
        start <= end <= b@.len(),
    ensures
        final(out)@ == old(out)@ + b@.subrange(start as int, end as int),
{
    let ghost base = out@;
    let mut k = start;
    while k < end
        invariant
            start <= k <= end <= b@.len(),
            out@ == base + b@.subrange(start as int, k as int),
        decreases end - k,
    {
        out.push(b[k]);
        k = k + 1;
        assert(out@ =~= base + b@.subrange(start as int, k as int));
    }
}

/// Replaces the given matches, which lie on character boundaries, by
/// `replacement`.
pub fn replace_ranges(text: &str, ms: &Vec<(usize, usize)>, replacement: &str) -> (r: String)
    requires
        in_order(ms@, text.spec_bytes().len() as int),
        forall|i: int| 0 <= i < ms@.len() ==> is_char_boundary(text.spec_bytes(), #[trigger] ms@[i].0 as int)
            && is_char_boundary(text.spec_bytes(), ms@[i].1 as int),
    ensures
        encode_utf8(r@) == replaced(text.spec_bytes(), ms@, replacement.spec_bytes()),
{
    let b = text.as_bytes();
    let rep = replacement.as_bytes();
    let ghost bs = text.spec_bytes();
    proof {
        encode_utf8_valid_utf8(text@);
        encode_utf8_valid_utf8(replacement@);
        is_char_boundary_start_end_of_seq(bs);
    }
    let mut out: Vec<u8> = Vec::new();
    let mut prev: usize = 0;
    let mut k: usize = 0;
    while k < ms.len()
        invariant
            b@ == bs,
            rep@ == replacement.spec_bytes(),
            valid_utf8(bs),
            valid_utf8(rep@),
            in_order(ms@, bs.len() as int),
            forall|i: int| 0 <= i < ms@.len() ==> is_char_boundary(bs, #[trigger] ms@[i].0 as int)
                && is_char_boundary(bs, ms@[i].1 as int),
            is_char_boundary(bs, 0),
            k <= ms@.len(),
            prev == match_end(ms@, k as int),
            prev <= bs.len(),
            is_char_boundary(bs, prev as int),
            out@ == spliced_prefix(bs, ms@, rep@, k as nat),
            valid_utf8(out@),
        decreases ms@.len() - k,
    {
        let (start, end) = ms[k];
        proof {
            if k > 0 {
                assert(ms@[k - 1].1 <= ms@[k as int].0);
            }
            assert(is_char_boundary(bs, ms@[k as int].0 as int));
            lemma_valid_between(bs, prev as int, start as int);
        }
        let ghost before = out@;
        push_bytes(&mut out, b, prev, start);
        let mut i: usize = 0;
        let ghost mid = out@;
        while i < rep.len()
            invariant
                i <= rep@.len(),
                out@ == mid + rep@.subrange(0, i as int),
            decreases rep@.len() - i,
        {
            out.push(rep[i]);
            i = i + 1;
            assert(out@ =~= mid + rep@.subrange(0, i as int));
        }
        proof {
            assert(rep@.subrange(0, rep@.len() as int) =~= rep@);
            valid_utf8_concat(before, bs.subrange(prev as int, start as int));
            valid_utf8_concat(mid, rep@);
        }
        prev = end;
        k = k + 1;
    }
    if prev == 0 {
        return text.to_owned();
    }
    let ghost before = out@;
    proof {
        is_char_boundary_start_end_of_seq(bs);
        lemma_valid_between(bs, prev as int, bs.len() as int);
        valid_utf8_concat(before, bs.subrange(prev as int, bs.len() as int));
    }
    push_bytes(&mut out, b, prev, b.len());
    match string_from_utf8(out.as_slice()) {
        Some(s) => {
            proof {
                decode_utf8_encode_utf8(out@);
            }
            s
        },
        None => text.to_owned(),
    }
}
/// Whether a match starts and ends on character boundaries of `b`.
pub open spec fn match_on_boundaries(b: Seq<u8>, m: (usize, usize)) -> bool {
    is_char_boundary(b, m.0 as int) && is_char_boundary(b, m.1 as int)
}

/// Whether every match starts and ends on character boundaries of `b`.
pub open spec fn on_boundaries(b: Seq<u8>, ms: Seq<(usize, usize)>) -> bool {
    forall|i: int| 0 <= i < ms.len() ==> #[trigger] match_on_boundaries(b, ms[i])
}

/// `t` with the matches `ms` (byte ranges of its UTF-8 encoding) replaced by
/// `rep`; `t` itself if a match splits a character.
pub open spec fn replace_matches(t: Seq<char>, ms: Seq<(usize, usize)>, rep: Seq<char>) -> Seq<char> {
    if on_boundaries(encode_utf8(t), ms) {
        decode_utf8(replaced(encode_utf8(t), ms, encode_utf8(rep)))
    } else {
        t
    }
}

fn all_on_boundaries(text: &str, ms: &Vec<(usize, usize)>) -> (r: bool)
    ensures
        r == on_boundaries(text.spec_bytes(), ms@),
{
    let mut k: usize = 0;
    while k < ms.len()
        invariant
            k <= ms@.len(),
            forall|i: int| 0 <= i < k ==> #[trigger] match_on_boundaries(text.spec_bytes(), ms@[i]),
        decreases ms@.len() - k,
    {
        let (start, end) = ms[k];
        if !text.is_char_boundary(start) || !text.is_char_boundary(end) {
            assert(!match_on_boundaries(text.spec_bytes(), ms@[k as int]));
            return false;
        }
        assert(match_on_boundaries(text.spec_bytes(), ms@[k as int]));
        k = k + 1;
    }
    true
}

/// Replaces every match of `re` in `text` by `replacement`.  The matches are
/// those the regex finds, in order and not overlapping; if one of them split
/// a character, the text comes back unchanged.
pub fn replace_all(text: &str, re: &CompiledRegex, replacement: &str) -> (r: String)
    ensures
        r@ == replace_matches(text@, regex_find_all(re@, encode_utf8(text@)), replacement@),
{
    let ms = find_matches(re, text.as_bytes());
    if all_on_boundaries(text, &ms) {
        assert forall|i: int| 0 <= i < ms@.len() implies is_char_boundary(text.spec_bytes(), #[trigger] ms@[i].0 as int)
            && is_char_boundary(text.spec_bytes(), ms@[i].1 as int) by {
            assert(match_on_boundaries(text.spec_bytes(), ms@[i]));
        }
        let r = replace_ranges(text, &ms, replacement);
        proof {
            encode_utf8_decode_utf8(r@);
        }
        r
    } else {
        text.to_owned()
    }
}

/// The IPv6 address pattern: full, zero-compressed, link-local with a zone
/// index, IPv4-embedded, IPv4-mapped and IPv4-translated addresses.
pub open spec fn ipv6_pattern() -> Seq<char> {
    "[Ff][Ee]80:(:[0-9a-fA-F]{0,4}){0,4}%[0-9a-zA-Z]{1,}|(::)?([0-9a-fA-F]{1,4}:){1,4}:((25[0-5]|(2[0-4]|1{0,1}[0-9]){0,1}[0-9])\\.){3,3}(25[0-5]|(2[0-4]|1{0,1}[0-9]){0,1}[0-9])|([0-9a-fA-F]{1,4}:){7,7}[0-9a-fA-F]{1,4}|([0-9a-fA-F]{1,4}:){1,1}(:[0-9a-fA-F]{1,4}){1,6}|([0-9a-fA-F]{1,4}:){1,2}(:[0-9a-fA-F]{1,4}){1,5}|([0-9a-fA-F]{1,4}:){1,3}(:[0-9a-fA-F]{1,4}){1,4}|([0-9a-fA-F]{1,4}:){1,4}(:[0-9a-fA-F]{1,4}){1,3}|([0-9a-fA-F]{1,4}:){1,5}(:[0-9a-fA-F]{1,4}){1,2}|([0-9a-fA-F]{1,4}:){1,6}:[0-9a-fA-F]{1,4}|([0-9a-fA-F]{1,4}:){1,7}:|::([fF]{4}(:0{1,4}){0,1}:){0,1}((25[0-5]|(2[0-4]|1{0,1}[0-9]){0,1}[0-9])\\.){3,3}(25[0-5]|(2[0-4]|1{0,1}[0-9]){0,1}[0-9])|:((:[0-9a-fA-F]{1,4}){1,7}|:)"@
}

/// The IPv4 address pattern.
pub open spec fn ipv4_pattern() -> Seq<char> {
    "(((25[0-5])|(2[0-4][0-9])|([0-1][0-9]{2,2})|([0-9]{1,2}))\\.){3,3}((25[0-5])|(2[0-4][0-9])|([0-1][0-9]{2,2})|([0-9]{1,2}))"@
}

/// What an IPv6 address is replaced with.
pub open spec fn ipv6_replacement() -> Seq<char> {
    "[REDACTED ipv6]"@
}

/// What an IPv4 address is replaced with.
pub open spec fn ipv4_replacement() -> Seq<char> {
    "[REDACTED ipv4]"@
}

/// The text with IPv6 addresses replaced.
pub open spec fn redact_ipv6_text(t: Seq<char>) -> Seq<char> {
    replace_matches(t, regex_find_all(ipv6_pattern(), encode_utf8(t)), ipv6_replacement())
}

/// The text with IPv4 addresses replaced.
pub open spec fn redact_ipv4_text(t: Seq<char>) -> Seq<char> {
    replace_matches(t, regex_find_all(ipv4_pattern(), encode_utf8(t)), ipv4_replacement())
}

/// The text scrubbed for public logs: ICE passwords, then IPv6 addresses,
/// then IPv4 addresses.
pub open spec fn redact_text(t: Seq<char>) -> Seq<char> {
    redact_ipv4_text(redact_ipv6_text(redact_ice_text(t)))
}

/// The compiled address patterns.
pub struct Redactor {
    ipv6: CompiledRegex,
    ipv4: CompiledRegex,
}

impl Redactor {
    #[verifier::type_invariant]
    spec fn compiled_patterns(self) -> bool {
        &&& self.ipv6@ == ipv6_pattern()
        &&& self.ipv4@ == ipv4_pattern()
    }

    /// Compiles the address patterns.
    pub fn new() -> (r: Option<Redactor>)
        ensures
            r is Some == (pattern_compiles(ipv6_pattern()) && pattern_compiles(ipv4_pattern())),
    {
        let ipv6 = compile_regex(
            "[Ff][Ee]80:(:[0-9a-fA-F]{0,4}){0,4}%[0-9a-zA-Z]{1,}|(::)?([0-9a-fA-F]{1,4}:){1,4}:((25[0-5]|(2[0-4]|1{0,1}[0-9]){0,1}[0-9])\\.){3,3}(25[0-5]|(2[0-4]|1{0,1}[0-9]){0,1}[0-9])|([0-9a-fA-F]{1,4}:){7,7}[0-9a-fA-F]{1,4}|([0-9a-fA-F]{1,4}:){1,1}(:[0-9a-fA-F]{1,4}){1,6}|([0-9a-fA-F]{1,4}:){1,2}(:[0-9a-fA-F]{1,4}){1,5}|([0-9a-fA-F]{1,4}:){1,3}(:[0-9a-fA-F]{1,4}){1,4}|([0-9a-fA-F]{1,4}:){1,4}(:[0-9a-fA-F]{1,4}){1,3}|([0-9a-fA-F]{1,4}:){1,5}(:[0-9a-fA-F]{1,4}){1,2}|([0-9a-fA-F]{1,4}:){1,6}:[0-9a-fA-F]{1,4}|([0-9a-fA-F]{1,4}:){1,7}:|::([fF]{4}(:0{1,4}){0,1}:){0,1}((25[0-5]|(2[0-4]|1{0,1}[0-9]){0,1}[0-9])\\.){3,3}(25[0-5]|(2[0-4]|1{0,1}[0-9]){0,1}[0-9])|:((:[0-9a-fA-F]{1,4}){1,7}|:)",
        );
        let ipv4 = compile_regex(
            "(((25[0-5])|(2[0-4][0-9])|([0-1][0-9]{2,2})|([0-9]{1,2}))\\.){3,3}((25[0-5])|(2[0-4][0-9])|([0-1][0-9]{2,2})|([0-9]{1,2}))",
        );
        match (ipv6, ipv4) {
            (Some(ipv6), Some(ipv4)) => Some(Redactor { ipv6, ipv4 }),
            _ => None,
        }
    }

    /// Replaces IPv6 addresses.
    pub fn redact_ipv6(&self, text: &str) -> (r: String)
        ensures
            r@ == redact_ipv6_text(text@),
    {
        proof {
            use_type_invariant(self);
        }
        replace_all(text, &self.ipv6, "[REDACTED ipv6]")
    }

    /// Replaces IPv4 addresses.
    pub fn redact_ipv4(&self, text: &str) -> (r: String)
        ensures
            r@ == redact_ipv4_text(text@),
    {
        proof {
            use_type_invariant(self);
        }
        replace_all(text, &self.ipv4, "[REDACTED ipv4]")
    }

    /// Scrubs ICE passwords, then IPv6 addresses, then IPv4 addresses.
    pub fn redact_string(&self, text: &str) -> (r: String)
        ensures
            r@ == redact_text(text@),
    {
        let a = redact_ice_password(text);
        let b = self.redact_ipv6(&a);
        self.redact_ipv4(&b)
    }
}

/// Scrubs sensitive values from text for public logs (see `redact_text`).
/// Should the address patterns not compile, only ICE passwords are scrubbed.
pub fn redact_string(text: &str) -> (r: String)
    ensures
        r@ == if pattern_compiles(ipv6_pattern()) && pattern_compiles(ipv4_pattern()) {
            redact_text(text@)
        } else {
            redact_ice_text(text@)
        },
{
    match Redactor::new() {
        Some(redactor) => redactor.redact_string(text),
        None => redact_ice_password(text),
    }
}
} // verus!
