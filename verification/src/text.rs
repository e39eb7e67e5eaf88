//! Verified character-level string utilities that the parsers build on.
//!
//! Every function is specified against a spec-level definition over the
//! string's sequence of characters.

use vstd::prelude::*;
use vstd::string::*;

verus! {

// ---------------------------------------------------------------------------
// Characters
// ---------------------------------------------------------------------------

/// ASCII lower-casing of a single character; all other characters unchanged.
pub open spec fn lower_char(c: char) -> char {
    match c {
        'A' => 'a',
        'B' => 'b',
        'C' => 'c',
        'D' => 'd',
        'E' => 'e',
        'F' => 'f',
        'G' => 'g',
        'H' => 'h',
        'I' => 'i',
        'J' => 'j',
        'K' => 'k',
        'L' => 'l',
        'M' => 'm',
        'N' => 'n',
        'O' => 'o',
        'P' => 'p',
        'Q' => 'q',
        'R' => 'r',
        'S' => 's',
        'T' => 't',
        'U' => 'u',
        'V' => 'v',
        'W' => 'w',
        'X' => 'x',
        'Y' => 'y',
        'Z' => 'z',
        _ => c,
    }
}

/// ASCII lower-casing of a whole character sequence.
pub open spec fn lower_spec(s: Seq<char>) -> Seq<char> {
    s.map_values(|c: char| lower_char(c))
}

/// ASCII whitespace, the characters that trimming removes.
pub open spec fn is_space_char(c: char) -> bool {
    c == ' ' || c == '\t' || c == '\r' || c == '\n'
}

/// Relies on std's String::push: appends one character at the end.
#[verifier::external_body]
pub fn push_char(s: &mut String, c: char)
    ensures
        final(s)@ == old(s)@.push(c),
{
    s.push(c);
}

pub fn char_to_lower(c: char) -> (r: char)
    ensures
        r == lower_char(c),
{
    match c {
        'A' => 'a',
        'B' => 'b',
        'C' => 'c',
        'D' => 'd',
        'E' => 'e',
        'F' => 'f',
        'G' => 'g',
        'H' => 'h',
        'I' => 'i',
        'J' => 'j',
        'K' => 'k',
        'L' => 'l',
        'M' => 'm',
        'N' => 'n',
        'O' => 'o',
        'P' => 'p',
        'Q' => 'q',
        'R' => 'r',
        'S' => 's',
        'T' => 't',
        'U' => 'u',
        'V' => 'v',
        'W' => 'w',
        'X' => 'x',
        'Y' => 'y',
        'Z' => 'z',
        _ => c,
    }
}

pub fn char_is_space(c: char) -> (r: bool)
    ensures
        r == is_space_char(c),
{
    c == ' ' || c == '\t' || c == '\r' || c == '\n'
}

// ---------------------------------------------------------------------------
// Whole-string operations
// ---------------------------------------------------------------------------

#[verifier::loop_isolation(false)]
pub fn to_lowercase(s: &str) -> (r: String)
    ensures
        r@ == lower_spec(s@),
{
    let n = s.unicode_len();
    let mut r = String::new();
    let mut i: usize = 0;
    while i < n
        invariant
            i <= n,
            r@ == lower_spec(s@).take(i as int),
        decreases n - i,
    {
        let c = s.get_char(i);
        let lc = char_to_lower(c);
        push_char(&mut r, lc);
        proof {
            assert(lower_spec(s@).take(i + 1) =~= lower_spec(s@).take(i as int).push(lc));
        }
        i = i + 1;
    }
    proof {
        assert(lower_spec(s@).take(n as int) =~= lower_spec(s@));
    }
    r
}

#[verifier::loop_isolation(false)]
pub fn str_eq(a: &str, b: &str) -> (r: bool)
    ensures
        r == (a@ == b@),
{
    let n = a.unicode_len();
    if n != b.unicode_len() {
        return false;
    }
    let mut i: usize = 0;
    while i < n
        invariant
            i <= n,
            forall|j: int| 0 <= j < i ==> a@[j] == b@[j],
        decreases n - i,
    {
        if a.get_char(i) != b.get_char(i) {
            return false;
        }
        i = i + 1;
    }
    proof {
        assert(a@ =~= b@);
    }
    true
}

pub fn starts_with_char(s: &str, c: char) -> (r: bool)
    ensures
        r == (s@.len() > 0 && s@[0] == c),
{
    let n = s.unicode_len();
    n > 0 && s.get_char(0) == c
}

pub fn ends_with_char(s: &str, c: char) -> (r: bool)
    ensures
        r == (s@.len() > 0 && s@[s@.len() - 1] == c),
{
    let n = s.unicode_len();
    n > 0 && s.get_char(n - 1) == c
}

#[verifier::loop_isolation(false)]
pub fn starts_with_str(s: &str, prefix: &str) -> (r: bool)
    ensures
        r == (s@.len() >= prefix@.len() && s@.take(prefix@.len() as int) == prefix@),
{
    let n = s.unicode_len();
    let p = prefix.unicode_len();
    if n < p {
        proof {
            assert(s@.len() < prefix@.len());
        }
        return false;
    }
    let mut i: usize = 0;
    while i < p
        invariant
            i <= p,
            forall|j: int| 0 <= j < i ==> s@[j] == prefix@[j],
        decreases p - i,
    {
        if s.get_char(i) != prefix.get_char(i) {
            proof {
                assert(s@.take(prefix@.len() as int)[i as int] != prefix@[i as int]);
            }
            return false;
        }
        i = i + 1;
    }
    proof {
        assert(s@.take(prefix@.len() as int) =~= prefix@);
    }
    true
}

#[verifier::loop_isolation(false)]
pub fn ends_with_str(s: &str, suffix: &str) -> (r: bool)
    ensures
        r == (s@.len() >= suffix@.len() && s@.skip(s@.len() - suffix@.len()) == suffix@),
{
    let n = s.unicode_len();
    let p = suffix.unicode_len();
    if n < p {
        proof {
            assert(s@.len() < suffix@.len());
        }
        return false;
    }
    let base = n - p;
    let mut i: usize = 0;
    while i < p
        invariant
            i <= p,
            base == n - p,
            forall|j: int| 0 <= j < i ==> s@[base + j] == suffix@[j],
        decreases p - i,
    {
        if s.get_char(base + i) != suffix.get_char(i) {
            proof {
                assert(s@.skip(s@.len() - suffix@.len())[i as int] != suffix@[i as int]);
            }
            return false;
        }
        i = i + 1;
    }
    proof {
        assert(s@.skip(s@.len() - suffix@.len()) =~= suffix@);
    }
    true
}

// ---------------------------------------------------------------------------
// Trimming of ASCII whitespace
// ---------------------------------------------------------------------------

pub open spec fn trim_start_spec(s: Seq<char>) -> Seq<char>
    decreases s.len(),
{
    if s.len() > 0 && is_space_char(s[0]) {
        trim_start_spec(s.drop_first())
    } else {
        s
    }
}

pub open spec fn trim_end_spec(s: Seq<char>) -> Seq<char>
    decreases s.len(),
{
    if s.len() > 0 && is_space_char(s[s.len() - 1]) {
        trim_end_spec(s.drop_last())
    } else {
        s
    }
}

/// What trimming a string means: leading and trailing ASCII whitespace removed.
pub open spec fn trim_spec(s: Seq<char>) -> Seq<char> {
    trim_end_spec(trim_start_spec(s))
}

proof fn lemma_trim_start_skip(s: Seq<char>, k: int)
    requires
        0 <= k <= s.len(),
        forall|j: int| 0 <= j < k ==> is_space_char(s[j]),
        k == s.len() || !is_space_char(s[k]),
    ensures
        trim_start_spec(s) == s.skip(k),
    decreases k,
{
    if k == 0 {
        assert(s.skip(0) =~= s);
    } else {
        let t = s.drop_first();
        assert(forall|j: int| 0 <= j < k - 1 ==> is_space_char(#[trigger] t[j]));
        lemma_trim_start_skip(t, k - 1);
        assert(t.skip(k - 1) =~= s.skip(k));
    }
}

proof fn lemma_trim_end_take(s: Seq<char>, k: int)
    requires
        0 <= k <= s.len(),
        forall|j: int| k <= j < s.len() ==> is_space_char(s[j]),
        k == 0 || !is_space_char(s[k - 1]),
    ensures
        trim_end_spec(s) == s.take(k),
    decreases s.len() - k,
{
    if k == s.len() {
        if s.len() > 0 && is_space_char(s[s.len() - 1]) {
            assert(!is_space_char(s[k - 1]));
        }
        assert(s.take(k) =~= s);
    } else {
        let t = s.drop_last();
        assert(is_space_char(s[s.len() - 1]));
        assert(forall|j: int| k <= j < t.len() ==> is_space_char(#[trigger] t[j]));
        lemma_trim_end_take(t, k);
        assert(t.take(k) =~= s.take(k));
    }
}

#[verifier::loop_isolation(false)]
pub fn trim(s: &str) -> (r: String)
    ensures
        r@ == trim_spec(s@),
{
    let n = s.unicode_len();
    let mut lo: usize = 0;
    while lo < n && char_is_space(s.get_char(lo))
        invariant
            lo <= n,
            forall|j: int| 0 <= j < lo ==> is_space_char(s@[j]),
        decreases n - lo,
    {
        lo = lo + 1;
    }
    proof {
        lemma_trim_start_skip(s@, lo as int);
    }
    let mut hi: usize = n;
    while hi > lo && char_is_space(s.get_char(hi - 1))
        invariant
            lo <= hi <= n,
            forall|j: int| hi <= j < n ==> is_space_char(s@[j]),
        decreases hi,
    {
        hi = hi - 1;
    }
    proof {
        let t = s@.skip(lo as int);
        assert(forall|j: int| hi - lo <= j < t.len() ==> is_space_char(#[trigger] t[j]));
        if hi - lo > 0 {
            assert(t[hi - lo - 1] == s@[hi as int - 1]);
        }
        lemma_trim_end_take(t, hi - lo);
        assert(t.take(hi - lo) =~= s@.subrange(lo as int, hi as int));
    }
    let part = s.substring_char(lo, hi);
    String::from_str(part)
}

// ---------------------------------------------------------------------------
// Splitting on a separator character
// ---------------------------------------------------------------------------

/// Splitting on a separator, as str::split does for a single-character
/// pattern: the empty string yields one empty segment, and each separator
/// starts a new segment.
pub open spec fn split_spec(s: Seq<char>, sep: char) -> Seq<Seq<char>>
    decreases s.len(),
{
    if s.len() == 0 {
        seq![Seq::<char>::empty()]
    } else if s[0] == sep {
        seq![Seq::<char>::empty()] + split_spec(s.drop_first(), sep)
    } else {
        let rest = split_spec(s.drop_first(), sep);
        seq![seq![s[0]] + rest[0]] + rest.drop_first()
    }
}

pub proof fn lemma_split_len(s: Seq<char>, sep: char)
    ensures
        split_spec(s, sep).len() >= 1,
    decreases s.len(),
{
    if s.len() > 0 {
        lemma_split_len(s.drop_first(), sep);
    }
}

proof fn lemma_split_push(s: Seq<char>, sep: char, c: char)
    ensures
        c == sep ==> split_spec(s.push(c), sep) == split_spec(s, sep).push(
            Seq::<char>::empty(),
        ),
        c != sep ==> split_spec(s.push(c), sep) == split_spec(s, sep).update(
            split_spec(s, sep).len() - 1,
            split_spec(s, sep).last().push(c),
        ),
    decreases s.len(),
{
    lemma_split_len(s, sep);
    let base = split_spec(s, sep);
    if s.len() == 0 {
        let u = s.push(c);
        assert(u.len() == 1 && u[0] == c);
        assert(u.drop_first() =~= Seq::<char>::empty());
        assert(split_spec(Seq::<char>::empty(), sep) == seq![Seq::<char>::empty()]);
        if c == sep {
            assert(split_spec(u, sep) =~= base.push(Seq::<char>::empty()));
        } else {
            assert(seq![u[0]] + split_spec(u.drop_first(), sep)[0] =~= seq![c]);
            assert(Seq::<char>::empty().push(c) =~= seq![c]);
            assert(split_spec(u, sep) =~= base.update(base.len() - 1, base.last().push(c)));
        }
    } else {
        let u = s.push(c);
        assert(u[0] == s[0]);
        assert(u.drop_first() =~= s.drop_first().push(c));
        lemma_split_push(s.drop_first(), sep, c);
        lemma_split_len(s.drop_first(), sep);
        let rest = split_spec(s.drop_first(), sep);
        let restu = split_spec(u.drop_first(), sep);
        if s[0] == sep {
            if c == sep {
                assert(split_spec(u, sep) =~= base.push(Seq::<char>::empty()));
            } else {
                assert(restu == rest.update(rest.len() - 1, rest.last().push(c)));
                assert(restu[0] == if rest.len() == 1 {
                    rest.last().push(c)
                } else {
                    rest[0]
                });
                assert(split_spec(u, sep) =~= base.update(base.len() - 1, base.last().push(c)));
            }
        } else {
            if c == sep {
                assert(restu == rest.push(Seq::<char>::empty()));
                assert(restu[0] == rest[0]);
                assert(restu.drop_first() =~= rest.drop_first().push(Seq::<char>::empty()));
                assert(split_spec(u, sep) =~= base.push(Seq::<char>::empty()));
            } else {
                assert(restu == rest.update(rest.len() - 1, rest.last().push(c)));
                assert(restu[0] == if rest.len() == 1 {
                    rest.last().push(c)
                } else {
                    rest[0]
                });
                if rest.len() == 1 {
                    assert(base =~= seq![seq![s[0]] + rest[0]]);
                    assert(seq![u[0]] + restu[0] =~= (seq![s[0]] + rest[0]).push(c));
                    assert(split_spec(u, sep) =~= base.update(
                        base.len() - 1,
                        base.last().push(c),
                    ));
                } else {
                    assert(restu.drop_first() =~= rest.drop_first().update(
                        rest.drop_first().len() - 1,
                        rest.drop_first().last().push(c),
                    ));
                    assert(seq![u[0]] + restu[0] =~= seq![s[0]] + rest[0]);
                    assert(split_spec(u, sep) =~= base.update(
                        base.len() - 1,
                        base.last().push(c),
                    ));
                }
            }
        }
    }
}

#[verifier::loop_isolation(false)]
pub fn split_char(s: &str, sep: char) -> (r: Vec<String>)
    ensures
        r.deep_view() == split_spec(s@, sep),
{
    let n = s.unicode_len();
    let mut done: Vec<String> = Vec::new();
    let mut cur: String = String::new();
    let mut i: usize = 0;
    proof {
        assert(done.deep_view().push(cur@) =~= split_spec(s@.take(0), sep));
    }
    while i < n
        invariant
            i <= n,
            done.deep_view().push(cur@) == split_spec(s@.take(i as int), sep),
        decreases n - i,
    {
        let c = s.get_char(i);
        proof {
            assert(s@.take(i + 1) =~= s@.take(i as int).push(s@[i as int]));
            lemma_split_push(s@.take(i as int), sep, c);
            lemma_split_len(s@.take(i as int), sep);
        }
        if c == sep {
            done.push(cur);
            cur = String::new();
            proof {
                assert(done.deep_view().push(cur@) =~= split_spec(s@.take(i + 1), sep));
            }
        } else {
            push_char(&mut cur, c);
            proof {
                let prev = split_spec(s@.take(i as int), sep);
                assert(done.deep_view().push(cur@) =~= prev.update(
                    prev.len() - 1,
                    prev.last().push(c),
                ));
            }
        }
        i = i + 1;
    }
    done.push(cur);
    proof {
        assert(s@.take(n as int) =~= s@);
    }
    done
}

// ---------------------------------------------------------------------------
// Splitting into lines
// ---------------------------------------------------------------------------

pub open spec fn strip_cr_spec(t: Seq<char>) -> Seq<char> {
    if t.len() > 0 && t[t.len() - 1] == '\r' {
        t.drop_last()
    } else {
        t
    }
}

/// The lines of a text, as str::lines yields them: split on newlines, a
/// carriage return before a newline stripped, and no final empty line for a
/// text that ends with a newline.
pub open spec fn lines_spec(s: Seq<char>) -> Seq<Seq<char>> {
    let raw = split_spec(s, '\n');
    let main = raw.take(raw.len() - 1).map_values(|t: Seq<char>| strip_cr_spec(t));
    if raw.last().len() == 0 {
        main
    } else {
        main.push(raw.last())
    }
}

fn strip_cr(t: &String) -> (r: String)
    ensures
        r@ == strip_cr_spec(t@),
{
    let n = t.as_str().unicode_len();
    if n > 0 && t.as_str().get_char(n - 1) == '\r' {
        let r = t.as_str().substring_char(0, n - 1);
        proof {
            assert(r@ =~= t@.drop_last());
        }
        String::from_str(r)
    } else {
        let r = t.as_str();
        String::from_str(r)
    }
}

#[verifier::loop_isolation(false)]
pub fn lines(s: &str) -> (r: Vec<String>)
    ensures
        r.deep_view() == lines_spec(s@),
{
    let raw = split_char(s, '\n');
    proof {
        lemma_split_len(s@, '\n');
    }
    let mut r: Vec<String> = Vec::new();
    let last = raw.len() - 1;
    let mut i: usize = 0;
    while i < last
        invariant
            i <= last,
            last == raw.deep_view().len() - 1,
            r.deep_view() == raw.deep_view().take(raw.deep_view().len() - 1).map_values(
                |t: Seq<char>| strip_cr_spec(t),
            ).take(i as int),
        decreases last - i,
    {
        let piece = strip_cr(&raw[i]);
        r.push(piece);
        proof {
            let all = raw.deep_view().take(raw.deep_view().len() - 1).map_values(
                |t: Seq<char>| strip_cr_spec(t),
            );
            assert(all.take(i + 1) =~= all.take(i as int).push(all[i as int]));
        }
        i = i + 1;
    }
    let tail = &raw[last];
    if tail.as_str().unicode_len() > 0 {
        let piece = String::from_str(tail.as_str());
        r.push(piece);
    }
    proof {
        let all = raw.deep_view().take(raw.deep_view().len() - 1).map_values(
            |t: Seq<char>| strip_cr_spec(t),
        );
        assert(all.take(last as int) =~= all);
        assert(raw.deep_view().last() == raw.deep_view()[last as int]);
    }
    r
}

// ---------------------------------------------------------------------------
// Joining with a newline
// ---------------------------------------------------------------------------

/// Joining segments with a single newline between them, as
/// [_]::join("\n") does.
pub open spec fn join_nl_spec(parts: Seq<Seq<char>>) -> Seq<char>
    decreases parts.len(),
{
    if parts.len() == 0 {
        Seq::<char>::empty()
    } else if parts.len() == 1 {
        parts[0]
    } else {
        parts[0].push('\n') + join_nl_spec(parts.drop_first())
    }
}

proof fn lemma_join_push(parts: Seq<Seq<char>>, p: Seq<char>)
    ensures
        parts.len() == 0 ==> join_nl_spec(parts.push(p)) == p,
        parts.len() > 0 ==> join_nl_spec(parts.push(p)) == join_nl_spec(parts).push('\n') + p,
    decreases parts.len(),
{
    if parts.len() == 0 {
        assert(parts.push(p)[0] =~= p);
    } else if parts.len() == 1 {
        let u = parts.push(p);
        assert(u.len() == 2);
        assert(u[0] == parts[0]);
        assert(u.drop_first() =~= seq![p]);
        assert(join_nl_spec(u.drop_first()) == p);
        assert(join_nl_spec(u) =~= parts[0].push('\n') + p);
    } else {
        assert(parts.push(p).drop_first() =~= parts.drop_first().push(p));
        lemma_join_push(parts.drop_first(), p);
        assert(join_nl_spec(parts.push(p)) =~= join_nl_spec(parts).push('\n') + p);
    }
}

#[verifier::loop_isolation(false)]
pub fn join_nl(parts: &Vec<String>) -> (r: String)
    ensures
        r@ == join_nl_spec(parts.deep_view()),
{
    let mut r = String::new();
    let mut i: usize = 0;
    while i < parts.len()
        invariant
            i <= parts.len(),
            r@ == join_nl_spec(parts.deep_view().take(i as int)),
        decreases parts.len() - i,
    {
        proof {
            assert(parts.deep_view().take(i + 1) =~= parts.deep_view().take(i as int).push(
                parts.deep_view()[i as int],
            ));
            lemma_join_push(parts.deep_view().take(i as int), parts.deep_view()[i as int]);
        }
        if i > 0 {
            push_char(&mut r, '\n');
        }
        r.append(parts[i].as_str());
        i = i + 1;
    }
    proof {
        assert(parts.deep_view().take(parts.deep_view().len() as int) =~= parts.deep_view());
    }
    r
}

} // verus!
