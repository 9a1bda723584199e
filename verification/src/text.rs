//! Verified helpers over strings: equality, whitespace, ASCII classes,
//! substring search and replacement.

use vstd::prelude::*;
use vstd::assert_seqs_equal;

verus! {

/// Relies on String::push: appends exactly the given char.
#[verifier::external_body]
pub fn push_char(s: &mut String, c: char)
    ensures
        final(s)@ == old(s)@.push(c),
{
    s.push(c);
}

/// Char-by-char string equality, equivalent to `==` on the views.
pub fn str_eq(a: &str, b: &str) -> (r: bool)
    ensures
        r == (a@ == b@),
{
    let alen = a.unicode_len();
    let blen = b.unicode_len();
    if alen != blen {
        return false;
    }
    let mut i: usize = 0;
    while i < alen
        invariant
            alen == a@.len(),
            blen == b@.len(),
            alen == blen,
            i <= alen,
            forall|j: int| 0 <= j < i ==> a@[j] == b@[j],
        decreases alen - i,
    {
        let ca = a.get_char(i);
        let cb = b.get_char(i);
        if ca != cb {
            return false;
        }
        i = i + 1;
    }
    proof {
        assert(a@ =~= b@);
    }
    true
}

/// The Unicode White_Space class, as char::is_whitespace defines it.
pub open spec fn is_space(c: char) -> bool {
    c == ' ' || c == '\t' || c == '\n' || c == '\u{0B}' || c == '\u{0C}' || c == '\r'
        || c == '\u{85}' || c == '\u{A0}' || c == '\u{1680}'
        || ('\u{2000}' <= c && c <= '\u{200A}')
        || c == '\u{2028}' || c == '\u{2029}' || c == '\u{202F}' || c == '\u{205F}'
        || c == '\u{3000}'
}

pub fn is_whitespace_char(c: char) -> (r: bool)
    ensures
        r == is_space(c),
{
    c == ' ' || c == '\t' || c == '\n' || c == '\u{0B}' || c == '\u{0C}' || c == '\r'
        || c == '\u{85}' || c == '\u{A0}' || c == '\u{1680}'
        || ('\u{2000}' <= c && c <= '\u{200A}')
        || c == '\u{2028}' || c == '\u{2029}' || c == '\u{202F}' || c == '\u{205F}'
        || c == '\u{3000}'
}

pub open spec fn is_ascii_alnum(c: char) -> bool {
    ('a' <= c && c <= 'z') || ('A' <= c && c <= 'Z') || ('0' <= c && c <= '9')
}

pub fn is_ascii_alnum_char(c: char) -> (r: bool)
    ensures
        r == is_ascii_alnum(c),
{
    ('a' <= c && c <= 'z') || ('A' <= c && c <= 'Z') || ('0' <= c && c <= '9')
}

/// Uppercase for ASCII letters; other chars unchanged.
pub open spec fn spec_ascii_upper(c: char) -> char {
    match c {
        'a' => 'A', 'b' => 'B', 'c' => 'C', 'd' => 'D', 'e' => 'E', 'f' => 'F',
        'g' => 'G', 'h' => 'H', 'i' => 'I', 'j' => 'J', 'k' => 'K', 'l' => 'L',
        'm' => 'M', 'n' => 'N', 'o' => 'O', 'p' => 'P', 'q' => 'Q', 'r' => 'R',
        's' => 'S', 't' => 'T', 'u' => 'U', 'v' => 'V', 'w' => 'W', 'x' => 'X',
        'y' => 'Y', 'z' => 'Z',
        _ => c,
    }
}

/// What str::to_lowercase returns; a function of the chars alone.
pub uninterp spec fn lower_of(s: Seq<char>) -> Seq<char>;

/// Relies on str::to_lowercase: the result depends on the chars alone, and
/// an empty string stays empty.
#[verifier::external_body]
pub fn lowercase(s: &str) -> (r: String)
    ensures
        r@ == lower_of(s@),
        s@.len() == 0 ==> r@.len() == 0,
{
    s.to_lowercase()
}

/// The pattern `p` occurs in `s` at char position `i`.
pub open spec fn match_at(s: Seq<char>, p: Seq<char>, i: int) -> bool {
    0 <= i && i + p.len() <= s.len() && s.subrange(i, i + p.len() as int) == p
}

pub open spec fn has_match(s: Seq<char>, p: Seq<char>) -> bool {
    exists|i: int| match_at(s, p, i)
}

/// The least position where `p` occurs in `s`; meaningful when `has_match`.
pub open spec fn first_match(s: Seq<char>, p: Seq<char>) -> int {
    choose|i: int|
        match_at(s, p, i) && (forall|j: int| 0 <= j < i ==> !match_at(s, p, j))
}

proof fn lemma_first_match_unique(s: Seq<char>, p: Seq<char>, i: int)
    requires
        match_at(s, p, i),
        forall|j: int| 0 <= j < i ==> !match_at(s, p, j),
    ensures
        first_match(s, p) == i,
{
    let k = first_match(s, p);
    assert(match_at(s, p, i) && (forall|j: int| 0 <= j < i ==> !match_at(s, p, j)));
    assert(match_at(s, p, k) && (forall|j: int| 0 <= j < k ==> !match_at(s, p, j)));
    if k < i {
        assert(!match_at(s, p, k));
    } else if i < k {
        assert(!match_at(s, p, i));
    }
}

/// Whether `p` occurs at position `i` of `s`, by char comparison.
fn occurs_at(s: &str, p: &str, i: usize, slen: usize, plen: usize) -> (r: bool)
    requires
        slen == s@.len(),
        plen == p@.len(),
        i + plen <= slen,
    ensures
        r == match_at(s@, p@, i as int),
{
    let mut k: usize = 0;
    while k < plen
        invariant
            slen == s@.len(),
            plen == p@.len(),
            i + plen <= slen,
            k <= plen,
            forall|j: int| 0 <= j < k ==> s@[i + j] == p@[j],
        decreases plen - k,
    {
        if s.get_char(i + k) != p.get_char(k) {
            proof {
                let sub = s@.subrange(i as int, i + p@.len() as int);
                assert(sub[k as int] == s@[i + k]);
            }
            return false;
        }
        k = k + 1;
    }
    proof {
        assert(s@.subrange(i as int, i + p@.len() as int) =~= p@);
    }
    true
}

/// The first char position where `p` occurs in `s`, if any.
pub fn find_sub(s: &str, p: &str) -> (r: Option<usize>)
    ensures
        match r {
            Some(i) => match_at(s@, p@, i as int) && i == first_match(s@, p@)
                && has_match(s@, p@) && (forall|j: int| 0 <= j < i ==> !match_at(s@, p@, j)),
            None => !has_match(s@, p@),
        },
{
    let slen = s.unicode_len();
    let plen = p.unicode_len();
    if plen > slen {
        proof {
            assert(forall|i: int| !match_at(s@, p@, i));
        }
        return None;
    }
    if plen == 0 {
        proof {
            assert(s@.subrange(0, 0) =~= p@);
            assert(match_at(s@, p@, 0));
            lemma_first_match_unique(s@, p@, 0);
        }
        return Some(0);
    }
    let bound = slen - plen;
    let mut i: usize = 0;
    while i <= bound
        invariant
            slen == s@.len(),
            plen == p@.len(),
            1 <= plen <= slen,
            bound == slen - plen,
            i <= bound + 1,
            forall|j: int| 0 <= j < i ==> !match_at(s@, p@, j),
        decreases bound + 1 - i,
    {
        if occurs_at(s, p, i, slen, plen) {
            proof {
                lemma_first_match_unique(s@, p@, i as int);
            }
            return Some(i);
        }
        i = i + 1;
    }
    proof {
        assert(forall|j: int| 0 <= j < i ==> !match_at(s@, p@, j));
        assert(forall|j: int| j > bound ==> !match_at(s@, p@, j));
    }
    None
}

/// `s` with every occurrence of `p` (non-overlapping, left to right)
/// replaced by `w`.
pub open spec fn spec_replace_all(s: Seq<char>, p: Seq<char>, w: Seq<char>) -> Seq<char>
    decreases s.len(),
    when p.len() > 0
{
    if s.len() < p.len() {
        s
    } else if s.subrange(0, p.len() as int) == p {
        w + spec_replace_all(s.skip(p.len() as int), p, w)
    } else {
        seq![s[0]] + spec_replace_all(s.skip(1), p, w)
    }
}

/// Replacement walks past a prefix that holds no occurrence of the pattern.
proof fn lemma_replace_skip(s: Seq<char>, p: Seq<char>, w: Seq<char>, i: int)
    requires
        p.len() > 0,
        0 <= i <= s.len(),
        forall|j: int| 0 <= j < i ==> !match_at(s, p, j),
    ensures
        spec_replace_all(s, p, w) == s.subrange(0, i) + spec_replace_all(
            s.subrange(i, s.len() as int),
            p,
            w,
        ),
    decreases i,
{
    if i == 0 {
        assert(s.subrange(0, s.len() as int) =~= s);
        assert_seqs_equal!(
            s.subrange(0, 0) + spec_replace_all(s, p, w) == spec_replace_all(s, p, w));
    } else {
        assert(!match_at(s, p, 0));
        if s.len() < p.len() {
            assert(s.subrange(i, s.len() as int).len() < p.len());
            assert(spec_replace_all(s.subrange(i, s.len() as int), p, w) == s.subrange(
                i,
                s.len() as int,
            ));
            assert_seqs_equal!(
                s == s.subrange(0, i) + s.subrange(i, s.len() as int));
        } else {
            assert(s.subrange(0, p.len() as int) != p);
            let s1 = s.skip(1);
            assert forall|j: int| 0 <= j < i - 1 implies !match_at(s1, p, j) by {
                if 0 <= j && j + p.len() <= s1.len() {
                    assert_seqs_equal!(
                        s1.subrange(j, j + p.len() as int)
                            == s.subrange(j + 1, j + 1 + p.len() as int));
                    assert(!match_at(s, p, j + 1));
                }
            }
            lemma_replace_skip(s1, p, w, i - 1);
            assert(s1.subrange(i - 1, s1.len() as int) =~= s.subrange(i, s.len() as int));
            assert_seqs_equal!(
                seq![s[0]] + (s1.subrange(0, i - 1) + spec_replace_all(
                    s.subrange(i, s.len() as int), p, w))
                == s.subrange(0, i) + spec_replace_all(s.subrange(i, s.len() as int), p, w));
        }
    }
}

/// Unfolds one replacement at a match site with no earlier occurrence.
proof fn lemma_replace_step(s: Seq<char>, p: Seq<char>, w: Seq<char>, i: int)
    requires
        p.len() > 0,
        match_at(s, p, i),
        forall|j: int| 0 <= j < i ==> !match_at(s, p, j),
    ensures
        spec_replace_all(s, p, w) == s.subrange(0, i) + w + spec_replace_all(
            s.subrange(i + p.len(), s.len() as int),
            p,
            w,
        ),
{
    lemma_replace_skip(s, p, w, i);
    let rest = s.subrange(i, s.len() as int);
    assert(rest.subrange(0, p.len() as int) =~= s.subrange(i, i + p.len() as int));
    assert(rest.len() >= p.len());
    assert(spec_replace_all(rest, p, w) == w + spec_replace_all(
        rest.skip(p.len() as int),
        p,
        w,
    ));
    assert(rest.skip(p.len() as int) =~= s.subrange(i + p.len(), s.len() as int));
    assert_seqs_equal!(
        s.subrange(0, i) + (w + spec_replace_all(s.subrange(i + p.len(), s.len() as int), p, w))
        == s.subrange(0, i) + w + spec_replace_all(
            s.subrange(i + p.len(), s.len() as int), p, w));
}

/// A sequence with no occurrence of the pattern is left unchanged.
proof fn lemma_replace_none(s: Seq<char>, p: Seq<char>, w: Seq<char>)
    requires
        p.len() > 0,
        !has_match(s, p),
    ensures
        spec_replace_all(s, p, w) == s,
{
    lemma_replace_skip(s, p, w, s.len() as int);
    let rest = s.subrange(s.len() as int, s.len() as int);
    assert(rest.len() == 0);
    assert(spec_replace_all(rest, p, w) == rest);
    assert_seqs_equal!(s.subrange(0, s.len() as int) + rest == s);
}

#[verifier::rlimit(100)]
pub fn replace_all(s: &str, p: &str, w: &str) -> (r: String)
    requires
        p@.len() > 0,
    ensures
        r@ == spec_replace_all(s@, p@, w@),
{
    let slen = s.unicode_len();
    let plen = p.unicode_len();
    let mut result = String::new();
    let mut pos: usize = 0;
    proof {
        assert(s@.subrange(0, slen as int) =~= s@);
        assert(result@ + spec_replace_all(s@, p@, w@) =~= spec_replace_all(s@, p@, w@));
    }
    loop
        invariant
            slen == s@.len(),
            plen == p@.len(),
            p@.len() > 0,
            pos <= slen,
            spec_replace_all(s@, p@, w@) == result@ + spec_replace_all(
                s@.subrange(pos as int, slen as int),
                p@,
                w@,
            ),
        decreases slen - pos,
    {
        let ghost prev_result = result@;
        let rest = s.substring_char(pos, slen);
        match find_sub(rest, p) {
            Some(i) => {
                let ghost restv = s@.subrange(pos as int, slen as int);
                let ghost i_ = i as int;
                let ghost pl = p@.len() as int;
                let ghost tail = restv.subrange(i_ + pl, restv.len() as int);
                let ghost t = spec_replace_all(tail, p@, w@);
                proof {
                    lemma_replace_step(restv, p@, w@, i_);
                    assert(spec_replace_all(restv, p@, w@) == restv.subrange(0, i_) + w@ + t);
                    assert_seqs_equal!(tail == s@.subrange(pos + i_ + pl, slen as int));
                }
                let chunk = s.substring_char(pos, pos + i);
                proof {
                    assert_seqs_equal!(chunk@ == restv.subrange(0, i_));
                }
                result.append(chunk);
                result.append(w);
                pos = pos + i + plen;
                proof {
                    assert_seqs_equal!(
                        prev_result + spec_replace_all(restv, p@, w@) == result@ + t);
                    assert(spec_replace_all(s@, p@, w@) == result@ + spec_replace_all(
                        s@.subrange(pos as int, slen as int),
                        p@,
                        w@,
                    ));
                }
            },
            None => {
                let chunk = s.substring_char(pos, slen);
                result.append(chunk);
                proof {
                    let restv = s@.subrange(pos as int, slen as int);
                    lemma_replace_none(restv, p@, w@);
                    assert(result@ =~= spec_replace_all(s@, p@, w@));
                }
                return result;
            },
        }
    }
}

/// The view of an optional string.
pub open spec fn spec_opt_str(o: Option<String>) -> Option<Seq<char>> {
    match o {
        Some(s) => Some(s@),
        None => None,
    }
}

/// `s` with the first occurrence of `p` (if any) replaced by `w`.
pub open spec fn spec_replace_first(s: Seq<char>, p: Seq<char>, w: Seq<char>) -> Seq<char> {
    if has_match(s, p) {
        s.subrange(0, first_match(s, p)) + w + s.subrange(
            first_match(s, p) + p.len(),
            s.len() as int,
        )
    } else {
        s
    }
}

pub fn replace_first(s: &str, p: &str, w: &str) -> (r: String)
    ensures
        r@ == spec_replace_first(s@, p@, w@),
{
    let slen = s.unicode_len();
    match find_sub(s, p) {
        Some(i) => {
            let plen = p.unicode_len();
            let mut result = s.substring_char(0, i).to_owned();
            result.append(w);
            result.append(s.substring_char(i + plen, slen));
            result
        },
        None => s.to_owned(),
    }
}

/// A template with `{}` holes filled left to right: each argument replaces
/// the first hole still present.
pub open spec fn spec_apply_args(template: Seq<char>, args: Seq<Seq<char>>) -> Seq<char>
    decreases args.len(),
{
    if args.len() == 0 {
        template
    } else {
        spec_apply_args(spec_replace_first(template, "{}"@, args[0]), args.skip(1))
    }
}

pub fn apply_args(template: &str, args: &[&str]) -> (r: String)
    ensures
        r@ == spec_apply_args(template@, args@.map_values(|a: &str| a@)),
{
    let ghost argviews = args@.map_values(|a: &str| a@);
    let mut result = template.to_owned();
    let mut i: usize = 0;
    proof {
        assert(argviews.skip(0) =~= argviews);
    }
    while i < args.len()
        invariant
            argviews == args@.map_values(|a: &str| a@),
            i <= args@.len(),
            spec_apply_args(template@, argviews) == spec_apply_args(
                result@,
                argviews.skip(i as int),
            ),
        decreases args@.len() - i,
    {
        let ghost pre = result@;
        result = replace_first(result.as_str(), "{}", args[i]);
        i = i + 1;
        proof {
            assert(argviews.skip(i - 1 as int)[0] == argviews[i - 1]);
            assert(argviews.skip(i - 1 as int).skip(1) =~= argviews.skip(i as int));
            assert(spec_apply_args(pre, argviews.skip(i - 1)) == spec_apply_args(
                spec_replace_first(pre, "{}"@, argviews[i - 1]),
                argviews.skip(i as int),
            ));
        }
    }
    proof {
        assert(argviews.skip(args@.len() as int) =~= Seq::<Seq<char>>::empty());
    }
    result
}

/// The index of the first char that is not whitespace; `s.len()` when all are.
pub open spec fn first_non_space(s: Seq<char>) -> int {
    choose|i: int|
        0 <= i < s.len() && !is_space(s[i]) && (forall|j: int| 0 <= j < i ==> is_space(s[j]))
}

/// The index one past the last char that is not whitespace.
pub open spec fn end_non_space(s: Seq<char>) -> int {
    choose|i: int|
        0 < i <= s.len() && !is_space(#[trigger] s[i - 1]) && (forall|j: int|
            i <= j < s.len() ==> is_space(s[j]))
}

pub open spec fn all_space(s: Seq<char>) -> bool {
    forall|i: int| 0 <= i < s.len() ==> is_space(s[i])
}

/// `s` without leading and trailing whitespace.
pub open spec fn spec_trim(s: Seq<char>) -> Seq<char> {
    if all_space(s) {
        Seq::empty()
    } else {
        s.subrange(first_non_space(s), end_non_space(s))
    }
}

/// The str::trim of `s`, by Unicode whitespace.
pub fn trim_str(s: &str) -> (r: &str)
    ensures
        r@ == spec_trim(s@),
{
    let len = s.unicode_len();
    let mut a: usize = 0;
    while a < len && is_whitespace_char(s.get_char(a))
        invariant
            len == s@.len(),
            a <= len,
            forall|j: int| 0 <= j < a ==> is_space(s@[j]),
        decreases len - a,
    {
        a = a + 1;
    }
    if a == len {
        proof {
            assert(all_space(s@));
        }
        let r = s.substring_char(0, 0);
        proof {
            assert(r@ =~= spec_trim(s@));
        }
        return r;
    }
    let mut b: usize = len;
    while b > a && is_whitespace_char(s.get_char(b - 1))
        invariant
            len == s@.len(),
            a < len,
            !is_space(s@[a as int]),
            a <= b <= len,
            forall|j: int| b <= j < len ==> is_space(s@[j]),
        decreases b,
    {
        b = b - 1;
    }
    proof {
        assert(!all_space(s@));
        assert(b > a);
        assert(!is_space(s@[b - 1]));
        let fa = first_non_space(s@);
        assert(0 <= a < s@.len() && !is_space(s@[a as int]) && (forall|j: int|
            0 <= j < a ==> is_space(s@[j])));
        assert(0 <= fa < s@.len() && !is_space(s@[fa]) && (forall|j: int|
            0 <= j < fa ==> is_space(s@[j])));
        if fa < a {
            assert(is_space(s@[fa]));
        } else if a < fa {
            assert(is_space(s@[a as int]));
        }
        let eb = end_non_space(s@);
        assert(0 < b <= s@.len() && !is_space(s@[b - 1]) && (forall|j: int|
            b <= j < s@.len() ==> is_space(s@[j])));
        assert(0 < eb <= s@.len() && !is_space(s@[eb - 1]) && (forall|j: int|
            eb <= j < s@.len() ==> is_space(s@[j])));
        if eb < b {
            assert(is_space(s@[b - 1]));
        } else if b < eb {
            assert(is_space(s@[eb - 1]));
        }
    }
    s.substring_char(a, b)
}

pub fn ascii_upper(c: char) -> (r: char)
    ensures
        r == spec_ascii_upper(c),
{
    match c {
        'a' => 'A', 'b' => 'B', 'c' => 'C', 'd' => 'D', 'e' => 'E', 'f' => 'F',
        'g' => 'G', 'h' => 'H', 'i' => 'I', 'j' => 'J', 'k' => 'K', 'l' => 'L',
        'm' => 'M', 'n' => 'N', 'o' => 'O', 'p' => 'P', 'q' => 'Q', 'r' => 'R',
        's' => 'S', 't' => 'T', 'u' => 'U', 'v' => 'V', 'w' => 'W', 'x' => 'X',
        'y' => 'Y', 'z' => 'Z',
        _ => c,
    }
}

} // verus!
