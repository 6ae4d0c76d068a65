//! Text utilities shared by the renderers: placeholder replacement,
//! trimming, prefix tests and path-string manipulation.
//!
//! Executable text processing works on `Vec<char>`; conversion from and to
//! `String` happens at the library boundary (see `tag`).

use vstd::prelude::*;

verus! {

use crate::tag::{is_space, is_space_exec};

/// `pat` occurs in `s` at position `i`.
pub open spec fn match_at(s: Seq<char>, pat: Seq<char>, i: int) -> bool {
    0 <= i && i + pat.len() <= s.len() && s.subrange(i, i + pat.len()) == pat
}

/// `s` with every occurrence of `pat` replaced by `rep`, scanning left to
/// right without overlap, as `str::replace` does.
pub open spec fn spec_replace(s: Seq<char>, pat: Seq<char>, rep: Seq<char>) -> Seq<char>
    decreases s.len(),
    when pat.len() > 0
{
    if s.len() < pat.len() {
        s
    } else if s.take(pat.len() as int) == pat {
        rep + spec_replace(s.skip(pat.len() as int), pat, rep)
    } else {
        seq![s[0]] + spec_replace(s.drop_first(), pat, rep)
    }
}

/// Compares `pat` against `s` at position `i`.
pub fn match_at_exec(s: &Vec<char>, pat: &Vec<char>, i: usize) -> (r: bool)
    requires
        i <= s@.len(),
    ensures
        r == match_at(s@, pat@, i as int),
{
    if s.len() - i < pat.len() {
        proof {
            assert(!match_at(s@, pat@, i as int));
        }
        return false;
    }
    let n = s.len();
    let mut k: usize = 0;
    while k < pat.len()
        invariant
            n == s@.len(),
            i + pat@.len() <= s@.len(),
            k <= pat@.len(),
            forall|j: int| 0 <= j < k ==> s@[i + j] == pat@[j],
        decreases pat@.len() - k,
    {
        if s[i + k] != pat[k] {
            proof {
                let kk = k as int;
                assert(s@.subrange(i as int, i + pat@.len()) =~= pat@ ==> s@[i + kk] == pat@[kk]);
            }
            return false;
        }
        k += 1;
    }
    proof {
        assert(s@.subrange(i as int, i + pat@.len()) =~= pat@);
    }
    true
}

/// Replaces every occurrence of `pat` in `s` by `rep`, scanning left to
/// right without overlap.
pub fn replace_all(s: &Vec<char>, pat: &Vec<char>, rep: &Vec<char>) -> (r: Vec<char>)
    requires
        pat@.len() > 0,
    ensures
        r@ == spec_replace(s@, pat@, rep@),
{
    let mut out: Vec<char> = Vec::new();
    let n = s.len();
    let mut i: usize = 0;
    proof {
        assert(s@.skip(0) =~= s@);
        assert(out@ + spec_replace(s@, pat@, rep@) =~= spec_replace(s@, pat@, rep@));
    }
    while i < s.len()
        invariant
            pat@.len() > 0,
            n == s@.len(),
            i <= s@.len(),
            spec_replace(s@, pat@, rep@) =~= out@ + spec_replace(
                s@.skip(i as int),
                pat@,
                rep@,
            ),
        decreases s@.len() - i,
    {
        let ghost rest = s@.skip(i as int);
        if match_at_exec(s, pat, i) {
            let ghost out0 = out@;
            let mut k: usize = 0;
            while k < rep.len()
                invariant
                    k <= rep@.len(),
                    out@ =~= out0 + rep@.take(k as int),
                decreases rep@.len() - k,
            {
                out.push(rep[k]);
                proof {
                    assert(rep@.take(k as int + 1) =~= rep@.take(k as int).push(rep@[k as int]));
                }
                k += 1;
            }
            proof {
                assert(rep@.take(rep@.len() as int) =~= rep@);
                assert(out@ =~= out0 + rep@);
                assert(rest.take(pat@.len() as int) =~= s@.subrange(i as int, i + pat@.len()));
                assert(rest.skip(pat@.len() as int) =~= s@.skip(i + pat@.len()));
                assert(spec_replace(rest, pat@, rep@) == rep@ + spec_replace(
                    s@.skip(i + pat@.len()),
                    pat@,
                    rep@,
                ));
            }
            i += pat.len();
        } else {
            out.push(s[i]);
            proof {
                if rest.len() >= pat@.len() {
                    assert(rest.take(pat@.len() as int) =~= s@.subrange(i as int, i + pat@.len()));
                    assert(rest.take(pat@.len() as int) != pat@);
                }
                assert(rest[0] == s@[i as int]);
                assert(rest.drop_first() =~= s@.skip(i as int + 1));
                if rest.len() < pat@.len() {
                    // The tail is shorter than the pattern yet nonempty: the
                    // spec keeps it unchanged, and so does copying it one
                    // character at a time.
                    assert(spec_replace(rest, pat@, rep@) == rest);
                    assert(spec_replace(rest.drop_first(), pat@, rep@) == rest.drop_first());
                    assert(rest =~= seq![rest[0]] + rest.drop_first());
                } else {
                    assert(spec_replace(rest, pat@, rep@) == seq![rest[0]] + spec_replace(
                        rest.drop_first(),
                        pat@,
                        rep@,
                    ));
                }
            }
            i += 1;
        }
        proof {
            assert(spec_replace(s@, pat@, rep@) =~= out@ + spec_replace(
                s@.skip(i as int),
                pat@,
                rep@,
            ));
        }
    }
    proof {
        assert(s@.skip(s@.len() as int) =~= Seq::<char>::empty());
        assert(spec_replace(Seq::<char>::empty(), pat@, rep@) == Seq::<char>::empty());
        assert(out@ =~= out@ + Seq::<char>::empty());
    }
    out
}

/// Count of leading characters of `s` satisfying `is_space`.
pub open spec fn leading_spaces(s: Seq<char>) -> int
    decreases s.len(),
{
    if s.len() > 0 && is_space(s[0]) {
        1 + leading_spaces(s.drop_first())
    } else {
        0
    }
}

/// Count of trailing characters of `s` satisfying `is_space`.
pub open spec fn trailing_spaces(s: Seq<char>) -> int
    decreases s.len(),
{
    if s.len() > 0 && is_space(s.last()) {
        1 + trailing_spaces(s.drop_last())
    } else {
        0
    }
}

/// `s` without leading and trailing whitespace.
pub open spec fn spec_trim(s: Seq<char>) -> Seq<char> {
    let a = leading_spaces(s);
    let b = s.len() - trailing_spaces(s);
    if a >= b {
        Seq::empty()
    } else {
        s.subrange(a, b)
    }
}

proof fn lemma_leading_spaces(s: Seq<char>, i: int)
    requires
        0 <= i <= s.len(),
        forall|j: int| 0 <= j < i ==> is_space(s[j]),
        i < s.len() ==> !is_space(s[i]),
    ensures
        leading_spaces(s) == i,
    decreases s.len(),
{
    if s.len() == 0 {
    } else if i == 0 {
    } else {
        lemma_leading_spaces(s.drop_first(), i - 1);
    }
}

proof fn lemma_trailing_spaces(s: Seq<char>, i: int)
    requires
        0 <= i <= s.len(),
        forall|j: int| i <= j < s.len() ==> is_space(s[j]),
        i > 0 ==> !is_space(s[i - 1]),
    ensures
        trailing_spaces(s) == s.len() - i,
    decreases s.len(),
{
    if s.len() == 0 {
    } else if i == s.len() {
    } else {
        assert(is_space(s.last()));
        lemma_trailing_spaces(s.drop_last(), i);
    }
}

/// Removes leading and trailing whitespace.
pub fn trim_chars(s: &Vec<char>) -> (r: Vec<char>)
    ensures
        r@ == spec_trim(s@),
{
    let mut a: usize = 0;
    while a < s.len() && is_space_exec(s[a])
        invariant
            a <= s@.len(),
            forall|j: int| 0 <= j < a ==> is_space(s@[j]),
        decreases s@.len() - a,
    {
        a += 1;
    }
    proof {
        lemma_leading_spaces(s@, a as int);
    }
    let mut b: usize = s.len();
    while b > a && is_space_exec(s[b - 1])
        invariant
            a <= b <= s@.len(),
            forall|j: int| 0 <= j < a ==> is_space(s@[j]),
            forall|j: int| b <= j < s@.len() ==> is_space(s@[j]),
        decreases b,
    {
        b -= 1;
    }
    proof {
        if b == a {
            // Everything from `a` on is whitespace, so the whole string is.
            lemma_trailing_spaces(s@, 0);
        } else {
            lemma_trailing_spaces(s@, b as int);
        }
    }
    let mut out: Vec<char> = Vec::new();
    let mut i: usize = a;
    while i < b
        invariant
            a <= i <= b <= s@.len(),
            out@ =~= s@.subrange(a as int, i as int),
        decreases b - i,
    {
        out.push(s[i]);
        proof {
            assert(s@.subrange(a as int, i as int + 1) =~= s@.subrange(a as int, i as int).push(
                s@[i as int],
            ));
        }
        i += 1;
    }
    proof {
        if b == a {
            assert(out@ =~= Seq::<char>::empty());
        } else {
            assert(leading_spaces(s@) == a as int);
            assert(s@.len() - trailing_spaces(s@) == b as int);
        }
    }
    out
}

/// Count of leading `'/'` characters.
pub open spec fn leading_slashes(s: Seq<char>) -> int
    decreases s.len(),
{
    if s.len() > 0 && s[0] == '/' {
        1 + leading_slashes(s.drop_first())
    } else {
        0
    }
}

/// Count of trailing `'/'` characters.
pub open spec fn trailing_slashes(s: Seq<char>) -> int
    decreases s.len(),
{
    if s.len() > 0 && s.last() == '/' {
        1 + trailing_slashes(s.drop_last())
    } else {
        0
    }
}

/// `s` without leading and trailing slashes, as a URL base is normalized.
pub open spec fn spec_trim_slashes(s: Seq<char>) -> Seq<char> {
    let a = leading_slashes(s);
    let b = s.len() - trailing_slashes(s);
    if a >= b {
        Seq::empty()
    } else {
        s.subrange(a, b)
    }
}

proof fn lemma_leading_slashes(s: Seq<char>, i: int)
    requires
        0 <= i <= s.len(),
        forall|j: int| 0 <= j < i ==> s[j] == '/',
        i < s.len() ==> s[i] != '/',
    ensures
        leading_slashes(s) == i,
    decreases s.len(),
{
    if s.len() == 0 {
    } else if i == 0 {
    } else {
        lemma_leading_slashes(s.drop_first(), i - 1);
    }
}

proof fn lemma_trailing_slashes(s: Seq<char>, i: int)
    requires
        0 <= i <= s.len(),
        forall|j: int| i <= j < s.len() ==> s[j] == '/',
        i > 0 ==> s[i - 1] != '/',
    ensures
        trailing_slashes(s) == s.len() - i,
    decreases s.len(),
{
    if s.len() == 0 {
    } else if i == s.len() {
    } else {
        lemma_trailing_slashes(s.drop_last(), i);
    }
}

/// Removes leading and trailing `'/'` characters.
pub fn trim_slashes(s: &Vec<char>) -> (r: Vec<char>)
    ensures
        r@ == spec_trim_slashes(s@),
{
    let mut a: usize = 0;
    while a < s.len() && s[a] == '/'
        invariant
            a <= s@.len(),
            forall|j: int| 0 <= j < a ==> s@[j] == '/',
        decreases s@.len() - a,
    {
        a += 1;
    }
    proof {
        lemma_leading_slashes(s@, a as int);
    }
    let mut b: usize = s.len();
    while b > a && s[b - 1] == '/'
        invariant
            a <= b <= s@.len(),
            forall|j: int| 0 <= j < a ==> s@[j] == '/',
            forall|j: int| b <= j < s@.len() ==> s@[j] == '/',
        decreases b,
    {
        b -= 1;
    }
    proof {
        if b == a {
            lemma_trailing_slashes(s@, 0);
        } else {
            lemma_trailing_slashes(s@, b as int);
        }
    }
    let mut out: Vec<char> = Vec::new();
    let mut i: usize = a;
    while i < b
        invariant
            a <= i <= b <= s@.len(),
            out@ =~= s@.subrange(a as int, i as int),
        decreases b - i,
    {
        out.push(s[i]);
        proof {
            assert(s@.subrange(a as int, i as int + 1) =~= s@.subrange(a as int, i as int).push(
                s@[i as int],
            ));
        }
        i += 1;
    }
    proof {
        if b == a {
            assert(out@ =~= Seq::<char>::empty());
        }
    }
    out
}

/// `s` begins with `pat`.
pub open spec fn spec_starts_with(s: Seq<char>, pat: Seq<char>) -> bool {
    s.len() >= pat.len() && s.take(pat.len() as int) == pat
}

/// Tests whether `s` begins with `pat`.
pub fn starts_with_chars(s: &Vec<char>, pat: &Vec<char>) -> (r: bool)
    ensures
        r == spec_starts_with(s@, pat@),
{
    if s.len() < pat.len() {
        return false;
    }
    let r = match_at_exec(s, pat, 0);
    proof {
        assert(s@.subrange(0, pat@.len() as int) =~= s@.take(pat@.len() as int));
    }
    r
}

/// Appends all of `s` to `out`.
pub fn push_chars(out: &mut Vec<char>, s: &Vec<char>)
    ensures
        final(out)@ == old(out)@ + s@,
{
    let mut i: usize = 0;
    while i < s.len()
        invariant
            i <= s@.len(),
            out@ =~= old(out)@ + s@.take(i as int),
        decreases s@.len() - i,
    {
        out.push(s[i]);
        proof {
            assert(s@.take(i as int + 1) =~= s@.take(i as int).push(s@[i as int]));
        }
        i += 1;
    }
    proof {
        assert(s@.take(s@.len() as int) =~= s@);
    }
}

/// Appends all of `s` to `out`.
pub fn push_bytes(out: &mut Vec<u8>, s: &Vec<u8>)
    ensures
        final(out)@ == old(out)@ + s@,
{
    let mut i: usize = 0;
    while i < s.len()
        invariant
            i <= s@.len(),
            out@ =~= old(out)@ + s@.take(i as int),
        decreases s@.len() - i,
    {
        out.push(s[i]);
        proof {
            assert(s@.take(i as int + 1) =~= s@.take(i as int).push(s@[i as int]));
        }
        i += 1;
    }
    proof {
        assert(s@.take(s@.len() as int) =~= s@);
    }
}

/// Appends the characters of a string literal to `out`.
pub fn push_str_chars(out: &mut Vec<char>, s: &str)
    ensures
        final(out)@ == old(out)@ + s@,
{
    let cs = crate::tag::str_chars(s);
    push_chars(out, &cs);
}

/// Character-wise equality of two texts.
pub fn chars_eq(a: &Vec<char>, b: &Vec<char>) -> (r: bool)
    ensures
        r == (a@ == b@),
{
    if a.len() != b.len() {
        proof {
            assert(a@ != b@);
        }
        return false;
    }
    let mut i: usize = 0;
    while i < a.len()
        invariant
            a@.len() == b@.len(),
            i <= a@.len(),
            forall|j: int| 0 <= j < i ==> a@[j] == b@[j],
        decreases a@.len() - i,
    {
        if a[i] != b[i] {
            return false;
        }
        i += 1;
    }
    proof {
        assert(a@ =~= b@);
    }
    true
}

/// Index just past the last `'/'` of `s`, or 0 when there is none.
pub open spec fn after_last_slash(s: Seq<char>) -> int
    decreases s.len(),
{
    if s.len() == 0 {
        0
    } else if s.last() == '/' {
        s.len() as int
    } else {
        after_last_slash(s.drop_last())
    }
}

/// The directory part of a path: everything before its last `'/'`; a path
/// without a slash has the empty parent, and a path directly under the
/// root keeps the root slash.
pub open spec fn spec_parent(s: Seq<char>) -> Seq<char> {
    let e = after_last_slash(s);
    if e <= 1 {
        s.take(e)
    } else {
        s.take(e - 1)
    }
}

proof fn lemma_after_last_slash(s: Seq<char>, i: int)
    requires
        0 <= i <= s.len(),
        forall|j: int| i <= j < s.len() ==> s[j] != '/',
        i > 0 ==> s[i - 1] == '/',
    ensures
        after_last_slash(s) == i,
    decreases s.len(),
{
    if s.len() == 0 {
    } else if i == s.len() {
    } else {
        lemma_after_last_slash(s.drop_last(), i);
    }
}

/// The directory part of a path string.
pub fn parent_chars(s: &Vec<char>) -> (r: Vec<char>)
    ensures
        r@ == spec_parent(s@),
{
    let mut e: usize = s.len();
    while e > 0 && s[e - 1] != '/'
        invariant
            e <= s@.len(),
            forall|j: int| e <= j < s@.len() ==> s@[j] != '/',
        decreases e,
    {
        e -= 1;
    }
    proof {
        lemma_after_last_slash(s@, e as int);
    }
    let keep: usize = if e <= 1 {
        e
    } else {
        e - 1
    };
    let mut out: Vec<char> = Vec::new();
    let mut i: usize = 0;
    while i < keep
        invariant
            keep <= s@.len(),
            i <= keep,
            out@ =~= s@.take(i as int),
        decreases keep - i,
    {
        out.push(s[i]);
        proof {
            assert(s@.take(i as int + 1) =~= s@.take(i as int).push(s@[i as int]));
        }
        i += 1;
    }
    out
}

/// The file-name part of a path: everything after its last `'/'`.
pub fn basename_chars(s: &Vec<char>) -> (r: Vec<char>)
    ensures
        r@ == s@.skip(after_last_slash(s@)),
{
    let mut e: usize = s.len();
    while e > 0 && s[e - 1] != '/'
        invariant
            e <= s@.len(),
            forall|j: int| e <= j < s@.len() ==> s@[j] != '/',
        decreases e,
    {
        e -= 1;
    }
    proof {
        lemma_after_last_slash(s@, e as int);
    }
    let mut out: Vec<char> = Vec::new();
    let mut i: usize = e;
    while i < s.len()
        invariant
            e <= i <= s@.len(),
            out@ =~= s@.subrange(e as int, i as int),
        decreases s@.len() - i,
    {
        out.push(s[i]);
        proof {
            assert(s@.subrange(e as int, i as int + 1) =~= s@.subrange(e as int, i as int).push(
                s@[i as int],
            ));
        }
        i += 1;
    }
    proof {
        assert(out@ =~= s@.skip(e as int));
    }
    out
}

/// Joining a relative path onto a base directory; an absolute path wins
/// over the base.
pub open spec fn spec_join(base: Seq<char>, rel: Seq<char>) -> Seq<char> {
    if rel.len() > 0 && rel[0] == '/' {
        rel
    } else if base.len() == 0 {
        rel
    } else if base.last() == '/' {
        base + rel
    } else {
        base + seq!['/'] + rel
    }
}

/// Joins a relative path onto a base directory.
pub fn join_chars(base: &Vec<char>, rel: &Vec<char>) -> (r: Vec<char>)
    ensures
        r@ == spec_join(base@, rel@),
{
    if rel.len() > 0 && rel[0] == '/' {
        let mut out: Vec<char> = Vec::new();
        push_chars(&mut out, rel);
        proof {
            assert(out@ =~= rel@);
        }
        out
    } else if base.len() == 0 {
        let mut out: Vec<char> = Vec::new();
        push_chars(&mut out, rel);
        proof {
            assert(out@ =~= rel@);
        }
        out
    } else {
        let mut out: Vec<char> = Vec::new();
        push_chars(&mut out, base);
        if base[base.len() - 1] != '/' {
            out.push('/');
        }
        push_chars(&mut out, rel);
        proof {
            if base@.last() == '/' {
                assert(out@ =~= base@ + rel@);
            } else {
                assert(out@ =~= base@ + seq!['/'] + rel@);
            }
        }
        out
    }
}

} // verus!
