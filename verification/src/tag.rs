//! Slug ("tag") generation: names of modules, units and exercises are
//! lowercased and their whitespace-separated words joined with hyphens to
//! form directory and file names.

use vstd::prelude::*;

verus! {

/// Unicode whitespace, the separator set used when splitting a name into
/// words and when trimming: the characters with the White_Space property.
pub open spec fn is_space(c: char) -> bool {
    c == ' ' || c == '\t' || c == '\n' || c == '\r' || c == '\u{b}' || c == '\u{c}'
        || c == '\u{85}' || c == '\u{a0}' || c == '\u{1680}' || ('\u{2000}' <= c && c
        <= '\u{200a}') || c == '\u{2028}' || c == '\u{2029}' || c == '\u{202f}' || c
        == '\u{205f}' || c == '\u{3000}'
}

/// Tests the whitespace class.
pub fn is_space_exec(c: char) -> (r: bool)
    ensures
        r == is_space(c),
{
    c == ' ' || c == '\t' || c == '\n' || c == '\r' || c == '\u{b}' || c == '\u{c}'
        || c == '\u{85}' || c == '\u{a0}' || c == '\u{1680}' || ('\u{2000}' <= c && c
        <= '\u{200a}') || c == '\u{2028}' || c == '\u{2029}' || c == '\u{202f}' || c
        == '\u{205f}' || c == '\u{3000}'
}

/// ASCII lowercasing of a single character; all other characters are kept.
pub open spec fn lower_char(c: char) -> char {
    if 'A' <= c && c <= 'Z' {
        ((c as u8) + 32) as char
    } else {
        c
    }
}

/// ASCII lowercasing of a whole sequence.
pub open spec fn lower_seq(s: Seq<char>) -> Seq<char> {
    s.map_values(|c: char| lower_char(c))
}

/// The whitespace-separated words of `s`, in order, each word nonempty.
pub open spec fn words(s: Seq<char>) -> Seq<Seq<char>>
    decreases s.len(),
{
    if s.len() == 0 {
        Seq::empty()
    } else {
        let c = s[0];
        let tail = s.drop_first();
        let rest = words(tail);
        if is_space(c) {
            rest
        } else if tail.len() > 0 && !is_space(tail[0]) {
            seq![seq![c] + rest[0]] + rest.drop_first()
        } else {
            seq![seq![c]] + rest
        }
    }
}

/// Words joined with single hyphens.
pub open spec fn join_hyphen(ws: Seq<Seq<char>>) -> Seq<char>
    decreases ws.len(),
{
    if ws.len() == 0 {
        Seq::empty()
    } else if ws.len() == 1 {
        ws[0]
    } else {
        ws[0] + seq!['-'] + join_hyphen(ws.drop_first())
    }
}

/// The tag of a name: the name is lowercased, then its words are joined
/// with hyphens.  A name without any word is returned lowercased as it is.
pub open spec fn spec_to_tag(s: Seq<char>) -> Seq<char> {
    let l = lower_seq(s);
    if words(l).len() == 0 {
        l
    } else {
        join_hyphen(words(l))
    }
}

/// True when the sequence ends in a non-space character.
pub open spec fn ends_in_word(s: Seq<char>) -> bool {
    s.len() > 0 && !is_space(s.last())
}

proof fn lemma_words_push(p: Seq<char>, c: char)
    ensures
        is_space(c) ==> words(p.push(c)) == words(p),
        !is_space(c) && !ends_in_word(p) ==> words(p.push(c)) =~= words(p).push(seq![c]),
        !is_space(c) && ends_in_word(p) ==> words(p).len() > 0 && words(p.push(c)) =~= words(
            p,
        ).update(words(p).len() - 1, words(p).last().push(c)),
    decreases p.len(),
{
    if p.len() == 0 {
        assert(p.push(c)[0] == c);
        assert(p.push(c).drop_first() =~= Seq::<char>::empty());
        assert(words(Seq::<char>::empty()) =~= Seq::<Seq<char>>::empty());
        if !is_space(c) {
            assert(words(p.push(c)) =~= seq![seq![c]]);
            assert(words(p).push(seq![c]) =~= seq![seq![c]]);
        } else {
            assert(words(p.push(c)) =~= words(p));
        }
    } else {
        let h = p[0];
        let t = p.drop_first();
        lemma_words_push(t, c);
        assert(p.push(c)[0] == h);
        assert(p.push(c).drop_first() =~= t.push(c));
        if t.len() > 0 {
            assert(p.last() == t.last());
            assert(ends_in_word(p) == ends_in_word(t));
        }
        let q = p.push(c);
        let qt = t.push(c);
        // words(q) is determined by h, qt and words(qt); relate words(qt) to
        // words(t) by the induction hypothesis, then compare with words(p).
        if is_space(c) {
            assert(words(qt) == words(t));
            if is_space(h) {
                assert(words(q) == words(qt));
                assert(words(p) == words(t));
            } else if t.len() > 0 && !is_space(t[0]) {
                assert(qt.len() > 0 && !is_space(qt[0]));
                assert(words(q) =~= seq![seq![h] + words(qt)[0]] + words(qt).drop_first());
                assert(words(p) =~= seq![seq![h] + words(t)[0]] + words(t).drop_first());
                assert(words(q) =~= words(p));
            } else {
                // t is empty or starts with a space; qt = t.push(c) then starts
                // with a space or is the single space c.
                if t.len() == 0 {
                    assert(qt[0] == c);
                    assert(words(q) =~= seq![seq![h]] + words(qt));
                    assert(words(p) =~= seq![seq![h]] + words(t));
                } else {
                    assert(qt[0] == t[0]);
                    assert(words(q) =~= seq![seq![h]] + words(qt));
                    assert(words(p) =~= seq![seq![h]] + words(t));
                }
                assert(words(q) =~= words(p));
            }
        } else {
            // c is not a space.
            if is_space(h) {
                assert(words(q) == words(qt));
                assert(words(p) == words(t));
            } else if t.len() > 0 && !is_space(t[0]) {
                // h starts a word continued in t.
                assert(qt.len() > 0 && !is_space(qt[0]));
                assert(words(q) =~= seq![seq![h] + words(qt)[0]] + words(qt).drop_first());
                assert(words(p) =~= seq![seq![h] + words(t)[0]] + words(t).drop_first());
                assert(words(t).len() > 0);
                if ends_in_word(t) {
                    assert(words(qt) =~= words(t).update(words(t).len() - 1, words(t).last().push(c)));
                    if words(t).len() == 1 {
                        assert(words(qt)[0] == words(t)[0].push(c));
                        assert(words(q) =~= seq![seq![h] + words(t)[0].push(c)]);
                        assert(words(p) =~= seq![seq![h] + words(t)[0]]);
                        assert(seq![h] + words(t)[0].push(c) =~= (seq![h] + words(t)[0]).push(c));
                        assert(words(q) =~= words(p).update(words(p).len() - 1, words(p).last().push(c)));
                    } else {
                        assert(words(qt)[0] == words(t)[0]);
                        assert(words(qt).drop_first() =~= words(t).drop_first().update(
                            words(t).len() - 2,
                            words(t).last().push(c),
                        ));
                        assert(words(q) =~= words(p).update(words(p).len() - 1, words(p).last().push(c)));
                    }
                } else {
                    // t ends in a space (t starts with a non-space, so t is nonempty).
                    assert(words(qt) =~= words(t).push(seq![c]));
                    assert(words(qt)[0] == words(t)[0]);
                    assert(words(qt).drop_first() =~= words(t).drop_first().push(seq![c]));
                    assert(words(q) =~= words(p).push(seq![c]));
                }
            } else {
                // h is a word on its own: t is empty or starts with a space.
                if t.len() == 0 {
                    assert(words(t) =~= Seq::<Seq<char>>::empty());
                    assert(!ends_in_word(t));
                    assert(words(qt) =~= seq![seq![c]]);
                    assert(qt[0] == c && qt.len() == 1);
                    assert(!is_space(qt[0]));
                    assert(words(q) =~= seq![seq![h] + words(qt)[0]] + words(qt).drop_first());
                    assert(words(qt)[0] == seq![c]);
                    assert((seq![h] + seq![c]) =~= seq![h, c]);
                    assert(words(q) =~= seq![seq![h, c]]);
                    assert(words(p) =~= seq![seq![h]]);
                    assert(ends_in_word(p));
                    assert(seq![h].push(c) =~= seq![h, c]);
                    assert(words(q) =~= words(p).update(0, words(p).last().push(c)));
                } else {
                    // t starts with a space, so p does not end in the word h
                    // unless t is all spaces; both subcases come from the IH.
                    assert(qt[0] == t[0]);
                    assert(is_space(qt[0]));
                    assert(words(q) =~= seq![seq![h]] + words(qt));
                    assert(words(p) =~= seq![seq![h]] + words(t));
                    if ends_in_word(t) {
                        assert(words(t).len() > 0);
                        assert(words(qt) =~= words(t).update(words(t).len() - 1, words(t).last().push(c)));
                        assert(words(q) =~= words(p).update(words(p).len() - 1, words(p).last().push(c)));
                    } else {
                        assert(words(qt) =~= words(t).push(seq![c]));
                        assert(words(q) =~= words(p).push(seq![c]));
                    }
                }
            }
        }
    }
}

proof fn lemma_join_push(ws: Seq<Seq<char>>, w: Seq<char>)
    ensures
        ws.len() == 0 ==> join_hyphen(ws.push(w)) =~= w,
        ws.len() > 0 ==> join_hyphen(ws.push(w)) =~= join_hyphen(ws) + seq!['-'] + w,
    decreases ws.len(),
{
    if ws.len() == 0 {
        assert(ws.push(w).len() == 1);
        assert(join_hyphen(ws.push(w)) == ws.push(w)[0]);
    } else if ws.len() == 1 {
        assert(ws.push(w).len() == 2);
        assert(ws.push(w)[0] == ws[0]);
        assert(ws.push(w).drop_first() =~= seq![w]);
        assert(join_hyphen(seq![w]) == w);
        assert(join_hyphen(ws.push(w)) =~= ws[0] + seq!['-'] + w);
        assert(join_hyphen(ws) == ws[0]);
    } else {
        lemma_join_push(ws.drop_first(), w);
        assert(ws.push(w).drop_first() =~= ws.drop_first().push(w));
        assert(join_hyphen(ws.push(w)) =~= ws[0] + seq!['-'] + join_hyphen(ws.drop_first().push(w)));
    }
}

proof fn lemma_join_extend_last(ws: Seq<Seq<char>>, c: char)
    requires
        ws.len() > 0,
    ensures
        join_hyphen(ws.update(ws.len() - 1, ws.last().push(c))) =~= join_hyphen(ws).push(c),
    decreases ws.len(),
{
    if ws.len() == 1 {
        assert(ws.update(0, ws.last().push(c)) =~= seq![ws[0].push(c)]);
    } else {
        lemma_join_extend_last(ws.drop_first(), c);
        let u = ws.update(ws.len() - 1, ws.last().push(c));
        assert(u[0] == ws[0]);
        assert(u.drop_first() =~= ws.drop_first().update(ws.len() - 2, ws.last().push(c)));
        assert(ws.drop_first().last() == ws.last());
        assert(join_hyphen(u) =~= ws[0] + seq!['-'] + join_hyphen(ws).skip(ws[0].len() + 1 as int).push(c));
        assert(join_hyphen(ws) == ws[0] + seq!['-'] + join_hyphen(ws.drop_first()));
        assert(join_hyphen(ws).skip(ws[0].len() + 1 as int) =~= join_hyphen(ws.drop_first()));
        assert(join_hyphen(u) =~= join_hyphen(ws).push(c));
    }
}

/// Lowercases a name and joins its whitespace-separated words with single
/// hyphens; a name without any word is returned lowercased unchanged.
pub fn tag_chars(s: &Vec<char>) -> (r: Vec<char>)
    ensures
        r@ == spec_to_tag(s@),
{
    let ghost gl = lower_seq(s@);
    let mut low: Vec<char> = Vec::new();
    let mut k: usize = 0;
    while k < s.len()
        invariant
            k <= s.len(),
            gl == lower_seq(s@),
            low@ =~= gl.take(k as int),
        decreases s.len() - k,
    {
        let c = s[k];
        if 'A' <= c && c <= 'Z' {
            low.push(((c as u8) + 32) as char);
        } else {
            low.push(c);
        }
        proof {
            assert(gl.len() == s@.len());
            assert(gl[k as int] == lower_char(s@[k as int]));
            assert(gl.take(k as int + 1) =~= gl.take(k as int).push(gl[k as int]));
        }
        k += 1;
    }
    proof {
        assert(low@ =~= gl);
    }

    let mut out: Vec<char> = Vec::new();
    let mut any_word: bool = false;
    let mut last_was_word: bool = false;
    let mut i: usize = 0;
    while i < low.len()
        invariant
            i <= low.len(),
            low@ == gl,
            out@ =~= join_hyphen(words(gl.take(i as int))),
            any_word == (words(gl.take(i as int)).len() > 0),
            last_was_word == ends_in_word(gl.take(i as int)),
        decreases low.len() - i,
    {
        let c = low[i];
        let ghost p = gl.take(i as int);
        proof {
            assert(gl.take(i as int + 1) =~= p.push(gl[i as int]));
            lemma_words_push(p, gl[i as int]);
            if !is_space(gl[i as int]) {
                if ends_in_word(p) {
                    lemma_join_extend_last(words(p), gl[i as int]);
                } else {
                    lemma_join_push(words(p), seq![gl[i as int]]);
                }
            }
            assert(ends_in_word(p.push(gl[i as int])) == !is_space(gl[i as int]));
        }
        if is_space_exec(c) {
            last_was_word = false;
        } else {
            if any_word && !last_was_word {
                out.push('-');
            }
            out.push(c);
            any_word = true;
            last_was_word = true;
        }
        i += 1;
    }
    proof {
        assert(gl.take(low.len() as int) =~= gl);
    }
    if any_word {
        out
    } else {
        low
    }
}

/// The decimal digit character for `d`, which must lie in `0 ..= 9`.
pub open spec fn digit_char(d: int) -> char {
    ((48 + d) as u8) as char
}

/// The decimal digits of a nonnegative number, most significant first.
pub open spec fn dec_digits(n: int) -> Seq<char>
    decreases n,
{
    if n < 10 {
        seq![digit_char(n)]
    } else {
        dec_digits(n / 10).push(digit_char(n % 10))
    }
}

/// Appends the decimal representation of `n` to `out`.
pub fn push_decimal(out: &mut Vec<char>, n: usize)
    ensures
        final(out)@ == old(out)@ + dec_digits(n as int),
    decreases n,
{
    let ghost prefix = out@;
    if n >= 10 {
        push_decimal(out, n / 10);
    }
    out.push((48 + (n % 10) as u8) as char);
    proof {
        if n >= 10 {
            assert(out@ =~= prefix + dec_digits(n as int));
        } else {
            assert(out@ =~= prefix + dec_digits(n as int));
        }
    }
}

/// Relies on str::chars: yields the string's characters in order.
#[verifier::external_body]
pub fn str_chars(s: &str) -> (r: Vec<char>)
    ensures
        r@ == s@,
{
    s.chars().collect()
}

/// Relies on String's FromIterator<char>: collects the characters in order.
#[verifier::external_body]
pub fn chars_string(v: &Vec<char>) -> (r: String)
    ensures
        r@ == v@,
{
    v.iter().collect()
}

/// Lowercases a name and joins its whitespace-separated words with single
/// hyphens: `to_tag("Hello World")` is `"hello-world"`.
pub fn to_tag(s: &str) -> (r: String)
    ensures
        r@ == spec_to_tag(s@),
{
    let cs = str_chars(s);
    let t = tag_chars(&cs);
    chars_string(&t)
}

/// The tag of a name prefixed by an ordinal: `to_prefixed_tag("Hello", 2)`
/// is `"2-hello"`.
pub fn to_prefixed_tag(s: &str, p: usize) -> (r: String)
    ensures
        r@ == spec_to_tag(dec_digits(p as int) + seq!['-'] + s@),
{
    let mut v: Vec<char> = Vec::new();
    push_decimal(&mut v, p);
    v.push('-');
    let cs = str_chars(s);
    let mut j: usize = 0;
    while j < cs.len()
        invariant
            j <= cs.len(),
            cs@ == s@,
            v@ =~= dec_digits(p as int) + seq!['-'] + s@.take(j as int),
        decreases cs.len() - j,
    {
        v.push(cs[j]);
        proof {
            assert(s@.take(j as int + 1) =~= s@.take(j as int).push(s@[j as int]));
            assert(v@ =~= dec_digits(p as int) + seq!['-'] + s@.take(j as int + 1));
        }
        j += 1;
    }
    proof {
        assert(s@.take(s@.len() as int) =~= s@);
    }
    let t = tag_chars(&v);
    chars_string(&t)
}

/// A word: nonempty and free of whitespace.
pub open spec fn wordlike(w: Seq<char>) -> bool {
    w.len() > 0 && forall|i: int| 0 <= i < w.len() ==> !is_space(w[i])
}

/// A sequence every character of which lowercases to itself.
pub open spec fn lower_fixed(s: Seq<char>) -> bool {
    forall|i: int| 0 <= i < s.len() ==> lower_char(s[i]) == s[i]
}

proof fn lemma_lower_char_fixed(c: char)
    ensures
        lower_char(lower_char(c)) == lower_char(c),
        is_space(lower_char(c)) == is_space(c),
{
}

proof fn lemma_words_wf(p: Seq<char>)
    ensures
        forall|k: int| 0 <= k < words(p).len() ==> #[trigger] wordlike(words(p)[k]),
        lower_fixed(p) ==> forall|k: int|
            0 <= k < words(p).len() ==> #[trigger] lower_fixed(words(p)[k]),
    decreases p.len(),
{
    if p.len() == 0 {
    } else {
        let h = p[0];
        let t = p.drop_first();
        lemma_words_wf(t);
        assert(lower_fixed(p) ==> lower_fixed(t)) by {
            if lower_fixed(p) {
                assert(forall|i: int| 0 <= i < t.len() ==> t[i] == p[i + 1]);
            }
        }
        if is_space(h) {
        } else if t.len() > 0 && !is_space(t[0]) {
            let w0 = seq![h] + words(t)[0];
            assert(words(t).len() > 0);
            assert(wordlike(words(t)[0]));
            assert(wordlike(w0)) by {
                assert(forall|i: int| 1 <= i < w0.len() ==> w0[i] == words(t)[0][i - 1]);
            }
            assert(words(p) == seq![w0] + words(t).drop_first());
            assert(forall|k: int|
                1 <= k < words(p).len() ==> words(p)[k] == words(t)[k]);
            if lower_fixed(p) {
                assert(lower_fixed(words(t)[0]));
                assert forall|i: int| 0 <= i < w0.len() implies lower_char(w0[i]) == w0[i] by {
                    if i == 0 {
                        assert(w0[0] == p[0]);
                    } else {
                        assert(w0[i] == words(t)[0][i - 1]);
                    }
                }
            }
        } else {
            assert(words(p) == seq![seq![h]] + words(t));
            assert(wordlike(seq![h]));
            assert(forall|k: int|
                1 <= k < words(p).len() ==> words(p)[k] == words(t)[k - 1]);
            if lower_fixed(p) {
                assert(lower_fixed(seq![h])) by {
                    assert(seq![h][0] == p[0]);
                }
            }
        }
    }
}

proof fn lemma_join_wf(ws: Seq<Seq<char>>)
    requires
        forall|k: int| 0 <= k < ws.len() ==> #[trigger] wordlike(ws[k]),
    ensures
        ws.len() > 0 ==> join_hyphen(ws).len() > 0,
        forall|i: int| 0 <= i < join_hyphen(ws).len() ==> !is_space(#[trigger] join_hyphen(ws)[i]),
        (forall|k: int| 0 <= k < ws.len() ==> #[trigger] lower_fixed(ws[k])) ==> lower_fixed(
            join_hyphen(ws),
        ),
    decreases ws.len(),
{
    if ws.len() == 0 {
    } else if ws.len() == 1 {
        assert(wordlike(ws[0]));
    } else {
        lemma_join_wf(ws.drop_first());
        let j = join_hyphen(ws);
        let rest = join_hyphen(ws.drop_first());
        assert(j == ws[0] + seq!['-'] + rest);
        assert(forall|k: int| 0 <= k < ws.drop_first().len() ==> ws.drop_first()[k] == ws[k + 1]);
        assert(wordlike(ws[0]));
        assert forall|i: int| 0 <= i < j.len() implies !is_space(j[i]) by {
            if i < ws[0].len() {
                assert(j[i] == ws[0][i]);
            } else if i == ws[0].len() {
                assert(j[i] == '-');
            } else {
                assert(j[i] == rest[i - ws[0].len() - 1]);
            }
        }
        if forall|k: int| 0 <= k < ws.len() ==> #[trigger] lower_fixed(ws[k]) {
            assert(lower_fixed(ws[0]));
            assert forall|i: int| 0 <= i < j.len() implies lower_char(j[i]) == j[i] by {
                if i < ws[0].len() {
                    assert(j[i] == ws[0][i]);
                } else if i == ws[0].len() {
                    assert(j[i] == '-');
                } else {
                    assert(j[i] == rest[i - ws[0].len() - 1]);
                }
            }
        }
    }
}

proof fn lemma_words_of_wordlike(x: Seq<char>)
    requires
        x.len() > 0,
        forall|i: int| 0 <= i < x.len() ==> !is_space(x[i]),
    ensures
        words(x) =~= seq![x],
    decreases x.len(),
{
    let t = x.drop_first();
    if t.len() > 0 {
        lemma_words_of_wordlike(t);
        assert(!is_space(t[0])) by {
            assert(t[0] == x[1]);
        }
        assert(words(x) == seq![seq![x[0]] + words(t)[0]] + words(t).drop_first());
        assert(words(t)[0] == t);
        assert(seq![x[0]] + t =~= x);
        assert(words(t).drop_first() =~= Seq::<Seq<char>>::empty());
        assert(words(x) =~= seq![x]);
    } else {
        assert(words(x) == seq![seq![x[0]]] + words(t));
        assert(words(t) =~= Seq::<Seq<char>>::empty());
        assert(seq![x[0]] =~= x);
    }
}

proof fn lemma_lower_seq_fixed(s: Seq<char>)
    ensures
        lower_fixed(lower_seq(s)),
        lower_fixed(s) ==> lower_seq(s) =~= s,
{
    assert forall|i: int| 0 <= i < lower_seq(s).len() implies lower_char(
        #[trigger] lower_seq(s)[i],
    ) == lower_seq(s)[i] by {
        lemma_lower_char_fixed(s[i]);
    }
}

/// Tags are invariant to case: lowercasing a name first does not change
/// its tag.
pub proof fn lemma_to_tag_case_invariant(s: Seq<char>)
    ensures
        spec_to_tag(lower_seq(s)) == spec_to_tag(s),
{
    lemma_lower_seq_fixed(s);
    assert(lower_seq(lower_seq(s)) =~= lower_seq(s)) by {
        lemma_lower_seq_fixed(lower_seq(s));
    }
}

/// Tag generation is idempotent: tagging a tag returns it unchanged.
pub proof fn lemma_to_tag_idempotent(s: Seq<char>)
    ensures
        spec_to_tag(spec_to_tag(s)) == spec_to_tag(s),
{
    let l = lower_seq(s);
    lemma_lower_seq_fixed(s);
    if words(l).len() == 0 {
        // The tag is the lowercased name itself.
        lemma_lower_seq_fixed(l);
        assert(lower_seq(l) =~= l);
    } else {
        let t = join_hyphen(words(l));
        lemma_words_wf(l);
        lemma_join_wf(words(l));
        assert(lower_fixed(t));
        lemma_lower_seq_fixed(t);
        assert(lower_seq(t) =~= t);
        lemma_words_of_wordlike(t);
        assert(words(t) == seq![t]);
        assert(join_hyphen(seq![t]) == t);
    }
}

} // verus!
