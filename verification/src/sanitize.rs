use vstd::prelude::*;

verus! {

use vstd::string::StrSliceExecFns;

/// Line separators that sanitizing recognises: both newline and carriage
/// return split lines, so a "\r\n" pair yields one extra empty piece, which
/// is dropped along with the other blank lines.
pub open spec fn is_break(c: char) -> bool {
    c == '\n' || c == '\r'
}

/// The whitespace trimmed from the ends of each line: the Unicode
/// White_Space characters, as `str::trim` removes them. Newline and
/// carriage return are line separators here, so they are left to
/// `is_break`; a line never contains them.
pub open spec fn is_space(c: char) -> bool {
    ||| c == ' '
    ||| c == '\t'
    ||| c == '\u{000B}'
    ||| c == '\u{000C}'
    ||| c == '\u{0085}'
    ||| c == '\u{00A0}'
    ||| c == '\u{1680}'
    ||| (0x2000 <= c as u32 && c as u32 <= 0x200A)
    ||| c == '\u{2028}'
    ||| c == '\u{2029}'
    ||| c == '\u{202F}'
    ||| c == '\u{205F}'
    ||| c == '\u{3000}'
}

/// The pieces of `s` between line separators, in order. There is always at
/// least one piece, and a trailing separator yields a final empty piece.
pub open spec fn split_lines(s: Seq<char>) -> Seq<Seq<char>>
    decreases s.len(),
{
    if s.len() == 0 {
        seq![Seq::<char>::empty()]
    } else if is_break(s.first()) {
        seq![Seq::<char>::empty()] + split_lines(s.drop_first())
    } else {
        let rest = split_lines(s.drop_first());
        seq![seq![s.first()] + rest.first()] + rest.drop_first()
    }
}

pub open spec fn trim_start(l: Seq<char>) -> Seq<char>
    decreases l.len(),
{
    if l.len() > 0 && is_space(l.first()) {
        trim_start(l.drop_first())
    } else {
        l
    }
}

pub open spec fn trim_end(l: Seq<char>) -> Seq<char>
    decreases l.len(),
{
    if l.len() > 0 && is_space(l.last()) {
        trim_end(l.drop_last())
    } else {
        l
    }
}

/// A line with the whitespace at both of its ends removed.
pub open spec fn spec_trim(l: Seq<char>) -> Seq<char> {
    trim_end(trim_start(l))
}

/// Every line trimmed, and the ones left empty dropped.
pub open spec fn clean_lines(ls: Seq<Seq<char>>) -> Seq<Seq<char>> {
    ls.map_values(|l: Seq<char>| spec_trim(l)).filter(|l: Seq<char>| l.len() > 0)
}

/// The lines joined by single newlines, with no separator at either end.
pub open spec fn join_lines(ls: Seq<Seq<char>>) -> Seq<char>
    decreases ls.len(),
{
    if ls.len() == 0 {
        Seq::empty()
    } else if ls.len() == 1 {
        ls.first()
    } else {
        ls.first() + seq!['\n'] + join_lines(ls.drop_first())
    }
}

/// What sanitizing key material produces: line endings normalised to "\n",
/// every line trimmed, blank lines dropped, and exactly one trailing newline.
pub open spec fn spec_sanitize(s: Seq<char>) -> Seq<char> {
    join_lines(clean_lines(split_lines(s))).push('\n')
}

/// Splitting never yields an empty sequence of pieces.
pub proof fn lemma_split_len(s: Seq<char>)
    ensures
        split_lines(s).len() >= 1,
    decreases s.len(),
{
    if s.len() > 0 {
        lemma_split_len(s.drop_first());
    }
}

/// How splitting changes when one character is appended: a separator closes
/// the current final piece; any other character extends it.
pub proof fn lemma_split_push(s: Seq<char>, c: char)
    ensures
        is_break(c) ==> split_lines(s.push(c)) == split_lines(s).push(Seq::<char>::empty()),
        !is_break(c) ==> split_lines(s.push(c)) == split_lines(s).drop_last().push(
            split_lines(s).last().push(c),
        ),
    decreases s.len(),
{
    lemma_split_len(s);
    if s.len() == 0 {
        assert(s.push(c) =~= seq![c]);
        assert(seq![c].drop_first() =~= Seq::<char>::empty());
        assert(split_lines(Seq::<char>::empty()) == seq![Seq::<char>::empty()]);
        if is_break(c) {
            assert(split_lines(seq![c]) =~= split_lines(s).push(Seq::<char>::empty()));
        } else {
            assert(seq![c] + Seq::<char>::empty() =~= seq![c]);
            assert(split_lines(seq![c]) =~= split_lines(s).drop_last().push(
                split_lines(s).last().push(c),
            ));
        }
    } else {
        lemma_split_push(s.drop_first(), c);
        lemma_split_len(s.drop_first());
        let t = s.push(c);
        assert(t.first() == s.first());
        assert(t.drop_first() =~= s.drop_first().push(c));
        let rest = split_lines(s.drop_first());
        let rest2 = split_lines(t.drop_first());
        if is_break(s.first()) {
            if is_break(c) {
                assert(rest2 == rest.push(Seq::<char>::empty()));
                assert(seq![Seq::<char>::empty()] + rest2 =~= (seq![Seq::<char>::empty()]
                    + rest).push(Seq::<char>::empty()));
            } else {
                assert(rest2 == rest.drop_last().push(rest.last().push(c)));
                assert(split_lines(s).last() == rest.last());
                assert(seq![Seq::<char>::empty()] + rest2 =~= (seq![Seq::<char>::empty()]
                    + rest).drop_last().push(rest.last().push(c)));
            }
        } else {
            if is_break(c) {
                assert(rest2 == rest.push(Seq::<char>::empty()));
                assert(rest2.first() == rest.first() || rest.len() == 0);
                if rest.len() == 0 {
                } else {
                    assert(rest2.first() == rest.first());
                    assert(seq![seq![t.first()] + rest2.first()] + rest2.drop_first() =~= (seq![
                        seq![s.first()] + rest.first()] + rest.drop_first()).push(
                        Seq::<char>::empty(),
                    ));
                }
            } else {
                assert(rest2 == rest.drop_last().push(rest.last().push(c)));
                if rest.len() == 1 {
                    assert(rest2 =~= seq![rest.last().push(c)]);
                    assert(rest2.first() == rest.first().push(c));
                    assert(split_lines(s) =~= seq![seq![s.first()] + rest.first()]);
                    assert(seq![seq![t.first()] + rest2.first()] + rest2.drop_first() =~= seq![
                        (seq![s.first()] + rest.first()).push(c)]);
                    assert(seq![s.first()] + rest.first().push(c) =~= (seq![s.first()]
                        + rest.first()).push(c));
                    assert(split_lines(s).drop_last() =~= Seq::<Seq<char>>::empty());
                    assert(split_lines(t) =~= split_lines(s).drop_last().push(
                        split_lines(s).last().push(c),
                    ));
                } else {
                    assert(rest2.first() == rest.first());
                    assert(split_lines(s).last() == rest.last());
                    assert(seq![seq![t.first()] + rest2.first()] + rest2.drop_first() =~= (seq![
                        seq![s.first()] + rest.first()] + rest.drop_first()).drop_last().push(
                        rest.last().push(c),
                    ));
                }
            }
        }
    }
}

/// Dropping the whitespace-only prefix of length `a` is what trimming the
/// start does.
pub proof fn lemma_trim_start_at(l: Seq<char>, a: int)
    requires
        0 <= a <= l.len(),
        forall|k: int| 0 <= k < a ==> is_space(#[trigger] l[k]),
        a == l.len() || !is_space(l[a]),
    ensures
        trim_start(l) == l.skip(a),
    decreases a,
{
    if a == 0 {
        assert(l.skip(0) =~= l);
    } else {
        assert(is_space(l.first()));
        lemma_trim_start_at(l.drop_first(), a - 1);
        assert(l.drop_first().skip(a - 1) =~= l.skip(a));
    }
}

/// Dropping the whitespace-only suffix after index `b` is what trimming the
/// end does.
pub proof fn lemma_trim_end_at(l: Seq<char>, b: int)
    requires
        0 <= b <= l.len(),
        forall|k: int| b <= k < l.len() ==> is_space(#[trigger] l[k]),
        b == 0 || !is_space(l[b - 1]),
    ensures
        trim_end(l) == l.take(b),
    decreases l.len(),
{
    if b == l.len() {
        if l.len() > 0 && is_space(l.last()) {
            assert(false);
        }
        assert(l.take(b) =~= l);
    } else {
        assert(is_space(l.last()));
        lemma_trim_end_at(l.drop_last(), b);
        assert(l.drop_last().take(b) =~= l.take(b));
    }
}

/// How cleaning changes when one more raw line arrives: it contributes its
/// trimmed form, or nothing when that is blank.
pub proof fn lemma_clean_push(ls: Seq<Seq<char>>, l: Seq<char>)
    ensures
        spec_trim(l).len() == 0 ==> clean_lines(ls.push(l)) == clean_lines(ls),
        spec_trim(l).len() > 0 ==> clean_lines(ls.push(l)) == clean_lines(ls).push(spec_trim(l)),
{
    reveal(Seq::filter);
    let tr = |x: Seq<char>| spec_trim(x);
    let keep = |x: Seq<char>| x.len() > 0;
    let mapped = ls.map_values(tr);
    assert(ls.push(l).map_values(tr) =~= mapped.push(tr(l)));
    assert(mapped.push(tr(l)).drop_last() =~= mapped);
    assert(mapped.push(tr(l)).last() == tr(l));
}

/// How joining changes when one more line arrives: the first line stands
/// alone, later ones are preceded by a single newline.
pub proof fn lemma_join_push(ls: Seq<Seq<char>>, l: Seq<char>)
    ensures
        ls.len() == 0 ==> join_lines(ls.push(l)) == l,
        ls.len() > 0 ==> join_lines(ls.push(l)) == join_lines(ls) + seq!['\n'] + l,
    decreases ls.len(),
{
    if ls.len() == 0 {
        assert(ls.push(l) =~= seq![l]);
    } else if ls.len() == 1 {
        assert(ls.push(l).drop_first() =~= seq![l]);
        assert(join_lines(seq![l]) == l);
        assert(join_lines(ls) == ls.first());
    } else {
        lemma_join_push(ls.drop_first(), l);
        assert(ls.push(l).drop_first() =~= ls.drop_first().push(l));
        assert(ls.push(l).first() == ls.first());
        assert(ls.first() + seq!['\n'] + (join_lines(ls.drop_first()) + seq!['\n'] + l) =~= (
        ls.first() + seq!['\n'] + join_lines(ls.drop_first())) + seq!['\n'] + l);
    }
}

/// Trimming keeps only characters that were already in the line, so any
/// property of all its characters survives trimming.
proof fn lemma_trim_start_chars(l: Seq<char>, p: spec_fn(char) -> bool)
    requires
        forall|i: int| 0 <= i < l.len() ==> p(#[trigger] l[i]),
    ensures
        forall|i: int| 0 <= i < trim_start(l).len() ==> p(#[trigger] trim_start(l)[i]),
    decreases l.len(),
{
    if l.len() > 0 && is_space(l.first()) {
        lemma_trim_start_chars(l.drop_first(), p);
        assert forall|i: int| 0 <= i < trim_start(l).len() implies p(
            #[trigger] trim_start(l)[i],
        ) by {
            assert(trim_start(l) == trim_start(l.drop_first()));
            assert(p(trim_start(l.drop_first())[i]));
        }
    }
}

proof fn lemma_trim_end_chars(l: Seq<char>, p: spec_fn(char) -> bool)
    requires
        forall|i: int| 0 <= i < l.len() ==> p(#[trigger] l[i]),
    ensures
        forall|i: int| 0 <= i < trim_end(l).len() ==> p(#[trigger] trim_end(l)[i]),
    decreases l.len(),
{
    if l.len() > 0 && is_space(l.last()) {
        lemma_trim_end_chars(l.drop_last(), p);
        assert forall|i: int| 0 <= i < trim_end(l).len() implies p(#[trigger] trim_end(l)[i]) by {
            assert(trim_end(l) == trim_end(l.drop_last()));
            assert(p(trim_end(l.drop_last())[i]));
        }
    }
}

proof fn lemma_trim_chars(l: Seq<char>, p: spec_fn(char) -> bool)
    requires
        forall|i: int| 0 <= i < l.len() ==> p(#[trigger] l[i]),
    ensures
        forall|i: int| 0 <= i < spec_trim(l).len() ==> p(#[trigger] spec_trim(l)[i]),
{
    lemma_trim_start_chars(l, p);
    lemma_trim_end_chars(trim_start(l), p);
}

/// A non-empty trimmed line neither starts nor ends with whitespace.
proof fn lemma_trim_start_first(l: Seq<char>)
    ensures
        trim_start(l).len() > 0 ==> !is_space(trim_start(l).first()),
    decreases l.len(),
{
    if l.len() > 0 && is_space(l.first()) {
        lemma_trim_start_first(l.drop_first());
    }
}

proof fn lemma_trim_end_last(l: Seq<char>)
    ensures
        trim_end(l).len() > 0 ==> !is_space(trim_end(l).last()),
    decreases l.len(),
{
    if l.len() > 0 && is_space(l.last()) {
        lemma_trim_end_last(l.drop_last());
    }
}

proof fn lemma_trim_end_first(l: Seq<char>)
    ensures
        trim_end(l).len() > 0 ==> trim_end(l).first() == l.first(),
        trim_end(l).len() > 0 ==> l.len() > 0,
    decreases l.len(),
{
    if l.len() > 0 && is_space(l.last()) {
        lemma_trim_end_first(l.drop_last());
    }
}

/// A line that is already trimmed does not shrink further: trimming is
/// idempotent.
pub proof fn lemma_trim_idempotent(l: Seq<char>)
    ensures
        spec_trim(spec_trim(l)) == spec_trim(l),
{
    let t = spec_trim(l);
    lemma_trim_start_first(l);
    lemma_trim_end_first(trim_start(l));
    lemma_trim_end_last(trim_start(l));
    if t.len() > 0 {
        assert(!is_space(t.first()));
        assert(!is_space(t.last()));
        assert(trim_start(t) == t);
        assert(trim_end(t) == t);
    } else {
        assert(trim_start(t) == t);
        assert(trim_end(t) == t);
    }
}

/// A well-formed output line: non-empty, trimmed at both ends, and free of
/// line separators.
spec fn good_line(l: Seq<char>) -> bool {
    &&& l.len() > 0
    &&& !is_space(l.first())
    &&& !is_space(l.last())
    &&& forall|i: int| 0 <= i < l.len() ==> !is_break(#[trigger] l[i])
}

/// No piece produced by splitting contains a separator.
proof fn lemma_split_no_breaks(s: Seq<char>)
    ensures
        forall|i: int, k: int|
            0 <= i < split_lines(s).len() && 0 <= k < split_lines(s)[i].len() ==> !is_break(
                #[trigger] split_lines(s)[i][k],
            ),
    decreases s.len(),
{
    if s.len() == 0 {
    } else {
        lemma_split_no_breaks(s.drop_first());
        lemma_split_len(s.drop_first());
        let rest = split_lines(s.drop_first());
        if is_break(s.first()) {
        } else {
            assert forall|i: int, k: int|
                0 <= i < split_lines(s).len() && 0 <= k < split_lines(s)[i].len() implies !is_break(
                split_lines(s)[i][k],
            ) by {
                if i == 0 {
                    if k == 0 {
                    } else {
                        assert(split_lines(s)[0][k] == rest[0][k - 1]);
                    }
                } else {
                    assert(split_lines(s)[i] == rest[i]);
                }
            }
        }
    }
}

/// Every line that cleaning keeps is good: non-empty, trimmed, break-free.
proof fn lemma_clean_good(ls: Seq<Seq<char>>)
    requires
        forall|i: int, k: int|
            0 <= i < ls.len() && 0 <= k < ls[i].len() ==> !is_break(#[trigger] ls[i][k]),
    ensures
        forall|i: int| 0 <= i < clean_lines(ls).len() ==> good_line(#[trigger] clean_lines(ls)[i]),
    decreases ls.len(),
{
    if ls.len() == 0 {
        reveal(Seq::filter);
        assert(ls.map_values(|l: Seq<char>| spec_trim(l)) =~= Seq::<Seq<char>>::empty());
    } else {
        let prev = ls.drop_last();
        let last = ls.last();
        lemma_clean_good(prev);
        assert(ls =~= prev.push(last));
        lemma_clean_push(prev, last);
        let t = spec_trim(last);
        if t.len() > 0 {
            lemma_trim_start_first(last);
            lemma_trim_end_first(trim_start(last));
            lemma_trim_end_last(trim_start(last));
            lemma_trim_chars(last, |c: char| !is_break(c));
            assert(good_line(t));
            assert(clean_lines(ls) == clean_lines(prev).push(t));
            assert forall|i: int| 0 <= i < clean_lines(ls).len() implies good_line(
                clean_lines(ls)[i],
            ) by {
                if i < clean_lines(prev).len() {
                    assert(clean_lines(ls)[i] == clean_lines(prev)[i]);
                }
            }
        }
    }
}

/// Cleaning a batch of lines that are already good keeps them all, as they
/// are.
proof fn lemma_clean_of_good(ls: Seq<Seq<char>>)
    requires
        forall|i: int| 0 <= i < ls.len() ==> good_line(#[trigger] ls[i]),
    ensures
        clean_lines(ls) == ls,
    decreases ls.len(),
{
    if ls.len() == 0 {
        reveal(Seq::filter);
        assert(ls.map_values(|l: Seq<char>| spec_trim(l)) =~= Seq::<Seq<char>>::empty());
    } else {
        let prev = ls.drop_last();
        let last = ls.last();
        lemma_clean_of_good(prev);
        assert(ls =~= prev.push(last));
        lemma_clean_push(prev, last);
        lemma_trim_idempotent(last);
        assert(trim_start(last) == last);
        assert(trim_end(last) == last);
        assert(spec_trim(last) == last);
        assert(clean_lines(ls) == prev.push(last));
    }
}

/// Splitting a break-free line, one separator, and whatever follows.
proof fn lemma_split_line_sep(l: Seq<char>, x: Seq<char>)
    requires
        forall|i: int| 0 <= i < l.len() ==> !is_break(#[trigger] l[i]),
    ensures
        split_lines(l + seq!['\n'] + x) == seq![l] + split_lines(x),
    decreases l.len(),
{
    lemma_split_len(x);
    if l.len() == 0 {
        assert(l + seq!['\n'] + x =~= seq!['\n'] + x);
        let s = seq!['\n'] + x;
        assert(s.first() == '\n');
        assert(s.drop_first() =~= x);
        assert(split_lines(s) == seq![Seq::<char>::empty()] + split_lines(x));
        assert(l =~= Seq::<char>::empty());
    } else {
        lemma_split_line_sep(l.drop_first(), x);
        let s = l + seq!['\n'] + x;
        assert(s.first() == l.first());
        assert(!is_break(s.first()));
        assert(s.drop_first() =~= l.drop_first() + seq!['\n'] + x);
        let rest = split_lines(s.drop_first());
        assert(rest == seq![l.drop_first()] + split_lines(x));
        assert(rest.first() == l.drop_first());
        assert(rest.drop_first() =~= split_lines(x));
        assert(seq![s.first()] + rest.first() =~= l);
        assert(split_lines(s) =~= seq![l] + split_lines(x));
    }
}

/// Splitting undoes joining: the joined good lines come back, with one empty
/// piece for the trailing newline.
proof fn lemma_split_of_join(ls: Seq<Seq<char>>)
    requires
        ls.len() >= 1,
        forall|i: int, k: int|
            0 <= i < ls.len() && 0 <= k < ls[i].len() ==> !is_break(#[trigger] ls[i][k]),
    ensures
        split_lines(join_lines(ls).push('\n')) == ls.push(Seq::<char>::empty()),
    decreases ls.len(),
{
    if ls.len() == 1 {
        let l = ls.first();
        assert(join_lines(ls) == l);
        assert(l.push('\n') =~= l + seq!['\n'] + Seq::<char>::empty());
        lemma_split_line_sep(l, Seq::<char>::empty());
        assert(split_lines(Seq::<char>::empty()) == seq![Seq::<char>::empty()]);
        assert(seq![l] + seq![Seq::<char>::empty()] =~= ls.push(Seq::<char>::empty()));
    } else {
        let rest = ls.drop_first();
        lemma_split_of_join(rest);
        let l = ls.first();
        assert(join_lines(ls) == l + seq!['\n'] + join_lines(rest));
        assert(join_lines(ls).push('\n') =~= l + seq!['\n'] + join_lines(rest).push('\n'));
        lemma_split_line_sep(l, join_lines(rest).push('\n'));
        assert(seq![l] + rest.push(Seq::<char>::empty()) =~= ls.push(Seq::<char>::empty()));
    }
}

/// Sanitizing is idempotent: output that is already sanitized comes back
/// unchanged.
pub proof fn lemma_sanitize_idempotent(s: Seq<char>)
    ensures
        spec_sanitize(spec_sanitize(s)) == spec_sanitize(s),
{
    lemma_split_no_breaks(s);
    lemma_clean_good(split_lines(s));
    let cl = clean_lines(split_lines(s));
    let r = spec_sanitize(s);
    if cl.len() == 0 {
        assert(join_lines(cl) == Seq::<char>::empty());
        assert(r =~= seq!['\n']);
        let one = seq!['\n'];
        assert(one.first() == '\n');
        assert(one.drop_first() =~= Seq::<char>::empty());
        assert(split_lines(Seq::<char>::empty()) == seq![Seq::<char>::empty()]);
        assert(split_lines(one) == seq![Seq::<char>::empty()] + seq![Seq::<char>::empty()]);
        let two = split_lines(one);
        reveal(Seq::filter);
        assert(two =~= Seq::<Seq<char>>::empty().push(Seq::<char>::empty()).push(
            Seq::<char>::empty(),
        ));
        lemma_clean_push(Seq::<Seq<char>>::empty().push(Seq::<char>::empty()), Seq::<char>::empty());
        lemma_clean_push(Seq::<Seq<char>>::empty(), Seq::<char>::empty());
        assert(Seq::<Seq<char>>::empty().map_values(|l: Seq<char>| spec_trim(l))
            =~= Seq::<Seq<char>>::empty());
        assert(clean_lines(two) =~= Seq::<Seq<char>>::empty());
        assert(spec_sanitize(r) =~= r);
    } else {
        assert(forall|i: int, k: int|
            0 <= i < cl.len() && 0 <= k < cl[i].len() ==> !is_break(#[trigger] cl[i][k]));
        lemma_split_of_join(cl);
        assert(split_lines(r) == cl.push(Seq::<char>::empty()));
        lemma_clean_push(cl, Seq::<char>::empty());
        assert(spec_trim(Seq::<char>::empty()) == Seq::<char>::empty());
        lemma_clean_of_good(cl);
        assert(clean_lines(split_lines(r)) == cl);
        assert(spec_sanitize(r) == r);
    }
}

/// The join of good lines starts and ends with substantial characters, holds
/// no carriage return, and every newline in it sits strictly between two
/// characters that are neither whitespace nor separators.
proof fn lemma_join_good(ls: Seq<Seq<char>>)
    requires
        forall|i: int| 0 <= i < ls.len() ==> good_line(#[trigger] ls[i]),
    ensures
        ls.len() > 0 ==> join_lines(ls).len() > 0,
        ls.len() > 0 ==> !is_space(join_lines(ls).first()) && !is_break(join_lines(ls).first()),
        ls.len() > 0 ==> !is_space(join_lines(ls).last()) && !is_break(join_lines(ls).last()),
        forall|i: int| 0 <= i < join_lines(ls).len() ==> #[trigger] join_lines(ls)[i] != '\r',
        forall|i: int|
            0 <= i < join_lines(ls).len() && #[trigger] join_lines(ls)[i] == '\n' ==> 0 < i
                < join_lines(ls).len() - 1 && !is_space(join_lines(ls)[i - 1]) && !is_break(
                join_lines(ls)[i - 1],
            ) && !is_space(join_lines(ls)[i + 1]) && !is_break(join_lines(ls)[i + 1]),
    decreases ls.len(),
{
    let j = join_lines(ls);
    if ls.len() == 0 {
    } else if ls.len() == 1 {
        assert(good_line(ls[0]));
        assert(j == ls.first());
    } else {
        let l0 = ls.first();
        let rest = ls.drop_first();
        lemma_join_good(rest);
        let jr = join_lines(rest);
        assert(good_line(ls[0]));
        assert(j == l0 + seq!['\n'] + jr);
        assert(jr.len() > 0);
        let sep = l0.len() as int;
        assert(j.len() == l0.len() + 1 + jr.len());
        assert(j.first() == l0.first());
        assert(j.last() == jr.last());
        assert forall|i: int| 0 <= i < j.len() && #[trigger] j[i] == '\n' implies 0 < i < j.len()
            - 1 && !is_space(j[i - 1]) && !is_break(j[i - 1]) && !is_space(j[i + 1]) && !is_break(
            j[i + 1],
        ) by {
            if i < sep {
                assert(j[i] == l0[i]);
                assert(!is_break(l0[i]));
            } else if i == sep {
                assert(j[i - 1] == l0[l0.len() - 1]);
                assert(j[i + 1] == jr[0]);
            } else {
                let m = i - sep - 1;
                assert(j[i] == jr[m]);
                assert(0 < m < jr.len() - 1);
                assert(j[i - 1] == jr[m - 1]);
                assert(j[i + 1] == jr[m + 1]);
            }
        }
        assert forall|i: int| 0 <= i < j.len() implies #[trigger] j[i] != '\r' by {
            if i < sep {
                assert(j[i] == l0[i]);
                assert(!is_break(l0[i]));
            } else if i == sep {
            } else {
                assert(j[i] == jr[i - sep - 1]);
            }
        }
    }
}

/// Sanitized output is clean: it ends in exactly one newline, holds no
/// carriage return, and has no blank or whitespace-padded lines.
pub proof fn lemma_sanitize_clean(s: Seq<char>)
    ensures
        spec_sanitize(s).len() >= 1,
        spec_sanitize(s).last() == '\n',
        forall|i: int| 0 <= i < spec_sanitize(s).len() ==> #[trigger] spec_sanitize(s)[i] != '\r',
        forall|i: int|
            0 <= i < spec_sanitize(s).len() - 1 && #[trigger] spec_sanitize(s)[i] == '\n'
                ==> spec_sanitize(s)[i + 1] != '\n' && !is_space(spec_sanitize(s)[i + 1]),
        forall|i: int|
            0 <= i < spec_sanitize(s).len() - 1 && #[trigger] spec_sanitize(s)[i + 1] == '\n'
                ==> spec_sanitize(s)[i] != '\n' && !is_space(spec_sanitize(s)[i]),
        spec_sanitize(s).len() > 1 ==> spec_sanitize(s)[0] != '\n' && !is_space(spec_sanitize(s)[0]),
{
    lemma_split_no_breaks(s);
    lemma_clean_good(split_lines(s));
    let cl = clean_lines(split_lines(s));
    lemma_join_good(cl);
    let j = join_lines(cl);
    let r = spec_sanitize(s);
    assert(r == j.push('\n'));
    assert(r.len() == j.len() + 1);
    assert(r.last() == '\n');
    if cl.len() == 0 {
        assert(j.len() == 0);
    } else {
        assert(j.len() > 0);
        assert forall|i: int| 0 <= i < r.len() - 1 && #[trigger] r[i] == '\n' implies r[i + 1]
            != '\n' && !is_space(r[i + 1]) by {
            assert(r[i] == j[i]);
            assert(0 < i < j.len() - 1);
            assert(r[i + 1] == j[i + 1]);
        }
        assert forall|i: int| 0 <= i < r.len() - 1 && #[trigger] r[i + 1] == '\n' implies r[i]
            != '\n' && !is_space(r[i]) by {
            if i + 1 == j.len() {
                assert(r[i] == j[j.len() - 1]);
                assert(!is_space(j.last()) && !is_break(j.last()));
            } else {
                assert(r[i + 1] == j[i + 1]);
                assert(r[i] == j[i]);
            }
        }
        assert(r[0] == j.first());
    }
}

/// Relies on String::push: appends the one character to the end of the
/// string.
#[verifier::external_body]
pub(crate) fn push_char(s: &mut String, c: char)
    ensures
        final(s)@ == old(s)@.push(c),
{
    s.push(c);
}

fn is_space_char(c: char) -> (r: bool)
    ensures
        r == is_space(c),
{
    let u = c as u32;
    c == ' ' || c == '\t' || c == '\u{000B}' || c == '\u{000C}' || c == '\u{0085}'
        || c == '\u{00A0}' || c == '\u{1680}' || (0x2000 <= u && u <= 0x200A) || c == '\u{2028}'
        || c == '\u{2029}' || c == '\u{202F}' || c == '\u{205F}' || c == '\u{3000}'
}

/// What one raw line contributes to the sanitized output, given whether a
/// line was already written before it.
spec fn line_piece(l: Seq<char>, any: bool) -> Seq<char> {
    let t = spec_trim(l);
    if t.len() == 0 {
        Seq::empty()
    } else if any {
        seq!['\n'] + t
    } else {
        t
    }
}

/// Appends one cleaned line to the output: trims it, drops it when blank,
/// and separates it from an earlier line by a single newline.
fn emit_line(out: &mut String, line: &Vec<char>, any: bool) -> (emitted: bool)
    ensures
        emitted == (spec_trim(line@).len() > 0),
        final(out)@ == old(out)@ + line_piece(line@, any),
{
    let n = line.len();
    let mut a: usize = 0;
    loop
        invariant
            a <= n,
            n == line@.len(),
            forall|k: int| 0 <= k < a ==> is_space(#[trigger] line@[k]),
        ensures
            a <= n,
            forall|k: int| 0 <= k < a ==> is_space(#[trigger] line@[k]),
            a == n || !is_space(line@[a as int]),
        decreases n - a,
    {
        if a < n {
            if is_space_char(line[a]) {
                a += 1;
            } else {
                break;
            }
        } else {
            break;
        }
    }
    proof {
        lemma_trim_start_at(line@, a as int);
    }
    if a == n {
        proof {
            assert(line@.skip(n as int) =~= Seq::<char>::empty());
            assert(spec_trim(line@) == Seq::<char>::empty());
            assert(old(out)@ + line_piece(line@, any) =~= old(out)@);
        }
        return false;
    }
    let mut b: usize = n;
    loop
        invariant
            a < b <= n,
            n == line@.len(),
            !is_space(line@[a as int]),
            forall|k: int| b <= k < n ==> is_space(#[trigger] line@[k]),
        ensures
            a < b <= n,
            forall|k: int| b <= k < n ==> is_space(#[trigger] line@[k]),
            !is_space(line@[b - 1]),
        decreases b,
    {
        if b > a + 1 {
            if is_space_char(line[b - 1]) {
                b -= 1;
            } else {
                break;
            }
        } else {
            break;
        }
    }
    let ghost trimmed = line@.subrange(a as int, b as int);
    proof {
        let st = line@.skip(a as int);
        assert(forall|k: int| b - a <= k < st.len() ==> is_space(#[trigger] st[k]));
        assert(!is_space(st[b - a - 1]));
        lemma_trim_end_at(st, b - a);
        assert(st.take(b - a) =~= trimmed);
        assert(spec_trim(line@) == trimmed);
        assert(trimmed.len() > 0);
    }
    if any {
        push_char(out, '\n');
    }
    let mut k = a;
    while k < b
        invariant
            a <= k <= b <= n,
            n == line@.len(),
            trimmed == line@.subrange(a as int, b as int),
            spec_trim(line@) == trimmed,
            trimmed.len() > 0,
            out@ == old(out)@ + line_piece(line@, any).take(
                line_piece(line@, any).len() - (b - k),
            ),
        decreases b - k,
    {
        push_char(out, line[k]);
        proof {
            let piece = line_piece(line@, any);
            assert(piece.take(piece.len() - (b - k - 1)) =~= piece.take(
                piece.len() - (b - k),
            ).push(line@[k as int]));
            assert(out@ =~= old(out)@ + piece.take(piece.len() - (b - k - 1)));
        }
        k += 1;
    }
    proof {
        let piece = line_piece(line@, any);
        assert(piece.take(piece.len() as int) =~= piece);
    }
    true
}

/// Normalises raw private-key material: line endings become "\n", every
/// line is trimmed, blank lines are dropped, and the result carries exactly
/// one trailing newline. Many key formats fail to parse without that shape.
pub fn sanitize_ssh_key(input: &str) -> (r: String)
    ensures
        r@ == spec_sanitize(input@),
{
    let n = input.unicode_len();
    let mut out = String::new();
    let mut line: Vec<char> = Vec::new();
    let mut any = false;
    let mut i: usize = 0;
    proof {
        assert(input@.take(0) =~= Seq::<char>::empty());
        assert(split_lines(Seq::<char>::empty()) == seq![Seq::<char>::empty()]);
        assert(split_lines(input@.take(0)).drop_last() =~= Seq::<Seq<char>>::empty());
        reveal(Seq::filter);
        assert(Seq::<Seq<char>>::empty().map_values(|l: Seq<char>| spec_trim(l))
            =~= Seq::<Seq<char>>::empty());
        assert(clean_lines(Seq::<Seq<char>>::empty()) == Seq::<Seq<char>>::empty());
    }
    while i < n
        invariant
            i <= n,
            n == input@.len(),
            split_lines(input@.take(i as int)).last() == line@,
            out@ == join_lines(clean_lines(split_lines(input@.take(i as int)).drop_last())),
            any == (clean_lines(split_lines(input@.take(i as int)).drop_last()).len() > 0),
        decreases n - i,
    {
        let ghost prefix = input@.take(i as int);
        let ghost ls = split_lines(prefix);
        proof {
            lemma_split_len(prefix);
            assert(input@.take(i + 1) =~= prefix.push(input@[i as int]));
            lemma_split_push(prefix, input@[i as int]);
        }
        let c = input.get_char(i);
        if c == '\n' || c == '\r' {
            let ghost cur = line@;
            let e = emit_line(&mut out, &line, any);
            any = any || e;
            line.clear();
            proof {
                let ls2 = split_lines(input@.take(i + 1));
                assert(ls2 == ls.push(Seq::<char>::empty()));
                assert(ls2.drop_last() =~= ls);
                assert(ls =~= ls.drop_last().push(cur));
                lemma_clean_push(ls.drop_last(), cur);
                if spec_trim(cur).len() == 0 {
                    assert(out@ =~= join_lines(clean_lines(ls)));
                } else {
                    lemma_join_push(clean_lines(ls.drop_last()), spec_trim(cur));
                    if clean_lines(ls.drop_last()).len() == 0 {
                        assert(out@ =~= join_lines(clean_lines(ls)));
                    } else {
                        assert(out@ =~= join_lines(clean_lines(ls)));
                    }
                }
            }
        } else {
            line.push(c);
            proof {
                let ls2 = split_lines(input@.take(i + 1));
                assert(ls2 == ls.drop_last().push(ls.last().push(c)));
                assert(ls2.drop_last() =~= ls.drop_last());
                assert(ls2.last() == line@);
            }
        }
        i += 1;
    }
    proof {
        assert(input@.take(n as int) =~= input@);
    }
    let ghost ls = split_lines(input@);
    let e = emit_line(&mut out, &line, any);
    proof {
        lemma_split_len(input@);
        assert(ls.last() == line@);
        let rebuilt = ls.drop_last().push(line@);
        assert(rebuilt.len() == ls.len());
        assert forall|m: int| 0 <= m < ls.len() implies rebuilt[m] == ls[m] by {
            if m < ls.len() - 1 {
                assert(rebuilt[m] == ls.drop_last()[m]);
            } else {
                assert(rebuilt[m] == line@);
            }
        }
        assert(ls =~= rebuilt);
        lemma_clean_push(ls.drop_last(), line@);
        if spec_trim(line@).len() == 0 {
            assert(out@ =~= join_lines(clean_lines(ls)));
        } else {
            lemma_join_push(clean_lines(ls.drop_last()), spec_trim(line@));
            assert(out@ =~= join_lines(clean_lines(ls)));
        }
    }
    push_char(&mut out, '\n');
    out
}

} // verus!
