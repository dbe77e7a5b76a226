//! Splitting file contents into lines.
//!
//! Lines are the newline-delimited segments of the contents; a trailing
//! newline closes the last line rather than opening an empty one, so
//! `"a\nb\n"` has the same lines as `"a\nb"`.

use vstd::prelude::*;

verus! {

/// The lines of `s`: the segments between newline characters, where a
/// trailing newline does not add an empty final line.
pub open spec fn spec_lines(s: Seq<char>) -> Seq<Seq<char>>
    decreases s.len(),
{
    if s.len() == 0 {
        Seq::empty()
    } else if s[0] == '\n' {
        seq![Seq::<char>::empty()] + spec_lines(s.drop_first())
    } else {
        let rest = spec_lines(s.drop_first());
        if rest.len() == 0 {
            seq![seq![s[0]]]
        } else {
            seq![seq![s[0]] + rest[0]] + rest.drop_first()
        }
    }
}

/// The lines of a text whose first line begins with `cur` and continues into
/// `rest`: `cur` is joined onto the front of the first line of `rest`, and an
/// empty `cur` before no further lines yields no line at all.
pub open spec fn prefix_lines(cur: Seq<char>, rest: Seq<Seq<char>>) -> Seq<Seq<char>> {
    if rest.len() == 0 {
        if cur.len() == 0 {
            Seq::empty()
        } else {
            seq![cur]
        }
    } else {
        seq![cur + rest[0]] + rest.drop_first()
    }
}

/// An empty prefix changes nothing: the lines are those of `rest`.
proof fn lemma_prefix_lines_empty(rest: Seq<Seq<char>>)
    ensures
        prefix_lines(Seq::<char>::empty(), rest) == rest,
{
    if rest.len() == 0 {
        assert(prefix_lines(Seq::<char>::empty(), rest) =~= rest);
    } else {
        assert(Seq::<char>::empty() + rest[0] =~= rest[0]);
        assert(prefix_lines(Seq::<char>::empty(), rest) =~~= rest);
    }
}

/// Consuming one character of `s` while building the current line `cur`:
/// a newline closes `cur` as a finished line, and any other character is
/// appended to `cur`.
proof fn lemma_prefix_lines_step(cur: Seq<char>, s: Seq<char>)
    requires
        s.len() > 0,
    ensures
        s[0] == '\n' ==> prefix_lines(cur, spec_lines(s)) == seq![cur] + prefix_lines(
            Seq::<char>::empty(),
            spec_lines(s.drop_first()),
        ),
        s[0] != '\n' ==> prefix_lines(cur, spec_lines(s)) == prefix_lines(
            cur.push(s[0]),
            spec_lines(s.drop_first()),
        ),
{
    let rest = spec_lines(s.drop_first());
    if s[0] == '\n' {
        lemma_prefix_lines_empty(rest);
        assert(cur + Seq::<char>::empty() =~= cur);
        assert((seq![Seq::<char>::empty()] + rest).drop_first() =~~= rest);
        assert(prefix_lines(cur, spec_lines(s)) =~~= seq![cur] + rest);
    } else {
        if rest.len() == 0 {
            assert(cur + seq![s[0]] =~= cur.push(s[0]));
            assert(prefix_lines(cur, spec_lines(s)) =~~= prefix_lines(
                cur.push(s[0]),
                rest,
            ));
        } else {
            assert(cur + (seq![s[0]] + rest[0]) =~= cur.push(s[0]) + rest[0]);
            assert((seq![seq![s[0]] + rest[0]] + rest.drop_first()).drop_first() =~~= rest.drop_first());
            assert(prefix_lines(cur, spec_lines(s)) =~~= prefix_lines(
                cur.push(s[0]),
                rest,
            ));
        }
    }
}

/// Relies on `String::push`: it appends the given character to the end of
/// the string.
pub assume_specification[ String::push ](s: &mut String, ch: char)
    ensures
        final(s)@ == old(s)@.push(ch),
;

/// Splits `contents` into its lines.
pub fn split_lines(contents: &str) -> (r: Vec<String>)
    ensures
        r.deep_view() == spec_lines(contents@),
{
    let mut r: Vec<String> = Vec::new();
    let mut cur: String = String::new();
    let ghost mut rem: Seq<char> = contents@;
    proof {
        lemma_prefix_lines_empty(spec_lines(contents@));
        assert(contents@.skip(0) =~= contents@);
    }
    for c in it: contents.chars()
        invariant
            it.seq() == contents@,
            rem == it.seq().skip(it.index()),
            r.deep_view() + prefix_lines(cur@, spec_lines(rem)) =~~= spec_lines(contents@),
    {
        proof {
            assert(rem[0] == c);
            lemma_prefix_lines_step(cur@, rem);
            assert(rem.drop_first() =~= it.seq().skip(it.index() + 1));
            rem = rem.drop_first();
        }
        if c == '\n' {
            let ghost old_r = r.deep_view();
            let ghost old_cur = cur@;
            r.push(cur);
            cur = String::new();
            proof {
                assert(r.deep_view() =~~= old_r.push(old_cur));
                assert(old_r.push(old_cur) + prefix_lines(cur@, spec_lines(rem))
                    =~~= old_r + (seq![old_cur] + prefix_lines(cur@, spec_lines(rem))));
            }
        } else {
            cur.push(c);
        }
    }
    proof {
        assert(rem.len() == 0);
        assert(rem =~= Seq::<char>::empty());
    }
    if !cur.as_str().is_empty() {
        let ghost old_r = r.deep_view();
        let ghost old_cur = cur@;
        r.push(cur);
        proof {
            assert(r.deep_view() =~~= old_r.push(old_cur));
            assert(old_r.push(old_cur) =~~= old_r + seq![old_cur]);
        }
    }
    assert(r.deep_view() =~~= spec_lines(contents@));
    r
}

} // verus!
