use vstd::prelude::*;

verus! {

/// The lines of `s`: the pieces between line breaks, in order. There is one
/// more line than there are line breaks; no line holds a line break.
pub open spec fn lines_of(s: Seq<char>) -> Seq<Seq<char>>
    decreases s.len(),
{
    if s.len() == 0 {
        seq![Seq::<char>::empty()]
    } else if s.last() == '\n' {
        lines_of(s.drop_last()).push(Seq::<char>::empty())
    } else {
        let ls = lines_of(s.drop_last());
        ls.update(ls.len() - 1, ls.last().push(s.last()))
    }
}

/// The lines `ls` joined with a line break between each two.
pub open spec fn join_lines(ls: Seq<Seq<char>>) -> Seq<char>
    decreases ls.len(),
{
    if ls.len() == 0 {
        Seq::<char>::empty()
    } else if ls.len() == 1 {
        ls[0]
    } else {
        join_lines(ls.drop_last()) + seq!['\n'] + ls.last()
    }
}

/// The number of line breaks in `s`.
pub open spec fn breaks_in(s: Seq<char>) -> nat
    decreases s.len(),
{
    if s.len() == 0 {
        0
    } else {
        breaks_in(s.drop_last()) + if s.last() == '\n' { 1nat } else { 0nat }
    }
}

/// Splitting on line breaks and joining again gives the text back; there is
/// one line more than there are line breaks, and no line holds a break.
pub proof fn lemma_lines_round_trip(s: Seq<char>)
    ensures
        join_lines(lines_of(s)) == s,
        lines_of(s).len() == breaks_in(s) + 1,
        forall|i: int| 0 <= i < lines_of(s).len() ==> !lines_of(s)[i].contains('\n'),
    decreases s.len(),
{
    if s.len() > 0 {
        let p = s.drop_last();
        lemma_lines_round_trip(p);
        let lp = lines_of(p);
        let ls = lines_of(s);
        if s.last() == '\n' {
            assert(ls.drop_last() == lp);
            assert(join_lines(ls) =~= s);
            assert forall|i: int| 0 <= i < ls.len() implies !ls[i].contains('\n') by {
                if i < lp.len() {
                    assert(ls[i] == lp[i]);
                }
            }
        } else {
            let last = lp.last().push(s.last());
            assert(ls.drop_last() =~= lp.drop_last());
            assert forall|i: int| 0 <= i < ls.len() implies !ls[i].contains('\n') by {
                if i < lp.len() - 1 {
                    assert(ls[i] == lp[i]);
                } else {
                    assert(ls[i] == last);
                    if last.contains('\n') {
                        let k = choose|k: int| 0 <= k < last.len() && last[k] == '\n';
                        assert(lp.last()[k] == '\n');
                        assert(lp.last().contains('\n'));
                    }
                }
            }
            if lp.len() == 1 {
                assert(join_lines(ls) =~= s);
            } else {
                assert(join_lines(lp) == join_lines(lp.drop_last()) + seq!['\n'] + lp.last());
                assert(ls.len() == lp.len());
                assert(ls.last() == last);
                assert(join_lines(ls) == join_lines(ls.drop_last()) + seq!['\n'] + ls.last());
                assert(join_lines(ls) =~= join_lines(lp) + seq![s.last()]);
                assert(s =~= p + seq![s.last()]);
            }
        }
    }
}

/// Splits `text` into its lines on the line-break character.
pub fn split_lines(text: &str) -> (r: Vec<Vec<char>>)
    ensures
        r@.map_values(|l: Vec<char>| l@) == lines_of(text@),
{
    let mut lines: Vec<Vec<char>> = Vec::new();
    let mut cur: Vec<char> = Vec::new();
    for c in it: text.chars()
        invariant
            it.seq() == text@,
            lines@.map_values(|l: Vec<char>| l@).push(cur@) == lines_of(
                text@.take(it.index() as int),
            ),
    {
        let ghost before = text@.take(it.index() as int);
        proof {
            assert(text@.take(it.index() + 1).drop_last() =~= before);
        }
        if c == '\n' {
            lines.push(cur);
            cur = Vec::new();
            proof {
                assert(lines@.map_values(|l: Vec<char>| l@).push(cur@) =~= lines_of(before).push(
                    Seq::<char>::empty(),
                ));
            }
        } else {
            let ghost ls = lines_of(before);
            cur.push(c);
            proof {
                assert(lines@.map_values(|l: Vec<char>| l@).push(cur@) =~= ls.update(
                    ls.len() - 1,
                    ls.last().push(c),
                ));
            }
        }
    }
    lines.push(cur);
    proof {
        assert(text@.take(text@.len() as int) =~= text@);
    }
    lines
}

} // verus!
