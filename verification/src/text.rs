//! Resolving the text to style: positional words joined with spaces, or —
//! when no words were given — lines read from standard input reassembled
//! with a newline after every line.

use vstd::prelude::*;
use vstd::string::*;

verus! {

/// The words joined with single ASCII spaces; no trailing newline.
pub open spec fn join_spaced(ws: Seq<Seq<char>>) -> Seq<char>
    decreases ws.len(),
{
    if ws.len() == 0 {
        Seq::empty()
    } else if ws.len() == 1 {
        ws[0]
    } else {
        join_spaced(ws.drop_last()) + seq![' '] + ws.last()
    }
}

/// Every line reproduced with a newline appended, the last one included.
pub open spec fn lines_terminated(ls: Seq<Seq<char>>) -> Seq<char>
    decreases ls.len(),
{
    if ls.len() == 0 {
        Seq::empty()
    } else {
        lines_terminated(ls.drop_last()) + ls.last() + seq!['\n']
    }
}

/// One more word on the right of a join: the first word comes bare, every
/// later one behind a space.
proof fn lemma_join_spaced_push(ws: Seq<Seq<char>>, x: Seq<char>)
    ensures
        ws.len() > 0 ==> join_spaced(ws.push(x)) == join_spaced(ws) + seq![' '] + x,
        ws.len() == 0 ==> join_spaced(ws.push(x)) == join_spaced(ws) + x,
{
    let whole = ws.push(x);
    assert(whole.drop_last() =~= ws);
    assert(whole.last() == x);
    if ws.len() == 0 {
        assert(join_spaced(whole) == whole[0]);
        assert(join_spaced(ws) + x =~= x);
    }
}

/// One more terminated line on the right.
proof fn lemma_lines_terminated_push(ls: Seq<Seq<char>>, x: Seq<char>)
    ensures
        lines_terminated(ls.push(x)) == lines_terminated(ls) + x + seq!['\n'],
{
    let whole = ls.push(x);
    assert(whole.drop_last() =~= ls);
    assert(whole.last() == x);
}

/// The text to style. Non-empty `words` are joined with single spaces and
/// nothing is appended; with no words, every line of `stdin_lines` is
/// reproduced followed by a newline, the last one included.
pub fn resolve_text(words: &Vec<String>, stdin_lines: &Vec<String>) -> (r: String)
    ensures
        words@.len() > 0 ==> r@ == join_spaced(words.deep_view()),
        words@.len() == 0 ==> r@ == lines_terminated(stdin_lines.deep_view()),
{
    let mut r = String::new();
    if words.len() > 0 {
        let ghost ws = words.deep_view();
        let mut i: usize = 0;
        while i < words.len()
            invariant
                i <= words@.len(),
                ws == words.deep_view(),
                r@ == join_spaced(ws.take(i as int)),
            decreases words@.len() - i,
        {
            proof {
                reveal_strlit(" ");
            }
            assert(" "@ =~= seq![' ']);
            if i > 0 {
                r.append(" ");
            }
            r.append(words[i].as_str());
            proof {
                let prefix = ws.take(i as int);
                assert(ws[i as int] == words@[i as int]@);
                lemma_join_spaced_push(prefix, ws[i as int]);
                assert(ws.take(i as int + 1) =~= prefix.push(ws[i as int]));
            }
            i += 1;
        }
        proof {
            assert(ws.take(words@.len() as int) =~= ws);
        }
    } else {
        let ghost ls = stdin_lines.deep_view();
        let mut i: usize = 0;
        while i < stdin_lines.len()
            invariant
                i <= stdin_lines@.len(),
                ls == stdin_lines.deep_view(),
                words@.len() == 0,
                r@ == lines_terminated(ls.take(i as int)),
            decreases stdin_lines@.len() - i,
        {
            proof {
                reveal_strlit("\n");
            }
            assert("\n"@ =~= seq!['\n']);
            r.append(stdin_lines[i].as_str());
            r.append("\n");
            proof {
                let prefix = ls.take(i as int);
                assert(ls[i as int] == stdin_lines@[i as int]@);
                lemma_lines_terminated_push(prefix, ls[i as int]);
                assert(ls.take(i as int + 1) =~= prefix.push(ls[i as int]));
            }
            i += 1;
        }
        proof {
            assert(ls.take(stdin_lines@.len() as int) =~= ls);
        }
    }
    r
}

} // verus!
