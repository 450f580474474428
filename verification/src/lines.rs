//! Grouping tokens into logical lines.
//!
//! A logical line is a non-empty run of tokens that a line break ends. Line
//! breaks with nothing before them make no line, and neither do tokens after
//! the last line break.

use vstd::prelude::*;
use crate::token::{Token, TokenView, line_views, token_views};

verus! {

/// The lines that `ts` completes, and the tokens of the line still open at its end.
pub open spec fn grouped(ts: Seq<TokenView>) -> (Seq<Seq<TokenView>>, Seq<TokenView>)
    decreases ts.len(),
{
    if ts.len() == 0 {
        (Seq::empty(), Seq::empty())
    } else {
        let (done, open) = grouped(ts.drop_last());
        if ts.last() is Newline {
            if open.len() == 0 {
                (done, Seq::empty())
            } else {
                (done.push(open), Seq::empty())
            }
        } else {
            (done, open.push(ts.last()))
        }
    }
}

/// The logical lines of a token sequence.
pub open spec fn lines_of(ts: Seq<TokenView>) -> Seq<Seq<TokenView>> {
    grouped(ts).0
}

/// Every logical line holds at least one token, and no line break.
pub proof fn lemma_lines_are_nonempty(ts: Seq<TokenView>)
    ensures
        forall|k: int|
            0 <= k < lines_of(ts).len() ==> (#[trigger] lines_of(ts)[k]).len() > 0 && forall|
                j: int,
            |
                0 <= j < lines_of(ts)[k].len() ==> !(#[trigger] lines_of(ts)[k][j] is Newline),
        forall|j: int| 0 <= j < grouped(ts).1.len() ==> !(#[trigger] grouped(ts).1[j] is Newline),
    decreases ts.len(),
{
    if ts.len() > 0 {
        lemma_lines_are_nonempty(ts.drop_last());
    }
}

/// Whether `run` holds no line break.
pub open spec fn unbroken(run: Seq<TokenView>) -> bool {
    forall|j: int| 0 <= j < run.len() ==> !(#[trigger] run[j] is Newline)
}

/// Tokens without a line break complete no line: they extend the open line.
pub proof fn lemma_run_extends_open_line(ts: Seq<TokenView>, run: Seq<TokenView>)
    requires
        unbroken(run),
    ensures
        grouped(ts + run) == (grouped(ts).0, grouped(ts).1 + run),
        lines_of(ts + run) == lines_of(ts),
    decreases run.len(),
{
    if run.len() == 0 {
        assert(ts + run =~= ts);
        assert(grouped(ts).1 + run =~= grouped(ts).1);
    } else {
        let front = run.drop_last();
        assert(unbroken(front)) by {
            assert forall|j: int| 0 <= j < front.len() implies !(#[trigger] front[j] is Newline) by {
                assert(front[j] == run[j]);
            }
        }
        lemma_run_extends_open_line(ts, front);
        assert((ts + run).drop_last() =~= ts + front);
        assert((ts + run).last() == run.last());
        assert(!(run[run.len() - 1] is Newline));
        assert((grouped(ts).1 + front).push(run.last()) =~= grouped(ts).1 + run);
    }
}

/// A line break after a run of tokens completes the line that the run
/// belongs to; after nothing, it completes no line.
pub proof fn lemma_break_completes_line(ts: Seq<TokenView>, run: Seq<TokenView>)
    requires
        unbroken(run),
    ensures
        grouped((ts + run).push(TokenView::Newline)).1.len() == 0,
        lines_of((ts + run).push(TokenView::Newline)) == (if (grouped(ts).1 + run).len() == 0 {
            lines_of(ts)
        } else {
            lines_of(ts).push(grouped(ts).1 + run)
        }),
{
    lemma_run_extends_open_line(ts, run);
    assert((ts + run).push(TokenView::Newline).drop_last() =~= ts + run);
}

/// Groups tokens into logical lines.
pub fn group_lines(tokens: &Vec<Token>) -> (lines: Vec<Vec<Token>>)
    ensures
        line_views(lines@) == lines_of(token_views(tokens@)),
        forall|k: int| 0 <= k < lines@.len() ==> (#[trigger] lines@[k])@.len() > 0,
{
    let mut lines: Vec<Vec<Token>> = Vec::new();
    let mut open: Vec<Token> = Vec::new();
    let mut i: usize = 0;
    let ghost ts = token_views(tokens@);
    while i < tokens.len()
        invariant
            i <= tokens.len(),
            ts == token_views(tokens@),
            grouped(ts.take(i as int)) == (line_views(lines@), token_views(open@)),
            forall|k: int| 0 <= k < lines@.len() ==> (#[trigger] lines@[k])@.len() > 0,
        decreases tokens.len() - i,
    {
        proof {
            assert(ts.take(i + 1).drop_last() =~= ts.take(i as int));
            assert(ts.take(i + 1).last() == tokens@[i as int]@);
        }
        let ghost lines_before = lines@;
        let ghost open_before = open@;
        match &tokens[i] {
            Token::Newline => {
                if open.len() > 0 {
                    lines.push(open);
                    open = Vec::new();
                    proof {
                        assert(line_views(lines@) =~= line_views(lines_before).push(
                            token_views(open_before),
                        ));
                    }
                }
                proof {
                    assert(token_views(open@) =~= Seq::<TokenView>::empty());
                }
            },
            t => {
                open.push(t.clone());
                proof {
                    assert(token_views(open@) =~= token_views(open_before).push(tokens@[i as int]@));
                }
            },
        }
        i += 1;
    }
    proof {
        assert(ts.take(tokens.len() as int) =~= ts);
    }
    lines
}

} // verus!
