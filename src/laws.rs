//! Properties of the store and the session that hold for every input.

use vstd::prelude::*;
use crate::command::{parse, CommandView};
use crate::session::{next_tasks, not_found, reply_for, ReplyView};
use crate::tasks::{dense, descriptions, numbered, TaskView};
use crate::text::{
    all_digits, is_space, join_spaced, lemma_split_lines_nonempty, nonempty_lines, split_lines, text_lines,
    unlines, upper_of, words,
};

verus! {

/// A description that a saved file gives back as it was: not empty, no line
/// feed in it, and no carriage return at its end.
pub open spec fn savable(d: Seq<char>) -> bool {
    &&& d.len() > 0
    &&& !d.contains('\n')
    &&& d.last() != '\r'
}

/// Whatever the command, the display ids stay exactly 1 to the number of
/// tasks; finishing a task that exists removes it and keeps the others in
/// their order.
pub proof fn lemma_ids_stay_dense(ts: Seq<TaskView>, c: Option<CommandView>)
    requires
        dense(ts),
    ensures
        dense(next_tasks(ts, c)),
        forall|id: u32|
            c == Some(CommandView::Finish(id)) && 1 <= id <= ts.len() ==> descriptions(
                next_tasks(ts, c),
            ) == descriptions(ts).remove(id - 1),
{
    match c {
        Some(CommandView::Finish(id)) => {
            if 1 <= id && id <= ts.len() {
                let rest = descriptions(ts).remove(id - 1);
                assert(descriptions(numbered(rest)) =~= rest);
            }
        },
        _ => {},
    }
}

/// Listing changes nothing, so listing twice prints the same lines twice.
pub proof fn lemma_list_twice(ts: Seq<TaskView>, line: Seq<char>)
    requires
        parse(line) == Some(CommandView::All),
    ensures
        next_tasks(ts, parse(line)) == ts,
        reply_for(next_tasks(ts, parse(line)), parse(line)) == reply_for(ts, parse(line)),
{
}

proof fn lemma_split_append(p: Seq<char>, x: Seq<char>)
    requires
        !x.contains('\n'),
    ensures
        split_lines(p + x) == split_lines(p).drop_last().push(split_lines(p).last() + x),
    decreases x.len(),
{
    lemma_split_lines_nonempty(p);
    if x.len() == 0 {
        assert(p + x =~= p);
        assert(split_lines(p).last() + x =~= split_lines(p).last());
        assert(split_lines(p).drop_last().push(split_lines(p).last()) =~= split_lines(p));
    } else {
        let y = x.drop_last();
        assert(!y.contains('\n')) by {
            if y.contains('\n') {
                let k = choose|k: int| 0 <= k < y.len() && y[k] == '\n';
                assert(x[k] == '\n');
            }
        }
        assert(x.last() != '\n') by {
            assert(x[x.len() - 1] == x.last());
        }
        lemma_split_append(p, y);
        assert((p + x).drop_last() =~= p + y);
        assert((p + x).last() == x.last());
        assert((split_lines(p).last() + y).push(x.last()) =~= split_lines(p).last() + x);
        assert(split_lines(p + y).drop_last() =~= split_lines(p).drop_last());
    }
}

proof fn lemma_split_unlines(ds: Seq<Seq<char>>)
    requires
        forall|i: int| 0 <= i < ds.len() ==> savable(#[trigger] ds[i]),
    ensures
        split_lines(unlines(ds)) == ds.push(seq![]),
    decreases ds.len(),
{
    if ds.len() == 0 {
        assert(split_lines(unlines(ds)) =~= ds.push(seq![]));
    } else {
        let front = ds.drop_last();
        let d = ds.last();
        assert(savable(ds[ds.len() - 1]));
        lemma_split_unlines(front);
        let u = unlines(front) + d;
        lemma_split_append(unlines(front), d);
        assert(split_lines(u) =~= ds) by {
            assert(Seq::<char>::empty() + d =~= d);
            assert(front.push(seq![]).drop_last() =~= front);
            assert(front.push(d) =~= ds);
        }
        assert(unlines(ds) == u + seq!['\n']);
        assert((u + seq!['\n']).drop_last() =~= u);
    }
}

proof fn lemma_keep_savable(ds: Seq<Seq<char>>)
    requires
        forall|i: int| 0 <= i < ds.len() ==> savable(#[trigger] ds[i]),
    ensures
        nonempty_lines(ds) == ds,
    decreases ds.len(),
{
    if ds.len() > 0 {
        assert(savable(ds[ds.len() - 1]));
        lemma_keep_savable(ds.drop_last());
        assert(ds.drop_last().push(ds.last()) =~= ds);
    }
}

/// Saving descriptions and reading the saved text back gives the same
/// descriptions, in the same order.
pub proof fn lemma_save_then_load(ds: Seq<Seq<char>>)
    requires
        forall|i: int| 0 <= i < ds.len() ==> savable(#[trigger] ds[i]),
    ensures
        text_lines(unlines(ds)) == ds,
{
    lemma_split_unlines(ds);
    lemma_keep_savable(ds);
    assert(ds.push(seq![]).drop_last() =~= ds);
}

/// The same for a whole store: what it saves has few enough lines to be
/// loaded, and loading it gives back the same tasks, numbered from one.
pub proof fn lemma_store_round_trip(ts: Seq<TaskView>)
    requires
        dense(ts),
        forall|i: int| 0 <= i < ts.len() ==> savable(#[trigger] ts[i].0),
    ensures
        text_lines(unlines(descriptions(ts))).len() <= u32::MAX,
        numbered(text_lines(unlines(descriptions(ts)))) == ts,
{
    let ds = descriptions(ts);
    assert forall|i: int| 0 <= i < ds.len() implies savable(#[trigger] ds[i]) by {
        assert(ds[i] == ts[i].0);
    }
    lemma_save_then_load(ds);
    assert(numbered(ds) =~= ts);
}

/// `FINISH 0` and `FINISH` one past the last task find nothing: the tasks
/// stay as they were and the session says so.
pub proof fn lemma_finish_bounds(ts: Seq<TaskView>, id: u32)
    requires
        id == 0 || id == ts.len() + 1,
    ensures
        next_tasks(ts, Some(CommandView::Finish(id))) == ts,
        reply_for(ts, Some(CommandView::Finish(id))).err == seq![not_found()],
{
}

/// `FINISH` without a parameter, or with one that is not all decimal
/// digits, is no command at all: a parse failure, not a missing task.
pub proof fn lemma_finish_needs_digits(line: Seq<char>)
    requires
        words(line).len() >= 1,
        upper_of(words(line)[0]) == "FINISH"@,
        join_spaced(words(line).skip(1)).len() == 0 || !all_digits(
            join_spaced(words(line).skip(1)),
        ),
    ensures
        parse(line) is None,
{
    reveal_strlit("FINISH");
    reveal_strlit("ALL");
    reveal_strlit("ADD");
    assert("FINISH"@.len() != "ALL"@.len());
    assert("FINISH"@.len() != "ADD"@.len());
}

/// Every word is non-empty and holds no whitespace.
proof fn lemma_words_solid(s: Seq<char>)
    ensures
        forall|i: int| 0 <= i < words(s).len() ==> (#[trigger] words(s)[i]).len() > 0,
        forall|i: int, j: int|
            0 <= i < words(s).len() && 0 <= j < words(s)[i].len() ==> !is_space(
                #[trigger] words(s)[i][j],
            ),
    decreases s.len(),
{
    if s.len() > 0 {
        lemma_words_solid(s.drop_last());
        let w = words(s.drop_last());
        let c = s.last();
        if !is_space(c) && s.len() >= 2 && !is_space(s[s.len() - 2]) {
            assert(s.drop_last().last() == s[s.len() - 2]);
            assert(w.len() > 0);
            let lw = w.last();
            assert(lw == w[w.len() - 1]);
            assert forall|j: int| 0 <= j < lw.push(c).len() implies !is_space(#[trigger] lw.push(c)[j]) by {
                if j < lw.len() {
                    assert(lw.push(c)[j] == w[w.len() - 1][j]);
                }
            }
        }
    }
}

/// Words joined by single spaces: non-empty where there is a word, with
/// only spaces or non-whitespace inside and a non-whitespace character last.
proof fn lemma_join_solid(ws: Seq<Seq<char>>)
    requires
        forall|i: int| 0 <= i < ws.len() ==> (#[trigger] ws[i]).len() > 0,
        forall|i: int, j: int| 0 <= i < ws.len() && 0 <= j < ws[i].len() ==> !is_space(#[trigger] ws[i][j]),
    ensures
        forall|k: int|
            0 <= k < join_spaced(ws).len() ==> #[trigger] join_spaced(ws)[k] == ' ' || !is_space(
                join_spaced(ws)[k],
            ),
        ws.len() > 0 ==> join_spaced(ws).len() > 0 && !is_space(join_spaced(ws).last()),
    decreases ws.len(),
{
    if ws.len() == 1 {
        assert(ws[0].len() > 0);
        assert(join_spaced(ws).last() == ws[0][ws[0].len() - 1]);
        assert forall|k: int| 0 <= k < join_spaced(ws).len() implies #[trigger] join_spaced(ws)[k] == ' ' || !is_space(join_spaced(ws)[k]) by {
            assert(join_spaced(ws)[k] == ws[0][k]);
        }
    } else if ws.len() > 1 {
        let front = ws.drop_last();
        assert forall|i: int, j: int| 0 <= i < front.len() && 0 <= j < front[i].len() implies !is_space(#[trigger] front[i][j]) by {
            assert(front[i] == ws[i]);
        }
        assert forall|i: int| 0 <= i < front.len() implies (#[trigger] front[i]).len() > 0 by {
            assert(front[i] == ws[i]);
        }
        lemma_join_solid(front);
        let l = ws.last();
        assert(l == ws[ws.len() - 1]);
        assert(l.len() > 0);
        let j = join_spaced(ws);
        let a = join_spaced(front);
        assert(j == a + seq![' '] + l);
        assert(j.last() == l[l.len() - 1]);
        assert forall|k: int| 0 <= k < j.len() implies #[trigger] j[k] == ' ' || !is_space(j[k]) by {
            if k < a.len() {
                assert(j[k] == a[k]);
            } else if k == a.len() {
                assert(j[k] == ' ');
            } else {
                assert(j[k] == ws[ws.len() - 1][k - a.len() - 1]);
            }
        }
    }
}

/// A task added by `ADD` can always be saved and read back: its text comes
/// from whitespace-separated words joined by single spaces.
pub proof fn lemma_added_text_savable(line: Seq<char>, t: Seq<char>)
    requires
        parse(line) == Some(CommandView::Add(t)),
    ensures
        savable(t),
{
    let ws = words(line);
    lemma_words_solid(line);
    let rest = ws.skip(1);
    assert forall|i: int| 0 <= i < rest.len() implies (#[trigger] rest[i]).len() > 0 by {
        assert(rest[i] == ws[i + 1]);
    }
    assert forall|i: int, j: int| 0 <= i < rest.len() && 0 <= j < rest[i].len() implies !is_space(#[trigger] rest[i][j]) by {
        assert(rest[i] == ws[i + 1]);
        assert(rest[i][j] == ws[i + 1][j]);
    }
    lemma_join_solid(rest);
    assert(t == join_spaced(rest));
    assert(!t.contains('\n')) by {
        if t.contains('\n') {
            let k = choose|k: int| 0 <= k < t.len() && t[k] == '\n';
            assert(t[k] == ' ' || !is_space(t[k]));
        }
    }
    if rest.len() == 0 {
        assert(join_spaced(rest).len() == 0);
    }
}

} // verus!
