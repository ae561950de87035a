//! The task store: descriptions in order, each with a display id equal to
//! its position counted from one.

use vstd::prelude::*;
use vstd::string::*;
use crate::text::{
    decimal, decimal_string, lines_of, text_lines, unlines, views,
};

verus! {

/// A task as the store holds it: its description and its display id.
pub type TaskView = (Seq<char>, u32);

/// The display ids of `ts` run from 1 to its length, in order.
pub open spec fn dense(ts: Seq<TaskView>) -> bool {
    &&& ts.len() <= u32::MAX
    &&& forall|i: int| 0 <= i < ts.len() ==> (#[trigger] ts[i]).1 == i + 1
}

/// The descriptions of `ts`, in order.
pub open spec fn descriptions(ts: Seq<TaskView>) -> Seq<Seq<char>> {
    ts.map_values(|t: TaskView| t.0)
}

/// The descriptions `ds` numbered by position, from one.
pub open spec fn numbered(ds: Seq<Seq<char>>) -> Seq<TaskView> {
    Seq::new(ds.len(), |i: int| (ds[i], (i + 1) as u32))
}

/// `ts` after finishing the task with display id `id`, where one has it.
pub open spec fn finished(ts: Seq<TaskView>, id: u32) -> Seq<TaskView> {
    if 1 <= id && id <= ts.len() {
        numbered(descriptions(ts).remove(id - 1))
    } else {
        ts
    }
}

/// The line that lists task `t`: its id, a full stop, a space, its description.
pub open spec fn task_line(t: TaskView) -> Seq<char> {
    decimal(t.1 as nat) + ". "@ + t.0
}

pub open spec fn listing_lines(ts: Seq<TaskView>) -> Seq<Seq<char>> {
    ts.map_values(|t: TaskView| task_line(t))
}

pub struct Config {
    todos: Vec<(String, u32)>,
    id: u32,
}

impl View for Config {
    type V = Seq<TaskView>;

    closed spec fn view(&self) -> Seq<TaskView> {
        self.todos@.map_values(|t: (String, u32)| (t.0@, t.1))
    }
}

impl Config {
    /// The id that the next task added would be given, less one.
    pub closed spec fn counter(&self) -> u32 {
        self.id
    }

    pub open spec fn wf(&self) -> bool {
        &&& dense(self@)
        &&& self.counter() == self@.len()
    }

    /// The store that `contents`, the saved text, describes: one task for
    /// each of its non-empty lines, in order. Ids are `u32`, so there can be
    /// at most `u32::MAX` such lines.
    pub fn new(contents: &str) -> (r: Config)
        requires
            text_lines(contents@).len() <= u32::MAX,
        ensures
            r.wf(),
            r@ == numbered(text_lines(contents@)),
    {
        let lines = lines_of(contents);
        let mut todos: Vec<(String, u32)> = Vec::new();
        let mut i: usize = 0;
        while i < lines.len()
            invariant
                i <= lines@.len() <= u32::MAX,
                todos@.len() == i,
                forall|j: int| 0 <= j < i ==> (#[trigger] todos@[j]).0@ == lines@[j]@ && todos@[j].1 == j + 1,
            decreases lines@.len() - i,
        {
            todos.push((lines[i].clone(), (i + 1) as u32));
            i = i + 1;
        }
        let r = Config { todos, id: i as u32 };
        assert(r@ =~= numbered(views(lines@)));
        r
    }

    pub fn len(&self) -> (r: usize)
        requires
            self.wf(),
        ensures
            r == self@.len(),
    {
        self.todos.len()
    }

    /// Appends a task with the text `task`, numbered one past the last.
    pub fn add(&mut self, task: String)
        requires
            old(self).wf(),
            old(self)@.len() < u32::MAX,
        ensures
            final(self).wf(),
            final(self)@ == old(self)@.push((task@, (old(self)@.len() + 1) as u32)),
    {
        self.id = self.id + 1;
        let ghost task_view = task@;
        self.todos.push((task, self.id));
        assert(self@ =~= old(self)@.push((task_view, self.id)));
    }

    /// Removes the task with display id `id` and numbers the rest again from
    /// one, keeping their order. Where no task has that id, returns false and
    /// changes nothing.
    pub fn finish(&mut self, id: u32) -> (r: bool)
        requires
            old(self).wf(),
        ensures
            r == (1 <= id && id <= old(self)@.len()),
            final(self).wf(),
            final(self)@ == finished(old(self)@, id),
    {
        if id == 0 || self.todos.len() < id as usize {
            return false;
        }
        let gone: usize = (id - 1) as usize;
        let ghost rest = descriptions(old(self)@).remove(gone as int);
        let mut kept: Vec<(String, u32)> = Vec::new();
        let mut i: usize = 0;
        while i < self.todos.len()
            invariant
                self == old(self),
                self.wf(),
                gone < self@.len(),
                rest == descriptions(self@).remove(gone as int),
                i <= self@.len(),
                kept@.len() == (if i <= gone { i as int } else { i - 1 }),
                forall|j: int| 0 <= j < kept@.len() ==> (#[trigger] kept@[j]).0@ == rest[j] && kept@[j].1 == j + 1,
            decreases self@.len() - i,
        {
            if i != gone {
                let n = kept.len();
                assert(self@[i as int].0 == self.todos@[i as int].0@);
                assert(rest[n as int] == descriptions(self@)[i as int]);
                kept.push((self.todos[i].0.clone(), (n + 1) as u32));
            }
            i = i + 1;
        }
        self.todos = kept;
        self.id = self.id - 1;
        assert(self@ =~= numbered(rest));
        true
    }

    /// One line per task, in order: `<id>. <description>`.
    pub fn listing(&self) -> (r: Vec<String>)
        requires
            self.wf(),
        ensures
            views(r@) == listing_lines(self@),
    {
        let mut r: Vec<String> = Vec::new();
        let mut i: usize = 0;
        while i < self.todos.len()
            invariant
                i <= self@.len(),
                r@.len() == i,
                forall|j: int| 0 <= j < i ==> (#[trigger] r@[j])@ == task_line(self@[j]),
            decreases self@.len() - i,
        {
            let mut line = decimal_string(self.todos[i].1);
            proof {
                reveal_strlit(". ");
            }
            line.append(". ");
            line.append(self.todos[i].0.as_str());
            assert(line@ =~= task_line(self@[i as int]));
            r.push(line);
            i = i + 1;
        }
        assert(views(r@) =~= listing_lines(self@));
        r
    }

    /// The text to save: each description followed by a line feed.
    pub fn save_contents(&self) -> (r: String)
        requires
            self.wf(),
        ensures
            r@ == unlines(descriptions(self@)),
    {
        let mut r = String::new();
        let mut i: usize = 0;
        while i < self.todos.len()
            invariant
                i <= self@.len(),
                r@ == unlines(descriptions(self@).take(i as int)),
            decreases self@.len() - i,
        {
            proof {
                reveal_strlit("\n");
            }
            assert(descriptions(self@).take(i + 1).drop_last() =~= descriptions(self@).take(i as int));
            r.append(self.todos[i].0.as_str());
            r.append("\n");
            i = i + 1;
        }
        assert(descriptions(self@).take(self@.len() as int) =~= descriptions(self@));
        r
    }
}

} // verus!
