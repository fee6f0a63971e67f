//! Writing a todo file.
use vstd::prelude::*;
use crate::clock::{lemma_sample_stamp, local_timestamp, stamp_shaped};
use crate::filestorage::{formatted_project_id, todo_filename, todo_id, views, FileStorage};
use crate::paths::{join, join_path};
use crate::text::{push_chars, push_str, string_from, to_chars};

verus! {

/// Everything that goes into a todo file, and where an edited todo is
/// written back to.
pub struct TodoData {
    pub name: String,
    pub project_id: String,
    pub info: String,
    pub project_shorthand: Option<String>,
    pub goal: String,
    pub tasks: Vec<String>,
    pub note: String,
    pub history: String,
    pub existing_id: Option<String>,
    pub existing_created: Option<String>,
    pub target_filepath: Option<String>,
    pub completed: Option<String>,
}

/// A file to write: where, and what.
pub struct SavePlan {
    pub filepath: String,
    pub content: String,
}

/// The task lines of a todo file.
pub open spec fn tasks_text(tasks: Seq<Seq<char>>) -> Seq<char>
    decreases tasks.len(),
{
    if tasks.len() == 0 {
        Seq::empty()
    } else {
        tasks_text(tasks.drop_last()) + seq!['-', ' '] + tasks.last() + seq!['\n']
    }
}

/// `text` and a newline, or nothing for empty `text`.
pub open spec fn optional_line(text: Seq<char>) -> Seq<char> {
    if text.len() > 0 {
        text + seq!['\n']
    } else {
        Seq::empty()
    }
}

/// The front matter of the todo file for `d`.
pub open spec fn frontmatter_text(d: TodoData, id: Seq<char>, created: Seq<char>) -> Seq<char> {
    "---\n"@ + match d.completed {
        Some(c) => "completed: "@ + c@ + seq!['\n'],
        None => "completed: null\n"@,
    } + "created: "@ + created + seq!['\n'] + "id: "@ + id + seq!['\n'] + "info: '"@ + d.info@
        + "'\n"@ + "project_id: "@ + formatted_project_id(d.project_id@) + seq!['\n']
        + "tags: []\n"@ + "---\n"@
}

/// The body of the todo file for `d`: name, goal, tasks, note, history.
pub open spec fn body_text(d: TodoData) -> Seq<char> {
    seq!['#', ' '] + d.name@ + seq!['\n'] + optional_line(d.goal@) + "# Tasks \n"@ + tasks_text(
        views(d.tasks@),
    ) + "# note\n"@ + optional_line(d.note@) + "# History \n"@ + optional_line(d.history@)
}

/// The text of the todo file for `d`, with front matter id `id` and
/// creation time `created`.
pub open spec fn markdown_text(d: TodoData, id: Seq<char>, created: Seq<char>) -> Seq<char> {
    frontmatter_text(d, id, created) + body_text(d)
}

impl TodoData {
    pub open spec fn shorthand_view(&self) -> Option<Seq<char>> {
        match self.project_shorthand {
            Some(s) => Some(s@),
            None => None,
        }
    }

    /// The front matter id: the existing one (or `UNKNOWN`) when editing,
    /// the id numbered `next_id` for a new todo.
    pub open spec fn save_id(&self, next_id: nat) -> Seq<char> {
        match self.target_filepath {
            Some(_) => match self.existing_id {
                Some(i) => i@,
                None => "UNKNOWN"@,
            },
            None => todo_id(self.shorthand_view(), next_id),
        }
    }

    /// Where the todo is written: the existing file when editing, a new
    /// file in `output_dir` otherwise.
    pub open spec fn save_path(&self, output_dir: Seq<char>, next_id: nat) -> Seq<char> {
        match self.target_filepath {
            Some(p) => p@,
            None => join_path(output_dir, todo_filename(self.name@, self.shorthand_view(), next_id)),
        }
    }

    /// The creation time written: the existing one when editing, `now`
    /// otherwise.
    pub open spec fn save_created(&self, now: Seq<char>) -> Seq<char> {
        match (self.target_filepath, self.existing_created) {
            (Some(_), Some(c)) => c@,
            _ => now,
        }
    }

    /// Whether writing this todo reads the clock.
    pub open spec fn needs_clock(&self) -> bool {
        !(self.target_filepath is Some && self.existing_created is Some)
    }

    fn push_frontmatter(&self, c: &mut String, id: &str, created: &str)
        ensures
            final(c)@ == old(c)@ + frontmatter_text(*self, id@, created@),
    {
        let ghost start = c@;
        push_str(c, "---\n");
        match &self.completed {
            Some(done) => {
                push_str(c, "completed: ");
                push_str(c, done.as_str());
                push_chars(c, &['\n']);
            },
            None => {
                push_str(c, "completed: null\n");
            },
        }
        push_str(c, "created: ");
        push_str(c, created);
        push_chars(c, &['\n']);
        push_str(c, "id: ");
        push_str(c, id);
        push_chars(c, &['\n']);
        let ghost mid = c@;
        push_str(c, "info: '");
        push_str(c, self.info.as_str());
        push_str(c, "'\n");
        push_str(c, "project_id: ");
        let formatted = FileStorage::format_project_id(self.project_id.as_str());
        push_str(c, formatted.as_str());
        push_chars(c, &['\n']);
        push_str(c, "tags: []\n");
        push_str(c, "---\n");
        proof {
            assert(c@ =~= start + frontmatter_text(*self, id@, created@));
        }
    }

    fn push_tasks(&self, c: &mut String)
        ensures
            final(c)@ == old(c)@ + tasks_text(views(self.tasks@)),
    {
        let ghost head = c@;
        let mut i: usize = 0;
        assert(views(self.tasks@).take(0) =~= Seq::<Seq<char>>::empty());
        assert(c@ =~= head + tasks_text(views(self.tasks@).take(0)));
        while i < self.tasks.len()
            invariant
                i <= self.tasks.len(),
                c@ == head + tasks_text(views(self.tasks@).take(i as int)),
            decreases self.tasks.len() - i,
        {
            push_chars(c, &['-', ' ']);
            push_str(c, self.tasks[i].as_str());
            push_chars(c, &['\n']);
            proof {
                let v = views(self.tasks@);
                assert(v.take(i + 1).drop_last() =~= v.take(i as int));
                assert(v.take(i + 1).last() == self.tasks@[i as int]@);
                assert(c@ =~= head + tasks_text(v.take(i + 1)));
            }
            i = i + 1;
        }
        assert(views(self.tasks@).take(i as int) =~= views(self.tasks@));
    }

    fn push_optional_line(c: &mut String, text: &String)
        ensures
            final(c)@ == old(c)@ + optional_line(text@),
    {
        if !text.as_str().is_empty() {
            push_str(c, text.as_str());
            push_chars(c, &['\n']);
        } else {
            assert(c@ =~= old(c)@ + optional_line(text@));
        }
    }

    fn push_body(&self, c: &mut String)
        ensures
            final(c)@ == old(c)@ + body_text(*self),
    {
        let ghost start = c@;
        push_chars(c, &['#', ' ']);
        push_str(c, self.name.as_str());
        push_chars(c, &['\n']);
        Self::push_optional_line(c, &self.goal);
        push_str(c, "# Tasks \n");
        self.push_tasks(c);
        push_str(c, "# note\n");
        Self::push_optional_line(c, &self.note);
        push_str(c, "# History \n");
        Self::push_optional_line(c, &self.history);
        proof {
            assert(c@ =~= start + body_text(*self));
        }
    }

    /// The text of the todo file with the given id and creation time.
    pub fn markdown_content(&self, id: &str, created: &str) -> (r: String)
        ensures
            r@ == markdown_text(*self, id@, created@),
    {
        let mut c = string_from(&[]);
        self.push_frontmatter(&mut c, id, created);
        self.push_body(&mut c);
        assert(c@ =~= markdown_text(*self, id@, created@));
        c
    }

    /// Where and what to write for this todo, given the number a new todo
    /// gets and the current time.
    pub fn plan_save_at(&self, storage: &FileStorage, output_dir: &str, next_id: u32, now: &str) -> (r:
        SavePlan)
        ensures
            r.filepath@ == self.save_path(output_dir@, next_id as nat),
            r.content@ == markdown_text(
                *self,
                self.save_id(next_id as nat),
                self.save_created(now@),
            ),
    {
        let (filepath, id, created) = match &self.target_filepath {
            Some(path) => {
                let id = match &self.existing_id {
                    Some(i) => i.clone(),
                    None => string_from(to_chars("UNKNOWN").as_slice()),
                };
                let created = match &self.existing_created {
                    Some(c) => c.clone(),
                    None => string_from(to_chars(now).as_slice()),
                };
                (path.clone(), id, created)
            },
            None => {
                let sh = match &self.project_shorthand {
                    Some(s) => Some(s.as_str()),
                    None => None,
                };
                let filename = storage.generate_filename(self.name.as_str(), sh, next_id);
                let id = storage.generate_id(sh, next_id);
                (join(output_dir, filename.as_str()), id, string_from(to_chars(now).as_slice()))
            },
        };
        let content = self.markdown_content(id.as_str(), created.as_str());
        SavePlan { filepath, content }
    }

    /// Where and what to write for this todo, reading the clock when the
    /// creation time is not already known.
    pub fn plan_save(&self, storage: &FileStorage, output_dir: &str, next_id: u32) -> (r: SavePlan)
        ensures
            r.filepath@ == self.save_path(output_dir@, next_id as nat),
            exists|now: Seq<char>|
                stamp_shaped(now, '_') && r.content@ == markdown_text(
                    *self,
                    self.save_id(next_id as nat),
                    #[trigger] self.save_created(now),
                ),
            !self.needs_clock() ==> r.content@ == markdown_text(
                *self,
                self.save_id(next_id as nat),
                self.existing_created->0@,
            ),
    {
        let now = if self.needs_clock_exec() {
            local_timestamp("%m-%d-%Y_%H:%M:%S")
        } else {
            string_from(&[])
        };
        let r = self.plan_save_at(storage, output_dir, next_id, now.as_str());
        proof {
            reveal_strlit("%m-%d-%Y_%H:%M:%S");
            reveal_strlit("%m-%d-%Y %H:%M:%S");
            assert("%m-%d-%Y_%H:%M:%S"@[8] != "%m-%d-%Y %H:%M:%S"@[8]);
            if self.needs_clock() {
                assert(stamp_shaped(now@, '_') && r.content@ == markdown_text(
                    *self,
                    self.save_id(next_id as nat),
                    self.save_created(now@),
                ));
            } else {
                let sample = seq!['0', '1', '-', '0', '1', '-', '2', '0', '0', '0', '_', '0', '0', ':', '0', '0', ':', '0', '0'];
                lemma_sample_stamp('_');
                assert(self.save_created(sample) == self.save_created(now@));
                assert(stamp_shaped(sample, '_') && r.content@ == markdown_text(
                    *self,
                    self.save_id(next_id as nat),
                    self.save_created(sample),
                ));
            }
        }
        r
    }

    fn needs_clock_exec(&self) -> (r: bool)
        ensures
            r == self.needs_clock(),
    {
        !(self.target_filepath.is_some() && self.existing_created.is_some())
    }
}

} // verus!
