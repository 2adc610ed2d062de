//! The domain records: an owning entity (`User`) holding an ordered
//! collection of owned entities (`Task`), and the closed enumerations of
//! credential shapes by which each may be searched.

use vstd::prelude::*;

verus! {

/// Mathematical value of a [`Task`]: every field as a plain spec value.
pub struct TaskView {
    pub desc: Seq<char>,
    pub tags: Seq<Seq<char>>,
    pub due: Option<u64>,
    pub done: bool,
}

/// An owned record: a description, a completion flag, an optional due
/// timestamp (seconds), and a possibly empty list of free-text tags.
/// Identity is assigned by a store, never carried by the value itself.
#[derive(Debug, PartialEq)]
pub struct Task {
    pub desc: String,
    pub tags: Vec<String>,
    pub due: Option<u64>,
    pub done: bool,
}

impl View for Task {
    type V = TaskView;

    open spec fn view(&self) -> TaskView {
        TaskView {
            desc: self.desc@,
            tags: self.tags.deep_view(),
            due: self.due,
            done: self.done,
        }
    }
}

impl DeepView for Task {
    type V = TaskView;

    open spec fn deep_view(&self) -> TaskView {
        self@
    }
}

impl Clone for Task {
    fn clone(&self) -> (res: Self)
        ensures
            res@ == self@,
    {
        let t = Task {
            desc: self.desc.clone(),
            tags: self.tags.clone(),
            due: self.due,
            done: self.done,
        };
        proof {
            assert(t.tags.deep_view() =~= self.tags.deep_view());
        }
        t
    }
}

impl Task {
    /// A fresh task: not done, no due time, no tags.
    pub fn new(description: &str) -> (t: Task)
        ensures
            t@.desc == description@,
            t@.tags.len() == 0,
            t@.due is None,
            !t@.done,
    {
        let t = Task {
            desc: description.to_owned(),
            tags: Vec::new(),
            due: None,
            done: false,
        };
        proof {
            assert(t.tags.deep_view() =~= Seq::<Seq<char>>::empty());
        }
        t
    }

    /// Mark the task as completed; every other field keeps its value.
    pub fn finish(&mut self)
        ensures
            final(self)@ == (TaskView { done: true, ..old(self)@ }),
    {
        self.done = true;
    }

    pub fn is_done(&self) -> (b: bool)
        ensures
            b == self@.done,
    {
        self.done
    }

    /// Set the due timestamp, consuming and returning the task.
    pub fn due(self, when: u64) -> (t: Task)
        ensures
            t@ == (TaskView { due: Some(when), ..self@ }),
    {
        Task { due: Some(when), ..self }
    }
}

/// Mathematical value of a [`User`]: the name and the owned tasks in
/// insertion order.
pub struct UserView {
    pub name: Seq<char>,
    pub tasks: Seq<TaskView>,
}

/// An owning record: a name and an ordered collection of owned tasks.
/// Identity is assigned by a store, never carried by the value itself.
#[derive(Debug, PartialEq)]
pub struct User {
    pub name: String,
    pub tasks: Vec<Task>,
}

impl View for User {
    type V = UserView;

    open spec fn view(&self) -> UserView {
        UserView { name: self.name@, tasks: self.tasks.deep_view() }
    }
}

impl DeepView for User {
    type V = UserView;

    open spec fn deep_view(&self) -> UserView {
        self@
    }
}

impl Clone for User {
    fn clone(&self) -> (res: Self)
        ensures
            res@ == self@,
    {
        let u = User { name: self.name.clone(), tasks: self.tasks.clone() };
        proof {
            assert(u.tasks.deep_view() =~= self.tasks.deep_view());
        }
        u
    }
}

impl User {
    /// A user with no tasks yet.
    pub fn new(name: &str) -> (u: User)
        ensures
            u@.name == name@,
            u@.tasks.len() == 0,
    {
        Self::with_tasks(name, Vec::new())
    }

    /// A user owning the given tasks, in the given order.
    pub fn with_tasks(name: &str, tasks: Vec<Task>) -> (u: User)
        ensures
            u@.name == name@,
            u@.tasks == tasks.deep_view(),
    {
        User { name: name.to_owned(), tasks }
    }

    /// Append a task; the owned collection keeps insertion order.
    pub fn add_task(&mut self, task: Task)
        ensures
            final(self)@.name == old(self)@.name,
            final(self)@.tasks == old(self)@.tasks.push(task@),
    {
        let ghost tv = task@;
        self.tasks.push(task);
        proof {
            assert(self.tasks.deep_view() =~= old(self).tasks.deep_view().push(tv));
        }
    }

    /// The owned tasks, in insertion order.
    pub fn tasks(&self) -> (r: &[Task])
        ensures
            r.deep_view() == self@.tasks,
    {
        self.tasks.as_slice()
    }
}

/// The closed set of credential shapes by which users may be searched.
#[derive(Debug)]
pub enum UserSearchTerms {
    /// Exact match on the user's name.
    Name(String),
}

/// The closed set of credential shapes by which tasks may be searched.
#[derive(Debug)]
pub enum TaskSearchTerms {
    /// Exact match on the identity of the owning user, as assigned by the
    /// relational store.
    Owner(i64),
}

} // verus!
