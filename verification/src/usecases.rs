//! Thin read-only queries composed on top of the storage contract.

use vstd::prelude::*;

use crate::entities::{Task, TaskView, User};
use crate::store::Repository;
use crate::StoreError;

verus! {

/// The completed tasks of a task list, in their original order.
pub open spec fn done_tasks(ts: Seq<TaskView>) -> Seq<TaskView> {
    ts.filter(|t: TaskView| t.done)
}

/// All completed tasks owned by `user`, in insertion order.
pub fn find_all_done(user: &User) -> (r: Vec<Task>)
    ensures
        r.deep_view() == done_tasks(user@.tasks),
{
    let mut out: Vec<Task> = Vec::new();
    let mut i: usize = 0;
    while i < user.tasks.len()
        invariant
            i <= user.tasks.len(),
            out.deep_view() == done_tasks(user@.tasks.take(i as int)),
        decreases user.tasks.len() - i,
    {
        let ghost pre = user@.tasks.take(i as int);
        if user.tasks[i].is_done() {
            out.push(user.tasks[i].clone());
        }
        proof {
            reveal_with_fuel(Seq::filter, 2);
            assert(user@.tasks.take(i + 1int).drop_last() =~= pre);
            assert(user@.tasks.take(i + 1int).last() == user@.tasks[i as int]);
            assert(out.deep_view() =~= done_tasks(user@.tasks.take(i + 1int)));
        }
        i += 1;
    }
    proof {
        assert(user@.tasks.take(user.tasks@.len() as int) =~= user@.tasks);
    }
    out
}

/// All completed tasks of the user stored under `id` in `repo`:
/// `Ok(None)` when the store holds no record under `id`, otherwise the
/// completed tasks of some user the store's `get` could have returned for
/// `id`, in their stored order.
pub fn find_all_done_via_id<R: Repository<User>>(repo: &R, id: &R::Id) -> (r: Result<
    Option<Vec<Task>>,
    StoreError,
>)
    ensures
        r matches Ok(Some(ts)) ==> exists|u: User|
            #[trigger] repo.get_post(*id, Ok(Some(u))) && ts.deep_view() == done_tasks(u@.tasks),
        r matches Ok(None) ==> repo.get_post(*id, Ok(None)),
        r matches Err(e) ==> repo.get_post(*id, Err(e)),
{
    match repo.get(id) {
        Ok(Some(user)) => {
            let ts = find_all_done(&user);
            Ok(Some(ts))
        },
        Ok(None) => Ok(None),
        Err(e) => Err(e),
    }
}

} // verus!
