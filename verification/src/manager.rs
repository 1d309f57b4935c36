//! Task manager: supervises spawned tasks under keys, bounds their number
//! and lets them be canceled, aborted or detached one by one or all at once.

use crate::storage::{
    slab_contains, slab_get, slab_get_mut, slab_insert, slab_into_handles, slab_keys, slab_len,
    slab_new, slab_next_key, slab_tasks, slab_try_remove, slab_vacant_key, slab_with_capacity,
    strictly_increasing, SupervisedTask,
};
use crate::task::{TaskError, TaskHandle};
use vstd::prelude::*;

verus! {

#[verifier::external_type_specification]
#[verifier::external_body]
#[verifier::reject_recursive_types(T)]
pub struct ExMpscSender<T>(tokio::sync::mpsc::Sender<T>);

#[verifier::external_type_specification]
#[verifier::external_body]
#[verifier::reject_recursive_types(T)]
pub struct ExMpscReceiver<T>(tokio::sync::mpsc::Receiver<T>);

/// The event with which a finished task reports itself to its manager: the
/// key it was supervised under and the serial number it was spawned with.
#[derive(Clone, Copy, Debug, PartialEq, Eq, Structural)]
pub struct CompletionEvent {
    pub key: usize,
    pub serial: u128,
}

/// The most events a completion queue can be made to hold: tokio bounds a
/// channel's buffer by its semaphore's `MAX_PERMITS`, `usize::MAX >> 3`.
pub open spec fn max_queue_capacity() -> usize {
    usize::MAX >> 3
}

/// Whatever the width of `usize`, a completion queue may hold at least
/// `0x1fff_ffff` events.
pub proof fn max_queue_capacity_is_large()
    ensures
        max_queue_capacity() >= 0x1fff_ffff,
{
    let top: usize = usize::MAX;
    assert(top >= 0xffff_ffff);
    assert(top >> 3 >= 0x1fff_ffff) by (bit_vector)
        requires
            top >= 0xffff_ffff,
    ;
}

/// The number of events that the queue behind `sender` holds at most
/// (`Sender::max_capacity`): the buffer size that the queue was made with.
pub uninterp spec fn queue_capacity(sender: tokio::sync::mpsc::Sender<CompletionEvent>) -> usize;

/// `mpsc::channel`: the bounded queue on which finished tasks report
/// themselves, holding at most `buffer` events. tokio panics on a buffer of
/// 0 or above its semaphore's `MAX_PERMITS`.
#[verifier::external_body]
fn completion_channel(buffer: usize) -> (r: (
    tokio::sync::mpsc::Sender<CompletionEvent>,
    tokio::sync::mpsc::Receiver<CompletionEvent>,
))
    requires
        0 < buffer <= max_queue_capacity(),
    ensures
        queue_capacity(r.0) == buffer,
{
    tokio::sync::mpsc::channel(buffer)
}

/// `mpsc::Sender::clone`: another sending end of the same queue, which
/// shares the queue with the original and is not told apart from it.
#[verifier::external_body]
fn clone_sender(sender: &tokio::sync::mpsc::Sender<CompletionEvent>) -> (r: tokio::sync::mpsc::Sender<CompletionEvent>)
    ensures
        r == *sender,
{
    sender.clone()
}

/// Task manager builder. Provides methods for task manager initialization
/// and configuration.
#[derive(Copy, Clone)]
pub struct TaskManagerBuilder {
    max_tasks: usize,
    capacity: usize,
    completion_events_buffer_size: usize,
}

impl TaskManagerBuilder {
    /// The max task count the manager will be handling.
    pub closed spec fn max_tasks_setting(&self) -> usize {
        self.max_tasks
    }

    /// The initial capacity of the task storage.
    pub closed spec fn capacity_setting(&self) -> usize {
        self.capacity
    }

    /// The size of the completion event queue.
    pub closed spec fn buffer_size_setting(&self) -> usize {
        self.completion_events_buffer_size
    }

    /// Sets max task count the manager will be handling.
    pub fn with_max_tasks(&mut self, max_tasks: usize) -> (r: &mut TaskManagerBuilder)
        ensures
            r.max_tasks_setting() == max_tasks,
            r.capacity_setting() == old(self).capacity_setting(),
            r.buffer_size_setting() == old(self).buffer_size_setting(),
            *final(self) == *final(r),
    {
        self.max_tasks = max_tasks;
        self
    }

    /// Sets the initial capacity of the task storage. The right capacity
    /// choice prevents extra memory allocation.
    pub fn with_capacity(&mut self, capacity: usize) -> (r: &mut TaskManagerBuilder)
        ensures
            r.max_tasks_setting() == old(self).max_tasks_setting(),
            r.capacity_setting() == capacity,
            r.buffer_size_setting() == old(self).buffer_size_setting(),
            *final(self) == *final(r),
    {
        self.capacity = capacity;
        self
    }

    /// Sets completion event queue size. Too small a queue could keep tasks
    /// from being removed at once until the manager has handled the events
    /// of other tasks and emptied the queue.
    pub fn with_completion_event_buffer_size(&mut self, completion_event_buffer_size: usize) -> (r: &mut TaskManagerBuilder)
        ensures
            r.max_tasks_setting() == old(self).max_tasks_setting(),
            r.capacity_setting() == old(self).capacity_setting(),
            r.buffer_size_setting() == completion_event_buffer_size,
            *final(self) == *final(r),
    {
        self.completion_events_buffer_size = completion_event_buffer_size;
        self
    }

    /// Builds a [`TaskManager`] with the configured settings.
    pub fn build(self) -> (r: TaskManager)
        requires
            0 < self.buffer_size_setting() <= max_queue_capacity(),
            self.capacity_setting() as int * 64 <= isize::MAX,
        ensures
            r.wf(),
            r.tasks().dom() == Set::<usize>::empty(),
            r.max_tasks() == self.max_tasks_setting(),
            r.next_serial() == 0,
            r.completion_queue_capacity() == self.buffer_size_setting(),
    {
        TaskManager::new(self.max_tasks, self.capacity, self.completion_events_buffer_size)
    }
}

/// Task manager error.
#[derive(Debug)]
pub enum TaskManagerError {
    /// Requested task not found.
    TaskNotFound,
    /// Task count limit is exceeded.
    TaskManagerIsFull,
}

/// Task manager: a supervisor of asynchronous tasks that stores all spawned
/// tasks under keys, controls their number and provides an api for their
/// management.
pub struct TaskManager {
    table: TaskTable,
    completion_event_queue_receiver: tokio::sync::mpsc::Receiver<CompletionEvent>,
    finished_serials: Ghost<Set<u128>>,
    aborted_serials: Ghost<Set<u128>>,
}

/// What the manager decides on: the stored tasks, the task limit, the next
/// serial number, and the sender that tasks report their completion on.
struct TaskTable {
    tasks: slab::Slab<SupervisedTask>,
    completion_event_queue_sender: tokio::sync::mpsc::Sender<CompletionEvent>,
    max_tasks: usize,
    next_serial: u128,
}

impl TaskTable {
    /// The table holds finitely many tasks, never more than its limit, and
    /// every stored task has a serial number given out before.
    #[verifier::type_invariant]
    spec fn wf(&self) -> bool {
        &&& slab_tasks(self.tasks).dom().finite()
        &&& slab_tasks(self.tasks).dom().len() <= self.max_tasks
        &&& forall|k: usize| #[trigger] slab_tasks(self.tasks).dom().contains(k) ==>
            slab_tasks(self.tasks)[k].0 < self.next_serial
    }
}

/// `post` is `pre` after a spawn attempt that returned `r`. A full manager
/// refuses, and so does one that has given out every serial number; any
/// other takes the new task, not canceled, under the fresh key that its
/// storage gives next and with the next serial number.
pub open spec fn spawned(pre: TaskManager, post: TaskManager, r: Option<usize>) -> bool {
    &&& post.max_tasks() == pre.max_tasks()
    &&& post.completion_sender() == pre.completion_sender()
    &&& if pre.tasks().dom().len() == pre.max_tasks() || pre.next_serial() == u128::MAX {
        &&& r is None
        &&& post.tasks() == pre.tasks()
        &&& post.next_serial() == pre.next_serial()
    } else {
        &&& r == Some(pre.next_key())
        &&& !pre.tasks().dom().contains(r->0)
        &&& post.tasks() == pre.tasks().insert(r->0, (pre.next_serial(), false))
        &&& post.next_serial() == pre.next_serial() + 1
    }
}

/// `post` is `pre` after an attempt to cancel the task under `key`, with
/// result `r`, where `finished` tells whether that task had already
/// terminated: only a supervised task that has not terminated is canceled.
pub open spec fn task_canceled(
    pre: TaskManager,
    post: TaskManager,
    key: usize,
    finished: bool,
    r: Result<(), TaskManagerError>,
) -> bool {
    &&& post.max_tasks() == pre.max_tasks()
    &&& post.next_serial() == pre.next_serial()
    &&& post.completion_sender() == pre.completion_sender()
    &&& if pre.tasks().dom().contains(key) && !finished {
        &&& r is Ok
        &&& post.tasks() == pre.tasks().insert(key, (pre.tasks()[key].0, true))
    } else {
        &&& r matches Err(TaskManagerError::TaskNotFound)
        &&& post.tasks() == pre.tasks()
    }
}

/// `post` is `pre` without the task under `key`; `found` tells whether
/// there was one.
pub open spec fn task_removed(pre: TaskManager, post: TaskManager, key: usize, found: bool) -> bool {
    &&& post.max_tasks() == pre.max_tasks()
    &&& post.next_serial() == pre.next_serial()
    &&& post.completion_sender() == pre.completion_sender()
    &&& found == pre.tasks().dom().contains(key)
    &&& post.tasks() == pre.tasks().remove(key)
}

/// Whether `event` names a task that `manager` supervises: the task under
/// the event's key was spawned with the event's serial.
pub open spec fn reports_supervised_task(manager: TaskManager, event: CompletionEvent) -> bool {
    &&& manager.tasks().dom().contains(event.key)
    &&& manager.tasks()[event.key].0 == event.serial
}

/// `post` is `pre` after handling the completion event `event`: the task
/// that the event names is removed, if it is still supervised (`found`);
/// an event of a task that is no longer supervised changes nothing.
pub open spec fn completion_handled(
    pre: TaskManager,
    post: TaskManager,
    event: CompletionEvent,
    found: bool,
) -> bool {
    &&& post.max_tasks() == pre.max_tasks()
    &&& post.next_serial() == pre.next_serial()
    &&& post.completion_sender() == pre.completion_sender()
    &&& found == reports_supervised_task(pre, event)
    &&& post.tasks() == if found {
        pre.tasks().remove(event.key)
    } else {
        pre.tasks()
    }
}

/// `handles` gives back, with its key, the handle of every task in `tasks`
/// and of no other, each once, in increasing key order.
pub open spec fn hands_back_every_task(tasks: Map<usize, (u128, bool)>, handles: Seq<(usize, TaskHandle<()>)>) -> bool {
    &&& strictly_increasing(handles.map_values(|e: (usize, TaskHandle<()>)| e.0))
    &&& forall|i: int| 0 <= i < handles.len() ==> tasks.dom().contains(#[trigger] handles[i].0)
    &&& forall|k: usize| tasks.dom().contains(k) ==>
        exists|i: int| 0 <= i < handles.len() && #[trigger] handles[i].0 == k
}

/// `post` is `pre` after one operation of the manager: a spawn attempt, a
/// cancellation attempt, a removal, a completion event, or an operation
/// that leaves the supervised tasks as they are (such as receiving from the
/// completion queue).
pub open spec fn manager_step(pre: TaskManager, post: TaskManager) -> bool {
    ||| exists|r: Option<usize>| #[trigger] spawned(pre, post, r)
    ||| exists|key: usize, finished: bool, r: Result<(), TaskManagerError>|
        #[trigger] task_canceled(pre, post, key, finished, r)
    ||| exists|key: usize, found: bool| #[trigger] task_removed(pre, post, key, found)
    ||| exists|event: CompletionEvent, found: bool| #[trigger] completion_handled(pre, post, event, found)
    ||| {
        &&& post.tasks() == pre.tasks()
        &&& post.next_serial() == pre.next_serial()
        &&& post.max_tasks() == pre.max_tasks()
    }
}

impl TaskManager {
    /// The supervised tasks by key, each as the serial number it was spawned
    /// with and whether its cancellation was requested.
    pub closed spec fn tasks(&self) -> Map<usize, (u128, bool)> {
        slab_tasks(self.table.tasks)
    }

    /// The key under which the next task will be supervised.
    pub closed spec fn next_key(&self) -> usize {
        slab_next_key(self.table.tasks)
    }

    /// The serial number that the next spawned task gets.
    pub closed spec fn next_serial(&self) -> u128 {
        self.table.next_serial
    }

    /// The sending end of the completion event queue, cloned for each task.
    pub closed spec fn completion_sender(&self) -> tokio::sync::mpsc::Sender<CompletionEvent> {
        self.table.completion_event_queue_sender
    }

    /// The receiving end of the completion event queue.
    pub closed spec fn completion_receiver(&self) -> tokio::sync::mpsc::Receiver<CompletionEvent> {
        self.completion_event_queue_receiver
    }

    /// The number of completion events the queue holds at most.
    pub closed spec fn completion_queue_capacity(&self) -> usize {
        queue_capacity(self.table.completion_event_queue_sender)
    }

    /// The serial numbers of the tasks that the runtime has reported
    /// terminated when the manager asked it before canceling them.
    pub closed spec fn finished_serials(&self) -> Set<u128> {
        self.finished_serials@
    }

    /// The serial numbers of the tasks whose abortion the manager has
    /// requested from the runtime.
    pub closed spec fn aborted_serials(&self) -> Set<u128> {
        self.aborted_serials@
    }

    /// The most tasks the manager supervises at once.
    pub closed spec fn max_tasks(&self) -> usize {
        self.table.max_tasks
    }

    /// The manager supervises finitely many tasks, never more than its
    /// limit, and every supervised task has a serial number given out before.
    pub closed spec fn wf(&self) -> bool {
        self.table.wf()
    }

    /// Returns a task manager builder with the default settings: at most
    /// 1024 tasks, room for 32 of them initially, and a completion queue of
    /// 256 events.
    pub fn builder() -> (r: TaskManagerBuilder)
        ensures
            r.max_tasks_setting() == 1024,
            r.capacity_setting() == 32,
            r.buffer_size_setting() == 256,
    {
        TaskManagerBuilder { max_tasks: 1024, capacity: 32, completion_events_buffer_size: 256 }
    }

    /// Creates a new task manager instance.
    pub fn new(max_tasks: usize, capacity: usize, completion_events_buffer_size: usize) -> (r: TaskManager)
        requires
            0 < completion_events_buffer_size <= max_queue_capacity(),
            capacity as int * 64 <= isize::MAX,
        ensures
            r.wf(),
            r.tasks().dom() == Set::<usize>::empty(),
            r.max_tasks() == max_tasks,
            r.next_serial() == 0,
            r.completion_queue_capacity() == completion_events_buffer_size,
    {
        let (completion_event_queue_sender, completion_event_queue_receiver) = completion_channel(
            completion_events_buffer_size,
        );
        let tasks = slab_with_capacity(capacity);
        proof {
            assert(slab_tasks(tasks).dom().finite());
        }
        TaskManager {
            table: TaskTable { tasks, completion_event_queue_sender, max_tasks, next_serial: 0 },
            completion_event_queue_receiver,
            finished_serials: Ghost(Set::empty()),
            aborted_serials: Ghost(Set::empty()),
        }
    }

    /// Returns manager task count.
    pub fn size(&self) -> (r: usize)
        ensures
            r == self.tasks().dom().len(),
    {
        slab_len(&self.table.tasks)
    }

    /// Moves the stored tasks out, leaving the manager with none while they
    /// are worked on; the storage is changed outside the manager so that the
    /// manager stays well formed should that work unwind.
    fn take_tasks(&mut self) -> (r: slab::Slab<SupervisedTask>)
        ensures
            slab_tasks(r) == old(self).tasks(),
            slab_next_key(r) == old(self).next_key(),
            final(self).tasks().dom() == Set::<usize>::empty(),
            final(self).next_serial() == old(self).next_serial(),
            final(self).max_tasks() == old(self).max_tasks(),
            final(self).completion_sender() == old(self).completion_sender(),
            final(self).finished_serials() == old(self).finished_serials(),
            final(self).aborted_serials() == old(self).aborted_serials(),
    {
        let mut tasks = slab_new();
        std::mem::swap(&mut self.table.tasks, &mut tasks);
        tasks
    }

    /// Puts worked-on tasks back into the manager.
    fn put_tasks(&mut self, tasks: slab::Slab<SupervisedTask>)
        requires
            slab_tasks(tasks).dom().finite(),
            slab_tasks(tasks).dom().len() <= old(self).max_tasks(),
            forall|k: usize| #[trigger] slab_tasks(tasks).dom().contains(k) ==>
                slab_tasks(tasks)[k].0 < old(self).next_serial(),
        ensures
            final(self).tasks() == slab_tasks(tasks),
            final(self).next_key() == slab_next_key(tasks),
            final(self).next_serial() == old(self).next_serial(),
            final(self).max_tasks() == old(self).max_tasks(),
            final(self).completion_sender() == old(self).completion_sender(),
            final(self).finished_serials() == old(self).finished_serials(),
            final(self).aborted_serials() == old(self).aborted_serials(),
    {
        self.table.tasks = tasks;
    }

    /// Spawns a task to be supervised by the manager. Returns [`None`] when
    /// the manager is full and the task can not be spawned yet; otherwise
    /// `spawn` is handed the completion event that the task is to send when
    /// it finishes (its key and serial number) and a sender on the manager's
    /// completion queue, and the key is returned so that the task can be
    /// canceled or detached.
    pub fn try_spawn<S>(&mut self, spawn: S) -> (r: Option<usize>)
        where
            S: FnOnce(CompletionEvent, tokio::sync::mpsc::Sender<CompletionEvent>) -> TaskHandle<()>,
        requires
            (forall|event: CompletionEvent, sender: tokio::sync::mpsc::Sender<CompletionEvent>|
                spawn.requires((event, sender))),
            (forall|event: CompletionEvent, sender: tokio::sync::mpsc::Sender<CompletionEvent>, h: TaskHandle<()>|
                spawn.ensures((event, sender), h) ==> !h.cancel_requested()),
        ensures
            spawned(*old(self), *final(self), r),
            r is Some ==> (exists|h: TaskHandle<()>|
                #[trigger] spawn.ensures(
                    ((CompletionEvent { key: r->0, serial: old(self).next_serial() }), old(self).completion_sender()),
                    h,
                )),
    {
        proof {
            use_type_invariant(&self.table);
        }
        if slab_len(&self.table.tasks) == self.table.max_tasks || self.table.next_serial == u128::MAX {
            return None;
        }
        let task_key = slab_vacant_key(&self.table.tasks);
        let serial = self.table.next_serial;
        let event = CompletionEvent { key: task_key, serial };
        let completion_event_queue_sender = clone_sender(&self.table.completion_event_queue_sender);
        let task_handle = spawn(event, completion_event_queue_sender);
        let mut tasks = self.take_tasks();
        let inserted = slab_insert(&mut tasks, SupervisedTask { serial, handle: task_handle });
        assert(inserted == task_key);
        self.table.next_serial = serial + 1;
        self.put_tasks(tasks);
        Some(task_key)
    }

    /// The queue on which finished tasks report themselves. What the manager
    /// then holds is the receiver as the caller leaves it; receiving from it
    /// changes nothing else of the manager.
    pub fn completion_events(&mut self) -> (r: &mut tokio::sync::mpsc::Receiver<CompletionEvent>)
        ensures
            *r == old(self).completion_receiver(),
            final(self).completion_receiver() == *final(r),
            final(self).completion_sender() == old(self).completion_sender(),
            final(self).tasks() == old(self).tasks(),
            final(self).next_key() == old(self).next_key(),
            final(self).next_serial() == old(self).next_serial(),
            final(self).max_tasks() == old(self).max_tasks(),
    {
        &mut self.completion_event_queue_receiver
    }

    /// Handles a completion event: the task that the event names is no
    /// longer supervised, and its handle is given back to be awaited. Gives
    /// [`None`] when that task is not supervised any more; in particular the
    /// event of a detached task leaves a task that has since been spawned
    /// under the same key alone.
    pub fn complete_task(&mut self, event: CompletionEvent) -> (r: Option<TaskHandle<()>>)
        ensures
            completion_handled(*old(self), *final(self), event, r is Some),
            r is Some ==> r->0.cancel_requested() == old(self).tasks()[event.key].1,
    {
        proof {
            use_type_invariant(&self.table);
        }
        if slab_contains(&self.table.tasks, event.key) && slab_get(&self.table.tasks, event.key).serial == event.serial {
            let mut tasks = self.take_tasks();
            let removed = slab_try_remove(&mut tasks, event.key);
            self.put_tasks(tasks);
            match removed {
                Some(task) => Some(task.handle),
                None => None,
            }
        } else {
            None
        }
    }

    /// Detaches a task from the manager. The task is no longer supervised by
    /// the manager; its handle is given back.
    pub fn detach(&mut self, task_key: usize) -> (r: Result<TaskHandle<()>, TaskManagerError>)
        ensures
            task_removed(*old(self), *final(self), task_key, r is Ok),
            r is Ok ==> r->Ok_0.cancel_requested() == old(self).tasks()[task_key].1,
            r is Err ==> r->Err_0 is TaskNotFound,
    {
        proof {
            use_type_invariant(&self.table);
        }
        let mut tasks = self.take_tasks();
        let removed = slab_try_remove(&mut tasks, task_key);
        self.put_tasks(tasks);
        match removed {
            Some(task) => Ok(task.handle),
            None => Err(TaskManagerError::TaskNotFound),
        }
    }

    /// Requests cancellation of every supervised task, in key order.
    fn cancel_all(&mut self)
        ensures
            final(self).max_tasks() == old(self).max_tasks(),
            final(self).tasks().dom() == old(self).tasks().dom(),
            forall|k: usize| #[trigger] final(self).tasks().dom().contains(k) ==>
                final(self).tasks()[k] == (old(self).tasks()[k].0, true),
    {
        proof {
            use_type_invariant(&self.table);
        }
        let ghost before = self.tasks();
        let mut tasks = self.take_tasks();
        let keys = slab_keys(&tasks);
        let mut i: usize = 0;
        while i < keys.len()
            invariant
                0 <= i <= keys.len(),
                slab_tasks(tasks).dom() == before.dom(),
                strictly_increasing(keys@),
                forall|k: usize| keys@.contains(k) <==> before.dom().contains(k),
                forall|k: usize| #[trigger] slab_tasks(tasks).dom().contains(k) ==>
                    slab_tasks(tasks)[k].0 == before[k].0,
                forall|j: int| 0 <= j < i ==> slab_tasks(tasks)[#[trigger] keys@[j]].1,
            decreases keys.len() - i,
        {
            let key = keys[i];
            assert(keys@.contains(key));
            let task = slab_get_mut(&mut tasks, key);
            task.handle.cancel();
            proof {
                assert forall|j: int| 0 <= j < i + 1 implies slab_tasks(tasks)[#[trigger] keys@[j]].1 by {
                    if j < i {
                        assert(keys@[j] < keys@[i as int]);
                    }
                }
                assert(slab_tasks(tasks).dom() =~= before.dom());
            }
            i = i + 1;
        }
        proof {
            assert forall|k: usize| #[trigger] slab_tasks(tasks).dom().contains(k) implies
                slab_tasks(tasks)[k] == (before[k].0, true) by {
                assert(keys@.contains(k));
                let j = choose|j: int| 0 <= j < keys@.len() && keys@[j] == k;
                assert(slab_tasks(tasks)[keys@[j]].1);
            }
        }
        self.put_tasks(tasks);
    }

    /// Cancels all supervised tasks, consuming the manager: `true` is
    /// published on the cancellation channel of every task. The handles are
    /// given back with their keys, in increasing key order.
    pub fn cancel(self) -> (r: Vec<(usize, TaskHandle<()>)>)
        ensures
            hands_back_every_task(self.tasks(), r@),
            forall|i: int| 0 <= i < r@.len() ==> (#[trigger] r@[i]).1.cancel_requested(),
    {
        let mut manager = self;
        manager.cancel_all();
        let ghost canceled = manager.tasks();
        let handles = manager.into_tasks();
        proof {
            assert forall|i: int| 0 <= i < handles@.len() implies (#[trigger] handles@[i]).1.cancel_requested() by {
                let k = handles@[i].0;
                assert(canceled.dom().contains(k));
            }
        }
        handles
    }

    /// Aborts all supervised tasks, in key order, consuming the manager: the
    /// abortion of every task is requested from the runtime. The handles are
    /// given back with their keys, in increasing key order.
    pub fn abort(self) -> (r: Vec<(usize, TaskHandle<()>)>)
        ensures
            hands_back_every_task(self.tasks(), r@),
            forall|i: int| 0 <= i < r@.len() ==> {
                &&& (#[trigger] r@[i]).1.abort_requested()
                &&& r@[i].1.cancel_requested() == self.tasks()[r@[i].0].1
            },
    {
        let ghost before = self.tasks();
        let TaskManager { table, .. } = self;
        let TaskTable { tasks, .. } = table;
        let mut tasks = tasks;
        let keys = slab_keys(&tasks);
        let mut aborted: Vec<(usize, TaskHandle<()>)> = Vec::new();
        let mut i: usize = 0;
        while i < keys.len()
            invariant
                0 <= i <= keys.len(),
                aborted@.len() == i,
                strictly_increasing(keys@),
                forall|k: usize| keys@.contains(k) <==> before.dom().contains(k),
                forall|k: usize| #[trigger] slab_tasks(tasks).dom().contains(k) <==>
                    (before.dom().contains(k) && forall|j: int| 0 <= j < i ==> keys@[j] != k),
                forall|k: usize| #[trigger] slab_tasks(tasks).dom().contains(k) ==>
                    slab_tasks(tasks)[k] == before[k],
                forall|j: int| 0 <= j < i ==> {
                    &&& (#[trigger] aborted@[j]).0 == keys@[j]
                    &&& aborted@[j].1.abort_requested()
                    &&& aborted@[j].1.cancel_requested() == before[keys@[j]].1
                },
            decreases keys.len() - i,
        {
            let key = keys[i];
            assert(keys@.contains(key));
            assert forall|j: int| 0 <= j < i implies keys@[j] != key by {
                assert(keys@[j] < keys@[i as int]);
            }
            let removed = slab_try_remove(&mut tasks, key);
            let mut task = removed.unwrap();
            task.handle.request_abort();
            aborted.push((key, task.handle));
            proof {
                assert forall|k: usize| #[trigger] slab_tasks(tasks).dom().contains(k) <==>
                    (before.dom().contains(k) && forall|j: int| 0 <= j < i + 1 ==> keys@[j] != k) by {
                    if k != key {
                        if !(forall|j: int| 0 <= j < i + 1 ==> keys@[j] != k) {
                            let j = choose|j: int| 0 <= j < i + 1 && keys@[j] == k;
                            assert(j < i);
                        }
                    }
                }
            }
            i = i + 1;
        }
        proof {
            let ks = aborted@.map_values(|e: (usize, TaskHandle<()>)| e.0);
            assert(ks =~= keys@);
            assert forall|k: usize| before.dom().contains(k) implies
                exists|j: int| 0 <= j < aborted@.len() && #[trigger] aborted@[j].0 == k by {
                assert(keys@.contains(k));
                let j = choose|j: int| 0 <= j < keys@.len() && keys@[j] == k;
                assert(aborted@[j].0 == k);
            }
        }
        aborted
    }

    /// Gives up every supervised task with its key, in increasing key order,
    /// consuming the manager; the tasks are then waited for in this order.
    pub fn into_tasks(self) -> (r: Vec<(usize, TaskHandle<()>)>)
        ensures
            strictly_increasing(r@.map_values(|e: (usize, TaskHandle<()>)| e.0)),
            forall|i: int| 0 <= i < r@.len() ==> {
                &&& self.tasks().dom().contains(#[trigger] r@[i].0)
                &&& r@[i].1.cancel_requested() == self.tasks()[r@[i].0].1
            },
            forall|k: usize| self.tasks().dom().contains(k) ==>
                exists|i: int| 0 <= i < r@.len() && #[trigger] r@[i].0 == k,
            hands_back_every_task(self.tasks(), r@),
    {
        let TaskManager { table, .. } = self;
        let TaskTable { tasks, .. } = table;
        slab_into_handles(tasks)
    }

    /// Decides what waiting for all tasks does with a task's outcome: the
    /// panic of a task that panicked is given back to be resumed when
    /// `resume_panic` is set; any other outcome is passed over.
    pub fn panic_to_resume(outcome: Result<(), TaskError>, resume_panic: bool) -> (r: Option<tokio::task::JoinError>)
        ensures
            match outcome {
                Err(TaskError::Panicked(e)) => if resume_panic { r == Some(e) } else { r is None },
                _ => r is None,
            },
    {
        match outcome {
            Err(TaskError::Panicked(reason)) => {
                if resume_panic {
                    Some(reason)
                } else {
                    None
                }
            },
            _ => None,
        }
    }

    /// Cancels a particular task by the key that [`TaskManager::try_spawn`]
    /// returned. If the task is not found (the key is wrong or the task has
    /// already finished) gives [`TaskManagerError::TaskNotFound`]. Whether
    /// the task has finished is the runtime's answer at the time of the call.
    pub fn cancel_task(&mut self, task_key: usize) -> (r: Result<(), TaskManagerError>)
        ensures
            exists|finished: bool| #[trigger] task_canceled(*old(self), *final(self), task_key, finished, r),
            r is Err && old(self).tasks().dom().contains(task_key) ==>
                final(self).finished_serials().contains(old(self).tasks()[task_key].0),
            old(self).finished_serials().subset_of(final(self).finished_serials()),
            final(self).aborted_serials() == old(self).aborted_serials(),
    {
        proof {
            use_type_invariant(&self.table);
        }
        if !slab_contains(&self.table.tasks, task_key) {
            proof {
                assert(task_canceled(*old(self), *self, task_key, false, Err(TaskManagerError::TaskNotFound)));
            }
            return Err(TaskManagerError::TaskNotFound);
        }
        let mut tasks = self.take_tasks();
        let task = slab_get_mut(&mut tasks, task_key);
        let finished = task.handle.check_finished();
        let ghost serial = task.serial;
        let ghost reported = task.handle.finished_reported();
        proof {
            assert(slab_tasks(tasks) =~= old(self).tasks());
        }
        self.put_tasks(tasks);
        self.finished_serials = Ghost(
            if reported {
                self.finished_serials@.insert(serial)
            } else {
                self.finished_serials@
            },
        );
        let r = self.cancel_unfinished_task(task_key, finished);
        proof {
            assert(task_canceled(*old(self), *self, task_key, finished, r));
        }
        r
    }

    /// Cancels the task under `task_key` unless `finished` says that it has
    /// already terminated; gives [`TaskManagerError::TaskNotFound`] when no
    /// task is supervised under the key or it has terminated.
    pub fn cancel_unfinished_task(&mut self, task_key: usize, finished: bool) -> (r: Result<(), TaskManagerError>)
        ensures
            task_canceled(*old(self), *final(self), task_key, finished, r),
            final(self).finished_serials() == old(self).finished_serials(),
            final(self).aborted_serials() == old(self).aborted_serials(),
    {
        proof {
            use_type_invariant(&self.table);
        }
        if !finished && slab_contains(&self.table.tasks, task_key) {
            let mut tasks = self.take_tasks();
            let task = slab_get_mut(&mut tasks, task_key);
            task.handle.cancel();
            proof {
                assert(slab_tasks(tasks).dom() =~= old(self).tasks().dom());
            }
            self.put_tasks(tasks);
            Ok(())
        } else {
            Err(TaskManagerError::TaskNotFound)
        }
    }

    /// Aborts a task by its key. The task is removed from the storage so
    /// that it can't be accessed anymore.
    pub fn abort_task(&mut self, task_key: usize) -> (r: Result<(), TaskManagerError>)
        ensures
            task_removed(*old(self), *final(self), task_key, r is Ok),
            r is Err ==> r->Err_0 is TaskNotFound,
            r is Ok ==> final(self).aborted_serials() == old(self).aborted_serials().insert(
                old(self).tasks()[task_key].0,
            ),
            r is Err ==> final(self).aborted_serials() == old(self).aborted_serials(),
            final(self).finished_serials() == old(self).finished_serials(),
    {
        proof {
            use_type_invariant(&self.table);
        }
        let mut tasks = self.take_tasks();
        let removed = slab_try_remove(&mut tasks, task_key);
        self.put_tasks(tasks);
        match removed {
            Some(task) => {
                let mut task = task;
                task.handle.request_abort();
                self.aborted_serials = Ghost(
                    if task.handle.abort_requested() {
                        self.aborted_serials@.insert(task.serial)
                    } else {
                        self.aborted_serials@
                    },
                );
                Ok(())
            },
            None => Err(TaskManagerError::TaskNotFound),
        }
    }
}

/// One operation keeps the manager well formed (finitely many tasks, no
/// more than its limit, each with a serial number given out before), keeps
/// its limit and never takes back a serial number.
pub proof fn step_keeps_manager_well_formed(pre: TaskManager, post: TaskManager)
    requires
        pre.wf(),
        manager_step(pre, post),
    ensures
        post.wf(),
        post.max_tasks() == pre.max_tasks(),
        post.next_serial() >= pre.next_serial(),
{
    let tp = pre.tasks();
    let tq = post.tasks();
    if exists|r: Option<usize>| #[trigger] spawned(pre, post, r) {
        let r = choose|r: Option<usize>| #[trigger] spawned(pre, post, r);
        if r is Some {
            assert(tq.dom() =~= tp.dom().insert(r->0));
        }
    } else if exists|key: usize, finished: bool, r: Result<(), TaskManagerError>|
        #[trigger] task_canceled(pre, post, key, finished, r) {
        let (key, finished, r) = choose|key: usize, finished: bool, r: Result<(), TaskManagerError>|
            #[trigger] task_canceled(pre, post, key, finished, r);
        assert(tq.dom() =~= tp.dom());
    } else if exists|key: usize, found: bool| #[trigger] task_removed(pre, post, key, found) {
        let (key, found) = choose|key: usize, found: bool| #[trigger] task_removed(pre, post, key, found);
        assert(tq.dom() =~= tp.dom().remove(key));
    } else if exists|event: CompletionEvent, found: bool| #[trigger] completion_handled(pre, post, event, found) {
        let (event, found) = choose|event: CompletionEvent, found: bool|
            #[trigger] completion_handled(pre, post, event, found);
        if found {
            assert(tq.dom() =~= tp.dom().remove(event.key));
        }
    }
}

/// Over any run of operations from a well-formed manager, the manager stays
/// well formed and keeps its limit, so the task count never exceeds it.
pub proof fn task_count_stays_within_limit(ms: Seq<TaskManager>)
    requires
        ms.len() > 0,
        ms[0].wf(),
        forall|i: int| 0 <= i < ms.len() - 1 ==> manager_step(#[trigger] ms[i], ms[i + 1]),
    ensures
        forall|i: int| 0 <= i < ms.len() ==> {
            &&& (#[trigger] ms[i]).wf()
            &&& ms[i].max_tasks() == ms[0].max_tasks()
            &&& ms[i].tasks().dom().len() <= ms[0].max_tasks()
        },
    decreases ms.len(),
{
    if ms.len() > 1 {
        let prefix = ms.drop_last();
        assert forall|i: int| 0 <= i < prefix.len() - 1 implies manager_step(#[trigger] prefix[i], prefix[i + 1]) by {
            assert(prefix[i] == ms[i] && prefix[i + 1] == ms[i + 1]);
            assert(manager_step(ms[i], ms[i + 1]));
        }
        task_count_stays_within_limit(prefix);
        let n = ms.len() - 1;
        assert(prefix[n - 1] == ms[n - 1]);
        assert(manager_step(ms[n - 1], ms[n]));
        step_keeps_manager_well_formed(ms[n - 1], ms[n]);
        assert forall|i: int| 0 <= i < ms.len() implies {
            &&& (#[trigger] ms[i]).wf()
            &&& ms[i].max_tasks() == ms[0].max_tasks()
            &&& ms[i].tasks().dom().len() <= ms[0].max_tasks()
        } by {
            if i < n {
                assert(prefix[i] == ms[i]);
            }
        }
    }
}

/// A newly built manager holds no task, so a run of spawn attempts on it
/// succeeds exactly `max_tasks` times before one is refused.
pub proof fn built_manager_takes_max_tasks_spawns(ms: Seq<TaskManager>, rs: Seq<Option<usize>>)
    requires
        ms[0].wf(),
        ms[0].tasks().dom().len() == 0,
        ms[0].next_serial() == 0,
        rs.len() == ms[0].max_tasks() + 1,
        ms.len() == rs.len() + 1,
        forall|i: int| 0 <= i < rs.len() ==> spawned(#[trigger] ms[i], ms[i + 1], rs[i]),
    ensures
        forall|i: int| 0 <= i < ms[0].max_tasks() ==> (#[trigger] rs[i]) is Some,
        rs[ms[0].max_tasks() as int] is None,
{
    let n = ms[0].max_tasks() as int;
    filling_counts(ms, rs, n);
    assert forall|i: int| 0 <= i < n implies (#[trigger] rs[i]) is Some by {
        filling_counts(ms, rs, i);
        assert(spawned(ms[i], ms[i + 1], rs[i]));
    }
    assert(spawned(ms[n], ms[n + 1], rs[n]));
}

/// After `i` spawn attempts on a newly built manager, with `i` at most its
/// limit, the manager holds `i` tasks and has given out `i` serial numbers.
proof fn filling_counts(ms: Seq<TaskManager>, rs: Seq<Option<usize>>, i: int)
    requires
        ms[0].wf(),
        ms[0].tasks().dom().len() == 0,
        ms[0].next_serial() == 0,
        rs.len() == ms[0].max_tasks() + 1,
        ms.len() == rs.len() + 1,
        forall|j: int| 0 <= j < rs.len() ==> spawned(#[trigger] ms[j], ms[j + 1], rs[j]),
        0 <= i <= ms[0].max_tasks(),
    ensures
        ms[i].tasks().dom().finite(),
        ms[i].tasks().dom().len() == i,
        ms[i].next_serial() == i,
        ms[i].max_tasks() == ms[0].max_tasks(),
    decreases i,
{
    if i > 0 {
        filling_counts(ms, rs, i - 1);
        assert(spawned(ms[i - 1], ms[i], rs[i - 1]));
        assert(ms[i - 1].tasks().dom().len() < ms[0].max_tasks());
        let key = rs[i - 1]->0;
        assert(ms[i].tasks().dom() =~= ms[i - 1].tasks().dom().insert(key));
    }
}

/// A key that a spawn returned names the new task: canceling with it while
/// the task runs succeeds and marks that task, and only that task, canceled.
pub proof fn spawned_key_can_be_canceled(
    m0: TaskManager,
    m1: TaskManager,
    m2: TaskManager,
    key: usize,
    r: Result<(), TaskManagerError>,
)
    requires
        spawned(m0, m1, Some(key)),
        task_canceled(m1, m2, key, false, r),
    ensures
        r is Ok,
        m2.tasks() == m0.tasks().insert(key, (m0.next_serial(), true)),
{
    assert(m2.tasks() =~= m0.tasks().insert(key, (m0.next_serial(), true)));
}

/// A task that has already finished is not found: canceling it gives
/// `TaskNotFound` and changes nothing.
pub proof fn finished_task_cannot_be_canceled(
    m0: TaskManager,
    m1: TaskManager,
    key: usize,
    r: Result<(), TaskManagerError>,
)
    requires
        task_canceled(m0, m1, key, true, r),
    ensures
        r matches Err(TaskManagerError::TaskNotFound),
        m1.tasks() == m0.tasks(),
{
}

/// Removing the task that a spawn has just added (by detaching or aborting
/// it) finds it and leaves the manager with the tasks it had before.
pub proof fn removing_spawned_task_restores(
    m0: TaskManager,
    m1: TaskManager,
    m2: TaskManager,
    key: usize,
    found: bool,
)
    requires
        spawned(m0, m1, Some(key)),
        task_removed(m1, m2, key, found),
    ensures
        found,
        m2.tasks() == m0.tasks(),
        m2.max_tasks() == m0.max_tasks(),
{
    assert(m2.tasks() =~= m0.tasks());
}

/// The completion event of a task just spawned names it: handling the event
/// removes the task and leaves the manager with the tasks it had before.
pub proof fn own_completion_removes_spawned_task(
    m0: TaskManager,
    m1: TaskManager,
    m2: TaskManager,
    key: usize,
    found: bool,
)
    requires
        spawned(m0, m1, Some(key)),
        completion_handled(m1, m2, (CompletionEvent { key, serial: m0.next_serial() }), found),
    ensures
        found,
        m2.tasks() == m0.tasks(),
{
    assert(m2.tasks() =~= m0.tasks());
}

/// Once a task has been removed, its key is not found any more: canceling
/// with it fails with `TaskNotFound` and changes nothing.
pub proof fn removed_task_cannot_be_canceled(
    m0: TaskManager,
    m1: TaskManager,
    m2: TaskManager,
    key: usize,
    found: bool,
    finished: bool,
    r: Result<(), TaskManagerError>,
)
    requires
        task_removed(m0, m1, key, found),
        task_canceled(m1, m2, key, finished, r),
    ensures
        r matches Err(TaskManagerError::TaskNotFound),
        m2.tasks() == m1.tasks(),
{
}

/// Once a task has been removed, removing it again finds nothing and
/// changes nothing.
pub proof fn removed_task_cannot_be_removed_again(
    m0: TaskManager,
    m1: TaskManager,
    m2: TaskManager,
    key: usize,
    found_first: bool,
    found_second: bool,
)
    requires
        task_removed(m0, m1, key, found_first),
        task_removed(m1, m2, key, found_second),
    ensures
        !found_second,
        m2.tasks() == m1.tasks(),
{
    assert(m2.tasks() =~= m1.tasks());
}

/// Canceling a task a second time changes nothing more, and succeeds again
/// while the task runs.
pub proof fn cancel_task_is_idempotent(
    m0: TaskManager,
    m1: TaskManager,
    m2: TaskManager,
    key: usize,
    finished_first: bool,
    finished_second: bool,
    r1: Result<(), TaskManagerError>,
    r2: Result<(), TaskManagerError>,
)
    requires
        task_canceled(m0, m1, key, finished_first, r1),
        task_canceled(m1, m2, key, finished_second, r2),
        r1 is Ok,
    ensures
        m2.tasks() == m1.tasks(),
        !finished_second ==> r2 is Ok,
{
    assert(m2.tasks() =~= m1.tasks());
}

/// A spawn is refused exactly when the manager is full or has given out
/// every serial number, and a successful spawn raises the task count by one.
pub proof fn spawn_respects_task_limit(m0: TaskManager, m1: TaskManager, r: Option<usize>)
    requires
        m0.wf(),
        spawned(m0, m1, r),
    ensures
        r is None <==> (m0.tasks().dom().len() == m0.max_tasks() || m0.next_serial() == u128::MAX),
        r is Some ==> m1.tasks().dom().len() == m0.tasks().dom().len() + 1,
        m1.tasks().dom().len() <= m1.max_tasks(),
{
}

/// A removal that finds its task lowers the task count by one; one that
/// does not leaves the tasks unchanged.
pub proof fn removal_lowers_task_count(m0: TaskManager, m1: TaskManager, key: usize, found: bool)
    requires
        m0.wf(),
        task_removed(m0, m1, key, found),
    ensures
        found ==> m1.tasks().dom().len() == m0.tasks().dom().len() - 1,
        !found ==> m1.tasks() == m0.tasks(),
{
    if !found {
        assert(m1.tasks() =~= m0.tasks());
    }
}

/// A detached task is no longer supervised: when it finishes, however many
/// operations later and even after its key has been given to another task,
/// its completion event changes nothing.
pub proof fn detached_task_completion_is_ignored(
    ms: Seq<TaskManager>,
    key: usize,
    after: TaskManager,
    found: bool,
)
    requires
        ms.len() >= 2,
        ms[0].wf(),
        task_removed(ms[0], ms[1], key, true),
        forall|i: int| 1 <= i < ms.len() - 1 ==> manager_step(#[trigger] ms[i], ms[i + 1]),
        completion_handled(ms.last(), after, (CompletionEvent { key, serial: ms[0].tasks()[key].0 }), found),
    ensures
        !found,
        after.tasks() == ms.last().tasks(),
{
    let n = ms.len() - 1;
    later_serials_at_key(ms, key, n);
    assert(ms[0].tasks()[key].0 < ms[0].next_serial());
}

/// After a task has been removed from `ms[0]` into `ms[1]`, any task under
/// the same key at a later step has a serial number given out since.
proof fn later_serials_at_key(ms: Seq<TaskManager>, key: usize, i: int)
    requires
        ms.len() >= 2,
        task_removed(ms[0], ms[1], key, true),
        forall|j: int| 1 <= j < ms.len() - 1 ==> manager_step(#[trigger] ms[j], ms[j + 1]),
        1 <= i < ms.len(),
    ensures
        ms[i].next_serial() >= ms[1].next_serial(),
        ms[i].tasks().dom().contains(key) ==> ms[i].tasks()[key].0 >= ms[1].next_serial(),
    decreases i,
{
    if i > 1 {
        later_serials_at_key(ms, key, i - 1);
        let (pre, post) = (ms[i - 1], ms[i]);
        assert(manager_step(pre, post));
        if exists|r: Option<usize>| #[trigger] spawned(pre, post, r) {
            let r = choose|r: Option<usize>| #[trigger] spawned(pre, post, r);
        } else if exists|k: usize, finished: bool, r: Result<(), TaskManagerError>|
            #[trigger] task_canceled(pre, post, k, finished, r) {
            let (k, finished, r) = choose|k: usize, finished: bool, r: Result<(), TaskManagerError>|
                #[trigger] task_canceled(pre, post, k, finished, r);
        } else if exists|k: usize, found: bool| #[trigger] task_removed(pre, post, k, found) {
            let (k, found) = choose|k: usize, found: bool| #[trigger] task_removed(pre, post, k, found);
        } else if exists|event: CompletionEvent, found: bool| #[trigger] completion_handled(pre, post, event, found) {
            let (event, found) = choose|event: CompletionEvent, found: bool|
                #[trigger] completion_handled(pre, post, event, found);
        }
    }
}

/// A sequence that hands back every task of `tasks`, each once, is as long
/// as `tasks` holds tasks.
proof fn handed_back_count(tasks: Map<usize, (u128, bool)>, handles: Seq<(usize, TaskHandle<()>)>)
    requires
        hands_back_every_task(tasks, handles),
    ensures
        handles.len() == tasks.dom().len(),
{
    let ks = handles.map_values(|e: (usize, TaskHandle<()>)| e.0);
    assert(ks.no_duplicates()) by {
        assert forall|i: int, j: int| 0 <= i < ks.len() && 0 <= j < ks.len() && i != j implies ks[i] != ks[j] by {
            if i < j {
                assert(ks[i] < ks[j]);
            } else {
                assert(ks[j] < ks[i]);
            }
        }
    }
    assert(ks.to_set() =~= tasks.dom()) by {
        assert forall|k: usize| ks.to_set().contains(k) implies tasks.dom().contains(k) by {
            let i = choose|i: int| 0 <= i < ks.len() && ks[i] == k;
            assert(tasks.dom().contains(handles[i].0));
        }
        assert forall|k: usize| tasks.dom().contains(k) implies ks.to_set().contains(k) by {
            let i = choose|i: int| 0 <= i < handles.len() && #[trigger] handles[i].0 == k;
            assert(ks[i] == k);
        }
    }
    ks.unique_seq_to_set();
}

/// Canceling a supervised task either succeeds and marks that task
/// canceled, or fails because the runtime reported that very task
/// terminated: a task that the runtime has not reported terminated is
/// always canceled, and no other task is touched.
pub proof fn cancel_task_cancels_running_task(
    m0: TaskManager,
    m1: TaskManager,
    key: usize,
    r: Result<(), TaskManagerError>,
)
    requires
        exists|finished: bool| #[trigger] task_canceled(m0, m1, key, finished, r),
        r is Err && m0.tasks().dom().contains(key) ==> m1.finished_serials().contains(m0.tasks()[key].0),
        m0.tasks().dom().contains(key),
        !m1.finished_serials().contains(m0.tasks()[key].0),
    ensures
        r is Ok,
        m1.tasks() == m0.tasks().insert(key, (m0.tasks()[key].0, true)),
        m1.tasks().dom() == m0.tasks().dom(),
{
    let finished = choose|finished: bool| #[trigger] task_canceled(m0, m1, key, finished, r);
    assert(m1.tasks().dom() =~= m0.tasks().dom());
}

/// Canceling all tasks reaches every task that was supervised: each one's
/// handle comes back, once, with `true` published on its cancellation
/// channel, and no other handle comes back.
pub proof fn cancel_reaches_every_task(before: TaskManager, handles: Seq<(usize, TaskHandle<()>)>)
    requires
        hands_back_every_task(before.tasks(), handles),
        forall|i: int| 0 <= i < handles.len() ==> (#[trigger] handles[i]).1.cancel_requested(),
    ensures
        handles.len() == before.tasks().dom().len(),
        forall|k: usize| before.tasks().dom().contains(k) ==>
            exists|i: int| 0 <= i < handles.len() && #[trigger] handles[i].0 == k && handles[i].1.cancel_requested(),
{
    handed_back_count(before.tasks(), handles);
    assert forall|k: usize| before.tasks().dom().contains(k) implies
        exists|i: int| 0 <= i < handles.len() && #[trigger] handles[i].0 == k && handles[i].1.cancel_requested() by {
        let i = choose|i: int| 0 <= i < handles.len() && #[trigger] handles[i].0 == k;
        assert(handles[i].1.cancel_requested());
    }
}

/// Aborting all tasks reaches every task that was supervised: each one's
/// handle comes back, once, with its abortion requested from the runtime,
/// and no other handle comes back.
pub proof fn abort_reaches_every_task(before: TaskManager, handles: Seq<(usize, TaskHandle<()>)>)
    requires
        hands_back_every_task(before.tasks(), handles),
        forall|i: int| 0 <= i < handles.len() ==> (#[trigger] handles[i]).1.abort_requested(),
    ensures
        handles.len() == before.tasks().dom().len(),
        forall|k: usize| before.tasks().dom().contains(k) ==>
            exists|i: int| 0 <= i < handles.len() && #[trigger] handles[i].0 == k && handles[i].1.abort_requested(),
{
    handed_back_count(before.tasks(), handles);
    assert forall|k: usize| before.tasks().dom().contains(k) implies
        exists|i: int| 0 <= i < handles.len() && #[trigger] handles[i].0 == k && handles[i].1.abort_requested() by {
        let i = choose|i: int| 0 <= i < handles.len() && #[trigger] handles[i].0 == k;
        assert(handles[i].1.abort_requested());
    }
}

/// Aborting a task by its key succeeds exactly when a task is supervised
/// under the key. That task is then no longer supervised and its abortion
/// was requested from the runtime; every other task is left as it was. A
/// failed attempt changes nothing.
pub proof fn abort_task_aborts_that_task(
    m0: TaskManager,
    m1: TaskManager,
    key: usize,
    r: Result<(), TaskManagerError>,
)
    requires
        task_removed(m0, m1, key, r is Ok),
        r is Ok ==> m1.aborted_serials() == m0.aborted_serials().insert(m0.tasks()[key].0),
        r is Err ==> m1.aborted_serials() == m0.aborted_serials(),
    ensures
        r is Ok <==> m0.tasks().dom().contains(key),
        r is Ok ==> !m1.tasks().dom().contains(key) && m1.aborted_serials().contains(m0.tasks()[key].0),
        forall|k: usize| k != key && #[trigger] m0.tasks().dom().contains(k) ==>
            m1.tasks().dom().contains(k) && m1.tasks()[k] == m0.tasks()[k],
        r is Err ==> m1.tasks() == m0.tasks() && m1.aborted_serials() == m0.aborted_serials(),
{
    if r is Err {
        assert(m1.tasks() =~= m0.tasks());
    }
}

} // verus!
