//! The slab that stores supervised tasks under their keys.
//!
//! The slab is opaque to the verifier. What the manager decides on is named
//! by two spec functions: [`slab_tasks`], the stored tasks by key, each taken
//! as its spawn serial and whether cancellation was requested through its
//! handle, and [`slab_next_key`], the key that the next insertion will use.
//! The wrappers below state over these names what each slab operation does.

use crate::task::TaskHandle;
use vstd::prelude::*;

verus! {

#[verifier::external_type_specification]
#[verifier::external_body]
#[verifier::reject_recursive_types(T)]
pub struct ExSlab<T>(slab::Slab<T>);

/// A task as the manager stores it: the handle, and the serial number that
/// the manager gave the task when it spawned it. The serial tells the task
/// apart from any other task that is later stored under the same key.
pub struct SupervisedTask {
    pub serial: u128,
    pub handle: TaskHandle<()>,
}

impl SupervisedTask {
    /// The stored task as a plain value: its serial, and whether its
    /// cancellation was requested.
    pub open spec fn entry(&self) -> (u128, bool) {
        (self.serial, self.handle.cancel_requested())
    }
}

/// The tasks that a slab holds, by key, each as its serial and whether its
/// cancellation was requested.
pub uninterp spec fn slab_tasks(slab: slab::Slab<SupervisedTask>) -> Map<usize, (u128, bool)>;

/// The key that the slab gives to the next value inserted into it.
pub uninterp spec fn slab_next_key(slab: slab::Slab<SupervisedTask>) -> usize;

/// `Slab::new`: an empty slab, which allocates nothing.
#[verifier::external_body]
pub(crate) fn slab_new() -> (r: slab::Slab<SupervisedTask>)
    ensures
        slab_tasks(r).dom() == Set::<usize>::empty(),
{
    slab::Slab::new()
}

/// `Slab::with_capacity`: an empty slab with room for `capacity` entries.
/// The entry vector must fit in `isize::MAX` bytes, or the allocation
/// panics; an entry holding a supervised task takes at most 64 bytes.
#[verifier::external_body]
pub(crate) fn slab_with_capacity(capacity: usize) -> (r: slab::Slab<SupervisedTask>)
    requires
        capacity as int * 64 <= isize::MAX,
    ensures
        slab_tasks(r).dom() == Set::<usize>::empty(),
{
    slab::Slab::with_capacity(capacity)
}

/// `Slab::len`: the number of stored values.
#[verifier::external_body]
pub(crate) fn slab_len(slab: &slab::Slab<SupervisedTask>) -> (r: usize)
    ensures
        r == slab_tasks(*slab).dom().len(),
{
    slab.len()
}

/// `Slab::contains`: whether a value is stored under `key`.
#[verifier::external_body]
pub(crate) fn slab_contains(slab: &slab::Slab<SupervisedTask>, key: usize) -> (r: bool)
    ensures
        r == slab_tasks(*slab).dom().contains(key),
{
    slab.contains(key)
}

/// `Slab::vacant_key`: the key of the next insertion, which holds no value.
#[verifier::external_body]
pub(crate) fn slab_vacant_key(slab: &slab::Slab<SupervisedTask>) -> (r: usize)
    ensures
        r == slab_next_key(*slab),
        !slab_tasks(*slab).dom().contains(r),
{
    slab.vacant_key()
}

/// `Slab::insert`: stores `value` under the vacant key and returns that key.
#[verifier::external_body]
pub(crate) fn slab_insert(slab: &mut slab::Slab<SupervisedTask>, value: SupervisedTask) -> (r: usize)
    ensures
        r == slab_next_key(*old(slab)),
        !slab_tasks(*old(slab)).dom().contains(r),
        slab_tasks(*final(slab)) == slab_tasks(*old(slab)).insert(r, value.entry()),
{
    slab.insert(value)
}

/// `Slab::try_remove`: takes out the value stored under `key`, if any.
#[verifier::external_body]
pub(crate) fn slab_try_remove(slab: &mut slab::Slab<SupervisedTask>, key: usize) -> (r: Option<SupervisedTask>)
    ensures
        r is Some == slab_tasks(*old(slab)).dom().contains(key),
        r is Some ==> r->0.entry() == slab_tasks(*old(slab))[key],
        slab_tasks(*final(slab)) == slab_tasks(*old(slab)).remove(key),
{
    slab.try_remove(key)
}

/// `Slab::index`: the value stored under `key`, which must be there (else
/// the slab panics).
#[verifier::external_body]
pub(crate) fn slab_get(slab: &slab::Slab<SupervisedTask>, key: usize) -> (r: &SupervisedTask)
    requires
        slab_tasks(*slab).dom().contains(key),
    ensures
        r.entry() == slab_tasks(*slab)[key],
{
    &slab[key]
}

/// `Slab::index_mut`: the value stored under `key`, which must be there
/// (else the slab panics), to be changed in place.
#[verifier::external_body]
pub(crate) fn slab_get_mut(slab: &mut slab::Slab<SupervisedTask>, key: usize) -> (r: &mut SupervisedTask)
    requires
        slab_tasks(*old(slab)).dom().contains(key),
    ensures
        r.entry() == slab_tasks(*old(slab))[key],
        slab_tasks(*final(slab)) == slab_tasks(*old(slab)).insert(key, final(r).entry()),
        slab_next_key(*final(slab)) == slab_next_key(*old(slab)),
{
    &mut slab[key]
}

/// Whether `keys` is strictly increasing.
pub open spec fn strictly_increasing(keys: Seq<usize>) -> bool {
    forall|i: int, j: int| 0 <= i < j < keys.len() ==> keys[i] < keys[j]
}

/// `Slab::iter`, keys only: the keys of the stored values in increasing
/// order, as the slab walks its slots by index.
#[verifier::external_body]
pub(crate) fn slab_keys(slab: &slab::Slab<SupervisedTask>) -> (r: Vec<usize>)
    ensures
        strictly_increasing(r@),
        forall|k: usize| r@.contains(k) <==> slab_tasks(*slab).dom().contains(k),
{
    slab.iter().map(|(key, _)| key).collect()
}

/// `Slab::into_iter`: every stored task's handle with its key, in increasing
/// key order.
#[verifier::external_body]
pub(crate) fn slab_into_handles(slab: slab::Slab<SupervisedTask>) -> (r: Vec<(usize, TaskHandle<()>)>)
    ensures
        strictly_increasing(r@.map_values(|e: (usize, TaskHandle<()>)| e.0)),
        forall|i: int| 0 <= i < r@.len() ==> {
            &&& slab_tasks(slab).dom().contains(#[trigger] r@[i].0)
            &&& r@[i].1.cancel_requested() == slab_tasks(slab)[r@[i].0].1
        },
        forall|k: usize| slab_tasks(slab).dom().contains(k) ==>
            exists|i: int| 0 <= i < r@.len() && #[trigger] r@[i].0 == k,
{
    slab.into_iter().map(|(key, task)| (key, task.handle)).collect()
}

} // verus!
