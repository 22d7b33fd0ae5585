use vstd::prelude::*;

use crate::target::{
    leaf_targets, leaf_targets_of_list, lemma_target_views_len, target_views, Target,
};

verus! {

broadcast use vstd::std_specs::vec::group_vec_axioms;

/// A destination of log lines.
pub trait LogWriter: Send + Sync {
    fn write(&self, msg: &str);

    fn flush(&self);
}

impl<T: LogWriter + ?Sized> LogWriter for Box<T> {
    /// Writes to the boxed writer.
    fn write(&self, msg: &str)
        ensures
            call_ensures(T::write, (&**self, msg), ()),
    {
        (**self).write(msg)
    }

    /// Flushes the boxed writer.
    fn flush(&self)
        ensures
            call_ensures(T::flush, (&**self,), ()),
    {
        (**self).flush()
    }
}

/// Each writer of `writers` was handed `msg`.
pub open spec fn wrote_to_each<W: LogWriter>(writers: Seq<W>, msg: &str) -> bool {
    forall|i: int| 0 <= i < writers.len() ==> #[trigger] call_ensures(W::write, (&writers[i], msg), ())
}

/// Each writer of `writers` was flushed.
pub open spec fn flushed_each<W: LogWriter>(writers: Seq<W>) -> bool {
    forall|i: int| 0 <= i < writers.len() ==> #[trigger] call_ensures(W::flush, (&writers[i],), ())
}

/// Hands `msg` to each writer, in order.
pub fn write_to_each<W: LogWriter>(writers: &Vec<W>, msg: &str)
    ensures
        wrote_to_each(writers@, msg),
{
    let n = writers.len();
    for i in 0..n
        invariant
            n == writers@.len(),
            forall|j: int| 0 <= j < i ==> #[trigger] call_ensures(W::write, (&writers@[j], msg), ()),
    {
        writers[i].write(msg);
        assert(call_ensures(W::write, (&writers@[i as int], msg), ()));
    }
}

/// Flushes each writer, in order.
pub fn flush_each<W: LogWriter>(writers: &Vec<W>)
    ensures
        flushed_each(writers@),
{
    let n = writers.len();
    for i in 0..n
        invariant
            n == writers@.len(),
            forall|j: int| 0 <= j < i ==> #[trigger] call_ensures(W::flush, (&writers@[j],), ()),
    {
        writers[i].flush();
        assert(call_ensures(W::flush, (&writers@[i as int],), ()));
    }
}

/// Writes each line to several writers, in order.
pub struct MultiWriter {
    writers: Vec<Box<dyn LogWriter>>,
}

impl MultiWriter {
    /// The writers, in the order in which they get each line.
    pub closed spec fn writers(self) -> Seq<Box<dyn LogWriter>> {
        self.writers@
    }

    pub fn new(writers: Vec<Box<dyn LogWriter>>) -> (r: Self)
        ensures
            r.writers() == writers@,
    {
        Self { writers }
    }
}

impl LogWriter for MultiWriter {
    /// Writes `msg` to each writer, in order.
    fn write(&self, msg: &str)
        ensures
            wrote_to_each(self.writers(), msg),
    {
        write_to_each(&self.writers, msg);
    }

    /// Flushes each writer, in order.
    fn flush(&self)
        ensures
            flushed_each(self.writers()),
    {
        flush_each(&self.writers);
    }
}

/// Appends the single destinations of `target` to `out`.
fn collect_leaf_targets(target: &Target, out: &mut Vec<Target>)
    ensures
        target_views(final(out)@) == target_views(old(out)@) + leaf_targets(target@),
    decreases target,
{
    match target {
        Target::Multi(list) => {
            let ghost start = target_views(out@);
            let n = list.len();
            proof {
                assert(list@.take(0) =~= Seq::<Target>::empty());
                assert(target_views(Seq::<Target>::empty()) =~= Seq::empty());
                assert(start + leaf_targets_of_list(Seq::empty()) =~= start);
            }
            for i in 0..n
                invariant
                    *target == Target::Multi(*list),
                    n == list@.len(),
                    target_views(out@) == start + leaf_targets_of_list(
                        target_views(list@.take(i as int)),
                    ),
            {
                proof {
                    assert(decreases_to!(*target => (*target)->Multi_0));
                    assert(decreases_to!(*list => list[i as int]));
                    assert(decreases_to!(*target => list[i as int]));
                    lemma_target_views_len(list@.take(i + 1));
                    assert(list@.take(i + 1).drop_last() =~= list@.take(i as int));
                }
                collect_leaf_targets(&list[i], out);
                proof {
                    let views = target_views(list@.take(i + 1));
                    assert(views.drop_last() == target_views(list@.take(i as int)));
                    assert(views.last() == list[i as int]@);
                    assert(target_views(out@) =~= start + leaf_targets_of_list(views));
                }
            }
            assert(list@.take(n as int) =~= list@);
        },
        _ => {
            let ghost before = out@;
            out.push(target.clone());
            proof {
                assert(out@.drop_last() =~= before);
                assert(target_views(out@) =~= target_views(before) + leaf_targets(target@));
            }
        },
    }
}

/// The single destinations of `target`, in the order in which they get each
/// line: the writers that a writer for `target` writes to.
pub fn writer_targets(target: &Target) -> (r: Vec<Target>)
    ensures
        target_views(r@) == leaf_targets(target@),
{
    let mut out: Vec<Target> = Vec::new();
    collect_leaf_targets(target, &mut out);
    proof {
        assert(target_views(Seq::<Target>::empty()) =~= Seq::empty());
        assert(Seq::<crate::target::TargetView>::empty() + leaf_targets(target@) =~= leaf_targets(target@));
    }
    out
}

} // verus!
