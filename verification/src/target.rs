use vstd::prelude::*;

verus! {

broadcast use vstd::std_specs::vec::group_vec_axioms;

/// Where log lines go.
#[derive(Debug)]
pub enum Target {
    /// Standard output.
    Stdout,
    /// Standard error.
    Stderr,
    /// A file, by its path; lines are appended.
    File(String),
    /// Every target of the list, in order.
    Multi(Vec<Target>),
}

/// The mathematical value of a `Target`.
pub enum TargetView {
    Stdout,
    Stderr,
    File(Seq<char>),
    Multi(Seq<TargetView>),
}

/// The value of a target.
pub open spec fn target_view(target: Target) -> TargetView
    decreases target,
{
    match target {
        Target::Stdout => TargetView::Stdout,
        Target::Stderr => TargetView::Stderr,
        Target::File(path) => TargetView::File(path@),
        Target::Multi(list) => TargetView::Multi(target_views(list@)),
    }
}

/// The values of the targets of a list, in order.
pub open spec fn target_views(list: Seq<Target>) -> Seq<TargetView>
    decreases list,
{
    if list.len() == 0 {
        Seq::empty()
    } else {
        target_views(list.drop_last()).push(target_view(list.last()))
    }
}

impl View for Target {
    type V = TargetView;

    open spec fn view(&self) -> TargetView {
        target_view(*self)
    }
}

/// The single destinations that a target writes to, in the order in which
/// they receive each line: `Multi` lists are flattened, depth first.
pub open spec fn leaf_targets(target: TargetView) -> Seq<TargetView>
    decreases target,
{
    match target {
        TargetView::Multi(list) => leaf_targets_of_list(list),
        _ => seq![target],
    }
}

/// The single destinations of each target of `list`, one list after the other.
pub open spec fn leaf_targets_of_list(list: Seq<TargetView>) -> Seq<TargetView>
    decreases list,
{
    if list.len() == 0 {
        Seq::empty()
    } else {
        leaf_targets_of_list(list.drop_last()) + leaf_targets(list.last())
    }
}

/// The destinations that a target resolves to are single ones: none is a list.
pub proof fn lemma_leaf_targets_are_single(target: TargetView)
    ensures
        forall|i: int| 0 <= i < leaf_targets(target).len() ==> !(#[trigger] leaf_targets(target)[i] is Multi),
    decreases target,
{
    if let TargetView::Multi(list) = target {
        lemma_leaf_targets_of_list_are_single(list);
    }
}

/// The destinations of a list of targets are single ones.
pub proof fn lemma_leaf_targets_of_list_are_single(list: Seq<TargetView>)
    ensures
        forall|i: int|
            0 <= i < leaf_targets_of_list(list).len() ==> !(#[trigger] leaf_targets_of_list(list)[i] is Multi),
    decreases list,
{
    if list.len() > 0 {
        lemma_leaf_targets_of_list_are_single(list.drop_last());
        lemma_leaf_targets_are_single(list.last());
        let front = leaf_targets_of_list(list.drop_last());
        let back = leaf_targets(list.last());
        assert forall|i: int| 0 <= i < leaf_targets_of_list(list).len() implies !(#[trigger] leaf_targets_of_list(list)[i] is Multi) by {
            if i < front.len() {
                assert(leaf_targets_of_list(list)[i] == front[i]);
            } else {
                assert(leaf_targets_of_list(list)[i] == back[i - front.len()]);
            }
        }
    }
}

pub proof fn lemma_target_views_len(list: Seq<Target>)
    ensures
        target_views(list).len() == list.len(),
        forall|i: int| 0 <= i < list.len() ==> #[trigger] target_views(list)[i] == target_view(list[i]),
    decreases list.len(),
{
    if list.len() > 0 {
        lemma_target_views_len(list.drop_last());
    }
}

/// A copy of `target`, of the same value.
pub fn copy_target(target: &Target) -> (r: Target)
    ensures
        r@ == target@,
    decreases target,
{
    match target {
        Target::Stdout => Target::Stdout,
        Target::Stderr => Target::Stderr,
        Target::File(path) => Target::File(path.clone()),
        Target::Multi(list) => {
            let mut copied: Vec<Target> = Vec::new();
            let n = list.len();
            for i in 0..n
                invariant
                    *target == Target::Multi(*list),
                    n == list@.len(),
                    copied@.len() == i,
                    target_views(copied@) == target_views(list@.take(i as int)),
            {
                proof {
                    assert(decreases_to!(*target => (*target)->Multi_0));
                    assert(decreases_to!(*list => list[i as int]));
                    assert(decreases_to!(*target => list[i as int]));
                }
                let t = copy_target(&list[i]);
                let ghost before = copied@;
                copied.push(t);
                assert(copied@.drop_last() =~= before);
                assert(list@.take(i + 1).drop_last() =~= list@.take(i as int));
            }
            assert(list@.take(n as int) =~= list@);
            Target::Multi(copied)
        },
    }
}

impl Clone for Target {
    fn clone(&self) -> (r: Self)
        ensures
            r@ == self@,
    {
        copy_target(self)
    }
}

impl Default for Target {
    fn default() -> (r: Self)
        ensures
            r@ == TargetView::Stdout,
    {
        Target::Stdout
    }
}

} // verus!
