//! Level-order search: the tree is walked one level at a time over two
//! explicit frontiers, so that no call stack grows with the depth of the
//! tree.

use crate::value::{Json, Value};
use vstd::prelude::*;

verus! {

/// The nodes directly below `tree`, in order.
spec fn children(tree: Json) -> Seq<Json> {
    match tree {
        Json::Array(items) => items,
        Json::Object(entries) => Seq::new(entries.len(), |i: int| entries[i].1),
        _ => Seq::empty(),
    }
}

/// The number of levels below the root of `tree`.
spec fn height(tree: Json) -> nat
    decreases tree, children(tree).len() + 1,
{
    height_among(tree, children(tree).len())
}

/// One more than the greatest height among the first `n` children of `tree`,
/// or zero where `n` is zero.
spec fn height_among(tree: Json, n: nat) -> nat
    decreases tree, n,
{
    if n == 0 || n > children(tree).len() {
        0
    } else {
        let rest = height_among(tree, (n - 1) as nat);
        let child = height(children(tree)[n - 1]) + 1;
        if child > rest {
            child
        } else {
            rest
        }
    }
}

proof fn lemma_height_among(tree: Json, n: nat, i: int)
    requires
        0 <= i < n <= children(tree).len(),
    ensures
        height(children(tree)[i]) < height_among(tree, n),
    decreases n,
{
    if i < n - 1 {
        lemma_height_among(tree, (n - 1) as nat, i);
    }
}

/// A child is lower than its parent.
proof fn lemma_child_is_lower(tree: Json, i: int)
    requires
        0 <= i < children(tree).len(),
    ensures
        height(children(tree)[i]) < height(tree),
{
    lemma_height_among(tree, children(tree).len(), i);
}

/// Whether `target` occurs in one of the trees of `frontier`.
spec fn occurs_among(frontier: Seq<&Value>, target: Json) -> bool {
    exists|i: int| 0 <= i < frontier.len() && (#[trigger] frontier[i])@.occurs(target)
}

/// Whether every tree of `frontier` has fewer than `bound` levels below its
/// root.
spec fn all_lower(frontier: Seq<&Value>, bound: nat) -> bool {
    forall|i: int| 0 <= i < frontier.len() ==> height((#[trigger] frontier[i])@) < bound
}

/// The values of the entries of an object, in order.
spec fn values_of(entries: Seq<(String, Value)>) -> Seq<Value> {
    Seq::new(entries.len(), |i: int| entries[i].1)
}

/// Whether the frontier `after` is the frontier `before` with the trees of
/// `added` behind it, in order.
spec fn queued_behind(after: Seq<&Value>, before: Seq<&Value>, added: Seq<Value>) -> bool {
    &&& after.len() == before.len() + added.len()
    &&& forall|i: int| 0 <= i < before.len() ==> after[i] == before[i]
    &&& forall|i: int| 0 <= i < added.len() ==> *after[before.len() + i] == added[i]
}

/// Puts every item of an array into the next frontier.
fn enqueue_items<'a>(items: &'a Vec<Value>, next_level_nodes: &mut Vec<&'a Value>)
    ensures
        queued_behind(final(next_level_nodes)@, old(next_level_nodes)@, items@),
{
    let mut index: usize = 0;
    while index < items.len()
        invariant
            index <= items@.len(),
            queued_behind(next_level_nodes@, old(next_level_nodes)@, items@.take(index as int)),
        decreases items@.len() - index,
    {
        next_level_nodes.push(&items[index]);
        index += 1;
    }
    assert(items@.take(index as int) == items@);
}

/// Looks at the entries of an object in order: stops at the first key that is
/// the value looked for, and puts the value of every other entry into the
/// next frontier.
fn enqueue_entries<'a>(
    entries: &'a Vec<(String, Value)>,
    value_to_find: &Value,
    next_level_nodes: &mut Vec<&'a Value>,
) -> (key_found: bool)
    ensures
        key_found == exists|i: int|
            0 <= i < entries@.len() && value_to_find@ == Json::String((#[trigger] entries@[i]).0@),
        !key_found ==> queued_behind(
            final(next_level_nodes)@,
            old(next_level_nodes)@,
            values_of(entries@),
        ),
{
    let mut index: usize = 0;
    while index < entries.len()
        invariant
            index <= entries@.len(),
            forall|i: int|
                0 <= i < index ==> value_to_find@ != Json::String((#[trigger] entries@[i]).0@),
            queued_behind(
                next_level_nodes@,
                old(next_level_nodes)@,
                values_of(entries@).take(index as int),
            ),
        decreases entries@.len() - index,
    {
        let entry = &entries[index];
        if value_to_find.is_key(&entry.0) {
            return true;
        } else {
            next_level_nodes.push(&entry.1);
        }
        index += 1;
    }
    assert(values_of(entries@).take(index as int) == values_of(entries@));
    false
}

/// Whether `value_to_find` occurs in the tree under `root`: as a scalar node,
/// the root included, or as the key of an entry of an object.
///
/// The tree is walked level by level and the walk stops at the first match.
pub fn run(root: &Value, value_to_find: &Value) -> (found: bool)
    ensures
        found == root@.occurs(value_to_find@),
{
    let mut current_nodes: Vec<&Value> = Vec::new();
    let mut next_level_nodes: Vec<&Value> = Vec::new();
    next_level_nodes.push(root);
    let ghost mut levels_left: nat = height(root@) + 1;
    assert(next_level_nodes@[0] == root);

    while !next_level_nodes.is_empty()
        invariant
            root@.occurs(value_to_find@) == occurs_among(next_level_nodes@, value_to_find@),
            all_lower(next_level_nodes@, levels_left),
        decreases levels_left,
    {
        current_nodes = next_level_nodes;
        next_level_nodes = Vec::new();
        proof {
            assert(height(current_nodes@[0]@) < levels_left);
            levels_left = (levels_left - 1) as nat;
        }

        while current_nodes.len() > 0
            invariant
                root@.occurs(value_to_find@) == (occurs_among(current_nodes@, value_to_find@)
                    || occurs_among(next_level_nodes@, value_to_find@)),
                all_lower(current_nodes@, levels_left + 1),
                all_lower(next_level_nodes@, levels_left),
            decreases current_nodes@.len(),
        {
            let ghost level = current_nodes@;
            let ghost queued = next_level_nodes@;
            let current_node = current_nodes.pop().unwrap();
            proof {
                lemma_last_taken(level, value_to_find@);
            }
            match current_node {
                Value::Array(items) => {
                    enqueue_items(items, &mut next_level_nodes);
                    proof {
                        lemma_children_enqueued(
                            current_node,
                            queued,
                            next_level_nodes@,
                            value_to_find@,
                            levels_left,
                        );
                    }
                },
                Value::Object(entries) => {
                    if enqueue_entries(entries, value_to_find, &mut next_level_nodes) {
                        proof {
                            lemma_key_occurs(current_node, value_to_find@);
                        }
                        return true;
                    }
                    proof {
                        lemma_children_enqueued(
                            current_node,
                            queued,
                            next_level_nodes@,
                            value_to_find@,
                            levels_left,
                        );
                    }
                },
                other => {
                    if other.scalar_equals(value_to_find) {
                        return true;
                    }
                },
            }
        }
    }

    false
}

/// A match in a frontier is a match in its last tree or in the trees before
/// it, and the trees before it are as low as the frontier.
proof fn lemma_last_taken(frontier: Seq<&Value>, target: Json)
    requires
        frontier.len() > 0,
    ensures
        occurs_among(frontier, target) == (frontier.last()@.occurs(target) || occurs_among(
            frontier.subrange(0, frontier.len() - 1),
            target,
        )),
        forall|bound: nat|
            all_lower(frontier, bound) ==> #[trigger] all_lower(
                frontier.subrange(0, frontier.len() - 1),
                bound,
            ),
{
    let front = frontier.subrange(0, frontier.len() - 1);
    if occurs_among(frontier, target) {
        let i = choose|i: int| 0 <= i < frontier.len() && (#[trigger] frontier[i])@.occurs(target);
        if i < front.len() {
            assert(front[i]@.occurs(target));
        }
    }
    if occurs_among(front, target) {
        let i = choose|i: int| 0 <= i < front.len() && (#[trigger] front[i])@.occurs(target);
        assert(frontier[i]@.occurs(target));
    }
    assert forall|bound: nat| all_lower(frontier, bound) implies #[trigger] all_lower(
        front,
        bound,
    ) by {
        assert forall|i: int| 0 <= i < front.len() implies height((#[trigger] front[i])@)
            < bound by {
            assert(front[i] == frontier[i]);
        }
    }
}

/// A key of an object occurs in it.
proof fn lemma_key_occurs(node: &Value, target: Json)
    requires
        node matches Value::Object(entries) && exists|i: int|
            0 <= i < entries@.len() && target == Json::String((#[trigger] entries@[i]).0@),
    ensures
        node@.occurs(target),
{
    let entries = node->Object_0;
    let below = node@->Object_0;
    let i = choose|i: int|
        0 <= i < entries@.len() && target == Json::String((#[trigger] entries@[i]).0@);
    assert(Json::String(below[i].0) == target);
}

/// The trees directly below a container, as the search queues them.
spec fn queued_of(node: &Value) -> Seq<Value> {
    match node {
        Value::Array(items) => items@,
        Value::Object(entries) => values_of(entries@),
        _ => Seq::empty(),
    }
}

/// What holds of the next frontier once the trees directly below a container
/// stand behind what was queued before. Of an object, none of the keys is the
/// target.
proof fn lemma_children_enqueued(
    node: &Value,
    queued: Seq<&Value>,
    next: Seq<&Value>,
    target: Json,
    bound: nat,
)
    requires
        node is Array || node is Object,
        node matches Value::Object(entries) ==> forall|i: int|
            0 <= i < entries@.len() ==> target != Json::String((#[trigger] entries@[i]).0@),
        queued_behind(next, queued, queued_of(node)),
        height(node@) < bound + 1,
        all_lower(queued, bound),
    ensures
        occurs_among(next, target) == (occurs_among(queued, target) || node@.occurs(target)),
        all_lower(next, bound),
{
    let added = queued_of(node);
    let below = children(node@);
    assert(below.len() == added.len());
    assert forall|k: int| 0 <= k < added.len() implies below[k] == added[k]@ by {}
    assert(node@.occurs(target) == exists|k: int|
        0 <= k < added.len() && (#[trigger] added[k])@.occurs(target)) by {
        match node {
            Value::Array(items) => {
                let models = node@->Array_0;
                if node@.occurs(target) {
                    let k = choose|k: int|
                        0 <= k < models.len() && (#[trigger] models[k]).occurs(target);
                    assert(added[k]@.occurs(target));
                }
                if exists|k: int| 0 <= k < added.len() && (#[trigger] added[k])@.occurs(target) {
                    let k = choose|k: int|
                        0 <= k < added.len() && (#[trigger] added[k])@.occurs(target);
                    assert(models[k].occurs(target));
                }
            },
            Value::Object(entries) => {
                let models = node@->Object_0;
                if node@.occurs(target) {
                    let k = choose|k: int|
                        0 <= k < models.len() && (Json::String((#[trigger] models[k]).0) == target
                            || models[k].1.occurs(target));
                    assert(models[k].0 == entries@[k].0@);
                    assert(added[k]@.occurs(target));
                }
                if exists|k: int| 0 <= k < added.len() && (#[trigger] added[k])@.occurs(target) {
                    let k = choose|k: int|
                        0 <= k < added.len() && (#[trigger] added[k])@.occurs(target);
                    assert(models[k].1.occurs(target));
                }
            },
            _ => {},
        }
    }
    assert forall|i: int| 0 <= i < next.len() implies height((#[trigger] next[i])@) < bound by {
        if i < queued.len() {
            assert(next[i] == queued[i]);
        } else {
            let k = i - queued.len();
            assert(*next[queued.len() + k] == added[k]);
            lemma_child_is_lower(node@, k);
        }
    }
    if occurs_among(next, target) {
        let i = choose|i: int| 0 <= i < next.len() && (#[trigger] next[i])@.occurs(target);
        if i < queued.len() {
            assert(queued[i]@.occurs(target));
        } else {
            let k = i - queued.len();
            assert(*next[queued.len() + k] == added[k]);
            assert(added[k]@.occurs(target));
        }
    }
    if occurs_among(queued, target) {
        let i = choose|i: int| 0 <= i < queued.len() && (#[trigger] queued[i])@.occurs(target);
        assert(next[i]@.occurs(target));
    }
    if node@.occurs(target) {
        let k = choose|k: int| 0 <= k < added.len() && (#[trigger] added[k])@.occurs(target);
        assert(*next[queued.len() + k] == added[k]);
        assert(next[queued.len() + k]@.occurs(target));
    }
}

} // verus!
