//! What the search finds, stated over the nodes of the tree: a value occurs
//! in a tree exactly when some node of the tree matches it.

use crate::value::{Json, Value};
use vstd::prelude::*;

verus! {

proof fn lemma_scalar_node_occurs(root: Json, target: Json)
    requires
        target.is_scalar(),
        root.has_node(target),
    ensures
        root.occurs(target),
    decreases root,
{
    if root != target {
        match root {
            Json::Array(items) => {
                let i = choose|i: int|
                    0 <= i < items.len() && (#[trigger] items[i]).has_node(target);
                lemma_scalar_node_occurs(items[i], target);
            },
            Json::Object(entries) => {
                let i = choose|i: int|
                    0 <= i < entries.len() && (#[trigger] entries[i]).1.has_node(target);
                lemma_scalar_node_occurs(entries[i].1, target);
            },
            _ => {},
        }
    }
}

proof fn lemma_key_occurs(root: Json, node: Json, key: Seq<char>)
    requires
        root.has_node(node),
        node.has_key(key),
    ensures
        root.occurs(Json::String(key)),
    decreases root,
{
    if root == node {
        let entries = root->Object_0;
        let i = choose|i: int| 0 <= i < entries.len() && (#[trigger] entries[i]).0 == key;
        assert(Json::String(entries[i].0) == Json::String(key));
    } else {
        match root {
            Json::Array(items) => {
                let i = choose|i: int| 0 <= i < items.len() && (#[trigger] items[i]).has_node(node);
                lemma_key_occurs(items[i], node, key);
            },
            Json::Object(entries) => {
                let i = choose|i: int|
                    0 <= i < entries.len() && (#[trigger] entries[i]).1.has_node(node);
                lemma_key_occurs(entries[i].1, node, key);
            },
            _ => {},
        }
    }
}

proof fn lemma_matching_node(root: Json, target: Json) -> (node: Json)
    requires
        root.occurs(target),
    ensures
        root.has_node(node),
        node.matches_here(target),
    decreases root,
{
    match root {
        Json::Array(items) => {
            let i = choose|i: int| 0 <= i < items.len() && (#[trigger] items[i]).occurs(target);
            lemma_matching_node(items[i], target)
        },
        Json::Object(entries) => {
            let i = choose|i: int|
                0 <= i < entries.len() && (Json::String((#[trigger] entries[i]).0) == target
                    || entries[i].1.occurs(target));
            if Json::String(entries[i].0) == target {
                root
            } else {
                lemma_matching_node(entries[i].1, target)
            }
        },
        _ => root,
    }
}

/// A scalar that is a node of the tree is found, whether it is the root or
/// lies below it.
pub proof fn scalar_node_is_found(root: Value, target: Value)
    requires
        target@.is_scalar(),
        root@.has_node(target@),
    ensures
        root@.occurs(target@),
{
    lemma_scalar_node_occurs(root@, target@);
}

/// A string that is a key of an object of the tree is found.
pub proof fn key_is_found(root: Value, node: Json, target: Value)
    requires
        root@.has_node(node),
        target@ matches Json::String(key) && node.has_key(key),
    ensures
        root@.occurs(target@),
{
    lemma_key_occurs(root@, node, target@->String_0);
}

/// Where no node of the tree matches the target, neither as a scalar nor by
/// one of its keys, the target is not found.
pub proof fn unmatched_is_not_found(root: Value, target: Value)
    requires
        forall|node: Json| #[trigger] root@.has_node(node) ==> !node.matches_here(target@),
    ensures
        !root@.occurs(target@),
{
    if root@.occurs(target@) {
        let node = lemma_matching_node(root@, target@);
        assert(root@.has_node(node));
    }
}

/// A number is found only as a number: no string and no key matches it,
/// whatever its text.
pub proof fn number_is_found_as_number_only(root: Value, target: Value)
    requires
        target@ is Number,
    ensures
        root@.occurs(target@) <==> root@.has_node(target@),
{
    if root@.occurs(target@) {
        let node = lemma_matching_node(root@, target@);
    }
    if root@.has_node(target@) {
        lemma_scalar_node_occurs(root@, target@);
    }
}

/// A string is found only as a string node or as a key: no number, boolean
/// or null matches it.
pub proof fn string_is_found_as_text_only(root: Value, target: Value)
    requires
        target@ is String,
    ensures
        root@.occurs(target@) <==> (root@.has_node(target@) || exists|node: Json|
            #[trigger] root@.has_node(node) && node.has_key(target@->String_0)),
{
    if root@.occurs(target@) {
        let node = lemma_matching_node(root@, target@);
        assert(root@.has_node(node));
    }
    if root@.has_node(target@) {
        lemma_scalar_node_occurs(root@, target@);
    }
    if exists|node: Json| #[trigger] root@.has_node(node) && node.has_key(target@->String_0) {
        let node = choose|node: Json|
            #[trigger] root@.has_node(node) && node.has_key(target@->String_0);
        lemma_key_occurs(root@, node, target@->String_0);
    }
}

/// Nothing is found in an empty array or in an empty object.
pub proof fn nothing_is_found_in_empty(root: Value, target: Value)
    requires
        root@ == Json::Array(Seq::empty()) || root@ == Json::Object(Seq::empty()),
    ensures
        !root@.occurs(target@),
{
}

/// In a tree that is a single scalar, exactly that scalar is found.
pub proof fn scalar_root_is_compared(root: Value, target: Value)
    requires
        root@.is_scalar(),
    ensures
        root@.occurs(target@) <==> root@ == target@,
{
}

} // verus!
