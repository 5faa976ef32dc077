//! The hierarchy of classes.

use vstd::prelude::*;

use crate::dex::DexFile;
use crate::interp::objects;
use crate::value::{ObjectId, ValueView};
use crate::world::WorldView;

verus! {

/// The class so many steps above another.
pub open spec fn ancestor(dex: &DexFile, class_name: Seq<char>, steps: nat) -> Option<Seq<char>>
    decreases steps,
{
    if steps == 0 {
        Some(class_name)
    } else {
        match ancestor(dex, class_name, (steps - 1) as nat) {
            Some(below) => dex.parent(below),
            None => None,
        }
    }
}

/// The ancestors of a class's super class are its own, one step further up.
proof fn lemma_ancestor_shift(dex: &DexFile, class_name: Seq<char>, steps: nat)
    ensures
        ancestor(dex, class_name, steps + 1) == (match dex.parent(class_name) {
            Some(parent) => ancestor(dex, parent, steps),
            None => None,
        }),
    decreases steps,
{
    if steps > 0 {
        lemma_ancestor_shift(dex, class_name, (steps - 1) as nat);
    } else {
        assert(ancestor(dex, class_name, 0) == Some(class_name));
        assert(ancestor(dex, class_name, 1) == dex.parent(class_name));
    }
}

proof fn lemma_ancestors_compose(dex: &DexFile, class_name: Seq<char>, i: nat, j: nat)
    ensures
        ancestor(dex, class_name, i + j) == (match ancestor(dex, class_name, i) {
            Some(middle) => ancestor(dex, middle, j),
            None => None,
        }),
    decreases j,
{
    if j > 0 {
        lemma_ancestors_compose(dex, class_name, i, (j - 1) as nat);
        assert(i + (j - 1) as nat == (i + j - 1) as nat);
    }
}

/// A class descends from those that are its ancestors within so many steps.
proof fn lemma_descends(dex: &DexFile, actual: Seq<char>, expected: Seq<char>, fuel: nat)
    ensures
        dex.descends(actual, expected, fuel) <==> exists|k: nat|
            k <= fuel && #[trigger] ancestor(dex, actual, k) == Some(expected),
    decreases fuel,
{
    if actual == expected {
        assert(ancestor(dex, actual, 0) == Some(expected));
    } else {
        if fuel > 0 {
            match dex.parent(actual) {
                Some(parent) => {
                    lemma_descends(dex, parent, expected, (fuel - 1) as nat);
                    if dex.descends(parent, expected, (fuel - 1) as nat) {
                        let k = choose|k: nat|
                            k <= fuel - 1 && #[trigger] ancestor(dex, parent, k) == Some(expected);
                        lemma_ancestor_shift(dex, actual, k);
                        assert(ancestor(dex, actual, k + 1) == Some(expected));
                    }
                },
                None => {},
            }
        }
        if exists|k: nat| k <= fuel && #[trigger] ancestor(dex, actual, k) == Some(expected) {
            let k = choose|k: nat|
                k <= fuel && #[trigger] ancestor(dex, actual, k) == Some(expected);
            assert(k > 0);
            lemma_ancestor_shift(dex, actual, (k - 1) as nat);
            let parent = dex.parent(actual)->0;
            assert(ancestor(dex, parent, (k - 1) as nat) == Some(expected));
            assert(dex.descends(parent, expected, (fuel - 1) as nat));
        }
    }
}

proof fn lemma_definition(dex: &DexFile, name: Seq<char>, from: nat)
    ensures
        dex.definition(name, from) matches Some(i) ==> i < dex.classes.len()
            && dex.classes[i as int].name@ == name,
    decreases dex.classes.len() - from,
{
    if from < dex.classes.len() && dex.classes[from as int].name@ != name {
        lemma_definition(dex, name, from + 1);
    }
}

/// Where the classes from a class on upwards are defined.
spec fn places(dex: &DexFile, class_name: Seq<char>, count: nat) -> Seq<int> {
    Seq::new(
        count,
        |i: int| dex.definition(ancestor(dex, class_name, i as nat)->0, 0)->0 as int,
    )
}

/// A walk that is longer than the number of classes comes to a class twice.
proof fn lemma_repeats(dex: &DexFile, class_name: Seq<char>, count: nat) -> (r: (nat, nat))
    requires
        count > dex.classes.len(),
        ancestor(dex, class_name, count) is Some,
    ensures
        r.0 < r.1 < count,
        ancestor(dex, class_name, r.0) == ancestor(dex, class_name, r.1),
{
    let all = places(dex, class_name, count);
    assert forall|i: int| 0 <= i < count implies ancestor(dex, class_name, i as nat) is Some && 0
        <= #[trigger] all[i] < dex.classes.len() && dex.classes[all[i]].name@ == ancestor(
        dex,
        class_name,
        i as nat,
    )->0 by {
        lemma_all_some(dex, class_name, i as nat + 1, count);
        lemma_definition(dex, ancestor(dex, class_name, i as nat)->0, 0);
    }
    if all.no_duplicates() {
        all.unique_seq_to_set();
        let range = vstd::set_lib::set_int_range(0, dex.classes.len() as int);
        vstd::set_lib::lemma_int_range(0, dex.classes.len() as int);
        assert(all.to_set().subset_of(range)) by {
            assert forall|x: int| all.to_set().contains(x) implies range.contains(x) by {
                let i = choose|i: int| 0 <= i < all.len() && all[i] == x;
            }
        }
        vstd::set_lib::lemma_len_subset(all.to_set(), range);
        assert(false);
    }
    let (i, j) = choose|i: int, j: int|
        0 <= i < all.len() && 0 <= j < all.len() && i != j && all[i] == all[j];
    if i < j {
        (i as nat, j as nat)
    } else {
        (j as nat, i as nat)
    }
}

proof fn lemma_all_some(dex: &DexFile, class_name: Seq<char>, i: nat, count: nat)
    requires
        i <= count,
        ancestor(dex, class_name, count) is Some,
    ensures
        ancestor(dex, class_name, i) is Some,
    decreases count - i,
{
    if i < count {
        lemma_all_some(dex, class_name, i + 1, count);
    }
}

/// What is an ancestor at all is one within the number of classes.
proof fn lemma_short(dex: &DexFile, class_name: Seq<char>, above: Seq<char>, steps: nat)
    requires
        ancestor(dex, class_name, steps) == Some(above),
    ensures
        exists|k: nat|
            k <= dex.classes.len() && #[trigger] ancestor(dex, class_name, k) == Some(above),
    decreases steps,
{
    if steps > dex.classes.len() {
        let (i, j) = lemma_repeats(dex, class_name, steps);
        lemma_ancestors_compose(dex, class_name, j, (steps - j) as nat);
        lemma_ancestors_compose(dex, class_name, i, (steps - j) as nat);
        lemma_all_some(dex, class_name, i, steps);
        assert(ancestor(dex, class_name, (i + (steps - j)) as nat) == Some(above));
        lemma_short(dex, class_name, above, (i + (steps - j)) as nat);
    }
}

/// Every class can be used as itself, and as its super class.
pub proof fn a_class_is_assignable_to_its_super_class(
    dex: &DexFile,
    class_name: Seq<char>,
    parent: Seq<char>,
)
    ensures
        dex.descends(class_name, class_name, dex.height()),
        dex.parent(class_name) == Some(parent) ==> dex.descends(
            class_name,
            parent,
            dex.height(),
        ),
{
    lemma_descends(dex, class_name, parent, dex.height());
    if dex.parent(class_name) == Some(parent) {
        assert(ancestor(dex, class_name, 0) == Some(class_name));
        assert(ancestor(dex, class_name, 1) == Some(parent));
    }
}

/// What can be used as a class can be used as whatever that class can, however the classes
/// refer to each other.
pub proof fn assignability_is_transitive(
    dex: &DexFile,
    a: Seq<char>,
    b: Seq<char>,
    c: Seq<char>,
)
    requires
        dex.descends(a, b, dex.height()),
        dex.descends(b, c, dex.height()),
    ensures
        dex.descends(a, c, dex.height()),
{
    lemma_descends(dex, a, b, dex.height());
    lemma_descends(dex, b, c, dex.height());
    lemma_descends(dex, a, c, dex.height());
    let i = choose|k: nat| k <= dex.height() && #[trigger] ancestor(dex, a, k) == Some(b);
    let j = choose|k: nat| k <= dex.height() && #[trigger] ancestor(dex, b, k) == Some(c);
    lemma_ancestors_compose(dex, a, i, j);
    lemma_short(dex, a, c, i + j);
}

/// An object is an instance of its own class.
pub proof fn an_object_is_an_instance_of_its_class(
    dex: &DexFile,
    w: WorldView,
    id: ObjectId,
)
    requires
        w.class_of(id) is Some,
    ensures
        objects::is_instance(dex, w, ValueView::Object(id), w.class_of(id)),
{
}

} // verus!
