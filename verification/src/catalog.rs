//! The catalogue of categories that a club can be filed under.
//!
//! The store keeps categories as rows of a number and a name. A club's edit
//! form names categories; the store's links hold their numbers. This module
//! turns the one into the other and refuses what the catalogue does not hold.

use vstd::prelude::*;

verus! {

/// One category of the catalogue.
#[derive(Clone, Debug)]
pub struct Category {
    /// The store's number for the category.
    pub id: i32,
    /// The name that the category is shown and chosen by.
    pub category_name: String,
}

/// The texts of a sequence of strings.
pub open spec fn texts(names: Seq<String>) -> Seq<Seq<char>> {
    Seq::new(names.len(), |i: int| names[i]@)
}

/// The number that the catalogue gives the name `name`: that of the last
/// row with the name, or `None` where no row has it.
pub open spec fn id_of(all: Seq<Category>, name: Seq<char>) -> Option<i32>
    decreases all.len(),
{
    if all.len() == 0 {
        None
    } else if all.last().category_name@ == name {
        Some(all.last().id)
    } else {
        id_of(all.drop_last(), name)
    }
}

/// The name that the catalogue gives the number `id`: that of the last row
/// with the number, or `None` where no row has it.
pub open spec fn name_of(all: Seq<Category>, id: i32) -> Option<Seq<char>>
    decreases all.len(),
{
    if all.len() == 0 {
        None
    } else if all.last().id == id {
        Some(all.last().category_name@)
    } else {
        name_of(all.drop_last(), id)
    }
}

/// `names` with every repetition of a name left out: each name stands once,
/// where it first occurred.
pub open spec fn without_repeats(names: Seq<Seq<char>>) -> Seq<Seq<char>>
    decreases names.len(),
{
    if names.len() == 0 {
        Seq::empty()
    } else {
        let before = without_repeats(names.drop_last());
        if before.contains(names.last()) {
            before
        } else {
            before.push(names.last())
        }
    }
}

/// Whether the catalogue holds every one of `names`.
pub open spec fn all_named(all: Seq<Category>, names: Seq<Seq<char>>) -> bool {
    forall|i: int| 0 <= i < names.len() ==> (#[trigger] id_of(all, names[i])) is Some
}

/// Whether the catalogue holds every one of `ids`.
pub open spec fn all_numbered(all: Seq<Category>, ids: Seq<i32>) -> bool {
    forall|i: int| 0 <= i < ids.len() ==> (#[trigger] name_of(all, ids[i])) is Some
}

/// Looks a name up in the catalogue.
pub fn find_id(all: &Vec<Category>, name: &String) -> (r: Option<i32>)
    ensures
        r == id_of(all@, name@),
{
    let mut i: usize = all.len();
    assert(all@.take(all@.len() as int) =~= all@);
    while i > 0
        invariant
            i <= all@.len(),
            id_of(all@, name@) == id_of(all@.take(i as int), name@),
        decreases i,
    {
        proof {
            let front = all@.take(i as int);
            assert(front.last() == all@[i - 1]);
            assert(front.drop_last() =~= all@.take(i - 1));
        }
        if all[i - 1].category_name == *name {
            return Some(all[i - 1].id);
        }
        i -= 1;
    }
    None
}

/// Looks a number up in the catalogue.
pub fn find_name(all: &Vec<Category>, id: i32) -> (r: Option<String>)
    ensures
        match name_of(all@, id) {
            Some(name) => r matches Some(s) && s@ == name,
            None => r is None,
        },
{
    let mut i: usize = all.len();
    assert(all@.take(all@.len() as int) =~= all@);
    while i > 0
        invariant
            i <= all@.len(),
            name_of(all@, id) == name_of(all@.take(i as int), id),
        decreases i,
    {
        proof {
            let front = all@.take(i as int);
            assert(front.last() == all@[i - 1]);
            assert(front.drop_last() =~= all@.take(i - 1));
        }
        if all[i - 1].id == id {
            return Some(all[i - 1].category_name.clone());
        }
        i -= 1;
    }
    None
}

/// Names the categories that a club is filed under: `ids` are the numbers
/// that the store's links hold.
///
/// Where the catalogue holds every number, the result is the names in the
/// order of the numbers. Where it lacks one, the store contradicts itself
/// and the result is `None`.
pub fn category_names(all: &Vec<Category>, ids: &Vec<i32>) -> (r: Option<Vec<String>>)
    ensures
        r is Some <==> all_numbered(all@, ids@),
        r matches Some(names) ==> {
            &&& names@.len() == ids@.len()
            &&& forall|i: int|
                0 <= i < ids@.len() ==> name_of(all@, ids@[i]) == Some(#[trigger] names@[i]@)
        },
{
    let mut names: Vec<String> = Vec::new();
    let mut i: usize = 0;
    while i < ids.len()
        invariant
            i <= ids@.len(),
            names@.len() == i,
            forall|j: int| 0 <= j < i ==> name_of(all@, ids@[j]) == Some(#[trigger] names@[j]@),
        decreases ids@.len() - i,
    {
        match find_name(all, ids[i]) {
            None => {
                assert(name_of(all@, ids@[i as int]) is None);
                return None;
            },
            Some(name) => {
                names.push(name);
            },
        }
        i += 1;
    }
    assert forall|j: int| 0 <= j < ids@.len() implies (#[trigger] name_of(
        all@,
        ids@[j],
    )) is Some by {
        assert(name_of(all@, ids@[j]) == Some(names@[j]@));
    }
    Some(names)
}

fn holds_name(seen: &Vec<String>, name: &String) -> (r: bool)
    ensures
        r == texts(seen@).contains(name@),
{
    let mut i: usize = 0;
    while i < seen.len()
        invariant
            i <= seen@.len(),
            forall|j: int| 0 <= j < i ==> texts(seen@)[j] != name@,
        decreases seen@.len() - i,
    {
        if seen[i] == *name {
            assert(texts(seen@)[i as int] == name@);
            return true;
        }
        i += 1;
    }
    false
}

/// Leaves out every repetition of a name: each name stays once, where it
/// first occurred.
pub fn dedup_names(names: Vec<String>) -> (r: Vec<String>)
    ensures
        texts(r@) == without_repeats(texts(names@)),
{
    let mut kept: Vec<String> = Vec::new();
    let mut i: usize = 0;
    assert(texts(names@).take(0) =~= Seq::<Seq<char>>::empty());
    assert(texts(kept@) =~= Seq::<Seq<char>>::empty());
    while i < names.len()
        invariant
            i <= names@.len(),
            texts(kept@) == without_repeats(texts(names@).take(i as int)),
        decreases names@.len() - i,
    {
        proof {
            let upto = texts(names@).take(i + 1);
            assert(upto.last() == names@[i as int]@);
            assert(upto.drop_last() =~= texts(names@).take(i as int));
        }
        if !holds_name(&kept, &names[i]) {
            let ghost before = kept@;
            let name = names[i].clone();
            kept.push(name);
            assert(texts(kept@) =~= texts(before).push(names@[i as int]@));
        }
        i += 1;
    }
    assert(texts(names@).take(names@.len() as int) =~= texts(names@));
    kept
}

/// Numbers the categories that a club asks to be filed under.
///
/// A name that is given more than once counts once. Where the catalogue
/// holds every name, the result is the numbers of the names, in the order in
/// which the names first occur. Where it lacks one, the request is refused
/// with `None`.
pub fn category_ids(all: &Vec<Category>, names: Vec<String>) -> (r: Option<Vec<i32>>)
    ensures
        r is Some <==> all_named(all@, texts(names@)),
        r matches Some(ids) ==> {
            &&& ids@.len() == without_repeats(texts(names@)).len()
            &&& forall|i: int|
                0 <= i < ids@.len() ==> id_of(all@, without_repeats(texts(names@))[i]) == Some(
                    #[trigger] ids@[i],
                )
        },
{
    let wanted = dedup_names(names);
    proof {
        lemma_without_repeats(texts(names@));
    }
    let mut ids: Vec<i32> = Vec::new();
    let mut i: usize = 0;
    while i < wanted.len()
        invariant
            i <= wanted@.len(),
            ids@.len() == i,
            texts(wanted@) == without_repeats(texts(names@)),
            forall|j: int|
                0 <= j < i ==> id_of(all@, texts(wanted@)[j]) == Some(#[trigger] ids@[j]),
        decreases wanted@.len() - i,
    {
        match find_id(all, &wanted[i]) {
            None => {
                proof {
                    lemma_without_repeats(texts(names@));
                    let missing = texts(wanted@)[i as int];
                    assert(without_repeats(texts(names@)).contains(missing));
                    assert(texts(names@).contains(missing));
                    let k = choose|k: int|
                        0 <= k < texts(names@).len() && texts(names@)[k] == missing;
                    assert(id_of(all@, texts(names@)[k]) is None);
                }
                return None;
            },
            Some(id) => {
                ids.push(id);
            },
        }
        i += 1;
    }
    assert forall|k: int| 0 <= k < texts(names@).len() implies (#[trigger] id_of(
        all@,
        texts(names@)[k],
    )) is Some by {
        let name = texts(names@)[k];
        assert(texts(names@).contains(name));
        assert(texts(wanted@).contains(name));
        let j = choose|j: int| 0 <= j < texts(wanted@).len() && texts(wanted@)[j] == name;
        assert(id_of(all@, texts(wanted@)[j]) == Some(ids@[j]));
    }
    Some(ids)
}

/// Leaving repetitions out neither adds a name nor loses one, and leaves no
/// name twice.
pub proof fn lemma_without_repeats(names: Seq<Seq<char>>)
    ensures
        forall|name: Seq<char>|
            #[trigger] without_repeats(names).contains(name) <==> names.contains(name),
        without_repeats(names).no_duplicates(),
    decreases names.len(),
{
    if names.len() > 0 {
        let front = names.drop_last();
        let before = without_repeats(front);
        let after = without_repeats(names);
        lemma_without_repeats(front);
        assert forall|name: Seq<char>| #[trigger] after.contains(name) <==> names.contains(
            name,
        ) by {
            if after.contains(name) {
                let j = choose|j: int| 0 <= j < after.len() && after[j] == name;
                if j < before.len() {
                    assert(before[j] == name);
                    assert(before.contains(name));
                    assert(front.contains(name));
                    let k = choose|k: int| 0 <= k < front.len() && front[k] == name;
                    assert(names[k] == name);
                } else {
                    assert(name == names.last());
                    assert(names[names.len() - 1] == name);
                }
            }
            if names.contains(name) {
                let k = choose|k: int| 0 <= k < names.len() && names[k] == name;
                if k < front.len() {
                    assert(front[k] == name);
                    assert(front.contains(name));
                    assert(before.contains(name));
                    let j = choose|j: int| 0 <= j < before.len() && before[j] == name;
                    assert(after[j] == name);
                } else {
                    if before.contains(name) {
                    } else {
                        assert(after[after.len() - 1] == name);
                    }
                }
            }
        }
    }
}

} // verus!
