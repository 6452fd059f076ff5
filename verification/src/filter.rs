//! The location filter: keep only locations whose name is in a
//! caller-supplied allowed set, preserving order; without a set, keep all.
use vstd::prelude::*;

use crate::dom::string_eq;
use crate::model::{Location, LocationModel};

verus! {

/// The abstract value of an allowed-name list.
pub open spec fn names_view(a: Seq<String>) -> Seq<Seq<char>> {
    a.map_values(|s: String| s@)
}

/// The abstract value of an optional allowed-name list.
pub open spec fn allowed_view(a: Option<Vec<String>>) -> Option<Seq<Seq<char>>> {
    match a {
        None => None,
        Some(v) => Some(names_view(v@)),
    }
}

/// What filtering yields: the subsequence of `ls` whose names match an
/// entry of the allowed set exactly, in order; all of `ls` without a set.
pub open spec fn filter_model(ls: Seq<LocationModel>, allowed: Option<Seq<Seq<char>>>) -> Seq<
    LocationModel,
>
    decreases ls.len(),
{
    match allowed {
        None => ls,
        Some(a) => if ls.len() == 0 {
            Seq::<LocationModel>::empty()
        } else {
            (if a.contains(ls[0].name) {
                seq![ls[0]]
            } else {
                Seq::<LocationModel>::empty()
            }) + filter_model(ls.drop_first(), allowed)
        },
    }
}

/// Filtering one more location keeps it exactly when its name is allowed.
proof fn lemma_filter_model_push(ls: Seq<LocationModel>, x: LocationModel, a: Seq<Seq<char>>)
    ensures
        filter_model(ls.push(x), Some(a)) == filter_model(ls, Some(a)) + (if a.contains(x.name) {
            seq![x]
        } else {
            Seq::<LocationModel>::empty()
        }),
    decreases ls.len(),
{
    let tail = (if a.contains(x.name) {
        seq![x]
    } else {
        Seq::<LocationModel>::empty()
    });
    if ls.len() == 0 {
        assert(ls.push(x)[0] == x);
        assert(ls.push(x).drop_first() =~= Seq::<LocationModel>::empty());
        assert(filter_model(ls.push(x), Some(a)) == tail + filter_model(
            Seq::<LocationModel>::empty(),
            Some(a),
        ));
        assert(filter_model(ls.push(x), Some(a)) =~= filter_model(ls, Some(a)) + tail);
    } else {
        assert(ls.push(x)[0] == ls[0]);
        assert(ls.push(x).drop_first() =~= ls.drop_first().push(x));
        lemma_filter_model_push(ls.drop_first(), x, a);
        assert(filter_model(ls.push(x), Some(a)) == (if a.contains(ls[0].name) {
            seq![ls[0]]
        } else {
            Seq::<LocationModel>::empty()
        }) + (filter_model(ls.drop_first(), Some(a)) + tail));
        assert(filter_model(ls.push(x), Some(a)) =~= filter_model(ls, Some(a)) + tail);
    }
}

/// Without an allowed set, filtering is the identity.
pub proof fn lemma_filter_none_identity(ls: Seq<LocationModel>)
    ensures
        filter_model(ls, None) == ls,
{
}

/// With an allowed set that matches no location name, filtering yields
/// the empty sequence.
pub proof fn lemma_filter_disjoint_empty(ls: Seq<LocationModel>, a: Seq<Seq<char>>)
    requires
        forall|i: int| 0 <= i < ls.len() ==> !a.contains(#[trigger] ls[i].name),
    ensures
        filter_model(ls, Some(a)) == Seq::<LocationModel>::empty(),
    decreases ls.len(),
{
    if ls.len() > 0 {
        assert(!a.contains(ls[0].name));
        assert(forall|i: int|
            0 <= i < ls.drop_first().len() ==> !a.contains(#[trigger] ls.drop_first()[i].name));
        lemma_filter_disjoint_empty(ls.drop_first(), a);
        assert(filter_model(ls, Some(a)) =~= Seq::<LocationModel>::empty());
    }
}

/// Filtering with an allowed set keeps exactly the locations whose name
/// the set holds, in their original order.
pub proof fn lemma_filter_is_seq_filter(ls: Seq<LocationModel>, a: Seq<Seq<char>>)
    ensures
        filter_model(ls, Some(a)) == ls.filter(|l: LocationModel| a.contains(l.name)),
    decreases ls.len(),
{
    reveal(Seq::filter);
    let pred = |l: LocationModel| a.contains(l.name);
    if ls.len() == 0 {
        assert(filter_model(ls, Some(a)) =~= ls.filter(pred));
    } else {
        let front = ls.drop_last();
        lemma_filter_is_seq_filter(front, a);
        assert(front.push(ls.last()) =~= ls);
        lemma_filter_model_push(front, ls.last(), a);
        if pred(ls.last()) {
            assert(filter_model(ls, Some(a)) =~= front.filter(pred).push(ls.last()));
        } else {
            assert(filter_model(ls, Some(a)) =~= front.filter(pred));
        }
    }
}

/// Whether `name` matches an entry of `allowed` exactly.
fn contains_name(allowed: &Vec<String>, name: &String) -> (r: bool)
    ensures
        r == names_view(allowed@).contains(name@),
{
    let mut i: usize = 0;
    while i < allowed.len()
        invariant
            i <= allowed.len(),
            forall|j: int| 0 <= j < i ==> allowed@[j]@ != name@,
        decreases allowed.len() - i,
    {
        if string_eq(&allowed[i], name) {
            assert(names_view(allowed@)[i as int] == name@);
            return true;
        }
        i = i + 1;
    }
    assert forall|j: int| 0 <= j < names_view(allowed@).len() implies names_view(allowed@)[j]
        != name@ by {
        assert(names_view(allowed@)[j] == allowed@[j]@);
    }
    false
}

/// Keep only the locations whose name is in the allowed set, in order;
/// with no set supplied, keep them all.
pub fn filter_locations(locations: Vec<Location>, allowed: &Option<Vec<String>>) -> (r: Vec<
    Location,
>)
    ensures
        r@.map_values(|l: Location| l@) == filter_model(
            locations@.map_values(|l: Location| l@),
            allowed_view(*allowed),
        ),
{
    match allowed {
        None => locations,
        Some(a) => {
            let ghost full = locations@.map_values(|l: Location| l@);
            let mut rest = locations;
            let mut kept: Vec<Location> = Vec::new();
            proof {
                assert(kept@.map_values(|l: Location| l@) =~= Seq::<LocationModel>::empty());
                assert(Seq::<LocationModel>::empty() + filter_model(full, Some(names_view(a@)))
                    =~= filter_model(full, Some(names_view(a@))));
            }
            while rest.len() > 0
                invariant
                    allowed_view(*allowed) == Some(names_view(a@)),
                    filter_model(full, Some(names_view(a@))) == kept@.map_values(|l: Location| l@)
                        + filter_model(
                        rest@.map_values(|l: Location| l@),
                        Some(names_view(a@)),
                    ),
                decreases rest.len(),
            {
                let ghost old_kept = kept@.map_values(|l: Location| l@);
                let ghost old_rest = rest@.map_values(|l: Location| l@);
                let l = rest.remove(0);
                proof {
                    assert(old_rest[0] == l@);
                    assert(old_rest.drop_first() =~= rest@.map_values(|x: Location| x@));
                }
                if contains_name(a, &l.name) {
                    kept.push(l);
                    proof {
                        assert(kept@.map_values(|x: Location| x@) =~= old_kept.push(l@));
                        assert(old_kept + (seq![l@] + filter_model(
                            rest@.map_values(|x: Location| x@),
                            Some(names_view(a@)),
                        )) =~= old_kept.push(l@) + filter_model(
                            rest@.map_values(|x: Location| x@),
                            Some(names_view(a@)),
                        ));
                    }
                } else {
                    proof {
                        assert(Seq::<LocationModel>::empty() + filter_model(
                            rest@.map_values(|x: Location| x@),
                            Some(names_view(a@)),
                        ) =~= filter_model(rest@.map_values(|x: Location| x@), Some(names_view(a@))));
                    }
                }
            }
            proof {
                assert(rest@.map_values(|l: Location| l@) =~= Seq::<LocationModel>::empty());
                assert(kept@.map_values(|l: Location| l@) + Seq::<LocationModel>::empty()
                    =~= kept@.map_values(|l: Location| l@));
            }
            kept
        },
    }
}

} // verus!
