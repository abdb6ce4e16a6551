use vstd::prelude::*;

use crate::resources::buffer::Location;

verus! {

/// Errors returned when building an appearance, generic over the error `E` that the graphics
/// backend gives for a combination of material, model and descriptors it does not accept.
#[derive(Debug, Clone, PartialEq, Eq)]
pub enum AppearanceBuilderError<E> {
    /// Gets returned when trying to build an appearance with the material or the model uninitialized.
    Uninitialized,
    /// Gets returned when the combination of material, model and buffers is invalid for the graphics backend.
    InvalidCombination(E),
    /// Gets returned when descriptor set indices are not present in an ascending manner
    /// without gaps; holds the missing set indices.
    MissingSets(Vec<u32>),
}

/// Whether some location uses descriptor set `set`.
pub open spec fn uses_set(locations: Seq<Location>, set: u32) -> bool {
    exists|j: int| 0 <= j < locations.len() && #[trigger] locations[j].set == set
}

/// Whether set `set` is missing: some location uses a higher set, none uses this one.
pub open spec fn is_missing_set(locations: Seq<Location>, set: u32) -> bool {
    &&& !uses_set(locations, set)
    &&& exists|j: int| 0 <= j < locations.len() && #[trigger] locations[j].set > set
}

/// The largest set index used, 0 when there is none.
pub open spec fn max_set(locations: Seq<Location>) -> u32
    decreases locations.len(),
{
    if locations.len() == 0 {
        0
    } else {
        let m = max_set(locations.drop_last());
        if locations.last().set > m {
            locations.last().set
        } else {
            m
        }
    }
}

/// Returns the descriptor set indices that are skipped by the given descriptor locations,
/// in ascending order: every index below a used one that no location uses.
///
/// A location in set `u32::MAX` is not accepted: the count of sets below it would not fit a `u32`.
pub fn missing_descriptor_sets(locations: &[Location]) -> (r: Vec<u32>)
    requires
        forall|j: int| 0 <= j < locations@.len() ==> #[trigger] locations@[j].set < u32::MAX,
    ensures
        forall|a: int, b: int| 0 <= a < b < r@.len() ==> r@[a] < r@[b],
        forall|s: u32| r@.contains(s) <==> is_missing_set(locations@, s),
{
    let mut top: u32 = 0;
    let mut j: usize = 0;
    while j < locations.len()
        invariant
            j <= locations@.len(),
            top == max_set(locations@.take(j as int)),
        decreases locations@.len() - j,
    {
        proof {
            assert(locations@.take(j + 1).drop_last() =~= locations@.take(j as int));
        }
        if locations[j].set > top {
            top = locations[j].set;
        }
        j = j + 1;
    }
    proof {
        assert(locations@.take(locations@.len() as int) =~= locations@);
        lemma_max_set_bounds(locations@);
    }
    let mut missing: Vec<u32> = Vec::new();
    let mut s: u32 = 0;
    while s < top
        invariant
            s <= top,
            top == max_set(locations@),
            forall|a: int, b: int| 0 <= a < b < missing@.len() ==> missing@[a] < missing@[b],
            forall|a: int| 0 <= a < missing@.len() ==> missing@[a] < s,
            forall|t: u32| t < s ==> (missing@.contains(t) <==> is_missing_set(locations@, t)),
            locations@.len() == 0 ==> top == 0,
            locations@.len() > 0 ==> exists|k: int| 0 <= k < locations@.len() && locations@[k].set == top,
        decreases top - s,
    {
        let used = uses(locations, s);
        let ghost prev = missing@;
        if !used {
            missing.push(s);
        }
        proof {
            let k = choose|k: int| 0 <= k < locations@.len() && locations@[k].set == top;
            assert(locations@[k].set > s);
            assert forall|t: u32| t < s + 1 implies (missing@.contains(t) <==> is_missing_set(locations@, t)) by {
                if t < s {
                    if missing@.contains(t) {
                        let a = choose|a: int| 0 <= a < missing@.len() && missing@[a] == t;
                        assert(a < prev.len());
                        assert(prev[a] == t);
                    }
                    if prev.contains(t) {
                        let a = choose|a: int| 0 <= a < prev.len() && prev[a] == t;
                        assert(missing@[a] == t);
                    }
                } else {
                    if !used {
                        assert(missing@[missing@.len() - 1] == t);
                    } else {
                        if missing@.contains(t) {
                            let a = choose|a: int| 0 <= a < missing@.len() && missing@[a] == t;
                            assert(prev[a] < s);
                        }
                    }
                }
            }
        }
        s = s + 1;
    }
    proof {
        assert forall|t: u32| missing@.contains(t) <==> is_missing_set(locations@, t) by {
            if t >= top {
                if is_missing_set(locations@, t) {
                    let k = choose|k: int| 0 <= k < locations@.len() && #[trigger] locations@[k].set > t;
                    lemma_max_set_is_max(locations@, k);
                }
                if missing@.contains(t) {
                    let a = choose|a: int| 0 <= a < missing@.len() && missing@[a] == t;
                }
            }
        }
    }
    missing
}

/// Whether some location uses descriptor set `set`.
fn uses(locations: &[Location], set: u32) -> (r: bool)
    ensures
        r == uses_set(locations@, set),
{
    let mut j: usize = 0;
    while j < locations.len()
        invariant
            j <= locations@.len(),
            forall|k: int| 0 <= k < j ==> #[trigger] locations@[k].set != set,
        decreases locations@.len() - j,
    {
        if locations[j].set == set {
            return true;
        }
        j = j + 1;
    }
    false
}

/// The largest set is used by some location, when there is any.
proof fn lemma_max_set_bounds(locations: Seq<Location>)
    ensures
        locations.len() == 0 ==> max_set(locations) == 0,
        locations.len() > 0 ==> exists|k: int| 0 <= k < locations.len() && locations[k].set == max_set(locations),
    decreases locations.len(),
{
    if locations.len() > 0 {
        let init = locations.drop_last();
        lemma_max_set_bounds(init);
        if locations.last().set > max_set(init) {
            assert(locations[locations.len() - 1].set == max_set(locations));
        } else if init.len() == 0 {
            assert(locations[0].set == max_set(locations));
        } else {
            let k = choose|k: int| 0 <= k < init.len() && init[k].set == max_set(init);
            assert(locations[k].set == max_set(locations));
        }
    }
}

/// No location uses a set above the largest.
proof fn lemma_max_set_is_max(locations: Seq<Location>, k: int)
    requires
        0 <= k < locations.len(),
    ensures
        locations[k].set <= max_set(locations),
    decreases locations.len(),
{
    if k < locations.len() - 1 {
        lemma_max_set_is_max(locations.drop_last(), k);
    }
}

/// Checks the parts of an appearance before the graphics backend sees them: the material and
/// the model must be set, then the descriptor sets must have no gaps; the missing sets come
/// back in ascending order, each once. Hands back the material and the model when both checks
/// pass.
pub fn check_appearance_parts<M, D, E>(material: Option<M>, model: Option<D>, locations: &[Location]) -> (r: Result<(M, D), AppearanceBuilderError<E>>)
    requires
        forall|j: int| 0 <= j < locations@.len() ==> #[trigger] locations@[j].set < u32::MAX,
    ensures
        (material is None || model is None) <==> r == Err::<(M, D), AppearanceBuilderError<E>>(
            AppearanceBuilderError::Uninitialized,
        ),
        r matches Err(AppearanceBuilderError::MissingSets(m)) ==> material is Some && model is Some
            && m@.len() > 0 && (forall|s: u32| m@.contains(s) <==> is_missing_set(locations@, s))
            && forall|a: int, b: int| 0 <= a < b < m@.len() ==> m@[a] < m@[b],
        r is Ok <==> material is Some && model is Some && forall|s: u32| !is_missing_set(locations@, s),
        r matches Ok((a, b)) ==> material == Some(a) && model == Some(b),
        !(r matches Err(AppearanceBuilderError::InvalidCombination(_))),
{
    let material = match material {
        Some(m) => m,
        None => {
            return Err(AppearanceBuilderError::Uninitialized);
        },
    };
    let model = match model {
        Some(m) => m,
        None => {
            return Err(AppearanceBuilderError::Uninitialized);
        },
    };
    let missing = missing_descriptor_sets(locations);
    if missing.len() > 0 {
        proof {
            assert(missing@.contains(missing@[0]));
        }
        return Err(AppearanceBuilderError::MissingSets(missing));
    }
    proof {
        assert forall|s: u32| !is_missing_set(locations@, s) by {
            if is_missing_set(locations@, s) {
                assert(missing@.contains(s));
            }
        }
    }
    Ok((material, model))
}

} // verus!
