//! The model catalog and the rules that pick a model from it.

use vstd::prelude::*;

verus! {

/// A model variant a node can run.
#[derive(Clone, Debug)]
pub struct Model {
    pub name: String,
    /// Higher is more accurate.
    pub accuracy: u32,
    /// Lower is faster and cheaper.
    pub perf: u32,
}

/// `i` is the first model of the least cost in `models`.
pub open spec fn is_cheapest(models: Seq<Model>, i: int) -> bool {
    &&& 0 <= i < models.len()
    &&& forall|j: int| 0 <= j < models.len() ==> models[i].perf <= (#[trigger] models[j]).perf
    &&& forall|j: int| 0 <= j < i ==> models[i].perf < (#[trigger] models[j]).perf
}

/// Some model in `models` is at least as accurate as `accuracy`.
pub open spec fn some_model_meets(models: Seq<Model>, accuracy: u32) -> bool {
    exists|j: int| 0 <= j < models.len() && (#[trigger] models[j]).accuracy >= accuracy
}

/// `i` is the first model of the least cost among those at least as accurate as `accuracy`.
pub open spec fn is_cheapest_meeting(models: Seq<Model>, accuracy: u32, i: int) -> bool {
    &&& 0 <= i < models.len()
    &&& models[i].accuracy >= accuracy
    &&& forall|j: int|
        0 <= j < models.len() && (#[trigger] models[j]).accuracy >= accuracy ==> models[i].perf
            <= models[j].perf
    &&& forall|j: int|
        0 <= j < i && (#[trigger] models[j]).accuracy >= accuracy ==> models[i].perf
            < models[j].perf
}

/// `i` is the last model of the greatest accuracy in `models`.
pub open spec fn is_most_accurate(models: Seq<Model>, i: int) -> bool {
    &&& 0 <= i < models.len()
    &&& forall|j: int|
        0 <= j < models.len() ==> (#[trigger] models[j]).accuracy <= models[i].accuracy
    &&& forall|j: int|
        i < j < models.len() ==> (#[trigger] models[j]).accuracy < models[i].accuracy
}

/// `pattern` occurs in `text` as a run of consecutive characters.
pub open spec fn occurs_in(pattern: Seq<char>, text: Seq<char>) -> bool {
    exists|k: int|
        0 <= k && k + pattern.len() <= text.len() && #[trigger] text.subrange(
            k,
            k + pattern.len(),
        ) == pattern
}

/// `i` is the first model whose name contains `hint`.
pub open spec fn is_first_named(models: Seq<Model>, hint: Seq<char>, i: int) -> bool {
    &&& 0 <= i < models.len()
    &&& occurs_in(hint, models[i].name@)
    &&& forall|j: int| 0 <= j < i ==> !occurs_in(hint, (#[trigger] models[j]).name@)
}

/// Some model's name contains `hint`.
pub open spec fn some_model_named(models: Seq<Model>, hint: Seq<char>) -> bool {
    exists|j: int| 0 <= j < models.len() && occurs_in(hint, (#[trigger] models[j]).name@)
}

/// `str::contains` with a string pattern: whether `pattern` matches a sub-slice of `text`.
/// The standard library documents exactly that; the contract restates it over characters.
#[verifier::external_body]
fn text_contains(text: &String, pattern: &String) -> (found: bool)
    ensures
        found == occurs_in(pattern@, text@),
{
    text.as_str().contains(pattern.as_str())
}

/// The position of the cheapest model, the first one among equals.
pub fn cheapest(models: &Vec<Model>) -> (r: Option<usize>)
    ensures
        models.len() == 0 ==> r.is_none(),
        models.len() > 0 ==> r.is_some() && is_cheapest(models@, r.unwrap() as int),
{
    if models.len() == 0 {
        return None;
    }
    let mut best: usize = 0;
    let mut i: usize = 1;
    while i < models.len()
        invariant
            best < i <= models.len(),
            forall|j: int| 0 <= j < i ==> models[best as int].perf <= (#[trigger] models[j]).perf,
            forall|j: int| 0 <= j < best ==> models[best as int].perf < (#[trigger] models[j]).perf,
        decreases models.len() - i,
    {
        if models[i].perf < models[best].perf {
            best = i;
        }
        i = i + 1;
    }
    Some(best)
}

/// The position of the cheapest model among those at least as accurate as `accuracy`,
/// the first one among equals.
pub fn cheapest_meeting(models: &Vec<Model>, accuracy: u32) -> (r: Option<usize>)
    ensures
        !some_model_meets(models@, accuracy) ==> r.is_none(),
        some_model_meets(models@, accuracy) ==> r.is_some() && is_cheapest_meeting(
            models@,
            accuracy,
            r.unwrap() as int,
        ),
{
    let mut best: Option<usize> = None;
    let mut i: usize = 0;
    while i < models.len()
        invariant
            i <= models.len(),
            best.is_none() ==> forall|j: int|
                0 <= j < i ==> (#[trigger] models[j]).accuracy < accuracy,
            best matches Some(b) ==> {
                &&& b < i
                &&& models[b as int].accuracy >= accuracy
                &&& forall|j: int|
                    0 <= j < i && (#[trigger] models[j]).accuracy >= accuracy ==> models[b as int].perf
                        <= models[j].perf
                &&& forall|j: int|
                    0 <= j < b && (#[trigger] models[j]).accuracy >= accuracy ==> models[b as int].perf
                        < models[j].perf
            },
        decreases models.len() - i,
    {
        if models[i].accuracy >= accuracy {
            match best {
                None => {
                    best = Some(i);
                },
                Some(b) => {
                    if models[i].perf < models[b].perf {
                        best = Some(i);
                    }
                },
            }
        }
        i = i + 1;
    }
    best
}

/// The position of the most accurate model, the last one among equals.
pub fn most_accurate(models: &Vec<Model>) -> (r: Option<usize>)
    ensures
        models.len() == 0 ==> r.is_none(),
        models.len() > 0 ==> r.is_some() && is_most_accurate(models@, r.unwrap() as int),
{
    if models.len() == 0 {
        return None;
    }
    let mut best: usize = 0;
    let mut i: usize = 1;
    while i < models.len()
        invariant
            best < i <= models.len(),
            forall|j: int| 0 <= j < i ==> (#[trigger] models[j]).accuracy <= models[best as int].accuracy,
            forall|j: int| best < j < i ==> (#[trigger] models[j]).accuracy < models[best as int].accuracy,
        decreases models.len() - i,
    {
        if models[i].accuracy >= models[best].accuracy {
            best = i;
        }
        i = i + 1;
    }
    Some(best)
}

/// The position of the first model whose name contains `hint`.
pub fn first_named(models: &Vec<Model>, hint: &String) -> (r: Option<usize>)
    ensures
        !some_model_named(models@, hint@) ==> r.is_none(),
        some_model_named(models@, hint@) ==> r.is_some() && is_first_named(
            models@,
            hint@,
            r.unwrap() as int,
        ),
{
    let mut i: usize = 0;
    while i < models.len()
        invariant
            i <= models.len(),
            forall|j: int| 0 <= j < i ==> !occurs_in(hint@, (#[trigger] models[j]).name@),
        decreases models.len() - i,
    {
        if text_contains(&models[i].name, hint) {
            return Some(i);
        }
        i = i + 1;
    }
    None
}

/// At most one model answers to `is_cheapest`.
pub proof fn lemma_cheapest_unique(models: Seq<Model>, i: int, j: int)
    requires
        is_cheapest(models, i),
        is_cheapest(models, j),
    ensures
        i == j,
{
    if i < j {
        assert(models[j].perf < models[i].perf);
        assert(models[i].perf <= models[j].perf);
    } else if j < i {
        assert(models[i].perf < models[j].perf);
        assert(models[j].perf <= models[i].perf);
    }
}

/// At most one model answers to `is_cheapest_meeting`.
pub proof fn lemma_cheapest_meeting_unique(models: Seq<Model>, accuracy: u32, i: int, j: int)
    requires
        is_cheapest_meeting(models, accuracy, i),
        is_cheapest_meeting(models, accuracy, j),
    ensures
        i == j,
{
    if i < j {
        assert(models[j].perf < models[i].perf);
        assert(models[i].perf <= models[j].perf);
    } else if j < i {
        assert(models[i].perf < models[j].perf);
        assert(models[j].perf <= models[i].perf);
    }
}

/// At most one model answers to `is_most_accurate`.
pub proof fn lemma_most_accurate_unique(models: Seq<Model>, i: int, j: int)
    requires
        is_most_accurate(models, i),
        is_most_accurate(models, j),
    ensures
        i == j,
{
    if i < j {
        assert(models[j].accuracy < models[i].accuracy);
        assert(models[i].accuracy <= models[j].accuracy);
    } else if j < i {
        assert(models[i].accuracy < models[j].accuracy);
        assert(models[j].accuracy <= models[i].accuracy);
    }
}

} // verus!
