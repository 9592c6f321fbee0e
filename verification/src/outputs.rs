//! Choice of the display (output) that the crosshair is placed on.
use vstd::prelude::*;

verus! {

/// Whether an output whose name is `name` (if it has one) is the output
/// called `wanted`.
pub open spec fn output_has_name(name: Option<String>, wanted: String) -> bool {
    match name {
        Some(n) => n@ == wanted@,
        None => false,
    }
}

/// The first output, in the order given, whose name is `wanted`, or `None`
/// when no name is wanted or no output has it (the compositor then picks
/// the output).
pub open spec fn is_selected_output(
    names: Seq<Option<String>>,
    wanted: Option<String>,
    selected: Option<usize>,
) -> bool {
    match selected {
        Some(i) => {
            &&& wanted is Some
            &&& i < names.len()
            &&& output_has_name(names[i as int], wanted->0)
            &&& forall|j: int| 0 <= j < i ==> !output_has_name(#[trigger] names[j], wanted->0)
        },
        None => wanted is None || forall|j: int|
            0 <= j < names.len() ==> !output_has_name(#[trigger] names[j], wanted->0),
    }
}

/// Picks the output called `wanted` among outputs with the names `names`.
pub fn select_output(names: &Vec<Option<String>>, wanted: &Option<String>) -> (selected: Option<
    usize,
>)
    ensures
        is_selected_output(names@, *wanted, selected),
        selected is Some ==> wanted is Some && selected->0 < names@.len()
            && names@[selected->0 as int] is Some && names@[selected->0 as int]->0@ == wanted->0@,
        selected is Some ==> forall|j: int|
            0 <= j < selected->0 ==> !(names@[j] is Some && names@[j]->0@ == wanted->0@),
        selected is None ==> wanted is None || forall|j: int|
            0 <= j < names@.len() ==> !(names@[j] is Some && names@[j]->0@ == wanted->0@),
{
    let w = match wanted {
        Some(w) => w,
        None => return None,
    };
    let mut i: usize = 0;
    while i < names.len()
        invariant
            i <= names@.len(),
            *wanted == Some(*w),
            forall|j: int| 0 <= j < i ==> !output_has_name(#[trigger] names@[j], *w),
        decreases names@.len() - i,
    {
        match &names[i] {
            Some(n) => {
                if *n == *w {
                    assert(output_has_name(names@[i as int], *w));
                    return Some(i);
                }
            },
            None => {},
        }
        i = i + 1;
    }
    None
}

/* Laws of output selection */

/// The output chosen is one whose name is exactly the wanted name (the same
/// characters, not a name that merely ends or starts with it), and no earlier
/// output has that name.
pub proof fn lemma_selected_output_has_the_name(
    names: Seq<Option<String>>,
    wanted: Option<String>,
    i: usize,
)
    requires
        is_selected_output(names, wanted, Some(i)),
    ensures
        wanted is Some,
        i < names.len(),
        names[i as int] is Some,
        names[i as int]->0@ == wanted->0@,
        forall|j: int| 0 <= j < i ==> !(names[j] is Some && names[j]->0@ == wanted->0@),
{
}

/// When some output has exactly the wanted name, one is chosen; no output is
/// chosen only when none has it or no name is wanted.
pub proof fn lemma_named_output_is_found(names: Seq<Option<String>>, wanted: String, j: int)
    requires
        0 <= j < names.len(),
        names[j] is Some,
        names[j]->0@ == wanted@,
    ensures
        !is_selected_output(names, Some(wanted), None),
{
    assert(output_has_name(names[j], wanted));
}

/// The choice is unique: at most one answer meets the selection.
pub proof fn lemma_selection_is_unique(
    names: Seq<Option<String>>,
    wanted: Option<String>,
    a: Option<usize>,
    b: Option<usize>,
)
    requires
        is_selected_output(names, wanted, a),
        is_selected_output(names, wanted, b),
    ensures
        a == b,
{
    if a is Some && b is Some {
        let i = a->0;
        let k = b->0;
        if i < k {
            assert(!output_has_name(names[i as int], wanted->0));
        } else if k < i {
            assert(!output_has_name(names[k as int], wanted->0));
        }
    } else if a is Some {
        let i = a->0;
        assert(output_has_name(names[i as int], wanted->0));
    } else if b is Some {
        let k = b->0;
        assert(output_has_name(names[k as int], wanted->0));
    }
}

} // verus!
