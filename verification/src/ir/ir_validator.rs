//! The validator of the intermediate representation.
//!
//! It walks every struct, enum, trait, impl and function, in that order and
//! depth first, and stops at the first bound or implemented trait that
//! names no declared trait or gives it the wrong number of types. A trait
//! that a reference names is walked at that reference, once: the walk
//! keeps the set of the traits that it has entered.

use crate::ir::ir_type_data::{
    function_entries, func_tag_entries, generic_views, position_of, string_views, trait_type_views,
    type_views, CompileError, CompileErrorView, Enum, FuncTag, FuncTagView, Function, FunctionView,
    Generic, GenericView, IRView, Impl, ImplView, Struct, TraitType, TraitTypeView, TraitView, IR,
};
use vstd::prelude::*;

verus! {

// ---------------------------------------------------------------------------
// The model of the walk
// ---------------------------------------------------------------------------

/// The index of the first entry at or after `from` with the name `name`;
/// `-1` where there is none.
pub open spec fn name_index<V>(entries: Seq<(Seq<char>, V)>, name: Seq<char>, from: int) -> int
    decreases entries.len() - from,
{
    if from < 0 || from >= entries.len() {
        -1
    } else if entries[from].0 == name {
        from
    } else {
        name_index(entries, name, from + 1)
    }
}

/// How many traits the walk has not entered.
pub open spec fn unvisited(visited: Seq<bool>) -> nat
    decreases visited.len(),
{
    if visited.len() == 0 {
        0
    } else {
        unvisited(visited.drop_last()) + if visited.last() {
            0nat
        } else {
            1nat
        }
    }
}

/// The outcome of a part of the walk: the error at which it stopped, if it
/// did, and the traits entered after it.
pub type Checked = (Option<CompileErrorView>, Seq<bool>);

/// A reference to the trait `name` with `given` types: an error where no
/// trait has that name or where the trait has another number of generic
/// parameters; else the walk of that trait, unless it was entered before.
pub open spec fn check_reference(
    ir: IRView,
    visited: Seq<bool>,
    name: Seq<char>,
    given: nat,
) -> Checked
    decreases unvisited(visited), 1int, 0int,
{
    let i = name_index(ir.traits, name, 0);
    if !(0 <= i < ir.traits.len()) {
        (Some(CompileErrorView::NoTraitWithThatNameFound(name)), visited)
    } else if ir.traits[i].1.generics.len() != given {
        (
            Some(
                CompileErrorView::NumberOfGenericsAndTypesGivenDoNotMatchInItem(
                    name,
                    ir.traits[i].1.generics.len(),
                    given,
                ),
            ),
            visited,
        )
    } else if visited.len() != ir.traits.len() || visited[i] {
        (None, visited)
    } else if unvisited(visited.update(i, true)) < unvisited(visited) {
        check_trait(ir, visited.update(i, true), ir.traits[i].1)
    } else {
        (None, visited)
    }
}

/// The bounds of a generic parameter from the `from`-th on, in order.
pub open spec fn check_constraints(
    ir: IRView,
    visited: Seq<bool>,
    bounds: Seq<TraitTypeView>,
    from: int,
) -> Checked
    decreases unvisited(visited), 2int, bounds.len() - from,
{
    if from < 0 || from >= bounds.len() {
        (None, visited)
    } else {
        let first = check_reference(
            ir,
            visited,
            bounds[from].name,
            bounds[from].types_in_generics.len(),
        );
        if first.0 is Some || unvisited(first.1) > unvisited(visited) {
            first
        } else {
            check_constraints(ir, first.1, bounds, from + 1)
        }
    }
}

/// Generic parameters from the `from`-th on, in order, each by its bounds.
pub open spec fn check_generics(
    ir: IRView,
    visited: Seq<bool>,
    generics: Seq<GenericView>,
    from: int,
) -> Checked
    decreases unvisited(visited), 3int, generics.len() - from,
{
    if from < 0 || from >= generics.len() {
        (None, visited)
    } else {
        let first = check_constraints(ir, visited, generics[from].constraits, 0);
        if first.0 is Some || unvisited(first.1) > unvisited(visited) {
            first
        } else {
            check_generics(ir, first.1, generics, from + 1)
        }
    }
}

/// Signatures from the `from`-th on, in order, each by its generic
/// parameters.
pub open spec fn check_func_tags(
    ir: IRView,
    visited: Seq<bool>,
    tags: Seq<(Seq<char>, FuncTagView)>,
    from: int,
) -> Checked
    decreases unvisited(visited), 4int, tags.len() - from,
{
    if from < 0 || from >= tags.len() {
        (None, visited)
    } else {
        let first = check_generics(ir, visited, tags[from].1.generics, 0);
        if first.0 is Some || unvisited(first.1) > unvisited(visited) {
            first
        } else {
            check_func_tags(ir, first.1, tags, from + 1)
        }
    }
}

/// A trait: its generic parameters, then its signatures.
pub open spec fn check_trait(ir: IRView, visited: Seq<bool>, t: TraitView) -> Checked
    decreases unvisited(visited), 5int, 0int,
{
    let first = check_generics(ir, visited, t.generics, 0);
    if first.0 is Some || unvisited(first.1) > unvisited(visited) {
        first
    } else {
        check_func_tags(ir, first.1, t.func_tag, 0)
    }
}

/// Functions from the `from`-th on, in order, each by the generic
/// parameters of its signature.
pub open spec fn check_functions(
    ir: IRView,
    visited: Seq<bool>,
    functions: Seq<(Seq<char>, FunctionView)>,
    from: int,
) -> Checked
    decreases functions.len() - from,
{
    if from < 0 || from >= functions.len() {
        (None, visited)
    } else {
        let first = check_generics(ir, visited, functions[from].1.tag.generics, 0);
        if first.0 is Some {
            first
        } else {
            check_functions(ir, first.1, functions, from + 1)
        }
    }
}

/// An impl: its generic parameters, then the trait that it implements, if
/// it names one, then its functions.
pub open spec fn check_impl(ir: IRView, visited: Seq<bool>, i: ImplView) -> Checked {
    let first = check_generics(ir, visited, i.generics, 0);
    if first.0 is Some {
        first
    } else {
        let second = match i.trait_to_impl {
            Some(t) => check_reference(ir, first.1, t.name, t.types_in_generics.len()),
            None => (None, first.1),
        };
        if second.0 is Some {
            second
        } else {
            check_functions(ir, second.1, i.funcs, 0)
        }
    }
}

/// The structs from the `from`-th on.
pub open spec fn check_structs(ir: IRView, visited: Seq<bool>, from: int) -> Checked
    decreases ir.structs.len() - from,
{
    if from < 0 || from >= ir.structs.len() {
        (None, visited)
    } else {
        let first = check_generics(ir, visited, ir.structs[from].1.generics, 0);
        if first.0 is Some {
            first
        } else {
            check_structs(ir, first.1, from + 1)
        }
    }
}

/// The enums from the `from`-th on.
pub open spec fn check_enums(ir: IRView, visited: Seq<bool>, from: int) -> Checked
    decreases ir.enums.len() - from,
{
    if from < 0 || from >= ir.enums.len() {
        (None, visited)
    } else {
        let first = check_generics(ir, visited, ir.enums[from].1.generics, 0);
        if first.0 is Some {
            first
        } else {
            check_enums(ir, first.1, from + 1)
        }
    }
}

/// The traits from the `from`-th on that the walk has not entered.
pub open spec fn check_traits(ir: IRView, visited: Seq<bool>, from: int) -> Checked
    decreases ir.traits.len() - from,
{
    if from < 0 || from >= ir.traits.len() {
        (None, visited)
    } else if visited.len() != ir.traits.len() || visited[from] {
        check_traits(ir, visited, from + 1)
    } else {
        let first = check_trait(ir, visited.update(from, true), ir.traits[from].1);
        if first.0 is Some {
            first
        } else {
            check_traits(ir, first.1, from + 1)
        }
    }
}

/// The impls from the `from`-th on.
pub open spec fn check_impls(ir: IRView, visited: Seq<bool>, from: int) -> Checked
    decreases ir.impls.len() - from,
{
    if from < 0 || from >= ir.impls.len() {
        (None, visited)
    } else {
        let first = check_impl(ir, visited, ir.impls[from]);
        if first.0 is Some {
            first
        } else {
            check_impls(ir, first.1, from + 1)
        }
    }
}

/// The whole walk, from the set `visited` of entered traits.
pub open spec fn check_all(ir: IRView, visited: Seq<bool>) -> Checked {
    let structs = check_structs(ir, visited, 0);
    if structs.0 is Some {
        structs
    } else {
        let enums = check_enums(ir, structs.1, 0);
        if enums.0 is Some {
            enums
        } else {
            let traits = check_traits(ir, enums.1, 0);
            if traits.0 is Some {
                traits
            } else {
                let impls = check_impls(ir, traits.1, 0);
                if impls.0 is Some {
                    impls
                } else {
                    check_functions(ir, impls.1, ir.function, 0)
                }
            }
        }
    }
}

/// No trait entered, of `n` traits.
pub open spec fn none_entered(n: nat) -> Seq<bool> {
    Seq::new(n, |i: int| false)
}

/// The first error that the walk of `ir` meets; none where `ir` is valid.
pub open spec fn validation_error(ir: IRView) -> Option<CompileErrorView> {
    check_all(ir, none_entered(ir.traits.len())).0
}

/// The scopes with `name` made visible in the innermost.
pub open spec fn with_name(scopes: Seq<Seq<Seq<char>>>, name: Seq<char>) -> Seq<Seq<Seq<char>>> {
    scopes.update(scopes.len() - 1, scopes.last().push(name))
}

/// The scopes with the names of the generic parameters from the `from`-th
/// to the `to`-th made visible in the innermost, in order.
pub open spec fn with_names(
    scopes: Seq<Seq<Seq<char>>>,
    generics: Seq<GenericView>,
    from: int,
    to: int,
) -> Seq<Seq<Seq<char>>>
    decreases to - from,
{
    if from >= to {
        scopes
    } else {
        with_name(with_names(scopes, generics, from, to - 1), generics[to - 1].name)
    }
}

// ---------------------------------------------------------------------------
// Lemmas on the model
// ---------------------------------------------------------------------------

/// To enter a trait that was not entered leaves one trait less to enter.
pub proof fn lemma_unvisited_update(visited: Seq<bool>, i: int)
    requires
        0 <= i < visited.len(),
        !visited[i],
    ensures
        unvisited(visited.update(i, true)) == unvisited(visited) - 1,
    decreases visited.len(),
{
    let after = visited.update(i, true);
    if i == visited.len() - 1 {
        assert(after.drop_last() =~= visited.drop_last());
    } else {
        lemma_unvisited_update(visited.drop_last(), i);
        assert(after.drop_last() =~= visited.drop_last().update(i, true));
    }
}

/// To make names visible changes the innermost scope only.
pub proof fn lemma_with_names_shape(
    scopes: Seq<Seq<Seq<char>>>,
    generics: Seq<GenericView>,
    from: int,
    to: int,
)
    requires
        scopes.len() > 0,
    ensures
        with_names(scopes, generics, from, to).len() == scopes.len(),
        with_names(scopes, generics, from, to).drop_last() == scopes.drop_last(),
    decreases to - from,
{
    if from < to {
        lemma_with_names_shape(scopes, generics, from, to - 1);
        let before = with_names(scopes, generics, from, to - 1);
        assert(with_name(before, generics[to - 1].name).drop_last() =~= before.drop_last());
    }
}

/// The first entry with a name, found by looking at the entries in order.
pub proof fn lemma_name_index<V>(
    entries: Seq<(Seq<char>, V)>,
    name: Seq<char>,
    from: int,
    found: int,
)
    requires
        0 <= from <= entries.len(),
        from <= found,
        found < entries.len() ==> entries[found].0 == name,
        forall|j: int| from <= j < found && j < entries.len() ==> (#[trigger] entries[j]).0 != name,
    ensures
        name_index(entries, name, from) == if found < entries.len() {
            found
        } else {
            -1
        },
    decreases entries.len() - from,
{
    if from < entries.len() && from < found {
        assert(entries[from].0 != name);
        lemma_name_index(entries, name, from + 1, found);
    }
}

// ---------------------------------------------------------------------------
// What the walk decides
// ---------------------------------------------------------------------------

/// A reference to the trait `name` with `given` types is good: a trait
/// has that name, and it has `given` generic parameters.
pub open spec fn good_reference(ir: IRView, name: Seq<char>, given: nat) -> bool {
    let i = name_index(ir.traits, name, 0);
    0 <= i < ir.traits.len() && ir.traits[i].1.generics.len() == given
}

/// The bounds from the `from`-th on are good references.
pub open spec fn good_bounds(ir: IRView, bounds: Seq<TraitTypeView>, from: int) -> bool {
    forall|k: int|
        from <= k < bounds.len() && 0 <= k ==> good_reference(
            ir,
            (#[trigger] bounds[k]).name,
            bounds[k].types_in_generics.len(),
        )
}

/// The bounds of the generic parameters from the `from`-th on are good
/// references.
pub open spec fn good_generics(ir: IRView, generics: Seq<GenericView>, from: int) -> bool {
    forall|k: int|
        from <= k < generics.len() && 0 <= k ==> good_bounds(
            ir,
            (#[trigger] generics[k]).constraits,
            0,
        )
}

/// The bounds in the signatures from the `from`-th on are good references.
pub open spec fn good_func_tags(
    ir: IRView,
    tags: Seq<(Seq<char>, FuncTagView)>,
    from: int,
) -> bool {
    forall|k: int|
        from <= k < tags.len() && 0 <= k ==> good_generics(ir, (#[trigger] tags[k]).1.generics, 0)
}

/// The bounds in a trait are good references.
pub open spec fn good_trait(ir: IRView, t: TraitView) -> bool {
    good_generics(ir, t.generics, 0) && good_func_tags(ir, t.func_tag, 0)
}

/// The bounds in the functions from the `from`-th on are good references.
pub open spec fn good_functions(
    ir: IRView,
    functions: Seq<(Seq<char>, FunctionView)>,
    from: int,
) -> bool {
    forall|k: int|
        from <= k < functions.len() && 0 <= k ==> good_generics(
            ir,
            (#[trigger] functions[k]).1.tag.generics,
            0,
        )
}

/// The bounds in an impl and the trait that it implements are good
/// references.
pub open spec fn good_impl(ir: IRView, i: ImplView) -> bool {
    &&& good_generics(ir, i.generics, 0)
    &&& i.trait_to_impl matches Some(t) ==> good_reference(ir, t.name, t.types_in_generics.len())
    &&& good_functions(ir, i.funcs, 0)
}

/// The bounds in the traits from the `from`-th on are good references.
pub open spec fn good_traits(ir: IRView, from: int) -> bool {
    forall|k: int| from <= k < ir.traits.len() && 0 <= k
        ==> good_trait(ir, (#[trigger] ir.traits[k]).1)
}

/// Every bound of a generic parameter and every trait that an impl
/// implements names a declared trait and gives it as many types as it has
/// generic parameters.
pub open spec fn all_good(ir: IRView) -> bool {
    &&& forall|k: int|
        0 <= k < ir.structs.len() ==> good_generics(ir, (#[trigger] ir.structs[k]).1.generics, 0)
    &&& forall|k: int|
        0 <= k < ir.enums.len() ==> good_generics(ir, (#[trigger] ir.enums[k]).1.generics, 0)
    &&& good_traits(ir, 0)
    &&& forall|k: int| 0 <= k < ir.impls.len() ==> good_impl(ir, #[trigger] ir.impls[k])
    &&& good_functions(ir, ir.function, 0)
}

/// An error of the walk says what is wrong: no trait has the name that it
/// gives, or the trait of that name has the first number of generic
/// parameters and was given the second number of types, which is another.
pub open spec fn sound_error(ir: IRView, e: Option<CompileErrorView>) -> bool {
    match e {
        None => true,
        Some(CompileErrorView::NoTraitWithThatNameFound(name)) => name_index(ir.traits, name, 0)
            < 0,
        Some(
            CompileErrorView::NumberOfGenericsAndTypesGivenDoNotMatchInItem(name, wanted, given),
        ) => {
            let i = name_index(ir.traits, name, 0);
            0 <= i < ir.traits.len() && ir.traits[i].1.generics.len() == wanted && wanted != given
        },
        Some(_) => false,
    }
}

/// How the set of entered traits changes in a part of the walk: it keeps
/// its size, and loses no trait.
pub open spec fn entered_more(before: Seq<bool>, after: Seq<bool>) -> bool {
    &&& after.len() == before.len()
    &&& unvisited(after) <= unvisited(before)
    &&& forall|j: int| 0 <= j < before.len() && before[j] ==> after[j]
}

/// The traits entered in a part of the walk have only good references.
pub open spec fn newly_good(ir: IRView, before: Seq<bool>, after: Seq<bool>) -> bool {
    forall|j: int|
        0 <= j < after.len() && j < ir.traits.len() && after[j] && !before[j] ==> good_trait(
            ir,
            (#[trigger] ir.traits[j]).1,
        )
}

/// What holds of every part of the walk that checks something `good`: the
/// set of entered traits only grows; an error says what is wrong; where
/// there is none, what was checked is good and so is every trait entered
/// on the way; and where what was checked and all traits are good, there
/// is none.
pub open spec fn walk_law(ir: IRView, before: Seq<bool>, r: Checked, good: bool) -> bool {
    &&& entered_more(before, r.1)
    &&& sound_error(ir, r.0)
    &&& r.0 is None ==> good && newly_good(ir, before, r.1)
    &&& good && good_traits(ir, 0) ==> r.0 is None
}

/// The index of the first entry with a name is the index of an entry with
/// that name.
pub proof fn lemma_name_index_bounds<V>(entries: Seq<(Seq<char>, V)>, name: Seq<char>, from: int)
    requires
        0 <= from,
    ensures
        name_index(entries, name, from) == -1 || (from <= name_index(entries, name, from)
            < entries.len() && entries[name_index(entries, name, from)].0 == name),
    decreases entries.len() - from,
{
    if from < entries.len() && entries[from].0 != name {
        lemma_name_index_bounds(entries, name, from + 1);
    }
}

/// The law of the walk, of a reference.
pub proof fn lemma_check_reference(ir: IRView, visited: Seq<bool>, name: Seq<char>, given: nat)
    requires
        visited.len() == ir.traits.len(),
    ensures
        walk_law(
            ir,
            visited,
            check_reference(ir, visited, name, given),
            good_reference(ir, name, given),
        ),
    decreases unvisited(visited), 1int, 0int,
{
    let i = name_index(ir.traits, name, 0);
    lemma_name_index_bounds(ir.traits, name, 0);
    if 0 <= i < ir.traits.len() && ir.traits[i].1.generics.len() == given && !visited[i] {
        let entered = visited.update(i, true);
        lemma_unvisited_update(visited, i);
        lemma_check_trait(ir, entered, ir.traits[i].1);
        let r = check_trait(ir, entered, ir.traits[i].1);
        if r.0 is None {
            assert forall|j: int|
                0 <= j < r.1.len() && j < ir.traits.len() && r.1[j]
                    && !visited[j] implies good_trait(
                ir,
                (#[trigger] ir.traits[j]).1,
            ) by {
                if j != i {
                    assert(!entered[j]);
                }
            }
        }
        if good_traits(ir, 0) {
            assert(good_trait(ir, ir.traits[i].1));
        }
    }
}

/// The law of the walk, of the bounds of a generic parameter.
pub proof fn lemma_check_constraints(
    ir: IRView,
    visited: Seq<bool>,
    bounds: Seq<TraitTypeView>,
    from: int,
)
    requires
        visited.len() == ir.traits.len(),
        0 <= from,
    ensures
        walk_law(
            ir,
            visited,
            check_constraints(ir, visited, bounds, from),
            good_bounds(ir, bounds, from),
        ),
    decreases unvisited(visited), 2int, bounds.len() - from,
{
    if from < bounds.len() {
        let given = bounds[from].types_in_generics.len();
        lemma_check_reference(ir, visited, bounds[from].name, given);
        let first = check_reference(ir, visited, bounds[from].name, given);
        if first.0 is None {
            lemma_check_constraints(ir, first.1, bounds, from + 1);
            let r = check_constraints(ir, first.1, bounds, from + 1);
            if r.0 is None {
                assert forall|k: int| from <= k < bounds.len() implies good_reference(
                    ir,
                    (#[trigger] bounds[k]).name,
                    bounds[k].types_in_generics.len(),
                ) by {
                    if k > from {
                        assert(good_bounds(ir, bounds, from + 1));
                    }
                }
            } else if good_bounds(ir, bounds, from) {
                assert(good_bounds(ir, bounds, from + 1));
            }
        } else if good_bounds(ir, bounds, from) {
            assert(good_reference(ir, bounds[from].name, given));
        }
    }
}

/// The law of the walk, of generic parameters.
pub proof fn lemma_check_generics(
    ir: IRView,
    visited: Seq<bool>,
    generics: Seq<GenericView>,
    from: int,
)
    requires
        visited.len() == ir.traits.len(),
        0 <= from,
    ensures
        walk_law(
            ir,
            visited,
            check_generics(ir, visited, generics, from),
            good_generics(ir, generics, from),
        ),
    decreases unvisited(visited), 3int, generics.len() - from,
{
    if from < generics.len() {
        lemma_check_constraints(ir, visited, generics[from].constraits, 0);
        let first = check_constraints(ir, visited, generics[from].constraits, 0);
        if first.0 is None {
            lemma_check_generics(ir, first.1, generics, from + 1);
            let r = check_generics(ir, first.1, generics, from + 1);
            if r.0 is None {
                assert forall|k: int| from <= k < generics.len() implies good_bounds(
                    ir,
                    (#[trigger] generics[k]).constraits,
                    0,
                ) by {
                    if k > from {
                        assert(good_generics(ir, generics, from + 1));
                    }
                }
            } else if good_generics(ir, generics, from) {
                assert(good_generics(ir, generics, from + 1));
            }
        } else if good_generics(ir, generics, from) {
            assert(good_bounds(ir, generics[from].constraits, 0));
        }
    }
}

/// The law of the walk, of signatures.
pub proof fn lemma_check_func_tags(
    ir: IRView,
    visited: Seq<bool>,
    tags: Seq<(Seq<char>, FuncTagView)>,
    from: int,
)
    requires
        visited.len() == ir.traits.len(),
        0 <= from,
    ensures
        walk_law(
            ir,
            visited,
            check_func_tags(ir, visited, tags, from),
            good_func_tags(ir, tags, from),
        ),
    decreases unvisited(visited), 4int, tags.len() - from,
{
    if from < tags.len() {
        lemma_check_generics(ir, visited, tags[from].1.generics, 0);
        let first = check_generics(ir, visited, tags[from].1.generics, 0);
        if first.0 is None {
            lemma_check_func_tags(ir, first.1, tags, from + 1);
            let r = check_func_tags(ir, first.1, tags, from + 1);
            if r.0 is None {
                assert forall|k: int| from <= k < tags.len() implies good_generics(
                    ir,
                    (#[trigger] tags[k]).1.generics,
                    0,
                ) by {
                    if k > from {
                        assert(good_func_tags(ir, tags, from + 1));
                    }
                }
            } else if good_func_tags(ir, tags, from) {
                assert(good_func_tags(ir, tags, from + 1));
            }
        } else if good_func_tags(ir, tags, from) {
            assert(good_generics(ir, tags[from].1.generics, 0));
        }
    }
}

/// The law of the walk, of a trait.
pub proof fn lemma_check_trait(ir: IRView, visited: Seq<bool>, t: TraitView)
    requires
        visited.len() == ir.traits.len(),
    ensures
        walk_law(ir, visited, check_trait(ir, visited, t), good_trait(ir, t)),
    decreases unvisited(visited), 5int, 0int,
{
    lemma_check_generics(ir, visited, t.generics, 0);
    let first = check_generics(ir, visited, t.generics, 0);
    if first.0 is None {
        lemma_check_func_tags(ir, first.1, t.func_tag, 0);
    }
}

/// The law of the walk, of functions.
pub proof fn lemma_check_functions(
    ir: IRView,
    visited: Seq<bool>,
    functions: Seq<(Seq<char>, FunctionView)>,
    from: int,
)
    requires
        visited.len() == ir.traits.len(),
        0 <= from,
    ensures
        walk_law(
            ir,
            visited,
            check_functions(ir, visited, functions, from),
            good_functions(ir, functions, from),
        ),
    decreases functions.len() - from,
{
    if from < functions.len() {
        lemma_check_generics(ir, visited, functions[from].1.tag.generics, 0);
        let first = check_generics(ir, visited, functions[from].1.tag.generics, 0);
        if first.0 is None {
            lemma_check_functions(ir, first.1, functions, from + 1);
            let r = check_functions(ir, first.1, functions, from + 1);
            if r.0 is None {
                assert forall|k: int| from <= k < functions.len() implies good_generics(
                    ir,
                    (#[trigger] functions[k]).1.tag.generics,
                    0,
                ) by {
                    if k > from {
                        assert(good_functions(ir, functions, from + 1));
                    }
                }
            } else if good_functions(ir, functions, from) {
                assert(good_functions(ir, functions, from + 1));
            }
        } else if good_functions(ir, functions, from) {
            assert(good_generics(ir, functions[from].1.tag.generics, 0));
        }
    }
}

/// The law of the walk, of an impl.
pub proof fn lemma_check_impl(ir: IRView, visited: Seq<bool>, i: ImplView)
    requires
        visited.len() == ir.traits.len(),
    ensures
        walk_law(ir, visited, check_impl(ir, visited, i), good_impl(ir, i)),
{
    lemma_check_generics(ir, visited, i.generics, 0);
    let first = check_generics(ir, visited, i.generics, 0);
    if first.0 is None {
        let second = match i.trait_to_impl {
            Some(t) => check_reference(ir, first.1, t.name, t.types_in_generics.len()),
            None => (None, first.1),
        };
        if let Some(t) = i.trait_to_impl {
            lemma_check_reference(ir, first.1, t.name, t.types_in_generics.len());
        }
        if second.0 is None {
            lemma_check_functions(ir, second.1, i.funcs, 0);
        }
    }
}

/// The structs from the `from`-th on have only good references.
pub open spec fn good_structs(ir: IRView, from: int) -> bool {
    forall|k: int|
        from <= k < ir.structs.len() && 0 <= k ==> good_generics(
            ir,
            (#[trigger] ir.structs[k]).1.generics,
            0,
        )
}

/// The enums from the `from`-th on have only good references.
pub open spec fn good_enums(ir: IRView, from: int) -> bool {
    forall|k: int|
        from <= k < ir.enums.len() && 0 <= k ==> good_generics(
            ir,
            (#[trigger] ir.enums[k]).1.generics,
            0,
        )
}

/// The impls from the `from`-th on have only good references.
pub open spec fn good_impls(ir: IRView, from: int) -> bool {
    forall|k: int| from <= k < ir.impls.len() && 0 <= k ==> good_impl(ir, #[trigger] ir.impls[k])
}

/// The law of the walk, of the structs.
pub proof fn lemma_check_structs(ir: IRView, visited: Seq<bool>, from: int)
    requires
        visited.len() == ir.traits.len(),
        0 <= from,
    ensures
        walk_law(ir, visited, check_structs(ir, visited, from), good_structs(ir, from)),
    decreases ir.structs.len() - from,
{
    if from < ir.structs.len() {
        lemma_check_generics(ir, visited, ir.structs[from].1.generics, 0);
        let first = check_generics(ir, visited, ir.structs[from].1.generics, 0);
        if first.0 is None {
            lemma_check_structs(ir, first.1, from + 1);
            let r = check_structs(ir, first.1, from + 1);
            if r.0 is None {
                assert forall|k: int| from <= k < ir.structs.len() implies good_generics(
                    ir,
                    (#[trigger] ir.structs[k]).1.generics,
                    0,
                ) by {
                    if k > from {
                        assert(good_structs(ir, from + 1));
                    }
                }
            } else if good_structs(ir, from) {
                assert(good_structs(ir, from + 1));
            }
        } else if good_structs(ir, from) {
            assert(good_generics(ir, ir.structs[from].1.generics, 0));
        }
    }
}

/// The law of the walk, of the enums.
pub proof fn lemma_check_enums(ir: IRView, visited: Seq<bool>, from: int)
    requires
        visited.len() == ir.traits.len(),
        0 <= from,
    ensures
        walk_law(ir, visited, check_enums(ir, visited, from), good_enums(ir, from)),
    decreases ir.enums.len() - from,
{
    if from < ir.enums.len() {
        lemma_check_generics(ir, visited, ir.enums[from].1.generics, 0);
        let first = check_generics(ir, visited, ir.enums[from].1.generics, 0);
        if first.0 is None {
            lemma_check_enums(ir, first.1, from + 1);
            let r = check_enums(ir, first.1, from + 1);
            if r.0 is None {
                assert forall|k: int| from <= k < ir.enums.len() implies good_generics(
                    ir,
                    (#[trigger] ir.enums[k]).1.generics,
                    0,
                ) by {
                    if k > from {
                        assert(good_enums(ir, from + 1));
                    }
                }
            } else if good_enums(ir, from) {
                assert(good_enums(ir, from + 1));
            }
        } else if good_enums(ir, from) {
            assert(good_generics(ir, ir.enums[from].1.generics, 0));
        }
    }
}

/// The law of the walk, of the impls.
pub proof fn lemma_check_impls(ir: IRView, visited: Seq<bool>, from: int)
    requires
        visited.len() == ir.traits.len(),
        0 <= from,
    ensures
        walk_law(ir, visited, check_impls(ir, visited, from), good_impls(ir, from)),
    decreases ir.impls.len() - from,
{
    if from < ir.impls.len() {
        lemma_check_impl(ir, visited, ir.impls[from]);
        let first = check_impl(ir, visited, ir.impls[from]);
        if first.0 is None {
            lemma_check_impls(ir, first.1, from + 1);
            let r = check_impls(ir, first.1, from + 1);
            if r.0 is None {
                assert forall|k: int| from <= k < ir.impls.len() implies good_impl(
                    ir,
                    #[trigger] ir.impls[k],
                ) by {
                    if k > from {
                        assert(good_impls(ir, from + 1));
                    }
                }
            } else if good_impls(ir, from) {
                assert(good_impls(ir, from + 1));
            }
        } else if good_impls(ir, from) {
            assert(good_impl(ir, ir.impls[from]));
        }
    }
}

/// The walk of the traits from the `from`-th on: the set of entered traits
/// only grows; an error says what is wrong; where there is none, every
/// trait from the `from`-th on is entered and every trait entered on the
/// way is good; and where all traits are good, there is none.
pub proof fn lemma_check_traits(ir: IRView, visited: Seq<bool>, from: int)
    requires
        visited.len() == ir.traits.len(),
        0 <= from,
    ensures
        ({
            let r = check_traits(ir, visited, from);
            &&& entered_more(visited, r.1)
            &&& sound_error(ir, r.0)
            &&& r.0 is None ==> newly_good(ir, visited, r.1) && forall|j: int|
                from <= j < ir.traits.len() ==> r.1[j]
            &&& good_traits(ir, 0) ==> r.0 is None
        }),
    decreases ir.traits.len() - from,
{
    if from < ir.traits.len() {
        if visited[from] {
            lemma_check_traits(ir, visited, from + 1);
        } else {
            let entered = visited.update(from, true);
            lemma_unvisited_update(visited, from);
            lemma_check_trait(ir, entered, ir.traits[from].1);
            let first = check_trait(ir, entered, ir.traits[from].1);
            if good_traits(ir, 0) {
                assert(good_trait(ir, ir.traits[from].1));
            }
            if first.0 is None {
                lemma_check_traits(ir, first.1, from + 1);
                let r = check_traits(ir, first.1, from + 1);
                if r.0 is None {
                    assert(entered[from]);
                    assert(first.1[from]);
                    assert forall|j: int|
                        0 <= j < r.1.len() && j < ir.traits.len() && r.1[j]
                            && !visited[j] implies good_trait(ir, (#[trigger] ir.traits[j]).1) by {
                        if j != from {
                            assert(!entered[j]);
                        }
                    }
                }
            }
        }
    }
}

/// A lowered program is valid exactly where every bound of a generic
/// parameter and every trait that an impl implements names a declared
/// trait and gives it as many types as it has generic parameters. An
/// error of the validation names a trait that is not declared, or a
/// declared trait with its number of generic parameters and another number
/// of types that a reference gives it.
pub proof fn lemma_validation(ir: IRView)
    ensures
        validation_error(ir) is None <==> all_good(ir),
        sound_error(ir, validation_error(ir)),
{
    let start = none_entered(ir.traits.len());
    lemma_check_structs(ir, start, 0);
    let structs = check_structs(ir, start, 0);
    assert(all_good(ir) ==> good_structs(ir, 0) && good_enums(ir, 0) && good_impls(ir, 0));
    if structs.0 is None {
        lemma_check_enums(ir, structs.1, 0);
        let enums = check_enums(ir, structs.1, 0);
        if enums.0 is None {
            lemma_check_traits(ir, enums.1, 0);
            let traits = check_traits(ir, enums.1, 0);
            if traits.0 is None {
                assert forall|k: int| 0 <= k < ir.traits.len() implies good_trait(
                    ir,
                    (#[trigger] ir.traits[k]).1,
                ) by {
                    assert(traits.1[k]);
                    assert(!start[k]);
                    if enums.1[k] {
                        if !structs.1[k] {
                        }
                    }
                }
                lemma_check_impls(ir, traits.1, 0);
                let impls = check_impls(ir, traits.1, 0);
                if impls.0 is None {
                    lemma_check_functions(ir, impls.1, ir.function, 0);
                }
            }
        }
    }
}

// ---------------------------------------------------------------------------
// The validator
// ---------------------------------------------------------------------------

/// The state of one walk: the scopes of visible generic parameters,
/// innermost last, and the traits that the walk has entered.
pub struct IRValidator {
    current_generics: Vec<Vec<String>>,
    valid_traits: Vec<bool>,
}

/// The outcome of a part of the walk, from what the validator returned and
/// the traits that it has entered.
pub open spec fn outcome(res: Result<(), CompileError>, visited: Seq<bool>) -> Checked {
    (
        match res {
            Ok(_) => None,
            Err(e) => Some(e@),
        },
        visited,
    )
}

/// What every step of the walk promises, but for its scopes: the set of
/// entered traits keeps its size and only grows, and the outcome is that
/// of the model.
pub open spec fn walked(
    before: IRValidator,
    after: IRValidator,
    res: Result<(), CompileError>,
    want: Checked,
) -> bool {
    &&& after.visited().len() == before.visited().len()
    &&& unvisited(after.visited()) <= unvisited(before.visited())
    &&& outcome(res, after.visited()) == want
}

impl IRValidator {
    /// The traits that the walk has entered, by their index.
    pub closed spec fn visited(&self) -> Seq<bool> {
        self.valid_traits@
    }

    /// The scopes of visible generic parameters, innermost last.
    pub closed spec fn scopes(&self) -> Seq<Seq<Seq<char>>> {
        self.current_generics@.map_values(|frame: Vec<String>| string_views(frame@))
    }

    /// A validator for `ir` that has entered no trait and has one scope
    /// with no name in it.
    pub fn new(ir: &IR) -> (v: IRValidator)
        ensures
            v.visited() == none_entered(ir@.traits.len()),
            v.scopes() == seq![Seq::<Seq<char>>::empty()],
    {
        let mut valid_traits: Vec<bool> = Vec::new();
        let mut i: usize = 0;
        while i < ir.traits.len()
            invariant
                i <= ir.traits.len(),
                valid_traits.len() == i,
                forall|j: int| 0 <= j < i ==> !valid_traits[j],
            decreases ir.traits.len() - i,
        {
            valid_traits.push(false);
            i = i + 1;
        }
        let mut current_generics: Vec<Vec<String>> = Vec::new();
        current_generics.push(Vec::new());
        let v = IRValidator { current_generics, valid_traits };
        assert(v.visited() =~= none_entered(ir@.traits.len()));
        assert(v.scopes()[0] =~= Seq::<Seq<char>>::empty());
        assert(v.scopes() =~= seq![Seq::<Seq<char>>::empty()]);
        v
    }

    /// Validates `ir`: `Ok` where every bound of a generic parameter and
    /// every trait that an impl implements names a declared trait and gives
    /// it as many types as it has generic parameters; else the first error
    /// of the walk.
    pub fn validate(ir: &IR) -> (res: Result<(), CompileError>)
        ensures
            res is Ok <==> all_good(ir@),
            match res {
                Ok(_) => validation_error(ir@) is None,
                Err(e) => validation_error(ir@) == Some(e@) && sound_error(ir@, Some(e@)),
            },
    {
        proof {
            lemma_validation(ir@);
        }
        IRValidator::walk(ir)
    }

    /// Walks `ir` and reports the first error.
    fn walk(ir: &IR) -> (res: Result<(), CompileError>)
        ensures
            match res {
                Ok(_) => validation_error(ir@) is None,
                Err(e) => validation_error(ir@) == Some(e@),
            },
    {
        let mut validator = IRValidator::new(ir);
        let ghost start = validator.visited();
        let mut i: usize = 0;
        while i < ir.structs.len()
            invariant
                i <= ir.structs.len(),
                validator.visited().len() == ir.traits.len(),
                validator.scopes().len() > 0,
                start == none_entered(ir@.traits.len()),
                check_structs(ir@, start, 0) == check_structs(ir@, validator.visited(), i as int),
            decreases ir.structs.len() - i,
        {
            assert(ir@.structs[i as int].1 == ir.structs[i as int].1@);
            validator.validate_struct(ir, &ir.structs[i].1)?;
            i = i + 1;
        }
        let ghost after_structs = validator.visited();
        let mut i: usize = 0;
        while i < ir.enums.len()
            invariant
                i <= ir.enums.len(),
                validator.visited().len() == ir.traits.len(),
                validator.scopes().len() > 0,
                start == none_entered(ir@.traits.len()),
                check_structs(ir@, start, 0) == (None::<CompileErrorView>, after_structs),
                check_enums(ir@, after_structs, 0) == check_enums(
                    ir@,
                    validator.visited(),
                    i as int,
                ),
            decreases ir.enums.len() - i,
        {
            assert(ir@.enums[i as int].1 == ir.enums[i as int].1@);
            validator.validate_enum(ir, &ir.enums[i].1)?;
            i = i + 1;
        }
        let ghost after_enums = validator.visited();
        let mut i: usize = 0;
        while i < ir.traits.len()
            invariant
                i <= ir.traits.len(),
                validator.visited().len() == ir.traits.len(),
                validator.scopes().len() > 0,
                start == none_entered(ir@.traits.len()),
                check_structs(ir@, start, 0) == (None::<CompileErrorView>, after_structs),
                check_enums(ir@, after_structs, 0) == (None::<CompileErrorView>, after_enums),
                check_traits(ir@, after_enums, 0) == check_traits(
                    ir@,
                    validator.visited(),
                    i as int,
                ),
            decreases ir.traits.len() - i,
        {
            if !validator.valid_traits[i] {
                proof {
                    lemma_unvisited_update(validator.visited(), i as int);
                }
                validator.valid_traits.set(i, true);
                validator.validate_trait(ir, i)?;
            }
            i = i + 1;
        }
        let ghost after_traits = validator.visited();
        let mut i: usize = 0;
        while i < ir.impls.len()
            invariant
                i <= ir.impls.len(),
                validator.visited().len() == ir.traits.len(),
                validator.scopes().len() > 0,
                start == none_entered(ir@.traits.len()),
                check_structs(ir@, start, 0) == (None::<CompileErrorView>, after_structs),
                check_enums(ir@, after_structs, 0) == (None::<CompileErrorView>, after_enums),
                check_traits(ir@, after_enums, 0) == (None::<CompileErrorView>, after_traits),
                check_impls(ir@, after_traits, 0) == check_impls(
                    ir@,
                    validator.visited(),
                    i as int,
                ),
            decreases ir.impls.len() - i,
        {
            assert(ir@.impls[i as int] == ir.impls[i as int]@);
            validator.validate_impl(ir, &ir.impls[i])?;
            i = i + 1;
        }
        validator.validate_functions(ir, &ir.function)
    }

    /// Opens a scope for the generic parameters of a struct, an enum, a
    /// trait, an impl or a function. Every step of the walk that opens a
    /// scope closes it again before it returns, whether it found an error
    /// or not.
    pub fn new_type_generics_to_check(&mut self)
        ensures
            final(self).visited() == old(self).visited(),
            final(self).scopes() == old(self).scopes().push(Seq::empty()),
    {
        self.current_generics.push(Vec::new());
        assert(self.scopes() =~= old(self).scopes().push(Seq::empty())) by {
            assert(self.scopes()[self.scopes().len() - 1] =~= Seq::<Seq<char>>::empty());
        }
    }

    /// Closes the innermost scope.
    pub fn close_type_generics(&mut self)
        requires
            old(self).scopes().len() > 0,
        ensures
            final(self).visited() == old(self).visited(),
            final(self).scopes() == old(self).scopes().drop_last(),
    {
        self.current_generics.pop();
        assert(self.scopes() =~= old(self).scopes().drop_last());
    }

    /// Makes the name of `generic` visible in the innermost scope.
    pub fn add_generic(&mut self, generic: &Generic)
        requires
            old(self).scopes().len() > 0,
        ensures
            final(self).visited() == old(self).visited(),
            final(self).scopes() == with_name(old(self).scopes(), generic@.name),
    {
        let mut frame = self.current_generics.pop().unwrap();
        let ghost names = string_views(frame@);
        frame.push(generic.name.clone());
        assert(string_views(frame@) =~= names.push(generic@.name));
        self.current_generics.push(frame);
        assert(self.scopes() =~= with_name(old(self).scopes(), generic@.name));
    }

    /// Validates generic parameters in a scope of their own, which is
    /// closed again whatever comes of it.
    fn validate_scoped(&mut self, ir: &IR, generics: &Vec<Generic>) -> (res: Result<
        (),
        CompileError,
    >)
        requires
            old(self).visited().len() == ir.traits.len(),
        ensures
            walked(
                *old(self),
                *final(self),
                res,
                check_generics(ir@, old(self).visited(), generic_views(generics@), 0),
            ),
            final(self).scopes() == old(self).scopes(),
        decreases unvisited(old(self).visited()), 3int, generics.len() + 1,
    {
        self.new_type_generics_to_check();
        let res = self.validate_generics(ir, generics);
        self.close_type_generics();
        assert(self.scopes() =~= old(self).scopes());
        res
    }

    /// Validates a struct: its generic parameters, in a scope of their own.
    fn validate_struct(&mut self, ir: &IR, struct_: &Struct) -> (res: Result<
        (),
        CompileError,
    >)
        requires
            old(self).visited().len() == ir.traits.len(),
        ensures
            walked(
                *old(self),
                *final(self),
                res,
                check_generics(ir@, old(self).visited(), struct_@.generics, 0),
            ),
            final(self).scopes() == old(self).scopes(),
    {
        self.validate_scoped(ir, &struct_.generics)
    }

    /// Validates an enum: its generic parameters, in a scope of their own.
    fn validate_enum(&mut self, ir: &IR, enum_: &Enum) -> (res: Result<(), CompileError>)
        requires
            old(self).visited().len() == ir.traits.len(),
        ensures
            walked(
                *old(self),
                *final(self),
                res,
                check_generics(ir@, old(self).visited(), enum_@.generics, 0),
            ),
            final(self).scopes() == old(self).scopes(),
    {
        self.validate_scoped(ir, &enum_.generics)
    }

    /// Validates an impl: its generic parameters, the trait that it
    /// implements, and its functions, in a scope of its own.
    fn validate_impl(&mut self, ir: &IR, impl_: &Impl) -> (res: Result<(), CompileError>)
        requires
            old(self).visited().len() == ir.traits.len(),
        ensures
            walked(*old(self), *final(self), res, check_impl(ir@, old(self).visited(), impl_@)),
            final(self).scopes() == old(self).scopes(),
    {
        self.new_type_generics_to_check();
        let res = match self.validate_generics(ir, &impl_.generics) {
            Err(e) => Err(e),
            Ok(_) => {
                let named = match &impl_.trait_to_impl {
                    Some(t) => {
                        assert(t@.types_in_generics == type_views(t.types_in_generics@));
                        self.validate_reference(ir, &t.name, t.types_in_generics.len())
                    },
                    None => Ok(()),
                };
                match named {
                    Err(e) => Err(e),
                    Ok(_) => self.validate_functions(ir, &impl_.funcs),
                }
            },
        };
        self.close_type_generics();
        assert(self.scopes() =~= old(self).scopes());
        res
    }

    /// Validates functions in order, each by the generic parameters of its
    /// signature, in a scope of its own.
    fn validate_functions(&mut self, ir: &IR, functions: &Vec<(String, Function)>) -> (res:
        Result<(), CompileError>)
        requires
            old(self).visited().len() == ir.traits.len(),
        ensures
            walked(
                *old(self),
                *final(self),
                res,
                check_functions(ir@, old(self).visited(), function_entries(functions@), 0),
            ),
            final(self).scopes() == old(self).scopes(),
    {
        let ghost all = function_entries(functions@);
        let mut i: usize = 0;
        while i < functions.len()
            invariant
                i <= functions.len(),
                all == function_entries(functions@),
                self.visited().len() == ir.traits.len(),
                self.visited().len() == old(self).visited().len(),
                unvisited(self.visited()) <= unvisited(old(self).visited()),
                self.scopes() == old(self).scopes(),
                check_functions(ir@, old(self).visited(), all, 0) == check_functions(
                    ir@,
                    self.visited(),
                    all,
                    i as int,
                ),
            decreases functions.len() - i,
        {
            assert(all[i as int].1.tag.generics == generic_views(
                functions[i as int].1.tag.generics@,
            ));
            self.validate_scoped(ir, &functions[i].1.tag.generics)?;
            i = i + 1;
        }
        Ok(())
    }

    /// Validates generic parameters in order, and makes each visible after
    /// its bounds are validated. Only the innermost scope changes.
    fn validate_generics(&mut self, ir: &IR, generics: &Vec<Generic>) -> (res: Result<
        (),
        CompileError,
    >)
        requires
            old(self).visited().len() == ir.traits.len(),
            old(self).scopes().len() > 0,
        ensures
            walked(
                *old(self),
                *final(self),
                res,
                check_generics(ir@, old(self).visited(), generic_views(generics@), 0),
            ),
            final(self).scopes().len() == old(self).scopes().len(),
            final(self).scopes().drop_last() == old(self).scopes().drop_last(),
            res is Ok ==> final(self).scopes() == with_names(
                old(self).scopes(),
                generic_views(generics@),
                0,
                generics.len() as int,
            ),
        decreases unvisited(old(self).visited()), 3int, generics.len(),
    {
        let ghost all = generic_views(generics@);
        let mut i: usize = 0;
        while i < generics.len()
            invariant
                i <= generics.len(),
                all == generic_views(generics@),
                self.visited().len() == ir.traits.len(),
                self.visited().len() == old(self).visited().len(),
                unvisited(self.visited()) <= unvisited(old(self).visited()),
                old(self).scopes().len() > 0,
                self.scopes() == with_names(old(self).scopes(), all, 0, i as int),
                check_generics(ir@, old(self).visited(), all, 0) == check_generics(
                    ir@,
                    self.visited(),
                    all,
                    i as int,
                ),
            decreases generics.len() - i,
        {
            assert(all[i as int] == generics[i as int]@);
            proof {
                lemma_with_names_shape(old(self).scopes(), all, 0, i as int);
                lemma_with_names_shape(old(self).scopes(), all, 0, i as int + 1);
            }
            self.validate_generic(ir, &generics[i])?;
            i = i + 1;
        }
        proof {
            lemma_with_names_shape(old(self).scopes(), all, 0, generics.len() as int);
        }
        Ok(())
    }

    /// Validates a generic parameter: its bounds in order, and then makes
    /// its name visible. Where a bound is not valid, no name is made
    /// visible.
    fn validate_generic(&mut self, ir: &IR, generic: &Generic) -> (res: Result<
        (),
        CompileError,
    >)
        requires
            old(self).visited().len() == ir.traits.len(),
            old(self).scopes().len() > 0,
        ensures
            walked(
                *old(self),
                *final(self),
                res,
                check_constraints(ir@, old(self).visited(), generic@.constraits, 0),
            ),
            final(self).scopes() == if res is Ok {
                with_name(old(self).scopes(), generic@.name)
            } else {
                old(self).scopes()
            },
        decreases unvisited(old(self).visited()), 2int, 0int,
    {
        let ghost all = generic@.constraits;
        let mut i: usize = 0;
        while i < generic.constraits.len()
            invariant
                i <= generic.constraits.len(),
                all == trait_type_views(generic.constraits@),
                self.visited().len() == ir.traits.len(),
                self.visited().len() == old(self).visited().len(),
                unvisited(self.visited()) <= unvisited(old(self).visited()),
                self.scopes() == old(self).scopes(),
                check_constraints(ir@, old(self).visited(), all, 0) == check_constraints(
                    ir@,
                    self.visited(),
                    all,
                    i as int,
                ),
            decreases generic.constraits.len() - i,
        {
            assert(all[i as int] == generic.constraits[i as int]@);
            self.validate_trait_type(ir, &generic.constraits[i])?;
            i = i + 1;
        }
        self.add_generic(generic);
        Ok(())
    }

    /// Validates a reference to a trait.
    fn validate_trait_type(&mut self, ir: &IR, trait_: &TraitType) -> (res: Result<
        (),
        CompileError,
    >)
        requires
            old(self).visited().len() == ir.traits.len(),
        ensures
            walked(
                *old(self),
                *final(self),
                res,
                check_reference(
                    ir@,
                    old(self).visited(),
                    trait_@.name,
                    trait_@.types_in_generics.len(),
                ),
            ),
            final(self).scopes() == old(self).scopes(),
        decreases unvisited(old(self).visited()), 1int, 1int,
    {
        assert(trait_@.types_in_generics == type_views(trait_.types_in_generics@));
        self.validate_reference(ir, &trait_.name, trait_.types_in_generics.len())
    }

    /// Validates a reference to the trait `name` with `given` types: the
    /// trait must be declared and have `given` generic parameters. A trait
    /// that is referred to for the first time is entered and validated.
    fn validate_reference(&mut self, ir: &IR, name: &String, given: usize) -> (res: Result<
        (),
        CompileError,
    >)
        requires
            old(self).visited().len() == ir.traits.len(),
        ensures
            walked(
                *old(self),
                *final(self),
                res,
                check_reference(ir@, old(self).visited(), name@, given as nat),
            ),
            final(self).scopes() == old(self).scopes(),
        decreases unvisited(old(self).visited()), 1int, 0int,
    {
        let found = position_of(&ir.traits, name);
        proof {
            let entries = ir@.traits;
            let at = match found {
                Some(i) => i as int,
                None => entries.len() as int,
            };
            assert forall|j: int| 0 <= j < at && j < entries.len() implies (#[trigger] entries[j]).0
                != name@ by {
                assert(entries[j].0 == ir.traits[j].0@);
            }
            if at < entries.len() {
                assert(entries[at].0 == ir.traits[at].0@);
            }
            lemma_name_index(entries, name@, 0, at);
        }
        match found {
            None => Err(CompileError::NoTraitWithThatNameFound(name.clone())),
            Some(i) => {
                let wanted = ir.traits[i].1.generics.len();
                assert(ir@.traits[i as int].1 == ir.traits[i as int].1@);
                assert(ir@.traits[i as int].1.generics.len() == wanted);
                if wanted != given {
                    Err(
                        CompileError::NumberOfGenericsAndTypesGivenDoNotMatchInItem(
                            name.clone(),
                            wanted,
                            given,
                        ),
                    )
                } else if self.valid_traits[i] {
                    Ok(())
                } else {
                    proof {
                        lemma_unvisited_update(self.visited(), i as int);
                    }
                    self.valid_traits.set(i, true);
                    self.validate_trait(ir, i)
                }
            },
        }
    }

    /// Validates the trait at `index`, which the walk has just entered: its
    /// generic parameters and its signatures, in a scope of its own.
    fn validate_trait(&mut self, ir: &IR, index: usize) -> (res: Result<(), CompileError>)
        requires
            old(self).visited().len() == ir.traits.len(),
            index < ir.traits.len(),
        ensures
            walked(
                *old(self),
                *final(self),
                res,
                check_trait(ir@, old(self).visited(), ir@.traits[index as int].1),
            ),
            final(self).scopes() == old(self).scopes(),
        decreases unvisited(old(self).visited()), 5int, 0int,
    {
        assert(ir@.traits[index as int].1 == ir.traits[index as int].1@);
        self.new_type_generics_to_check();
        let res = match self.validate_generics(ir, &ir.traits[index].1.generics) {
            Err(e) => Err(e),
            Ok(_) => self.validate_func_tags(ir, &ir.traits[index].1.func_tag),
        };
        self.close_type_generics();
        assert(self.scopes() =~= old(self).scopes());
        res
    }

    /// Validates signatures in order, each by its generic parameters, in a
    /// scope of its own.
    fn validate_func_tags(&mut self, ir: &IR, tags: &Vec<(String, FuncTag)>) -> (res: Result<
        (),
        CompileError,
    >)
        requires
            old(self).visited().len() == ir.traits.len(),
        ensures
            walked(
                *old(self),
                *final(self),
                res,
                check_func_tags(ir@, old(self).visited(), func_tag_entries(tags@), 0),
            ),
            final(self).scopes() == old(self).scopes(),
        decreases unvisited(old(self).visited()), 4int, tags.len(),
    {
        let ghost all = func_tag_entries(tags@);
        let mut i: usize = 0;
        while i < tags.len()
            invariant
                i <= tags.len(),
                all == func_tag_entries(tags@),
                self.visited().len() == ir.traits.len(),
                self.visited().len() == old(self).visited().len(),
                unvisited(self.visited()) <= unvisited(old(self).visited()),
                self.scopes() == old(self).scopes(),
                check_func_tags(ir@, old(self).visited(), all, 0) == check_func_tags(
                    ir@,
                    self.visited(),
                    all,
                    i as int,
                ),
            decreases tags.len() - i,
        {
            assert(all[i as int].1.generics == generic_views(tags[i as int].1.generics@));
            self.validate_scoped(ir, &tags[i].1.generics)?;
            i = i + 1;
        }
        Ok(())
    }
}

} // verus!
