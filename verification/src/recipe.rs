//! Work as a list of named steps: a first step that takes the ingredients,
//! and steps that each take what the step before gave. Steps are found,
//! replaced and removed by their names.

use crate::text::same_text;
use vstd::prelude::*;
use vstd::string::StringExecFns;

verus! {

/// What can be run on an argument.
pub trait Runnable<Arg, Return> {
    /// Whether it can be run on `arg`.
    spec fn may_run(&self, arg: Arg) -> bool;

    /// Whether running it on `arg` can give `returned`.
    spec fn runs_to(&self, arg: Arg, returned: Return) -> bool;

    /// Runs it on `arg`.
    fn run(&self, arg: Arg) -> (returned: Return)
        requires
            self.may_run(arg),
        ensures
            self.runs_to(arg, returned),
    ;
}

/// A function is run by calling it.
impl<Closure, Arg, Return> Runnable<Arg, Return> for Closure where Closure: Fn(Arg) -> Return {
    open spec fn may_run(&self, arg: Arg) -> bool {
        self.requires((arg,))
    }

    open spec fn runs_to(&self, arg: Arg, returned: Return) -> bool {
        self.ensures((arg,), returned)
    }

    fn run(&self, arg: Arg) -> (returned: Return) {
        self(arg)
    }
}

/// A named action.
#[derive(Clone)]
pub struct Step<Action>(String, Action);

impl<Action> Step<Action> {
    /// The name of the step.
    pub closed spec fn alias(&self) -> Seq<char> {
        self.0@
    }

    /// What the step does.
    pub closed spec fn act(&self) -> Action {
        self.1
    }

    /// The step that does `closure` under the name `alias`.
    pub fn action(alias: &str, closure: Action) -> (step: Self)
        ensures
            step.alias() == alias@,
            step.act() == closure,
    {
        Step(String::from_str(alias), closure)
    }

    /// The name of the step.
    pub fn name(&self) -> (alias: &str)
        ensures
            alias@ == self.alias(),
    {
        self.0.as_str()
    }
}

/// A step is run by running what it does.
impl<Input, Output, Action: Runnable<Input, Output>> Runnable<Input, Output> for Step<Action> {
    open spec fn may_run(&self, arg: Input) -> bool {
        self.act().may_run(arg)
    }

    open spec fn runs_to(&self, arg: Input, returned: Output) -> bool {
        self.act().runs_to(arg, returned)
    }

    fn run(&self, arg: Input) -> (returned: Output) {
        self.1.run(arg)
    }
}

/// Work as a first step and the steps that follow it, in order.
#[derive(Clone)]
pub struct Recipe<Initial, Action> {
    pub initial_step: Step<Initial>,
    pub steps: Vec<Step<Action>>,
}

/// Whether `steps[i]` is the first step with the given name.
pub open spec fn is_first_with<Action>(steps: Seq<Step<Action>>, i: int, alias: Seq<char>) -> bool {
    &&& 0 <= i < steps.len()
    &&& steps[i].alias() == alias
    &&& forall|j: int| 0 <= j < i ==> (#[trigger] steps[j]).alias() != alias
}

/// Whether no step has the given name.
pub open spec fn none_with<Action>(steps: Seq<Step<Action>>, alias: Seq<char>) -> bool {
    forall|j: int| 0 <= j < steps.len() ==> (#[trigger] steps[j]).alias() != alias
}

/// The arrow that stands behind the name of a step.
pub open spec fn arrow() -> Seq<char> {
    " → "@
}

/// The names of `steps`, in order, each followed by an arrow.
pub open spec fn chain<Action>(steps: Seq<Step<Action>>) -> Seq<char>
    decreases steps.len(),
{
    if steps.len() == 0 {
        Seq::<char>::empty()
    } else {
        chain(steps.drop_last()) + steps.last().alias() + arrow()
    }
}

impl<Initial, Action> Recipe<Initial, Action> {
    /// Where the first step with the given name is.
    pub fn position(&self, alias: &str) -> (found: Option<usize>)
        ensures
            match found {
                Some(i) => is_first_with(self.steps@, i as int, alias@),
                None => none_with(self.steps@, alias@),
            },
    {
        let mut i: usize = 0;
        while i < self.steps.len()
            invariant
                i <= self.steps.len(),
                forall|j: int| 0 <= j < i ==> (#[trigger] self.steps@[j]).alias() != alias@,
            decreases self.steps.len() - i,
        {
            if same_text(self.steps[i].name(), alias) {
                return Some(i);
            }
            i += 1;
        }
        None
    }

    /// The recipe that begins with `action` under the name `alias` and has
    /// no further steps.
    pub fn initially(alias: &str, action: Initial) -> (recipe: Self)
        ensures
            recipe.initial_step.alias() == alias@,
            recipe.initial_step.act() == action,
            recipe.steps@ == Seq::<Step<Action>>::empty(),
    {
        Recipe { initial_step: Step::action(alias, action), steps: Vec::new() }
    }

    /// The recipe with one more step at its end.
    pub fn then(self, alias: &str, action: Action) -> (recipe: Self)
        ensures
            recipe.initial_step == self.initial_step,
            recipe.steps@.len() == self.steps@.len() + 1,
            recipe.steps@.drop_last() == self.steps@,
            recipe.steps@.last().alias() == alias@,
            recipe.steps@.last().act() == action,
    {
        let mut recipe = self;
        recipe.steps.push(Step::action(alias, action));
        assert(recipe.steps@.drop_last() =~= self.steps@);
        recipe
    }

    /// Puts `action` in the place of the first step called `alias`, under
    /// the same name. A recipe without such a step stays as it is.
    pub fn replace_first(&mut self, alias: &str, action: Action) -> (recipe: &mut Self)
        ensures
            *final(self) == *final(recipe),
            recipe.initial_step == old(self).initial_step,
            recipe.steps@.len() == old(self).steps@.len(),
            forall|i: int|
                0 <= i < recipe.steps@.len() && !is_first_with(old(self).steps@, i, alias@)
                    ==> #[trigger] recipe.steps@[i] == old(self).steps@[i],
            forall|i: int|
                is_first_with(old(self).steps@, i, alias@) ==> (#[trigger] recipe.steps@[i]).alias()
                    == alias@ && recipe.steps@[i].act() == action,
    {
        match self.position(alias) {
            Some(index) => {
                self.steps.set(index, Step::action(alias, action));
            },
            None => {},
        }
        self
    }

    /// Puts a copy of `action` in the place of every step called `alias`,
    /// under the same name.
    pub fn replace(&mut self, alias: &str, action: Action) -> (recipe: &mut Self) where
        Action: Clone,

        ensures
            *final(self) == *final(recipe),
            recipe.initial_step == old(self).initial_step,
            recipe.steps@.len() == old(self).steps@.len(),
            forall|i: int|
                0 <= i < recipe.steps@.len() && old(self).steps@[i].alias() != alias@
                    ==> #[trigger] recipe.steps@[i] == old(self).steps@[i],
            forall|i: int|
                0 <= i < recipe.steps@.len() && old(self).steps@[i].alias() == alias@ ==> (
                #[trigger] recipe.steps@[i]).alias() == alias@ && cloned(
                    action,
                    recipe.steps@[i].act(),
                ),
    {
        let ghost before = self.steps@;
        let mut i: usize = 0;
        while i < self.steps.len()
            invariant
                i <= self.steps.len(),
                self.initial_step == old(self).initial_step,
                before == old(self).steps@,
                self.steps@.len() == before.len(),
                forall|k: int| i <= k < before.len() ==> #[trigger] self.steps@[k] == before[k],
                forall|k: int|
                    0 <= k < i && before[k].alias() != alias@ ==> #[trigger] self.steps@[k]
                        == before[k],
                forall|k: int|
                    0 <= k < i && before[k].alias() == alias@ ==> (#[trigger] self.steps@[k]).alias()
                        == alias@ && cloned(action, self.steps@[k].act()),
            decreases self.steps.len() - i,
        {
            if same_text(self.steps[i].name(), alias) {
                self.steps.set(i, Step::action(alias, action.clone()));
            }
            i += 1;
        }
        self
    }

    /// Puts `action` in the place of what the first step does; the step
    /// keeps its name.
    pub fn replace_initial(&mut self, action: Initial) -> (recipe: &mut Self)
        ensures
            *final(self) == *final(recipe),
            recipe.initial_step.alias() == old(self).initial_step.alias(),
            recipe.initial_step.act() == action,
            recipe.steps == old(self).steps,
    {
        let alias = self.initial_step.0.clone();
        self.initial_step = Step(alias, action);
        self
    }

    /// Takes out the first step called `alias`. A recipe without such a
    /// step stays as it is.
    pub fn remove_first(&mut self, alias: &str) -> (recipe: &mut Self)
        ensures
            *final(self) == *final(recipe),
            recipe.initial_step == old(self).initial_step,
            none_with(old(self).steps@, alias@) ==> recipe.steps@ == old(self).steps@,
            forall|i: int|
                is_first_with(old(self).steps@, i, alias@) ==> recipe.steps@ == old(
                    self,
                ).steps@.remove(i),
    {
        match self.position(alias) {
            Some(index) => {
                self.steps.remove(index);
            },
            None => {},
        }
        self
    }

    /// Takes out every step called `alias`; the others stay, in their
    /// order.
    pub fn remove(&mut self, alias: &str) -> (recipe: &mut Self)
        ensures
            *final(self) == *final(recipe),
            recipe.initial_step == old(self).initial_step,
            recipe.steps@ == old(self).steps@.filter(|step: Step<Action>| step.alias() != alias@),
    {
        let ghost before = self.steps@;
        let ghost keep = |step: Step<Action>| step.alias() != alias@;
        let ghost mut seen: int = 0;
        let mut i: usize = 0;
        proof {
            reveal(Seq::filter);
            assert(before.take(0) =~= Seq::<Step<Action>>::empty());
            assert(self.steps@.take(0) =~= Seq::<Step<Action>>::empty());
        }
        while i < self.steps.len()
            invariant
                i <= self.steps.len(),
                self.initial_step == old(self).initial_step,
                before == old(self).steps@,
                keep == (|step: Step<Action>| step.alias() != alias@),
                i <= seen <= before.len(),
                self.steps@.len() - i == before.len() - seen,
                self.steps@.take(i as int) == before.take(seen).filter(keep),
                self.steps@.skip(i as int) == before.skip(seen),
            decreases self.steps.len() - i,
        {
            proof {
                reveal(Seq::filter);
                assert(before.take(seen + 1).drop_last() =~= before.take(seen));
                assert(before.take(seen + 1).last() == before[seen]);
                assert(self.steps@[i as int] == self.steps@.skip(i as int)[0]);
                assert(before[seen] == before.skip(seen)[0]);
            }
            let ghost now = self.steps@;
            if same_text(self.steps[i].name(), alias) {
                self.steps.remove(i);
                proof {
                    assert(self.steps@.take(i as int) =~= now.take(i as int));
                    assert(self.steps@.skip(i as int) =~= now.skip(i as int).skip(1));
                    assert(before.skip(seen + 1) =~= before.skip(seen).skip(1));
                }
            } else {
                i += 1;
                proof {
                    assert(now.take(i as int) =~= now.take(i - 1).push(now[i - 1]));
                    assert(now.skip(i as int) =~= now.skip(i - 1).skip(1));
                    assert(before.skip(seen + 1) =~= before.skip(seen).skip(1));
                }
            }
            proof {
                seen = seen + 1;
            }
        }
        proof {
            assert(before.skip(seen).len() == 0);
            assert(before.take(seen) =~= before);
            assert(self.steps@.take(i as int) =~= self.steps@);
        }
        self
    }

    /// The names of the steps, in order, each followed by an arrow.
    pub fn describe(&self) -> (text: String)
        ensures
            text@ == "Step: "@ + self.initial_step.alias() + arrow() + chain(self.steps@),
    {
        let mut text = String::from_str("Step: ");
        text.append(self.initial_step.name());
        text.append(" → ");
        let ghost head = text@;
        let mut i: usize = 0;
        proof {
            assert(self.steps@.take(0) =~= Seq::<Step<Action>>::empty());
        }
        while i < self.steps.len()
            invariant
                i <= self.steps.len(),
                text@ == head + chain(self.steps@.take(i as int)),
            decreases self.steps.len() - i,
        {
            proof {
                let done = self.steps@.take(i + 1);
                assert(done.drop_last() =~= self.steps@.take(i as int));
                assert(done.last() == self.steps@[i as int]);
            }
            text.append(self.steps[i].name());
            text.append(" → ");
            i += 1;
        }
        proof {
            assert(self.steps@.take(i as int) =~= self.steps@);
        }
        text
    }

    /// The first step called `alias`, if the recipe has one.
    pub fn get(&self, alias: &str) -> (found: Option<&Step<Action>>)
        ensures
            match found {
                Some(step) => exists|i: int|
                    is_first_with(self.steps@, i, alias@) && *step == #[trigger] self.steps@[i],
                None => none_with(self.steps@, alias@),
            },
    {
        match self.position(alias) {
            Some(index) => Some(&self.steps[index]),
            None => None,
        }
    }

    /// A copy of the first step called `alias`; where the recipe has no
    /// step of that name, the step called `identity` that does `identity`.
    /// With an action that gives back what it is given, running the result
    /// changes nothing where the name is not known.
    pub fn get_or_identity(&self, alias: &str, identity: Action) -> (step: Step<Action>) where
        Action: Clone,

        ensures
            none_with(self.steps@, alias@) ==> step.alias() == "identity"@ && step.act()
                == identity,
            forall|i: int|
                is_first_with(self.steps@, i, alias@) ==> step.alias() == alias@ && cloned(
                    self.steps@[i].act(),
                    step.act(),
                ),
    {
        match self.position(alias) {
            Some(index) => Step(self.steps[index].0.clone(), self.steps[index].1.clone()),
            None => Step::action("identity", identity),
        }
    }

    /// The first step called `alias`, or `fallback` where the recipe has no
    /// step of that name. With a step that gives back what it is given as
    /// the fallback, running the result changes nothing where the name is
    /// not known.
    pub fn get_or<'b>(&'b self, alias: &str, fallback: &'b Step<Action>) -> (found: &'b Step<
        Action,
    >)
        ensures
            none_with(self.steps@, alias@) ==> *found == *fallback,
            forall|i: int| is_first_with(self.steps@, i, alias@) ==> *found == self.steps@[i],
    {
        match self.position(alias) {
            Some(index) => &self.steps[index],
            None => fallback,
        }
    }
}

/// Whether `values` are what is handed from step to step when `steps` are
/// run one after the other: the first of them is what the first step is
/// run on, and each step can give the next value when run on the one
/// before.
pub open spec fn handed_on<Outcome, Action: Runnable<Outcome, Outcome>>(
    steps: Seq<Step<Action>>,
    values: Seq<Outcome>,
) -> bool {
    &&& values.len() == steps.len() + 1
    &&& forall|i: int|
        0 <= i < steps.len() ==> (#[trigger] steps[i]).runs_to(values[i], values[i + 1])
}

/// Whether running `steps` one after the other, the first of them on
/// `from` and each on what the one before gave, can give `to`.
pub open spec fn runs_through<Outcome, Action: Runnable<Outcome, Outcome>>(
    steps: Seq<Step<Action>>,
    from: Outcome,
    to: Outcome,
) -> bool {
    exists|values: Seq<Outcome>| #[trigger]
        handed_on(steps, values) && values.first() == from && values.last() == to
}

/// A recipe is run by running its first step on the ingredients, and each
/// further step on what the step before gave.
impl<Ingredients, Outcome, Initial, Action> Runnable<Ingredients, Outcome> for Recipe<
    Initial,
    Action,
> where Initial: Runnable<Ingredients, Outcome>, Action: Runnable<Outcome, Outcome> {
    open spec fn may_run(&self, ingredients: Ingredients) -> bool {
        &&& self.initial_step.may_run(ingredients)
        &&& forall|i: int, given: Outcome|
            0 <= i < self.steps@.len() ==> #[trigger] self.steps@[i].may_run(given)
    }

    open spec fn runs_to(&self, ingredients: Ingredients, outcome: Outcome) -> bool {
        exists|first: Outcome| #[trigger]
            self.initial_step.runs_to(ingredients, first) && runs_through(
                self.steps@,
                first,
                outcome,
            )
    }

    fn run(&self, ingredients: Ingredients) -> (outcome: Outcome) {
        let mut intermediate = self.initial_step.run(ingredients);
        let ghost first = intermediate;
        let ghost mut values = seq![intermediate];
        let mut i: usize = 0;
        while i < self.steps.len()
            invariant
                i <= self.steps.len(),
                forall|k: int, given: Outcome|
                    0 <= k < self.steps@.len() ==> #[trigger] self.steps@[k].may_run(given),
                handed_on(self.steps@.take(i as int), values),
                values.first() == first,
                values.last() == intermediate,
            decreases self.steps.len() - i,
        {
            let ghost given = intermediate;
            let ghost before = values;
            intermediate = self.steps[i].run(intermediate);
            proof {
                values = before.push(intermediate);
                let done = self.steps@.take(i + 1);
                assert forall|k: int| 0 <= k < done.len() implies (#[trigger] done[k]).runs_to(
                    values[k],
                    values[k + 1],
                ) by {
                    if k < i {
                        assert(done[k] == self.steps@.take(i as int)[k]);
                        assert(values[k] == before[k] && values[k + 1] == before[k + 1]);
                    }
                }
            }
            i += 1;
        }
        proof {
            assert(self.steps@.take(i as int) =~= self.steps@);
            assert(handed_on(self.steps@, values) && values.first() == first && values.last()
                == intermediate);
        }
        intermediate
    }
}

/// The action that gives back what it is given.
pub struct Identity;

impl<Input> Runnable<Input, Input> for Identity {
    open spec fn may_run(&self, input: Input) -> bool {
        true
    }

    open spec fn runs_to(&self, input: Input, returned: Input) -> bool {
        returned == input
    }

    fn run(&self, input: Input) -> (returned: Input) {
        input
    }
}

/// The action that gives back what it is given.
pub fn identity<Input>() -> (action: impl Runnable<Input, Input>)
    ensures
        forall|input: Input| #[trigger] action.may_run(input),
        forall|input: Input, returned: Input| #[trigger]
            action.runs_to(input, returned) ==> returned == input,
{
    Identity
}

/// Values that can be handed to a function, written behind the value.
pub trait Pipe<Closure, Return>: Sized where Closure: FnOnce(Self) -> Return {
    /// Calls `closure` on the value.
    fn pipe(self, closure: Closure) -> (returned: Return)
        requires
            closure.requires((self,)),
        ensures
            closure.ensures((self,), returned),
    ;
}

impl<T, Closure, Return> Pipe<Closure, Return> for T where Closure: FnOnce(T) -> Return {
    fn pipe(self, closure: Closure) -> (returned: Return) {
        closure(self)
    }
}

/// Values that can be dropped where they stand.
pub trait Discard: Sized {
    /// Drops the value.
    fn discard(self);
}

impl<T> Discard for T {
    fn discard(self) {
    }
}

/// A function bound to its argument.
pub struct Passed<Closure, Arg> {
    pub closure: Closure,
    pub arg: Arg,
}

/// A bound function is run by calling the function on a copy of the
/// argument; what comes back is let go.
impl<Closure, Arg: Clone, Return> Runnable<(), ()> for Passed<Closure, Arg> where
    Closure: Fn(Arg) -> Return,
 {
    open spec fn may_run(&self, unit: ()) -> bool {
        forall|copy: Arg| cloned(self.arg, copy) ==> #[trigger] self.closure.requires((copy,))
    }

    open spec fn runs_to(&self, unit: (), done: ()) -> bool {
        exists|copy: Arg, returned: Return|
            cloned(self.arg, copy) && #[trigger] self.closure.ensures((copy,), returned)
    }

    fn run(&self, unit: ()) -> (done: ()) {
        let copy = self.arg.clone();
        let returned = (self.closure)(copy);
        assert(cloned(self.arg, copy) && self.closure.ensures((copy,), returned));
    }
}

/// Functions that can be bound to their argument.
pub trait Pass<Arg: Clone>: Sized {
    /// The function bound to `arg`.
    fn pass(self, arg: Arg) -> (bound: Passed<Self, Arg>)
        ensures
            bound.closure == self,
            bound.arg == arg,
    ;
}

impl<Closure, Arg: Clone, Return> Pass<Arg> for Closure where Closure: Fn(Arg) -> Return {
    fn pass(self, arg: Arg) -> (bound: Passed<Self, Arg>) {
        Passed { closure: self, arg }
    }
}

/// Values that can be changed where they stand, in a chain of calls.
pub trait Apply<Closure>: Sized where Closure: FnOnce(&mut Self) {
    /// The value after `closure` has changed it.
    fn apply(self, closure: Closure) -> (changed: Self)
        requires
            forall|place: &mut Self| *place == self ==> #[trigger] closure.requires((place,)),
        ensures
            exists|place: &mut Self|
                *place == self && #[trigger] closure.ensures((place,), ())
                    && changed == *final(place),
    ;
}

impl<T, Closure> Apply<Closure> for T where Closure: FnOnce(&mut T) {
    fn apply(self, closure: Closure) -> (changed: Self) {
        let mut value = self;
        closure(&mut value);
        value
    }
}

} // verus!
