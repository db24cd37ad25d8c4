use spidey::recipe::{identity, Apply, Discard, Pass, Pipe, Recipe, Runnable, Step};

type Action = Box<dyn Fn(i64) -> i64>;

fn add(n: i64) -> Action {
    Box::new(move |x| x + n)
}

fn times(n: i64) -> Action {
    Box::new(move |x| x * n)
}

fn names(recipe: &Recipe<Action, Action>) -> Vec<String> {
    recipe.steps.iter().map(|step| step.name().to_string()).collect()
}

fn sample() -> Recipe<Action, Action> {
    Recipe::initially("start", add(1))
        .then("double", times(2))
        .then("bump", add(10))
        .then("double", times(2))
        .then("last", add(100))
}

#[test]
fn a_recipe_runs_its_steps_in_order() {
    assert_eq!(sample().run(0), ((0 + 1) * 2 + 10) * 2 + 100);
    assert_eq!(sample().run(5), ((5 + 1) * 2 + 10) * 2 + 100);
    let only: Recipe<Action, Action> = Recipe::initially("start", add(1));
    assert_eq!(only.run(41), 42);
    assert!(only.steps.is_empty());
    assert_eq!(only.initial_step.name(), "start");
}

#[test]
fn then_adds_a_step_at_the_end() {
    let recipe = sample();
    assert_eq!(names(&recipe), ["double", "bump", "double", "last"]);
    assert_eq!(recipe.initial_step.name(), "start");
}

#[test]
fn replace_first_replaces_one_step() {
    let mut recipe = sample();
    recipe.replace_first("double", times(3));
    assert_eq!(names(&recipe), ["double", "bump", "double", "last"]);
    assert_eq!(recipe.run(0), ((0 + 1) * 3 + 10) * 2 + 100);
    recipe.replace_first("none", times(0));
    assert_eq!(recipe.run(0), ((0 + 1) * 3 + 10) * 2 + 100);
}

#[test]
fn replace_replaces_every_step_of_that_name() {
    let mut recipe: Recipe<Action, fn(i64) -> i64> = Recipe::initially("start", add(1))
        .then("double", (|x| x * 2) as fn(i64) -> i64)
        .then("bump", (|x| x + 10) as fn(i64) -> i64)
        .then("double", (|x| x * 2) as fn(i64) -> i64);
    assert_eq!(recipe.run(0), ((0 + 1) * 2 + 10) * 2);
    recipe.replace("double", (|x| x * 5) as fn(i64) -> i64);
    assert_eq!(recipe.run(0), ((0 + 1) * 5 + 10) * 5);
    let called: Vec<&str> = recipe.steps.iter().map(|step| step.name()).collect();
    assert_eq!(called, ["double", "bump", "double"]);
    recipe.replace("none", (|_| 0) as fn(i64) -> i64);
    assert_eq!(recipe.run(0), ((0 + 1) * 5 + 10) * 5);
}

#[test]
fn replace_initial_keeps_the_name() {
    let mut recipe = sample();
    recipe.replace_initial(add(1000));
    assert_eq!(recipe.initial_step.name(), "start");
    assert_eq!(recipe.run(0), ((0 + 1000) * 2 + 10) * 2 + 100);
}

#[test]
fn remove_first_takes_out_one_step() {
    let mut recipe = sample();
    recipe.remove_first("double");
    assert_eq!(names(&recipe), ["bump", "double", "last"]);
    assert_eq!(recipe.run(0), (0 + 1 + 10) * 2 + 100);
    recipe.remove_first("none");
    assert_eq!(names(&recipe), ["bump", "double", "last"]);
}

#[test]
fn remove_takes_out_every_step_of_that_name() {
    let mut recipe = sample();
    recipe.remove("double");
    assert_eq!(names(&recipe), ["bump", "last"]);
    assert_eq!(recipe.run(0), 0 + 1 + 10 + 100);
    recipe.remove("none");
    assert_eq!(names(&recipe), ["bump", "last"]);
    recipe.remove("bump").remove("last");
    assert!(recipe.steps.is_empty());
    assert_eq!(recipe.run(7), 8);
}

#[test]
fn remove_of_steps_side_by_side() {
    let mut recipe: Recipe<Action, Action> = Recipe::initially("start", add(0))
        .then("a", add(1))
        .then("a", add(2))
        .then("b", add(4))
        .then("a", add(8));
    recipe.remove("a");
    assert_eq!(names(&recipe), ["b"]);
    assert_eq!(recipe.run(0), 4);
}

#[test]
fn get_finds_the_first_step_of_that_name() {
    let recipe = sample();
    let step = recipe.get("double").unwrap();
    assert_eq!(step.name(), "double");
    assert_eq!(step.run(21), 42);
    assert_eq!(recipe.get("last").unwrap().run(0), 100);
    assert!(recipe.get("none").is_none());
    assert_eq!(recipe.position("double"), Some(0));
    assert_eq!(recipe.position("last"), Some(3));
    assert_eq!(recipe.position("start"), None);
}

#[test]
fn calls_can_be_chained() {
    let mut recipe = sample();
    recipe.replace_first("double", times(1)).remove_first("bump").replace_initial(add(0));
    assert_eq!(names(&recipe), ["double", "double", "last"]);
    assert_eq!(recipe.run(3), 3 * 1 * 2 + 100);
}

#[test]
fn a_step_runs_its_action() {
    let step = Step::action("negate", |x: i64| -x);
    assert_eq!(step.name(), "negate");
    assert_eq!(step.run(5), -5);
}

#[test]
fn identity_gives_back_what_it_is_given() {
    assert_eq!(identity().run(5), 5);
    assert_eq!(identity().run("text"), "text");
    let recipe = Recipe::initially("new", |_: ()| (0, 0)).then("width", identity()).then("height", identity());
    assert_eq!(recipe.run(()), (0, 0));
}

#[test]
fn pipe_calls_the_function_on_the_value() {
    assert_eq!(5.pipe(|x| x + 1), 6);
    assert_eq!("a".to_string().pipe(|s| s.len()), 1);
}

#[test]
fn apply_changes_the_value() {
    assert_eq!(vec![1, 2].apply(|v| v.push(3)), [1, 2, 3]);
    assert_eq!((6, 7).apply(|pair| pair.0 = pair.1 * 2), (14, 7));
}

#[test]
fn pass_binds_the_argument() {
    let seen = std::cell::RefCell::new(Vec::new());
    let bound = (|text: String| seen.borrow_mut().push(text)).pass("hello".to_string());
    bound.run(());
    bound.run(());
    assert_eq!(*seen.borrow(), ["hello", "hello"]);
}

#[test]
fn discard_drops_the_value() {
    5.discard();
    vec![1, 2, 3].discard();
}

#[test]
fn get_or_falls_back_where_the_name_is_not_known() {
    let recipe = sample();
    let fallback: Step<Action> = Step::action("identity", Box::new(|x| x));
    let step = recipe.get_or("double", &fallback);
    assert_eq!(step.name(), "double");
    assert_eq!(step.run(21), 42);
    let step = recipe.get_or("none", &fallback);
    assert_eq!(step.name(), "identity");
    for value in [-3, 0, 7] {
        assert_eq!(step.run(value), value);
    }
    let step = recipe.get_or("start", &fallback);
    assert_eq!(step.name(), "identity");
    assert_eq!(names(&recipe), ["double", "bump", "double", "last"]);
}

#[test]
fn a_copy_of_a_recipe_runs_as_the_recipe_does() {
    let recipe: Recipe<fn(i64) -> i64, fn(i64) -> i64> =
        Recipe::initially("start", (|x| x + 1) as fn(i64) -> i64)
            .then("double", (|x| x * 2) as fn(i64) -> i64);
    let mut copy = recipe.clone();
    assert_eq!(copy.run(3), recipe.run(3));
    assert_eq!(copy.describe(), recipe.describe());
    copy.remove("double");
    assert_eq!(copy.run(3), 4);
    assert_eq!(recipe.run(3), 8);
    let step = recipe.get("double").unwrap().clone();
    assert_eq!(step.name(), "double");
    assert_eq!(step.run(4), 8);
}

#[test]
fn get_or_identity_gives_a_step_of_its_own() {
    let recipe: Recipe<fn(i64) -> i64, fn(i64) -> i64> =
        Recipe::initially("start", (|x| x + 1) as fn(i64) -> i64)
            .then("double", (|x| x * 2) as fn(i64) -> i64)
            .then("double", (|x| x * 3) as fn(i64) -> i64);
    let unchanged = (|x| x) as fn(i64) -> i64;
    let step = recipe.get_or_identity("double", unchanged);
    assert_eq!(step.name(), "double");
    assert_eq!(step.run(21), 42);
    let step = recipe.get_or_identity("none", unchanged);
    assert_eq!(step.name(), "identity");
    for value in [-3, 0, 7] {
        assert_eq!(step.run(value), value);
    }
    let step = recipe.get_or_identity("start", unchanged);
    assert_eq!(step.name(), "identity");
    assert_eq!(step.run(5), 5);
    assert_eq!(recipe.describe(), "Step: start → double → double → ");
    assert_eq!(recipe.run(1), 12);
}
