use recipe_helper::indigent::Indigent;
use recipe_helper::indigent::IndigentType;
use recipe_helper::recipes::RecipeBuilder;
use recipe_helper::recipes::RecipeIndigent;
use recipe_helper::recipes::RecipeType;
use recipe_helper::store::RecipeStore;

#[test]
fn recipe_ids_start_at_one_and_grow_by_one() {
    let mut store = RecipeStore::new();
    let first = store.add_recipe(RecipeBuilder::new("first").build());
    let second = store.add_recipe(RecipeBuilder::new("second").build());
    assert_eq!(first, 1);
    assert_eq!(second, 2);
    assert_eq!(store.get_recipe_by_id(1).unwrap().name(), "first");
    assert_eq!(store.get_recipe_by_id(2).unwrap().name(), "second");
}

#[test]
fn add_recipe_overrides_the_carried_id() {
    let mut store = RecipeStore::new();
    let id = store.add_recipe(RecipeBuilder::new("pancakes").recipe_id(99).build());
    assert_eq!(id, 1);
    assert!(store.get_recipe_by_id(99).is_none());
    let stored = store.get_recipe_by_id(1).unwrap();
    assert_eq!(stored.recipe_id(), 1);
    assert_eq!(stored.name(), "pancakes");
}

#[test]
fn add_recipe_keeps_the_whole_recipe() {
    let mut store = RecipeStore::new();
    let recipe = RecipeBuilder::new("soup")
        .recipe_type(&RecipeType::Dinner)
        .indigents(vec![RecipeIndigent::new("Carrot", 100)])
        .steps(vec!["Boil".to_owned(), "Serve".to_owned()])
        .build();
    let id = store.add_recipe(recipe);
    let stored = store.get_recipe_by_id(id).unwrap();
    assert_eq!(stored.name(), "soup");
    assert_eq!(*stored.recipe_type(), RecipeType::Dinner);
    assert_eq!(stored.indigents().len(), 1);
    assert_eq!(stored.indigents()[0].name, "Carrot");
    assert_eq!(stored.steps().len(), 2);
    assert_eq!(stored.steps()[1], "Serve");
}

#[test]
fn recipe_ids_are_not_reused_after_removal() {
    let mut store = RecipeStore::new();
    let first = store.add_recipe(RecipeBuilder::new("first").build());
    assert_eq!(first, 1);
    assert!(store.remove_recipe(first).is_some());
    let second = store.add_recipe(RecipeBuilder::new("second").build());
    assert_eq!(second, 2);
    assert!(store.get_recipe_by_id(1).is_none());
}

#[test]
fn two_indigents_are_both_listed() {
    let mut store = RecipeStore::new();
    store.add_ingredient(Indigent::new("Corn", 1, IndigentType::Vegetable));
    store.add_ingredient(Indigent::new("Carrot", 2, IndigentType::Vegetable));
    assert_eq!(store.get_all_indigents().len(), 2);
}

#[test]
fn add_ingredient_keeps_the_callers_id() {
    let mut store = RecipeStore::new();
    store.add_ingredient(Indigent::new("Corn", 42, IndigentType::Vegetable));
    let stored = store.get_ingredient(42).unwrap();
    assert_eq!(stored.indigent_id(), 42);
    assert_eq!(stored.name(), "Corn");
}

#[test]
fn add_ingredient_replaces_on_equal_id() {
    let mut store = RecipeStore::new();
    store.add_ingredient(Indigent::new("Corn", 7, IndigentType::Vegetable));
    store.add_ingredient(Indigent::new("Carrot", 7, IndigentType::Other));
    assert_eq!(store.get_all_indigents().len(), 1);
    let stored = store.get_ingredient(7).unwrap();
    assert_eq!(stored.name(), "Carrot");
    assert_eq!(stored.indigent_type(), IndigentType::Other);
}

#[test]
fn lookup_by_name_returns_the_match() {
    let mut store = RecipeStore::new();
    store.add_recipe(RecipeBuilder::new("pancakes").build());
    store.add_recipe(RecipeBuilder::new("soup").build());
    let found = store.get_recipe_by_name("soup").unwrap();
    assert_eq!(found.name(), "soup");
    assert_eq!(found.recipe_id(), 2);
    assert!(store.get_recipe_by_name("stew").is_none());
}

#[test]
fn lookups_miss_with_none_not_an_error() {
    let mut store = RecipeStore::new();
    assert!(store.get_recipe_by_id(1).is_none());
    assert!(store.get_ingredient(1).is_none());
    assert!(store.get_recipe_by_name("anything").is_none());
    assert!(store.remove_recipe(1).is_none());
    assert!(store.remove_indigent(1).is_none());
}

#[test]
fn removals_hand_the_value_back() {
    let mut store = RecipeStore::new();
    let id = store.add_recipe(RecipeBuilder::new("toast").build());
    store.add_ingredient(Indigent::new("Bread", 5, IndigentType::Seed));

    let removed = store.remove_recipe(id).unwrap();
    assert_eq!(removed.name(), "toast");
    assert_eq!(store.get_all_recipes().len(), 0);

    let removed = store.remove_indigent(5).unwrap();
    assert_eq!(removed.name(), "Bread");
    assert_eq!(store.get_all_indigents().len(), 0);
}

#[test]
fn get_all_recipes_lists_in_insertion_order() {
    let mut store = RecipeStore::new();
    store.add_recipe(RecipeBuilder::new("first").build());
    store.add_recipe(RecipeBuilder::new("second").build());
    let all = store.get_all_recipes();
    assert_eq!(all.len(), 2);
    assert_eq!(all[0].name(), "first");
    assert_eq!(all[1].name(), "second");
}
