//! The in-memory store that owns all recipes and ingredients, assigns
//! identifiers, and answers lookups.

use vstd::prelude::*;
use crate::indigent::Indigent;
use crate::recipes::Recipe;
use crate::text::str_eq;

verus! {

/// Holds when position `i` of `s` is a recipe with identifier `id`.
pub open spec fn recipe_with_id(s: Seq<Recipe>, id: u32, i: int) -> bool {
    0 <= i < s.len() && s[i].spec_id() == id
}

/// Holds when some recipe of `s` has identifier `id`.
pub open spec fn has_recipe_id(s: Seq<Recipe>, id: u32) -> bool {
    exists|i: int| recipe_with_id(s, id, i)
}

/// Holds when position `i` of `s` is a recipe named `name`.
pub open spec fn recipe_with_name(s: Seq<Recipe>, name: Seq<char>, i: int) -> bool {
    0 <= i < s.len() && s[i].spec_name() == name
}

/// Holds when some recipe of `s` is named `name`.
pub open spec fn has_recipe_name(s: Seq<Recipe>, name: Seq<char>) -> bool {
    exists|i: int| recipe_with_name(s, name, i)
}

/// Holds when position `i` of `s` is the first recipe named `name`.
pub open spec fn is_first_recipe_name(s: Seq<Recipe>, name: Seq<char>, i: int) -> bool {
    &&& recipe_with_name(s, name, i)
    &&& forall|j: int| 0 <= j < i ==> !recipe_with_name(s, name, j)
}

/// Holds when position `i` of `s` is an ingredient with identifier `id`.
pub open spec fn indigent_with_id(s: Seq<Indigent>, id: u32, i: int) -> bool {
    0 <= i < s.len() && s[i].spec_id() == id
}

/// Holds when some ingredient of `s` has identifier `id`.
pub open spec fn has_indigent_id(s: Seq<Indigent>, id: u32) -> bool {
    exists|i: int| indigent_with_id(s, id, i)
}

/// Holds when no two recipes of `s` share an identifier.
pub open spec fn recipe_ids_unique(s: Seq<Recipe>) -> bool {
    forall|i: int, j: int| 0 <= i < j < s.len()
        ==> s[i].spec_id() != s[j].spec_id()
}

/// Holds when no two ingredients of `s` share an identifier.
pub open spec fn indigent_ids_unique(s: Seq<Indigent>) -> bool {
    forall|i: int, j: int| 0 <= i < j < s.len()
        ==> s[i].spec_id() != s[j].spec_id()
}

/// The in-memory owner of all recipes and ingredients.
///
/// Recipes get their identifiers from a counter owned by the store, which
/// starts at 1 and only grows, so an identifier is never reused even after a
/// removal. Ingredients are stored under the identifier the caller put into
/// them; storing a second ingredient with the same identifier replaces the
/// first.
#[derive(Debug)]
pub struct RecipeStore {
    recipes: Vec<Recipe>,
    indigents: Vec<Indigent>,
    next_recipe_id: u32,
}

impl RecipeStore {
    /// The stored recipes, in insertion order.
    pub closed spec fn spec_recipes(&self) -> Seq<Recipe> {
        self.recipes@
    }

    /// The stored ingredients, in insertion order.
    pub closed spec fn spec_indigents(&self) -> Seq<Indigent> {
        self.indigents@
    }

    /// The identifier the next stored recipe will get.
    pub closed spec fn spec_next_id(&self) -> u32 {
        self.next_recipe_id
    }

    /// The store's invariant: recipe identifiers are at least 1, below the
    /// counter, and pairwise distinct, and ingredient identifiers are
    /// pairwise distinct.
    pub open spec fn wf(&self) -> bool {
        &&& 1 <= self.spec_next_id()
        &&& forall|i: int| 0 <= i < self.spec_recipes().len()
            ==> 1 <= #[trigger] self.spec_recipes()[i].spec_id() < self.spec_next_id()
        &&& recipe_ids_unique(self.spec_recipes())
        &&& indigent_ids_unique(self.spec_indigents())
    }

    /// An empty store; the first recipe stored will get identifier 1.
    pub fn new() -> (r: RecipeStore)
        ensures
            r.wf(),
            r.spec_recipes() == Seq::<Recipe>::empty(),
            r.spec_indigents() == Seq::<Indigent>::empty(),
            r.spec_next_id() == 1u32,
    {
        RecipeStore { recipes: Vec::new(), indigents: Vec::new(), next_recipe_id: 1 }
    }

    /// Stores a recipe. Whatever identifier the input carries is ignored: the
    /// store rebuilds the recipe under the next free identifier, appends it,
    /// and returns the identifier it assigned. Identifiers start at 1 and
    /// grow by 1 per insertion.
    pub fn add_recipe(&mut self, recipe: Recipe) -> (id: u32)
        requires
            old(self).wf(),
            old(self).spec_next_id() < u32::MAX,
        ensures
            final(self).wf(),
            id == old(self).spec_next_id(),
            final(self).spec_next_id() == old(self).spec_next_id() + 1,
            final(self).spec_recipes().len() == old(self).spec_recipes().len() + 1,
            forall|i: int| 0 <= i < old(self).spec_recipes().len()
                ==> final(self).spec_recipes()[i] == old(self).spec_recipes()[i],
            final(self).spec_recipes().last().spec_id() == id,
            final(self).spec_recipes().last().spec_name() == recipe.spec_name(),
            final(self).spec_recipes().last().spec_lines() == recipe.spec_lines(),
            final(self).spec_recipes().last().spec_steps() == recipe.spec_steps(),
            final(self).spec_recipes().last().spec_type() == recipe.spec_type(),
            final(self).spec_indigents() == old(self).spec_indigents(),
    {
        let ghost rs = self.recipes@;
        let id = self.next_recipe_id;
        let stored = recipe.with_recipe_id(id);
        self.recipes.push(stored);
        self.next_recipe_id = id + 1;
        proof {
            assert forall|a: int| 0 <= a < self.recipes@.len() implies 1 <= #[trigger] self
                .recipes@[a].spec_id() < self.next_recipe_id by {
                if a < rs.len() {
                    assert(self.recipes@[a] == rs[a]);
                    assert(1 <= old(self).spec_recipes()[a].spec_id() < old(self).spec_next_id());
                } else {
                    assert(self.recipes@[a].spec_id() == id);
                }
            }
            assert forall|a: int, b: int| 0 <= a < b < self.recipes@.len() implies self
                .recipes@[a].spec_id() != self.recipes@[b].spec_id() by {
                assert(self.recipes@[a] == rs[a]);
                assert(old(self).spec_recipes()[a].spec_id() < old(self).spec_next_id());
                if b < rs.len() {
                    assert(self.recipes@[b] == rs[b]);
                    assert(old(self).spec_recipes()[a].spec_id()
                        != old(self).spec_recipes()[b].spec_id());
                } else {
                    assert(self.recipes@[b].spec_id() == id);
                }
            }
        }
        id
    }

    /// Stores an ingredient under the identifier it carries, exactly as
    /// provided: unlike `add_recipe`, the store does not recompute it. An
    /// ingredient already stored under the same identifier is replaced;
    /// otherwise the new one is appended.
    pub fn add_ingredient(&mut self, indigent: Indigent)
        requires
            old(self).wf(),
        ensures
            final(self).wf(),
            !has_indigent_id(old(self).spec_indigents(), indigent.spec_id())
                ==> final(self).spec_indigents()
                    == old(self).spec_indigents().push(indigent),
            forall|i: int| indigent_with_id(old(self).spec_indigents(), indigent.spec_id(), i)
                ==> final(self).spec_indigents()
                    == old(self).spec_indigents().update(i, indigent),
            final(self).spec_recipes() == old(self).spec_recipes(),
            final(self).spec_next_id() == old(self).spec_next_id(),
    {
        let ghost pre = *self;
        let ghost s = self.indigents@;
        let id = indigent.indigent_id();
        let n = self.indigents.len();
        let mut i: usize = 0;
        while i < n
            invariant
                pre == *old(self),
                pre.wf(),
                *self == pre,
                n == self.indigents.len(),
                i <= n,
                s == self.indigents@,
                id == indigent.spec_id(),
                forall|j: int| 0 <= j < i ==> !indigent_with_id(s, id, j),
            decreases n - i,
        {
            if self.indigents[i].indigent_id() == id {
                proof {
                    assert(indigent_with_id(s, id, i as int));
                }
                self.indigents[i] = indigent;
                proof {
                    assert forall|k: int| indigent_with_id(s, id, k) implies self.indigents@
                        == s.update(k, indigent) by {
                        if k < i as int {
                            assert(!indigent_with_id(s, id, k));
                        } else if k > i as int {
                            assert(pre.spec_indigents()[i as int].spec_id()
                                != pre.spec_indigents()[k].spec_id());
                        }
                    }
                    assert forall|a: int, b: int| 0 <= a < b < self.indigents@.len() implies
                        self.indigents@[a].spec_id() != self.indigents@[b].spec_id() by {
                        assert(self.indigents@[a].spec_id() == s[a].spec_id());
                        assert(self.indigents@[b].spec_id() == s[b].spec_id());
                        assert(pre.spec_indigents()[a].spec_id()
                            != pre.spec_indigents()[b].spec_id());
                    }
                    assert(indigent_ids_unique(self.indigents@));
                }
                return;
            }
            i += 1;
        }
        proof {
            assert(!has_indigent_id(s, id));
        }
        self.indigents.push(indigent);
        proof {
            assert forall|a: int, b: int| 0 <= a < b < self.indigents@.len() implies self
                .indigents@[a].spec_id() != self.indigents@[b].spec_id() by {
                assert(self.indigents@[a] == s[a]);
                if b < s.len() {
                    assert(self.indigents@[b] == s[b]);
                    assert(pre.spec_indigents()[a].spec_id()
                        != pre.spec_indigents()[b].spec_id());
                } else {
                    assert(self.indigents@[b] == indigent);
                    assert(!indigent_with_id(s, id, a));
                }
            }
            assert(indigent_ids_unique(self.indigents@));
        }
    }

    /// Looks a recipe up by its identifier; absence is an explicit `None`,
    /// never an error.
    pub fn get_recipe_by_id(&self, id: u32) -> (r: Option<&Recipe>)
        ensures
            r is Some <==> has_recipe_id(self.spec_recipes(), id),
            r matches Some(rec) ==> exists|i: int|
                recipe_with_id(self.spec_recipes(), id, i) && *rec == self.spec_recipes()[i],
            r matches Some(rec) ==> rec.spec_id() == id,
    {
        let n = self.recipes.len();
        let mut i: usize = 0;
        while i < n
            invariant
                n == self.recipes.len(),
                i <= n,
                forall|j: int| 0 <= j < i ==> !recipe_with_id(self.spec_recipes(), id, j),
            decreases n - i,
        {
            if self.recipes[i].recipe_id() == id {
                proof {
                    assert(recipe_with_id(self.spec_recipes(), id, i as int));
                }
                return Some(&self.recipes[i]);
            }
            i += 1;
        }
        proof {
            assert(!has_recipe_id(self.spec_recipes(), id));
        }
        None
    }

    /// Looks an ingredient up by its identifier; absence is an explicit
    /// `None`, never an error.
    pub fn get_ingredient(&self, id: u32) -> (r: Option<&Indigent>)
        ensures
            r is Some <==> has_indigent_id(self.spec_indigents(), id),
            r matches Some(ind) ==> exists|i: int|
                indigent_with_id(self.spec_indigents(), id, i)
                    && *ind == self.spec_indigents()[i],
            r matches Some(ind) ==> ind.spec_id() == id,
    {
        let n = self.indigents.len();
        let mut i: usize = 0;
        while i < n
            invariant
                n == self.indigents.len(),
                i <= n,
                forall|j: int| 0 <= j < i ==> !indigent_with_id(self.spec_indigents(), id, j),
            decreases n - i,
        {
            if self.indigents[i].indigent_id() == id {
                proof {
                    assert(indigent_with_id(self.spec_indigents(), id, i as int));
                }
                return Some(&self.indigents[i]);
            }
            i += 1;
        }
        proof {
            assert(!has_indigent_id(self.spec_indigents(), id));
        }
        None
    }

    /// Looks a recipe up by name with a linear scan and returns the first
    /// match in storage order; absence is an explicit `None`. When exactly
    /// one stored recipe carries the queried name, that recipe is returned.
    pub fn get_recipe_by_name(&self, name: &str) -> (r: Option<&Recipe>)
        ensures
            r is Some <==> has_recipe_name(self.spec_recipes(), name@),
            r matches Some(rec) ==> exists|i: int|
                is_first_recipe_name(self.spec_recipes(), name@, i)
                    && *rec == self.spec_recipes()[i],
            r matches Some(rec) ==> rec.spec_name() == name@,
    {
        let n = self.recipes.len();
        let mut i: usize = 0;
        while i < n
            invariant
                n == self.recipes.len(),
                i <= n,
                forall|j: int| 0 <= j < i ==> !recipe_with_name(self.spec_recipes(), name@, j),
            decreases n - i,
        {
            if str_eq(self.recipes[i].name(), name) {
                proof {
                    assert(recipe_with_name(self.spec_recipes(), name@, i as int));
                    assert(is_first_recipe_name(self.spec_recipes(), name@, i as int));
                }
                return Some(&self.recipes[i]);
            }
            i += 1;
        }
        proof {
            assert(!has_recipe_name(self.spec_recipes(), name@));
        }
        None
    }

    /// All stored recipes, in storage order.
    pub fn get_all_recipes(&self) -> (r: &Vec<Recipe>)
        ensures
            r@ == self.spec_recipes(),
    {
        &self.recipes
    }

    /// All stored ingredients, in storage order.
    pub fn get_all_indigents(&self) -> (r: &Vec<Indigent>)
        ensures
            r@ == self.spec_indigents(),
    {
        &self.indigents
    }

    /// Removes the recipe with the given identifier and hands it back;
    /// absence is an explicit `None`, never an error.
    pub fn remove_recipe(&mut self, id: u32) -> (r: Option<Recipe>)
        requires
            old(self).wf(),
        ensures
            final(self).wf(),
            r is Some <==> has_recipe_id(old(self).spec_recipes(), id),
            !has_recipe_id(old(self).spec_recipes(), id) ==> final(self).spec_recipes()
                == old(self).spec_recipes(),
            forall|i: int| recipe_with_id(old(self).spec_recipes(), id, i)
                ==> final(self).spec_recipes() == old(self).spec_recipes().remove(i),
            r matches Some(rec) ==> exists|i: int|
                recipe_with_id(old(self).spec_recipes(), id, i)
                    && rec == old(self).spec_recipes()[i],
            final(self).spec_indigents() == old(self).spec_indigents(),
            final(self).spec_next_id() == old(self).spec_next_id(),
    {
        let ghost pre = *self;
        let ghost s = self.recipes@;
        let n = self.recipes.len();
        let mut i: usize = 0;
        while i < n
            invariant
                pre == *old(self),
                pre.wf(),
                *self == pre,
                n == self.recipes.len(),
                i <= n,
                s == self.recipes@,
                forall|j: int| 0 <= j < i ==> !recipe_with_id(s, id, j),
            decreases n - i,
        {
            if self.recipes[i].recipe_id() == id {
                proof {
                    assert(recipe_with_id(s, id, i as int));
                }
                let removed = self.recipes.remove(i);
                proof {
                    assert forall|k: int| recipe_with_id(s, id, k) implies self.recipes@
                        == s.remove(k) by {
                        if k < i as int {
                            assert(!recipe_with_id(s, id, k));
                        } else if k > i as int {
                            assert(pre.spec_recipes()[i as int].spec_id()
                                != pre.spec_recipes()[k].spec_id());
                        }
                    }
                    assert forall|a: int, b: int| 0 <= a < b < self.recipes@.len() implies self
                        .recipes@[a].spec_id() != self.recipes@[b].spec_id() by {
                        let sa: int = if a < i as int { a } else { a + 1 };
                        let sb: int = if b < i as int { b } else { b + 1 };
                        assert(self.recipes@[a] == s[sa]);
                        assert(self.recipes@[b] == s[sb]);
                        assert(pre.spec_recipes()[sa].spec_id()
                            != pre.spec_recipes()[sb].spec_id());
                    }
                    assert(recipe_ids_unique(self.recipes@));
                    assert forall|k: int| 0 <= k < self.recipes@.len() implies 1 <= #[trigger]
                        self.recipes@[k].spec_id() < self.next_recipe_id by {
                        let sk: int = if k < i as int { k } else { k + 1 };
                        assert(self.recipes@[k] == s[sk]);
                        assert(1 <= pre.spec_recipes()[sk].spec_id() < pre.spec_next_id());
                    }
                }
                return Some(removed);
            }
            i += 1;
        }
        proof {
            assert(!has_recipe_id(s, id));
        }
        None
    }

    /// Removes the ingredient with the given identifier and hands it back;
    /// absence is an explicit `None`, never an error.
    pub fn remove_indigent(&mut self, id: u32) -> (r: Option<Indigent>)
        requires
            old(self).wf(),
        ensures
            final(self).wf(),
            r is Some <==> has_indigent_id(old(self).spec_indigents(), id),
            !has_indigent_id(old(self).spec_indigents(), id) ==> final(self).spec_indigents()
                == old(self).spec_indigents(),
            forall|i: int| indigent_with_id(old(self).spec_indigents(), id, i)
                ==> final(self).spec_indigents() == old(self).spec_indigents().remove(i),
            r matches Some(ind) ==> exists|i: int|
                indigent_with_id(old(self).spec_indigents(), id, i)
                    && ind == old(self).spec_indigents()[i],
            final(self).spec_recipes() == old(self).spec_recipes(),
            final(self).spec_next_id() == old(self).spec_next_id(),
    {
        let ghost pre = *self;
        let ghost s = self.indigents@;
        let n = self.indigents.len();
        let mut i: usize = 0;
        while i < n
            invariant
                pre == *old(self),
                pre.wf(),
                *self == pre,
                n == self.indigents.len(),
                i <= n,
                s == self.indigents@,
                forall|j: int| 0 <= j < i ==> !indigent_with_id(s, id, j),
            decreases n - i,
        {
            if self.indigents[i].indigent_id() == id {
                proof {
                    assert(indigent_with_id(s, id, i as int));
                }
                let removed = self.indigents.remove(i);
                proof {
                    assert forall|k: int| indigent_with_id(s, id, k) implies self.indigents@
                        == s.remove(k) by {
                        if k < i as int {
                            assert(!indigent_with_id(s, id, k));
                        } else if k > i as int {
                            assert(pre.spec_indigents()[i as int].spec_id()
                                != pre.spec_indigents()[k].spec_id());
                        }
                    }
                    assert forall|a: int, b: int| 0 <= a < b < self.indigents@.len() implies self
                        .indigents@[a].spec_id() != self.indigents@[b].spec_id() by {
                        let sa: int = if a < i as int { a } else { a + 1 };
                        let sb: int = if b < i as int { b } else { b + 1 };
                        assert(self.indigents@[a] == s[sa]);
                        assert(self.indigents@[b] == s[sb]);
                        assert(pre.spec_indigents()[sa].spec_id()
                            != pre.spec_indigents()[sb].spec_id());
                    }
                    assert(indigent_ids_unique(self.indigents@));
                }
                return Some(removed);
            }
            i += 1;
        }
        proof {
            assert(!has_indigent_id(s, id));
        }
        None
    }
}

} // verus!
