//! Recipes: ingredient lines with quantities, ordered preparation steps, a
//! meal-type tag, and the builder that assembles them.

use vstd::prelude::*;
use crate::text::str_eq;

verus! {

/// One ingredient line of a recipe: a name, a quantity in grams, and an
/// optional back-reference to a stored ingredient (0 when unset).
///
/// For aggregation, two lines count as the same line exactly when their names
/// match; the quantity is deliberately left out of the comparison so that
/// repeated additions merge.
#[derive(Debug, Clone)]
pub struct RecipeIndigent {
    /// The name of the ingredient.
    pub name: String,

    /// The amount of the ingredient in grams.
    pub amount: u32,

    /// The unique id of the ingredient in the store, 0 when unset.
    pub indigent_id: u32,
}

impl RecipeIndigent {
    /// Creates a line with an unset ingredient id.
    pub fn new(name: &str, amount: u32) -> (r: Self)
        ensures
            r.name@ == name@,
            r.amount == amount,
            r.indigent_id == 0,
    {
        RecipeIndigent { name: name.to_owned(), amount, indigent_id: 0 }
    }
}

/// Two lines are the same line exactly when their names match.
impl PartialEq for RecipeIndigent {
    fn eq(&self, other: &Self) -> (r: bool) {
        self.name == other.name
    }
}

impl vstd::std_specs::cmp::PartialEqSpecImpl for RecipeIndigent {
    open spec fn obeys_eq_spec() -> bool {
        true
    }

    open spec fn eq_spec(&self, other: &RecipeIndigent) -> bool {
        self.name@ == other.name@
    }
}

/// The meal a recipe is classified under.
#[derive(Debug, Clone, Copy, PartialEq, Eq, Structural)]
pub enum RecipeType {
    Breakfast,
    Lunch,
    Dinner,
    Snack,
    Dessert,
}

impl Default for RecipeType {
    /// The meal type a builder starts with.
    fn default() -> (r: Self)
        ensures
            r == RecipeType::Breakfast,
    {
        RecipeType::Breakfast
    }
}

/// Holds when position `i` of `s` is a line named `name`.
pub open spec fn line_with_name(s: Seq<RecipeIndigent>, name: Seq<char>, i: int) -> bool {
    0 <= i < s.len() && s[i].name@ == name
}

/// Holds when some line of `s` is named `name`.
pub open spec fn has_line(s: Seq<RecipeIndigent>, name: Seq<char>) -> bool {
    exists|i: int| line_with_name(s, name, i)
}

/// Holds when position `i` of `s` is the first line named `name`.
pub open spec fn is_first_line(s: Seq<RecipeIndigent>, name: Seq<char>, i: int) -> bool {
    &&& line_with_name(s, name, i)
    &&& forall|j: int| 0 <= j < i ==> !line_with_name(s, name, j)
}

/// The line `a` with `b`'s amount added on; name and ingredient id stay `a`'s.
pub open spec fn merged_line(a: RecipeIndigent, b: RecipeIndigent) -> RecipeIndigent {
    RecipeIndigent { amount: (a.amount + b.amount) as u32, ..a }
}

/// What adding line `l` does to a line sequence: the first line of the same
/// name absorbs `l`'s amount, and in the absence of one `l` is appended.
pub open spec fn spec_add_line(s: Seq<RecipeIndigent>, l: RecipeIndigent) -> Seq<RecipeIndigent> {
    if has_line(s, l.name@) {
        let i = choose|i: int| is_first_line(s, l.name@, i);
        s.update(i, merged_line(s[i], l))
    } else {
        s.push(l)
    }
}

/// What removing a line named `name` does to a line sequence: the first line
/// of that name goes, and without one nothing changes.
pub open spec fn spec_remove_line(s: Seq<RecipeIndigent>, name: Seq<char>) -> Seq<RecipeIndigent> {
    if has_line(s, name) {
        let i = choose|i: int| is_first_line(s, name, i);
        s.remove(i)
    } else {
        s
    }
}

/// Holds when no two lines of `s` share a name.
pub open spec fn lines_unique(s: Seq<RecipeIndigent>) -> bool {
    forall|i: int, j: int| 0 <= i < j < s.len() ==> s[i].name@ != s[j].name@
}

/// A named recipe: an ordered sequence of ingredient lines, an ordered
/// sequence of preparation steps, a meal-type tag, and a numeric identifier
/// assigned by the store (0 when unset).
#[derive(Debug)]
pub struct Recipe {
    name: String,
    indigents: Vec<RecipeIndigent>,
    steps: Vec<String>,
    recipe_id: u32,
    recipe_type: RecipeType,
}

impl Recipe {
    /// The recipe's name, as a sequence of characters.
    pub closed spec fn spec_name(&self) -> Seq<char> {
        self.name@
    }

    /// The recipe's ingredient lines.
    pub closed spec fn spec_lines(&self) -> Seq<RecipeIndigent> {
        self.indigents@
    }

    /// The recipe's preparation steps, each as a sequence of characters.
    pub closed spec fn spec_steps(&self) -> Seq<Seq<char>> {
        Seq::new(self.steps@.len(), |i: int| self.steps@[i]@)
    }

    /// The recipe's identifier; 0 is the "unassigned" sentinel.
    pub closed spec fn spec_id(&self) -> u32 {
        self.recipe_id
    }

    /// The recipe's meal type.
    pub closed spec fn spec_type(&self) -> RecipeType {
        self.recipe_type
    }

    /// Adds an ingredient line. If the recipe already holds a line of the
    /// same name, the first such line's amount grows by the input's amount
    /// and no duplicate is created; otherwise the line is appended. Never
    /// fails.
    pub fn add_indigent(&mut self, indigent: RecipeIndigent)
        requires
            forall|i: int| line_with_name(old(self).spec_lines(), indigent.name@, i)
                ==> old(self).spec_lines()[i].amount + indigent.amount <= u32::MAX,
        ensures
            final(self).spec_lines() == spec_add_line(old(self).spec_lines(), indigent),
            !has_line(old(self).spec_lines(), indigent.name@) ==> final(self).spec_lines()
                == old(self).spec_lines().push(indigent),
            !has_line(old(self).spec_lines(), indigent.name@) ==> final(self).spec_lines().len()
                == old(self).spec_lines().len() + 1,
            has_line(old(self).spec_lines(), indigent.name@) ==> final(self).spec_lines().len()
                == old(self).spec_lines().len(),
            lines_unique(old(self).spec_lines()) ==> lines_unique(final(self).spec_lines()),
            final(self).spec_name() == old(self).spec_name(),
            final(self).spec_steps() == old(self).spec_steps(),
            final(self).spec_id() == old(self).spec_id(),
            final(self).spec_type() == old(self).spec_type(),
    {
        let ghost s = self.indigents@;
        proof {
            assert forall|k: int| line_with_name(s, indigent.name@, k) implies s[k].amount
                + indigent.amount <= u32::MAX by {
                assert(line_with_name(old(self).spec_lines(), indigent.name@, k));
            }
        }
        let n = self.indigents.len();
        let mut i: usize = 0;
        while i < n
            invariant
                n == self.indigents.len(),
                i <= n,
                *self == *old(self),
                s == self.indigents@,
                forall|j: int| 0 <= j < i ==> !line_with_name(s, indigent.name@, j),
                forall|k: int| line_with_name(s, indigent.name@, k)
                    ==> s[k].amount + indigent.amount <= u32::MAX,
            decreases n - i,
        {
            if str_eq(self.indigents[i].name.as_str(), indigent.name.as_str()) {
                proof {
                    assert(line_with_name(s, indigent.name@, i as int));
                    assert(is_first_line(s, indigent.name@, i as int));
                }
                let added = self.indigents[i].amount + indigent.amount;
                self.indigents[i].amount = added;
                proof {
                    let chosen = choose|k: int| is_first_line(s, indigent.name@, k);
                    assert(is_first_line(s, indigent.name@, chosen));
                    assert(chosen == i as int);
                    assert(self.indigents@[i as int] == merged_line(s[i as int], indigent));
                    assert(self.indigents@ == spec_add_line(s, indigent));
                    if lines_unique(s) {
                        assert forall|a: int, b: int| 0 <= a < b < self.indigents@.len() implies
                            self.indigents@[a].name@ != self.indigents@[b].name@ by {
                            assert(self.indigents@[a].name@ == s[a].name@);
                            assert(self.indigents@[b].name@ == s[b].name@);
                        }
                        assert(lines_unique(self.indigents@));
                    }
                }
                return;
            }
            i += 1;
        }
        proof {
            assert(!has_line(s, indigent.name@));
        }
        self.indigents.push(indigent);
        proof {
            if lines_unique(s) {
                assert forall|a: int, b: int| 0 <= a < b < self.indigents@.len() implies
                    self.indigents@[a].name@ != self.indigents@[b].name@ by {
                    assert(self.indigents@[a] == s[a]);
                    if b < s.len() {
                        assert(self.indigents@[b] == s[b]);
                    } else {
                        assert(self.indigents@[b] == indigent);
                        assert(!line_with_name(s, indigent.name@, a));
                    }
                }
                assert(lines_unique(self.indigents@));
            }
        }
    }

    /// Removes the first ingredient line whose name matches the input's name.
    /// If no line matches, nothing changes and no error is raised.
    pub fn remove_indigent(&mut self, indigent: RecipeIndigent)
        ensures
            final(self).spec_lines() == spec_remove_line(old(self).spec_lines(), indigent.name@),
            !has_line(old(self).spec_lines(), indigent.name@) ==> final(self).spec_lines()
                == old(self).spec_lines(),
            has_line(old(self).spec_lines(), indigent.name@) ==> final(self).spec_lines().len()
                == old(self).spec_lines().len() - 1,
            lines_unique(old(self).spec_lines()) ==> lines_unique(final(self).spec_lines()),
            final(self).spec_name() == old(self).spec_name(),
            final(self).spec_steps() == old(self).spec_steps(),
            final(self).spec_id() == old(self).spec_id(),
            final(self).spec_type() == old(self).spec_type(),
    {
        let ghost s = self.indigents@;
        let n = self.indigents.len();
        let mut i: usize = 0;
        while i < n
            invariant
                n == self.indigents.len(),
                i <= n,
                *self == *old(self),
                s == self.indigents@,
                forall|j: int| 0 <= j < i ==> !line_with_name(s, indigent.name@, j),
            decreases n - i,
        {
            if str_eq(self.indigents[i].name.as_str(), indigent.name.as_str()) {
                proof {
                    assert(is_first_line(s, indigent.name@, i as int));
                }
                self.indigents.remove(i);
                proof {
                    let chosen = choose|k: int| is_first_line(s, indigent.name@, k);
                    assert(is_first_line(s, indigent.name@, chosen));
                    assert(chosen == i as int);
                    assert(self.indigents@ == spec_remove_line(s, indigent.name@));
                    assert(lines_unique(s) ==> lines_unique(self.indigents@)) by {
                        if lines_unique(s) {
                            assert forall|a: int, b: int|
                                0 <= a < b < self.indigents@.len() implies
                                self.indigents@[a].name@ != self.indigents@[b].name@ by {
                                let sa: int = if a < i as int { a } else { a + 1 };
                                let sb: int = if b < i as int { b } else { b + 1 };
                                assert(self.indigents@[a] == s[sa]);
                                assert(self.indigents@[b] == s[sb]);
                            }
                        }
                    }
                }
                return;
            }
            i += 1;
        }
        proof {
            assert(!has_line(s, indigent.name@));
        }
    }

    /// Appends a preparation step to the end of the step sequence. Always
    /// succeeds.
    pub fn add_step(&mut self, step: &str)
        ensures
            final(self).spec_steps() == old(self).spec_steps().push(step@),
            final(self).spec_name() == old(self).spec_name(),
            final(self).spec_lines() == old(self).spec_lines(),
            final(self).spec_id() == old(self).spec_id(),
            final(self).spec_type() == old(self).spec_type(),
    {
        self.steps.push(step.to_owned());
        proof {
            assert(self.spec_steps() =~= old(self).spec_steps().push(step@));
        }
    }

    /// Removes the step at `step_number` when that is a valid position; the
    /// later steps shift down one place, keeping their relative order. An
    /// out-of-bounds position leaves the steps unchanged and never raises a
    /// fatal error.
    pub fn remove_step(&mut self, step_number: usize)
        ensures
            step_number >= old(self).spec_steps().len() ==> final(self).spec_steps()
                == old(self).spec_steps(),
            step_number < old(self).spec_steps().len() ==> final(self).spec_steps()
                == old(self).spec_steps().remove(step_number as int),
            step_number < old(self).spec_steps().len() ==> final(self).spec_steps().len()
                == old(self).spec_steps().len() - 1,
            forall|j: int| 0 <= j < step_number && j < final(self).spec_steps().len()
                ==> final(self).spec_steps()[j] == old(self).spec_steps()[j],
            step_number < old(self).spec_steps().len()
                ==> forall|j: int| step_number <= j < final(self).spec_steps().len()
                    ==> final(self).spec_steps()[j] == old(self).spec_steps()[j + 1],
            final(self).spec_name() == old(self).spec_name(),
            final(self).spec_lines() == old(self).spec_lines(),
            final(self).spec_id() == old(self).spec_id(),
            final(self).spec_type() == old(self).spec_type(),
    {
        if step_number < self.steps.len() {
            self.steps.remove(step_number);
            proof {
                assert(self.spec_steps()
                    =~= old(self).spec_steps().remove(step_number as int));
            }
        }
    }

    /// The recipe's name.
    pub fn name(&self) -> (r: &str)
        ensures
            r@ == self.spec_name(),
    {
        self.name.as_str()
    }

    /// The recipe's ingredient lines.
    pub fn indigents(&self) -> (r: &Vec<RecipeIndigent>)
        ensures
            r@ == self.spec_lines(),
    {
        &self.indigents
    }

    /// The recipe's preparation steps.
    pub fn steps(&self) -> (r: &Vec<String>)
        ensures
            r@.len() == self.spec_steps().len(),
            forall|j: int| 0 <= j < r@.len() ==> r@[j]@ == self.spec_steps()[j],
    {
        &self.steps
    }

    /// The recipe's identifier.
    pub fn recipe_id(&self) -> (r: u32)
        ensures
            r == self.spec_id(),
    {
        self.recipe_id
    }

    /// The recipe's meal type.
    pub fn recipe_type(&self) -> (r: &RecipeType)
        ensures
            *r == self.spec_type(),
    {
        &self.recipe_type
    }

    /// A builder holding the default construction state.
    pub fn builder() -> (r: RecipeBuilder)
        ensures
            r.spec_name() == Seq::<char>::empty(),
            r.spec_lines() == Seq::<RecipeIndigent>::empty(),
            r.spec_steps() == Seq::<Seq<char>>::empty(),
            r.spec_id() == 0u32,
            r.spec_type() == RecipeType::Breakfast,
    {
        RecipeBuilder::default()
    }

    /// The same recipe under another identifier; everything else is kept.
    pub(crate) fn with_recipe_id(self, recipe_id: u32) -> (r: Recipe)
        ensures
            r.spec_id() == recipe_id,
            r.spec_name() == self.spec_name(),
            r.spec_lines() == self.spec_lines(),
            r.spec_steps() == self.spec_steps(),
            r.spec_type() == self.spec_type(),
    {
        Recipe { recipe_id, ..self }
    }
}

/// Accumulates the construction state of a recipe: each setter returns an
/// updated builder value and leaves the one it was called on behind, and
/// `build` freezes the state into an independent `Recipe`.
#[derive(Debug)]
pub struct RecipeBuilder {
    name: String,
    indigents: Vec<RecipeIndigent>,
    steps: Vec<String>,
    recipe_id: u32,
    recipe_type: RecipeType,
}

impl RecipeBuilder {
    /// The accumulated name, as a sequence of characters.
    pub closed spec fn spec_name(&self) -> Seq<char> {
        self.name@
    }

    /// The accumulated ingredient lines.
    pub closed spec fn spec_lines(&self) -> Seq<RecipeIndigent> {
        self.indigents@
    }

    /// The accumulated steps, each as a sequence of characters.
    pub closed spec fn spec_steps(&self) -> Seq<Seq<char>> {
        Seq::new(self.steps@.len(), |i: int| self.steps@[i]@)
    }

    /// The accumulated identifier.
    pub closed spec fn spec_id(&self) -> u32 {
        self.recipe_id
    }

    /// The accumulated meal type.
    pub closed spec fn spec_type(&self) -> RecipeType {
        self.recipe_type
    }

    /// Starts a builder for a recipe of the given name: no lines, no steps,
    /// meal type `Breakfast`, identifier 0.
    pub fn new(name: &str) -> (r: RecipeBuilder)
        ensures
            r.spec_name() == name@,
            r.spec_lines() == Seq::<RecipeIndigent>::empty(),
            r.spec_steps() == Seq::<Seq<char>>::empty(),
            r.spec_id() == 0u32,
            r.spec_type() == RecipeType::Breakfast,
    {
        let r = RecipeBuilder {
            name: name.to_owned(),
            indigents: Vec::new(),
            steps: Vec::new(),
            recipe_id: 0,
            recipe_type: RecipeType::Breakfast,
        };
        proof {
            assert(r.spec_steps() =~= Seq::<Seq<char>>::empty());
        }
        r
    }

    /// The builder with the meal type set.
    pub fn recipe_type(self, recipe_type: &RecipeType) -> (r: Self)
        ensures
            r.spec_type() == *recipe_type,
            r.spec_name() == self.spec_name(),
            r.spec_lines() == self.spec_lines(),
            r.spec_steps() == self.spec_steps(),
            r.spec_id() == self.spec_id(),
    {
        RecipeBuilder { recipe_type: *recipe_type, ..self }
    }

    /// The builder with the ingredient lines set.
    pub fn indigents(self, indigents: Vec<RecipeIndigent>) -> (r: Self)
        ensures
            r.spec_lines() == indigents@,
            r.spec_name() == self.spec_name(),
            r.spec_steps() == self.spec_steps(),
            r.spec_id() == self.spec_id(),
            r.spec_type() == self.spec_type(),
    {
        RecipeBuilder { indigents, ..self }
    }

    /// The builder with the steps set.
    pub fn steps(self, steps: Vec<String>) -> (r: Self)
        ensures
            r.spec_steps().len() == steps@.len(),
            forall|j: int| 0 <= j < steps@.len() ==> r.spec_steps()[j] == steps@[j]@,
            r.spec_name() == self.spec_name(),
            r.spec_lines() == self.spec_lines(),
            r.spec_id() == self.spec_id(),
            r.spec_type() == self.spec_type(),
    {
        RecipeBuilder { steps, ..self }
    }

    /// The builder with the identifier set.
    pub fn recipe_id(self, recipe_id: u32) -> (r: Self)
        ensures
            r.spec_id() == recipe_id,
            r.spec_name() == self.spec_name(),
            r.spec_lines() == self.spec_lines(),
            r.spec_steps() == self.spec_steps(),
            r.spec_type() == self.spec_type(),
    {
        RecipeBuilder { recipe_id, ..self }
    }

    /// Freezes the accumulated state into a recipe; the recipe is then
    /// independent of the builder.
    pub fn build(self) -> (r: Recipe)
        ensures
            r.spec_name() == self.spec_name(),
            r.spec_lines() == self.spec_lines(),
            r.spec_steps() == self.spec_steps(),
            r.spec_id() == self.spec_id(),
            r.spec_type() == self.spec_type(),
    {
        Recipe {
            name: self.name,
            indigents: self.indigents,
            steps: self.steps,
            recipe_id: self.recipe_id,
            recipe_type: self.recipe_type,
        }
    }
}

impl Default for RecipeBuilder {
    /// A builder with an empty name and otherwise the same state as
    /// `RecipeBuilder::new`.
    fn default() -> (r: Self)
        ensures
            r.spec_name() == Seq::<char>::empty(),
            r.spec_lines() == Seq::<RecipeIndigent>::empty(),
            r.spec_steps() == Seq::<Seq<char>>::empty(),
            r.spec_id() == 0u32,
            r.spec_type() == RecipeType::Breakfast,
    {
        let r = RecipeBuilder::new("");
        proof {
            reveal_strlit("");
            assert(r.spec_name() =~= Seq::<char>::empty());
        }
        r
    }
}

/// Law: adding two lines of one name to a recipe whose lines do not hold that
/// name leaves exactly one line of that name, and its quantity is the sum of
/// the two quantities; every other line is untouched.
pub proof fn lemma_add_line_merges(s: Seq<RecipeIndigent>, l1: RecipeIndigent, l2: RecipeIndigent)
    requires
        l1.name@ == l2.name@,
        !has_line(s, l1.name@),
        l1.amount + l2.amount <= u32::MAX,
    ensures
        spec_add_line(spec_add_line(s, l1), l2)
            == s.push(RecipeIndigent { amount: (l1.amount + l2.amount) as u32, ..l1 }),
        is_first_line(spec_add_line(spec_add_line(s, l1), l2), l1.name@, s.len() as int),
        forall|i: int| line_with_name(spec_add_line(spec_add_line(s, l1), l2), l1.name@, i)
            ==> i == s.len(),
        spec_add_line(spec_add_line(s, l1), l2)[s.len() as int].amount == l1.amount + l2.amount,
{
    let s1 = spec_add_line(s, l1);
    assert(s1 == s.push(l1));
    assert(line_with_name(s1, l1.name@, s.len() as int));
    assert forall|j: int| 0 <= j < s.len() implies !line_with_name(s1, l1.name@, j) by {
        assert(s1[j] == s[j]);
        assert(!line_with_name(s, l1.name@, j));
    }
    assert(is_first_line(s1, l1.name@, s.len() as int));
    assert(has_line(s1, l2.name@));
    let chosen = choose|k: int| is_first_line(s1, l2.name@, k);
    assert(is_first_line(s1, l2.name@, chosen));
    assert(chosen == s.len() as int);
    let s2 = spec_add_line(s1, l2);
    assert(s2 == s1.update(chosen, merged_line(s1[chosen], l2)));
    assert(s2 =~= s.push(RecipeIndigent { amount: (l1.amount + l2.amount) as u32, ..l1 }));
    assert forall|i: int| line_with_name(s2, l1.name@, i) implies i == s.len() by {
        if i < s.len() {
            assert(s2[i] == s[i]);
            assert(line_with_name(s, l1.name@, i));
        }
    }
    assert(is_first_line(s2, l1.name@, s.len() as int));
}

} // verus!
