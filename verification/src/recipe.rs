//! Strategy recipes: parameter lists, plugin sections and rule definitions,
//! with lookups of genome values by parameter name.
use vstd::prelude::*;

use crate::text::str_eq;

verus! {

/// One tunable gene: its name and its search range (`V` is the numeric type
/// of the bounds).
#[derive(Debug, Clone, PartialEq)]
pub struct ParamRange<V> {
    pub name: String,
    pub min: V,
    pub max: V,
}

#[derive(Debug, Clone, PartialEq)]
pub enum IndicatorDef {
    Mfi { period_param: String },
    UltimateOscillator { p1_param: String, p2_param: String, p3_param: String },
}

#[derive(Debug, Clone, PartialEq)]
pub enum EntryRule {
    Below { threshold_param: String },
    CrossBelow { level_param: String },
}

#[derive(Debug, Clone, PartialEq)]
pub enum ExitRule {
    PrevHighOrTime { max_bars_param: String },
    CrossAbove { level_param: String },
}

#[derive(Debug, Clone, PartialEq)]
pub struct SideRules {
    pub long: EntryRule,
}

#[derive(Debug, Clone, PartialEq)]
pub struct ExitSideRules {
    pub long: ExitRule,
}

/// The `[plugin]` section of a recipe.
#[derive(Debug, Clone, PartialEq)]
pub struct PluginSpec {
    pub plugin_type: String,
    pub direction: String,
    pub exit_method: String,
    pub session_utc_start: Vec<i32>,
    pub session_utc_end: Vec<i32>,
}

/// The `i`-th value of `v`, or 0 when `v` is shorter (how a plugin's
/// `[hour, minute]` session open is read).
pub open spec fn nth_or_zero(v: Seq<i32>, i: int) -> i32 {
    if 0 <= i < v.len() {
        v[i]
    } else {
        0
    }
}

/// A recipe as written in its file, before validation.
#[derive(Debug, Clone, PartialEq)]
pub struct RecipeFile<V> {
    pub id: String,
    pub params: Vec<ParamRange<V>>,
    pub plugin: Option<PluginSpec>,
    pub indicator: Option<IndicatorDef>,
    pub entry: Option<SideRules>,
    pub exit: Option<ExitSideRules>,
}

/// A validated strategy recipe. The genome of a recipe is one value per
/// parameter, in parameter order.
#[derive(Debug, Clone, PartialEq)]
pub struct Recipe<V> {
    pub id: String,
    pub params: Vec<ParamRange<V>>,
    pub plugin: Option<PluginSpec>,
    pub indicator: Option<IndicatorDef>,
    pub entry: Option<EntryRule>,
    pub exit: Option<ExitRule>,
}

#[derive(Debug, Clone, PartialEq)]
pub enum RecipeError {
    Parse(String),
    UnknownStrategy(String),
    GenomeLength { expected: usize, actual: usize },
    InvalidRecipe(String),
}

/// Position of the last parameter named `name`: when a name repeats, the later
/// parameter shadows the earlier one.
pub open spec fn last_param_index<V>(params: Seq<ParamRange<V>>, name: Seq<char>) -> Option<int>
    decreases params.len(),
{
    if params.len() == 0 {
        None
    } else if params.last().name@ == name {
        Some(params.len() - 1)
    } else {
        last_param_index(params.drop_last(), name)
    }
}

proof fn lemma_last_param_index_range<V>(params: Seq<ParamRange<V>>, name: Seq<char>)
    ensures
        last_param_index(params, name) matches Some(k) ==> 0 <= k < params.len() && params[k].name@ == name,
        last_param_index(params, name) is None ==> forall|j: int| 0 <= j < params.len() ==> #[trigger] params[j].name@ != name,
    decreases params.len(),
{
    if params.len() > 0 {
        lemma_last_param_index_range(params.drop_last(), name);
        if params.last().name@ != name {
            assert forall|j: int| 0 <= j < params.len() - 1 implies #[trigger] params[j].name@ == params.drop_last()[j].name@ by {}
        }
    }
}

/// The parameter a name finds is the last one with that name: it carries the
/// name and no later parameter does; a name that no parameter carries finds
/// nothing.
pub proof fn last_param_index_is_last_match<V>(params: Seq<ParamRange<V>>, name: Seq<char>)
    ensures
        last_param_index(params, name) matches Some(k) ==> 0 <= k < params.len() && params[k].name@ == name
            && forall|j: int| k < j < params.len() ==> #[trigger] params[j].name@ != name,
        last_param_index(params, name) is None <==> forall|j: int| 0 <= j < params.len() ==> #[trigger] params[j].name@ != name,
    decreases params.len(),
{
    lemma_last_param_index_range(params, name);
    if params.len() > 0 {
        last_param_index_is_last_match(params.drop_last(), name);
        if params.last().name@ != name {
            assert forall|j: int| 0 <= j < params.len() - 1 implies #[trigger] params[j].name@ == params.drop_last()[j].name@ by {}
        }
        if last_param_index(params, name) is None {
            assert(params[params.len() - 1].name@ != name);
        }
    }
}

/// Message of the error for an indicator recipe without its rule sections.
pub open spec fn missing_sections_msg() -> Seq<char> {
    "indicator recipes require indicator, entry, and exit sections"@
}

/// A recipe without a `[plugin]` section is an indicator recipe and needs all
/// of its indicator, entry and exit sections.
pub open spec fn recipe_file_complete<V>(file: RecipeFile<V>) -> bool {
    file.plugin is Some || (file.indicator is Some && file.entry is Some && file.exit is Some)
}

impl<V> Recipe<V> {
    /// Validate a recipe file: every plugin recipe is accepted; an indicator
    /// recipe must have its indicator, entry and exit sections. The long-side
    /// rules become the recipe's entry and exit rules.
    pub fn from_file(file: RecipeFile<V>) -> (r: Result<Recipe<V>, RecipeError>)
        ensures
            !recipe_file_complete(file) <==> r is Err,
            r matches Err(e) ==> (e matches RecipeError::InvalidRecipe(msg) && msg@ == missing_sections_msg()),
            r matches Ok(recipe) ==> {
                &&& recipe.id == file.id
                &&& recipe.params == file.params
                &&& recipe.plugin == file.plugin
                &&& recipe.indicator == file.indicator
                &&& recipe.entry == (match file.entry {
                    Some(e) => Some(e.long),
                    None => None,
                })
                &&& recipe.exit == (match file.exit {
                    Some(e) => Some(e.long),
                    None => None,
                })
            },
    {
        if file.plugin.is_none() && (file.indicator.is_none() || file.entry.is_none() || file.exit.is_none()) {
            return Err(RecipeError::InvalidRecipe(
                "indicator recipes require indicator, entry, and exit sections".to_owned(),
            ));
        }
        let entry = match file.entry {
            Some(e) => Some(e.long),
            None => None,
        };
        let exit = match file.exit {
            Some(e) => Some(e.long),
            None => None,
        };
        Ok(Recipe {
            id: file.id,
            params: file.params,
            plugin: file.plugin,
            indicator: file.indicator,
            entry,
            exit,
        })
    }

    pub fn is_plugin(&self) -> (r: bool)
        ensures
            r == self.plugin is Some,
    {
        self.plugin.is_some()
    }

    /// Position of the parameter `name` in the genome, if the recipe has it.
    pub fn find_param(&self, name: &str) -> (r: Option<usize>)
        ensures
            r matches Some(k) ==> last_param_index(self.params@, name@) == Some(k as int),
            r is None ==> last_param_index(self.params@, name@) is None,
    {
        let mut found: Option<usize> = None;
        let mut i: usize = 0;
        while i < self.params.len()
            invariant
                0 <= i <= self.params@.len(),
                found matches Some(k) ==> last_param_index(self.params@.take(i as int), name@) == Some(k as int),
                found is None ==> last_param_index(self.params@.take(i as int), name@) is None,
            decreases self.params@.len() - i,
        {
            assert(self.params@.take(i as int + 1).drop_last() =~= self.params@.take(i as int));
            if str_eq(self.params[i].name.as_str(), name) {
                found = Some(i);
            }
            i += 1;
        }
        assert(self.params@.take(i as int) =~= self.params@);
        found
    }

    /// Position of the parameter `name` in the genome; the recipe must have it.
    pub fn param_index(&self, name: &str) -> (r: usize)
        requires
            last_param_index(self.params@, name@) is Some,
        ensures
            last_param_index(self.params@, name@) == Some(r as int),
    {
        match self.find_param(name) {
            Some(k) => k,
            None => {
                assert(false);
                0
            },
        }
    }

    /// Genome value of the parameter `name`; the recipe must have it and the
    /// genome must reach its position.
    pub fn param_value<T: Copy>(&self, genome: &[T], name: &str) -> (r: T)
        requires
            last_param_index(self.params@, name@) matches Some(k) && k < genome@.len(),
        ensures
            r == genome@[last_param_index(self.params@, name@).unwrap()],
    {
        let k = self.param_index(name);
        genome[k]
    }

    /// Genome value of the parameter `name`, or `None` when the recipe has no
    /// such parameter. The genome must reach the parameter's position.
    pub fn try_param_value<T: Copy>(&self, genome: &[T], name: &str) -> (r: Option<T>)
        requires
            last_param_index(self.params@, name@) matches Some(k) ==> k < genome@.len(),
        ensures
            r == (match last_param_index(self.params@, name@) {
                Some(k) => Some(genome@[k]),
                None => None,
            }),
    {
        match self.find_param(name) {
            Some(k) => Some(genome[k]),
            None => None,
        }
    }

    /// A genome must hold exactly one value per parameter.
    pub fn validate_genome<T>(&self, genome: &[T]) -> (r: Result<(), RecipeError>)
        ensures
            genome@.len() == self.params@.len() ==> r == Ok::<(), RecipeError>(()),
            genome@.len() != self.params@.len() ==> r == Err::<(), RecipeError>(
                RecipeError::GenomeLength { expected: self.params@.len() as usize, actual: genome@.len() as usize },
            ),
    {
        if genome.len() != self.params.len() {
            return Err(RecipeError::GenomeLength { expected: self.params.len(), actual: genome.len() });
        }
        Ok(())
    }

    /// Whether the recipe has a `direction` gene.
    pub fn has_direction_param(&self) -> (r: bool)
        ensures
            r == last_param_index(self.params@, "direction"@) is Some,
    {
        self.find_param("direction").is_some()
    }
}

/// Position of the first recipe whose id is `id`.
pub open spec fn first_recipe_with_id<V>(recipes: Seq<Recipe<V>>, id: Seq<char>, from: int) -> Option<int>
    decreases recipes.len() - from,
{
    if from < 0 || from >= recipes.len() {
        None
    } else if recipes[from].id@ == id {
        Some(from)
    } else {
        first_recipe_with_id(recipes, id, from + 1)
    }
}

/// The recipe an id finds from `from` on is the first one at or after `from`
/// with that id; it finds none exactly when no such recipe has the id.
pub proof fn first_recipe_with_id_is_first_match<V>(recipes: Seq<Recipe<V>>, id: Seq<char>, from: int)
    requires
        0 <= from,
    ensures
        first_recipe_with_id(recipes, id, from) matches Some(k) ==> from <= k < recipes.len() && recipes[k].id@ == id
            && forall|j: int| from <= j < k ==> #[trigger] recipes[j].id@ != id,
        first_recipe_with_id(recipes, id, from) is None <==> forall|j: int|
            from <= j < recipes.len() ==> #[trigger] recipes[j].id@ != id,
    decreases recipes.len() - from,
{
    if from < recipes.len() && recipes[from].id@ != id {
        first_recipe_with_id_is_first_match(recipes, id, from + 1);
    }
}

/// The first installed recipe whose id is `strategy_id`.
pub fn get_recipe<V>(recipes: Vec<Recipe<V>>, strategy_id: &str) -> (r: Result<Recipe<V>, RecipeError>)
    ensures
        match first_recipe_with_id(recipes@, strategy_id@, 0) {
            Some(k) => r == Ok::<Recipe<V>, RecipeError>(recipes@[k]),
            None => r matches Err(e) && e matches RecipeError::UnknownStrategy(s) && s@ == strategy_id@,
        },
{
    let mut pool = recipes;
    let ghost all = pool@;
    let mut i: usize = 0;
    while i < pool.len()
        invariant
            pool@ == all,
            all == recipes@,
            0 <= i <= all.len(),
            first_recipe_with_id(all, strategy_id@, 0) == first_recipe_with_id(all, strategy_id@, i as int),
        decreases all.len() - i,
    {
        if str_eq(pool[i].id.as_str(), strategy_id) {
            assert(first_recipe_with_id(all, strategy_id@, i as int) == Some(i as int));
            let found = pool.remove(i);
            return Ok(found);
        }
        i += 1;
    }
    Err(RecipeError::UnknownStrategy(strategy_id.to_owned()))
}


/// Ids of the built-in strategies, in byte order.
pub open spec fn builtin_strategy_ids() -> Seq<Seq<char>> {
    seq![
        "BS1_breakout"@,
        "donchian_atr"@,
        "donchian_chan"@,
        "dual_thrust"@,
        "ib_retrace"@,
        "keltner_retrace"@,
        "nr_expand"@,
        "orb_retrace"@,
        "poc_retrace"@,
        "ttm_squeeze"@,
        "zlema_retrace"@,
    ]
}

/// Lexicographic order on character codes (the order `String` sorts by).
pub open spec fn lex_lt(a: Seq<char>, b: Seq<char>) -> bool
    decreases a.len(),
{
    if a.len() == 0 {
        b.len() > 0
    } else if b.len() == 0 {
        false
    } else if a[0] != b[0] {
        (a[0] as u32) < (b[0] as u32)
    } else {
        lex_lt(a.drop_first(), b.drop_first())
    }
}

proof fn lemma_lex_lt_transitive(a: Seq<char>, b: Seq<char>, c: Seq<char>)
    requires
        lex_lt(a, b),
        lex_lt(b, c),
    ensures
        lex_lt(a, c),
    decreases a.len(),
{
    if a.len() > 0 && b.len() > 0 && c.len() > 0 && a[0] == b[0] && b[0] == c[0] {
        lemma_lex_lt_transitive(a.drop_first(), b.drop_first(), c.drop_first());
    }
}

proof fn lemma_lex_lt_irreflexive(a: Seq<char>)
    ensures
        !lex_lt(a, a),
    decreases a.len(),
{
    if a.len() > 0 {
        lemma_lex_lt_irreflexive(a.drop_first());
    }
}

/// The views of a list of strings.
pub open spec fn string_views(v: Seq<String>) -> Seq<Seq<char>> {
    v.map_values(|s: String| s@)
}

/// Ids of the strategies built into the engine.
pub fn list_strategy_ids() -> (ids: Vec<String>)
    ensures
        string_views(ids@) == builtin_strategy_ids(),
{
    let ids = vec![
        "BS1_breakout".to_owned(),
        "donchian_atr".to_owned(),
        "donchian_chan".to_owned(),
        "dual_thrust".to_owned(),
        "ib_retrace".to_owned(),
        "keltner_retrace".to_owned(),
        "nr_expand".to_owned(),
        "orb_retrace".to_owned(),
        "poc_retrace".to_owned(),
        "ttm_squeeze".to_owned(),
        "zlema_retrace".to_owned(),
    ];
    assert(string_views(ids@) =~= builtin_strategy_ids());
    ids
}

proof fn lemma_builtin_ids_adjacent_sorted(k: int)
    requires
        0 <= k < 10,
    ensures
        lex_lt(builtin_strategy_ids()[k], builtin_strategy_ids()[k + 1]),
{
    reveal_strlit("BS1_breakout");
    reveal_strlit("donchian_atr");
    reveal_strlit("donchian_chan");
    reveal_strlit("dual_thrust");
    reveal_strlit("ib_retrace");
    reveal_strlit("keltner_retrace");
    reveal_strlit("nr_expand");
    reveal_strlit("orb_retrace");
    reveal_strlit("poc_retrace");
    reveal_strlit("ttm_squeeze");
    reveal_strlit("zlema_retrace");
    reveal_with_fuel(lex_lt, 12);
}

proof fn lemma_builtin_ids_sorted_from(i: int, j: int)
    requires
        0 <= i < j < 11,
    ensures
        lex_lt(builtin_strategy_ids()[i], builtin_strategy_ids()[j]),
    decreases j - i,
{
    lemma_builtin_ids_adjacent_sorted(j - 1);
    if i < j - 1 {
        lemma_builtin_ids_sorted_from(i, j - 1);
        lemma_lex_lt_transitive(builtin_strategy_ids()[i], builtin_strategy_ids()[j - 1], builtin_strategy_ids()[j]);
    }
}

/// The built-in strategy ids are strictly increasing in byte order, so the
/// list is sorted and holds no id twice.
pub proof fn strategy_ids_sorted_and_unique(ids: Seq<Seq<char>>, i: int, j: int)
    requires
        ids == builtin_strategy_ids(),
        0 <= i < j < ids.len(),
    ensures
        lex_lt(ids[i], ids[j]),
        ids[i] != ids[j],
{
    lemma_builtin_ids_sorted_from(i, j);
    lemma_lex_lt_irreflexive(ids[i]);
}

} // verus!
