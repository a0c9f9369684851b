use engine_core::batch::BatchError;
use engine_core::bs1::{config_from_spec, BS1ExitMethod};
use engine_core::data::DataError;
use engine_core::recipe::{
    get_recipe, EntryRule, ExitRule, ExitSideRules, IndicatorDef, ParamRange, PluginSpec, Recipe, RecipeError,
    RecipeFile, SideRules,
};
use engine_core::registry::{DatasetRegistry, RegistryError};
use engine_core::session::BatchContext;

fn param(name: &str, min: f64, max: f64) -> ParamRange<f64> {
    ParamRange { name: name.to_string(), min, max }
}

fn plugin(kind: &str, direction: &str, exit_method: &str, start: Vec<i32>) -> PluginSpec {
    PluginSpec {
        plugin_type: kind.to_string(),
        direction: direction.to_string(),
        exit_method: exit_method.to_string(),
        session_utc_start: start,
        session_utc_end: vec![],
    }
}

fn plugin_recipe(id: &str, names: &[&str]) -> Recipe<f64> {
    Recipe::from_file(RecipeFile {
        id: id.to_string(),
        params: names.iter().map(|n| param(n, 0.0, 1.0)).collect(),
        plugin: Some(plugin(id, "both", "time", vec![14, 30])),
        indicator: None,
        entry: None,
        exit: None,
    })
    .unwrap()
}

#[test]
fn indicator_recipe_needs_all_sections() {
    let file = RecipeFile::<f64> {
        id: "mfi_rev".to_string(),
        params: vec![param("period", 2.0, 50.0)],
        plugin: None,
        indicator: Some(IndicatorDef::Mfi { period_param: "period".to_string() }),
        entry: Some(SideRules { long: EntryRule::Below { threshold_param: "lvl".to_string() } }),
        exit: None,
    };
    assert_eq!(
        Recipe::from_file(file.clone()),
        Err(RecipeError::InvalidRecipe("indicator recipes require indicator, entry, and exit sections".to_string()))
    );
    let full = RecipeFile {
        exit: Some(ExitSideRules { long: ExitRule::CrossAbove { level_param: "lvl".to_string() } }),
        ..file
    };
    let r = Recipe::from_file(full).unwrap();
    assert!(!r.is_plugin());
    assert_eq!(r.entry, Some(EntryRule::Below { threshold_param: "lvl".to_string() }));
    assert_eq!(r.exit, Some(ExitRule::CrossAbove { level_param: "lvl".to_string() }));
}

#[test]
fn param_lookup_by_name() {
    let r = plugin_recipe("donchian_atr", &["entry_len", "exit_len", "direction", "exit_len"]);
    assert!(r.is_plugin());
    assert_eq!(r.find_param("entry_len"), Some(0));
    assert_eq!(r.find_param("exit_len"), Some(3));
    assert_eq!(r.find_param("missing"), None);
    assert_eq!(r.param_index("direction"), 2);
    let genome = [20.0, 10.0, 1.0, 12.0];
    assert_eq!(r.param_value(&genome, "entry_len"), 20.0);
    assert_eq!(r.param_value(&genome, "exit_len"), 12.0);
    assert_eq!(r.try_param_value(&genome, "missing"), None);
    assert_eq!(r.try_param_value(&genome, "direction"), Some(1.0));
    assert!(r.has_direction_param());
    assert!(!plugin_recipe("x", &["a"]).has_direction_param());
}

#[test]
fn genome_length_checked() {
    let r = plugin_recipe("donchian_atr", &["a", "b"]);
    assert_eq!(r.validate_genome(&[1.0, 2.0]), Ok(()));
    assert_eq!(r.validate_genome(&[1.0]), Err(RecipeError::GenomeLength { expected: 2, actual: 1 }));
}

#[test]
fn get_recipe_finds_first_by_id() {
    let recipes = vec![plugin_recipe("a", &["x"]), plugin_recipe("b", &["y"]), plugin_recipe("b", &["z"])];
    let found = get_recipe(recipes.clone(), "b").unwrap();
    assert_eq!(found.params[0].name, "y");
    assert_eq!(get_recipe(recipes, "c"), Err(RecipeError::UnknownStrategy("c".to_string())));
}

#[test]
fn bs1_config_from_spec() {
    let cfg = config_from_spec(&plugin("BS1_breakout", "Short", "reclaim_poi", vec![14, 30]));
    assert_eq!(cfg.direction, -1);
    assert_eq!(cfg.exit_method, BS1ExitMethod::ReclaimPoi);
    assert_eq!((cfg.session_utc_start_hour, cfg.session_utc_start_min), (14, 30));
    let cfg = config_from_spec(&plugin("BS1_breakout", "long", "whatever", vec![9]));
    assert_eq!(cfg.direction, 1);
    assert_eq!(cfg.exit_method, BS1ExitMethod::OppositeDonchian);
    assert_eq!((cfg.session_utc_start_hour, cfg.session_utc_start_min), (9, 0));
    let cfg = config_from_spec(&plugin("BS1_breakout", "shorts", "time_only", vec![]));
    assert_eq!(cfg.direction, 1);
    assert_eq!(cfg.exit_method, BS1ExitMethod::TimeOnly);
    assert_eq!(cfg.session_utc_start_hour, 0);
    assert_eq!(config_from_spec(&plugin("b", "", "chandelier_atr", vec![])).exit_method, BS1ExitMethod::ChandelierAtr);
}

#[test]
fn batch_context_prefers_explicit_session_days() {
    let recipe = plugin_recipe("donchian_atr", &["a"]);
    let ts = [0i64, 3_600_000_000_000, 7_200_000_000_000];
    let days = vec![4, 4, 9];
    let ctx = BatchContext::for_recipe(Some(&days), &recipe, &ts);
    assert_eq!(ctx.session_days.unwrap().as_slice(), &[4, 4, 9]);
    let derived = BatchContext::for_recipe(None, &recipe, &ts);
    assert_eq!(derived.session_days.unwrap().as_slice(), &[0, 0, 0]);
}

#[test]
fn batch_context_indicator_recipe_has_no_days() {
    let r = Recipe::from_file(RecipeFile::<f64> {
        id: "i".to_string(),
        params: vec![],
        plugin: None,
        indicator: Some(IndicatorDef::UltimateOscillator {
            p1_param: "a".to_string(),
            p2_param: "b".to_string(),
            p3_param: "c".to_string(),
        }),
        entry: Some(SideRules { long: EntryRule::CrossBelow { level_param: "l".to_string() } }),
        exit: Some(ExitSideRules { long: ExitRule::PrevHighOrTime { max_bars_param: "m".to_string() } }),
    })
    .unwrap();
    assert!(BatchContext::for_recipe(None, &r, &[0]).session_days.is_none());
    assert!(BatchContext::default().session_days.is_none());
}

#[test]
fn batch_context_gap_days_for_vwap_trend() {
    let recipe = plugin_recipe("vwap_trend", &["a"]);
    let ts = [0i64, 3_600_000_000_000, 30_000_000_000_000];
    let ctx = BatchContext::for_recipe(None, &recipe, &ts);
    assert_eq!(ctx.session_days.unwrap().as_slice(), &[0, 0, 1]);
}

#[test]
fn registry_register_and_get() {
    let mut reg: DatasetRegistry<Vec<f64>> = DatasetRegistry::new();
    let a = reg.register(vec![1.0, 2.0]);
    let b = reg.register(vec![3.0]);
    assert_eq!((a, b), (0, 1));
    assert_eq!(reg.get(a).unwrap().len(), 2);
    assert_eq!(reg.get(b).unwrap(), &vec![3.0]);
    assert_eq!(reg.len(), 2);
    assert_eq!(reg.get(7), Err(RegistryError::InvalidId(7)));
}

#[test]
fn error_conversions() {
    let e: RegistryError = DataError::Empty.into();
    assert_eq!(e, RegistryError::Data(DataError::Empty));
    let b: BatchError = RegistryError::LockPoisoned.into();
    assert_eq!(b, BatchError::Registry(RegistryError::LockPoisoned));
    let r: BatchError = RecipeError::Parse("bad".to_string()).into();
    assert_eq!(r, BatchError::Recipe(RecipeError::Parse("bad".to_string())));
}
