use app_security::engine::config::AppConfig;
use app_security::engine::manager::{module_not_found, started_event, stopped_event, LifecycleStep, ModuleManager};
use app_security::engine::mod_trait::{ModuleConfig, ModuleEvent, ModuleStatus};
use app_security::engine::string_map::StringMap;
use app_security::engine::toposort::{topological_sort, DependencyGraph};

fn graph(entries: &[(&str, &[&str])]) -> DependencyGraph {
    let mut g: DependencyGraph = StringMap::new();
    for (node, deps) in entries {
        g.insert(node.to_string(), deps.iter().map(|d| d.to_string()).collect());
    }
    g
}

fn position(order: &[String], id: &str) -> usize {
    order.iter().position(|x| x == id).unwrap()
}

#[test]
fn test_single_node() {
    let deps = graph(&[("a", &[])]);
    let order = topological_sort(&deps).unwrap();
    assert_eq!(order, vec!["a"]);
}

#[test]
fn test_chain() {
    let deps = graph(&[("c", &["b"]), ("b", &["a"]), ("a", &[])]);
    let order = topological_sort(&deps).unwrap();
    assert_eq!(order, vec!["a", "b", "c"]);
}

#[test]
fn test_unknown_dependency() {
    let deps = graph(&[("a", &["missing"])]);
    assert!(topological_sort(&deps).is_err());
}

#[test]
fn test_topological_sort_no_dependencies() {
    let deps = graph(&[("a", &[]), ("b", &[]), ("c", &[])]);
    let order = topological_sort(&deps).unwrap();
    assert_eq!(order.len(), 3);
    assert!(order.contains(&"a".to_string()));
    assert!(order.contains(&"b".to_string()));
    assert!(order.contains(&"c".to_string()));
}

#[test]
fn test_topological_sort_with_dependencies() {
    let deps = graph(&[("vpn", &[]), ("killswitch", &["vpn"]), ("arp", &[])]);
    let order = topological_sort(&deps).unwrap();
    assert!(position(&order, "vpn") < position(&order, "killswitch"));
}

#[test]
fn test_topological_sort_circular_dependency() {
    let deps = graph(&[("a", &["b"]), ("b", &["a"])]);
    assert!(topological_sort(&deps).is_err());
}

#[test]
fn toposort_error_messages() {
    let deps = graph(&[("a", &["missing"])]);
    assert_eq!(topological_sort(&deps).unwrap_err(), "Dependency not found: missing");
    let deps = graph(&[("a", &["b"]), ("b", &["a"])]);
    assert_eq!(topological_sort(&deps).unwrap_err(), "Circular dependency detected");
    let deps = graph(&[("a", &["a"])]);
    assert_eq!(topological_sort(&deps).unwrap_err(), "Circular dependency detected");
}

#[test]
fn toposort_repeated_prerequisite_counts_once() {
    let deps = graph(&[("a", &[]), ("b", &["a", "a"])]);
    assert_eq!(topological_sort(&deps).unwrap(), vec!["a", "b"]);
    let deps = graph(&[("c", &["b", "a", "b"]), ("b", &["a"]), ("a", &[])]);
    assert_eq!(topological_sort(&deps).unwrap(), vec!["a", "b", "c"]);
}

#[test]
fn toposort_diamond_respects_every_edge() {
    let deps = graph(&[("d", &["b", "c"]), ("b", &["a"]), ("c", &["a"]), ("a", &[])]);
    let order = topological_sort(&deps).unwrap();
    assert_eq!(order.len(), 4);
    assert!(position(&order, "a") < position(&order, "b"));
    assert!(position(&order, "a") < position(&order, "c"));
    assert!(position(&order, "b") < position(&order, "d"));
    assert!(position(&order, "c") < position(&order, "d"));
}

#[test]
fn toposort_empty_graph() {
    let deps = graph(&[]);
    assert_eq!(topological_sort(&deps).unwrap(), Vec::<String>::new());
}

#[test]
fn manager_start_order_puts_dependencies_first() {
    // Registered killswitch first: it depends on vpn, so vpn starts first.
    let mut manager = ModuleManager::new();
    manager.register_module("killswitch".to_string(), vec!["vpn".to_string()]);
    manager.register_module("vpn".to_string(), vec![]);
    manager.register_module("arp".to_string(), vec![]);
    let order = manager.start_order().unwrap();
    assert_eq!(order.len(), 3);
    assert!(position(&order, "vpn") < position(&order, "killswitch"));
}

#[test]
fn manager_start_order_reports_missing_dependency() {
    let mut manager = ModuleManager::new();
    manager.register_module("killswitch".to_string(), vec!["vpn".to_string()]);
    assert_eq!(manager.start_order().unwrap_err(), "Dependency not found: vpn");
}

#[test]
fn manager_registry() {
    let mut manager = ModuleManager::new();
    manager.register_module("test1".to_string(), vec![]);
    manager.register_module("test2".to_string(), vec![]);
    manager.register_module("test1".to_string(), vec![]);
    assert!(manager.is_registered("test1"));
    assert!(!manager.is_registered("nonexistent"));
    assert_eq!(manager.get_module_ids(), vec!["test1".to_string(), "test2".to_string()]);
}

#[test]
fn manager_plans_start_and_stop() {
    assert_eq!(ModuleManager::plan_start("m", Some(&ModuleStatus::Created)), Ok(LifecycleStep::InitializeAndStart));
    assert_eq!(ModuleManager::plan_start("m", Some(&ModuleStatus::Stopped)), Ok(LifecycleStep::InitializeAndStart));
    assert_eq!(ModuleManager::plan_start("m", Some(&ModuleStatus::Running)), Ok(LifecycleStep::Nothing));
    assert_eq!(ModuleManager::plan_stop("m", Some(&ModuleStatus::Running)), Ok(LifecycleStep::Stop));
    assert_eq!(ModuleManager::plan_stop("m", Some(&ModuleStatus::Stopped)), Ok(LifecycleStep::Nothing));
    assert_eq!(ModuleManager::plan_start("ghost", None), Err("Module not found: ghost".to_string()));
    assert_eq!(ModuleManager::plan_stop("ghost", None), Err("Module not found: ghost".to_string()));
}

#[test]
fn manager_unknown_status_is_an_error() {
    let result = ModuleManager::get_module_status("nonexistent", None);
    assert!(result.is_err());
    assert!(result.unwrap_err().contains("not found"));
    assert_eq!(ModuleManager::get_module_status("vpn", Some(ModuleStatus::Running)), Ok(ModuleStatus::Running));
    assert_eq!(module_not_found("x"), "Module not found: x");
}

#[test]
fn manager_lifecycle_events() {
    assert!(matches!(started_event("vpn"), ModuleEvent::ModuleStarted { module_id } if module_id == "vpn"));
    assert!(matches!(stopped_event("vpn"), ModuleEvent::ModuleStopped { module_id } if module_id == "vpn"));
}

#[test]
fn string_map_insert_get_remove() {
    let mut m: StringMap<u32> = StringMap::new();
    assert_eq!(m.insert("a".to_string(), 1), None);
    assert_eq!(m.insert("b".to_string(), 2), None);
    assert_eq!(m.insert("a".to_string(), 3), Some(1));
    assert_eq!(m.get("a"), Some(&3));
    assert_eq!(m.len(), 2);
    assert_eq!(m.keys(), vec!["a".to_string(), "b".to_string()]);
    assert_eq!(m.remove("a"), Some(3));
    assert!(!m.contains_key("a"));
    assert_eq!(m.get("a"), None);
    assert_eq!(m.remove("a"), None);
    m.clear();
    assert_eq!(m.len(), 0);
}

#[test]
fn config_test_test_default_config() {
    let config = AppConfig::default();
    assert!(config.general.auto_start);
    assert!(!config.general.minimize_to_tray);
    assert!(config.general.check_updates);
}

#[test]
fn test_config_modules_populated() {
    let config = AppConfig::default();
    assert!(config.modules.contains_key("vpn"));
    assert!(config.modules.contains_key("killswitch"));
    assert!(config.modules.contains_key("arp_detector"));
    assert_eq!(config.modules.len(), 3);
}

#[test]
fn module_config_default() {
    let c = ModuleConfig::default();
    assert!(c.enabled);
    assert!(c.auto_start);
    assert!(c.settings.is_object());
}

#[test]
fn module_status_equality() {
    assert_eq!(ModuleStatus::Running, ModuleStatus::Running);
    assert_ne!(ModuleStatus::Running, ModuleStatus::Stopped);
    assert_eq!(ModuleStatus::Failed("x".to_string()), ModuleStatus::Failed("x".to_string()));
    assert_ne!(ModuleStatus::Failed("x".to_string()), ModuleStatus::Failed("y".to_string()));
    assert_eq!(ModuleStatus::Failed("x".to_string()).clone(), ModuleStatus::Failed("x".to_string()));
}
