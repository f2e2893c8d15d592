//! The module registry and the decisions the module manager takes when it starts
//! and stops modules. The modules themselves, and the awaiting of their lifecycle
//! calls, belong to the caller, who asks here what to do and in which order.
use vstd::prelude::*;
use crate::engine::mod_trait::{ModuleEvent, ModuleStatus};
use crate::engine::string_map::StringMap;
use crate::engine::toposort::{
    all_deps_known, dependency_view, has_startup_order, is_startup_order, topological_sort,
    unknown_dependency, DependencyGraph,
};
use crate::text::{concat2, owned, strings_view};

verus! {

/// The error message for an id that names no registered module.
pub open spec fn not_found_message(id: Seq<char>) -> Seq<char> {
    "Module not found: "@ + id
}

/// "Module not found: <id>".
pub fn module_not_found(id: &str) -> (msg: String)
    ensures
        msg@ == not_found_message(id@),
{
    concat2("Module not found: ", id)
}

/// What the manager does next for one module.
#[derive(Debug, Clone, Copy, PartialEq, Eq, Structural)]
pub enum LifecycleStep {
    /// Nothing: the module is already where it should be.
    Nothing,
    /// Initialize the module with the default configuration, start it, then publish
    /// `ModuleStarted` for it.
    InitializeAndStart,
    /// Stop the module, then publish `ModuleStopped` for it.
    Stop,
}

/// The event published once a module has been started.
pub fn started_event(id: &str) -> (e: ModuleEvent)
    ensures
        (e matches ModuleEvent::ModuleStarted { module_id } && module_id@ == id@),
{
    ModuleEvent::ModuleStarted { module_id: owned(id) }
}

/// The event published once a module has been stopped.
pub fn stopped_event(id: &str) -> (e: ModuleEvent)
    ensures
        (e matches ModuleEvent::ModuleStopped { module_id } && module_id@ == id@),
{
    ModuleEvent::ModuleStopped { module_id: owned(id) }
}

/// The registered modules: each module id with the ids of the modules it depends on.
pub struct ModuleManager {
    graph: DependencyGraph,
}

impl View for ModuleManager {
    type V = Map<Seq<char>, Seq<Seq<char>>>;

    closed spec fn view(&self) -> Map<Seq<char>, Seq<Seq<char>>> {
        dependency_view(&self.graph)
    }
}

impl ModuleManager {
    #[verifier::type_invariant]
    closed spec fn inv(self) -> bool {
        self.graph.wf()
    }

    /// The registered ids, in the order they were first registered.
    pub closed spec fn registration_order(&self) -> Seq<Seq<char>> {
        self.graph.key_seq()
    }

    /// A manager with no module registered.
    pub fn new() -> (m: Self)
        ensures
            m@ == Map::<Seq<char>, Seq<Seq<char>>>::empty(),
            m.registration_order() == Seq::<Seq<char>>::empty(),
    {
        let m = ModuleManager { graph: StringMap::new() };
        assert(m@ =~= Map::<Seq<char>, Seq<Seq<char>>>::empty());
        m
    }

    /// Registers the module `id` with its dependencies; a module registered again under
    /// the same id replaces the earlier registration.
    pub fn register_module(&mut self, id: String, dependencies: Vec<String>)
        ensures
            final(self)@ == old(self)@.insert(id@, strings_view(dependencies@)),
            old(self)@.contains_key(id@) ==> final(self).registration_order() == old(self).registration_order(),
            !old(self)@.contains_key(id@) ==> final(self).registration_order() == old(self).registration_order().push(id@),
    {
        proof { use_type_invariant(&*self); }
        let ghost before = self@;
        let ghost k = id@;
        let ghost d = dependencies;
        let ghost was_known = before.contains_key(k);
        let mut graph: DependencyGraph = StringMap::new();
        std::mem::swap(&mut graph, &mut self.graph);
        proof {
            assert(graph@.contains_key(k) == was_known);
        }
        graph.insert(id, dependencies);
        self.graph = graph;
        assert(self@ =~= before.insert(k, strings_view(d@)));
    }

    /// Whether a module is registered under `id`.
    pub fn is_registered(&self, id: &str) -> (r: bool)
        ensures
            r == self@.contains_key(id@),
    {
        proof { use_type_invariant(self); }
        self.graph.contains_key(id)
    }

    /// The ids of the registered modules, each once, in the order they were first registered
    /// (the order in which `stop_all` stops them).
    pub fn get_module_ids(&self) -> (ids: Vec<String>)
        ensures
            strings_view(ids@) == self.registration_order(),
            strings_view(ids@).no_duplicates(),
            strings_view(ids@).to_set() == self@.dom(),
    {
        proof { use_type_invariant(self); }
        let ids = self.graph.keys();
        assert(self@.dom() =~= self.graph@.dom());
        ids
    }

    /// The order in which `start_all` starts the modules: every module after the modules
    /// it depends on. Fails with "Dependency not found: <d>" when a module depends on an
    /// id `d` that is not registered, and otherwise with "Circular dependency detected"
    /// when no such order exists. A dependency listed twice counts once.
    pub fn start_order(&self) -> (result: Result<Vec<String>, String>)
        ensures
            (match result {
                Ok(order) => all_deps_known(self@) && is_startup_order(self@, strings_view(order@)),
                Err(msg) => (exists|d: Seq<char>| unknown_dependency(self@, d) && msg@ == "Dependency not found: "@ + d)
                    || (all_deps_known(self@) && msg@ == "Circular dependency detected"@ && !has_startup_order(self@)),
            }),
    {
        proof { use_type_invariant(self); }
        topological_sort(&self.graph)
    }

    /// What starting the module `id` takes, given its current status (`None` when no
    /// module is registered under `id`): an error "Module not found: <id>" for an
    /// unknown module, nothing for a running one, and otherwise initialize and start.
    pub fn plan_start(id: &str, status: Option<&ModuleStatus>) -> (r: Result<LifecycleStep, String>)
        ensures
            (match status {
                None => (r matches Err(msg) && msg@ == not_found_message(id@)),
                Some(s) => r == (if *s is Running {
                    Ok::<LifecycleStep, String>(LifecycleStep::Nothing)
                } else {
                    Ok::<LifecycleStep, String>(LifecycleStep::InitializeAndStart)
                }),
            }),
    {
        match status {
            None => Err(module_not_found(id)),
            Some(ModuleStatus::Running) => Ok(LifecycleStep::Nothing),
            Some(_) => Ok(LifecycleStep::InitializeAndStart),
        }
    }

    /// What stopping the module `id` takes, given its current status (`None` when no
    /// module is registered under `id`): an error "Module not found: <id>" for an
    /// unknown module, stopping for a running one, and nothing otherwise.
    pub fn plan_stop(id: &str, status: Option<&ModuleStatus>) -> (r: Result<LifecycleStep, String>)
        ensures
            (match status {
                None => (r matches Err(msg) && msg@ == not_found_message(id@)),
                Some(s) => r == (if *s is Running {
                    Ok::<LifecycleStep, String>(LifecycleStep::Stop)
                } else {
                    Ok::<LifecycleStep, String>(LifecycleStep::Nothing)
                }),
            }),
    {
        match status {
            None => Err(module_not_found(id)),
            Some(ModuleStatus::Running) => Ok(LifecycleStep::Stop),
            Some(_) => Ok(LifecycleStep::Nothing),
        }
    }

    /// The status reported for `id`: the module's status (`Some`), or the error
    /// "Module not found: <id>" when no module is registered under `id` (`None`).
    pub fn get_module_status(id: &str, status: Option<ModuleStatus>) -> (r: Result<ModuleStatus, String>)
        ensures
            (match status {
                None => (r matches Err(msg) && msg@ == not_found_message(id@)),
                Some(s) => r == Ok::<ModuleStatus, String>(s),
            }),
    {
        match status {
            None => Err(module_not_found(id)),
            Some(s) => Ok(s),
        }
    }
}

} // verus!
