use endfield_patch::modules::{HgContext, Http, CcpBlocker, Interceptor, Module, ModuleKind, ModuleManager};

#[test]
fn new_manager_is_empty() {
    let m = ModuleManager::new();
    assert_eq!(m.len(), 0);
    assert_eq!(m.disable(ModuleKind::Http), Vec::<usize>::new());
}

#[test]
fn enable_keeps_order() {
    let mut m = ModuleManager::new();
    m.enable(Module::new(ModuleKind::CcpBlocker));
    m.enable(Module::new(ModuleKind::Http));
    assert_eq!(m.len(), 2);
    assert_eq!(m.get(0), Module::new(ModuleKind::CcpBlocker));
    assert_eq!(m.get(1), Module::new(ModuleKind::Http));
}

#[test]
fn disable_selects_modules_of_kind() {
    let mut m = ModuleManager::new();
    m.enable(Module::new(ModuleKind::Http));
    m.enable(Module::new(ModuleKind::CcpBlocker));
    m.enable(Module::new(ModuleKind::Http));
    assert_eq!(m.disable(ModuleKind::Http), vec![0, 2]);
    assert_eq!(m.disable(ModuleKind::CcpBlocker), vec![1]);
    // disabling leaves the registry as it was
    assert_eq!(m.len(), 3);
    assert_eq!(m.disable(ModuleKind::Http), vec![0, 2]);
}

#[test]
fn enabling_other_kind_does_not_change_selection() {
    let mut m = ModuleManager::new();
    m.enable(Module::new(ModuleKind::Http));
    let before = m.disable(ModuleKind::Http);
    m.enable(Module::new(ModuleKind::CcpBlocker));
    assert_eq!(m.disable(ModuleKind::Http), before);
}

#[test]
fn module_is_its_kind() {
    let http = Module::new(ModuleKind::Http);
    assert!(http.is(ModuleKind::Http));
    assert!(!http.is(ModuleKind::CcpBlocker));
}

#[test]
fn new_context_holds_no_hook() {
    let a: HgContext<Http> = HgContext::new();
    assert_eq!(a.interceptor.len(), 0);
    let b: HgContext<CcpBlocker> = HgContext::new();
    assert_eq!(b.interceptor.len(), 0);
    assert_eq!(Interceptor::new().len(), 0);
}
