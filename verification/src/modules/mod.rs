//! The patch modules and the registry that tracks them.
use vstd::prelude::*;
use core::marker::PhantomData;

pub mod ccp_blocker;
pub mod http;

pub use ccp_blocker::CcpBlocker;
pub use http::Http;

verus! {

/// An installed code hook; dropping it removes the hook.
#[verifier::external_type_specification]
#[verifier::external_body]
pub struct ExHookPoint(ilhook::x64::HookPoint);

/// The hooks that one module has installed. Holding them keeps them in
/// place: each is removed when the interceptor is dropped.
pub struct Interceptor {
    hooks: Vec<ilhook::x64::HookPoint>,
}

impl View for Interceptor {
    type V = Seq<ilhook::x64::HookPoint>;

    closed spec fn view(&self) -> Seq<ilhook::x64::HookPoint> {
        self.hooks@
    }
}

impl Interceptor {
    /// An interceptor that holds no hook.
    pub fn new() -> (r: Self)
        ensures
            r@ == Seq::<ilhook::x64::HookPoint>::empty(),
    {
        Interceptor { hooks: Vec::new() }
    }

    /// Keeps an installed hook in place for as long as the interceptor lives.
    pub fn keep(&mut self, hook: ilhook::x64::HookPoint)
        ensures
            final(self)@ == old(self)@.push(hook),
    {
        self.hooks.push(hook);
    }

    /// The number of hooks held.
    pub fn len(&self) -> (r: usize)
        ensures
            r == self@.len(),
    {
        self.hooks.len()
    }
}

/// The state of one patch module: the hooks it has installed. `T` tells
/// the modules apart.
pub struct HgContext<T> {
    pub interceptor: Interceptor,
    pub _phantom: PhantomData<T>,
}

impl<T> HgContext<T> {
    /// A module that has installed no hook yet.
    pub fn new() -> (r: Self)
        ensures
            r.interceptor@ == Seq::<ilhook::x64::HookPoint>::empty(),
    {
        HgContext { interceptor: Interceptor::new(), _phantom: PhantomData }
    }
}

/// Which patch module a registered module is.
#[derive(Clone, Copy, Debug, PartialEq, Eq, Structural)]
pub enum ModuleKind {
    CcpBlocker,
    Http,
}

/// A registered (initialized) patch module.
#[derive(Clone, Copy, Debug, PartialEq, Eq, Structural)]
pub struct Module {
    pub kind: ModuleKind,
}

impl Module {
    /// The registry entry of an initialized module of the given kind.
    pub fn new(kind: ModuleKind) -> (r: Self)
        ensures
            r.kind == kind,
    {
        Module { kind }
    }

    /// Whether this module is of the given kind.
    pub fn is(&self, kind: ModuleKind) -> (r: bool)
        ensures
            r == (self.kind == kind),
    {
        self.kind == kind
    }
}

/// The positions, in increasing order, of the modules of kind `kind`.
pub open spec fn positions_of(modules: Seq<Module>, kind: ModuleKind) -> Seq<usize>
    decreases modules.len(),
{
    if modules.len() == 0 {
        seq![]
    } else {
        let earlier = positions_of(modules.drop_last(), kind);
        if modules.last().kind == kind {
            earlier.push((modules.len() - 1) as usize)
        } else {
            earlier
        }
    }
}

/// The modules that have been enabled, in the order they were enabled.
pub struct ModuleManager {
    modules: Vec<Module>,
}

impl View for ModuleManager {
    type V = Seq<Module>;

    closed spec fn view(&self) -> Seq<Module> {
        self.modules@
    }
}

impl ModuleManager {
    /// A registry in which no module is enabled.
    pub fn new() -> (r: Self)
        ensures
            r@ == Seq::<Module>::empty(),
    {
        ModuleManager { modules: Vec::with_capacity(8) }
    }

    /// Registers a module whose initialization has succeeded.
    pub fn enable(&mut self, module: Module)
        ensures
            final(self)@ == old(self)@.push(module),
    {
        self.modules.push(module);
    }

    /// The positions of the registered modules of kind `kind`, in order:
    /// the modules that disabling that kind deinitializes. The registry
    /// itself is left as it is.
    pub fn disable(&self, kind: ModuleKind) -> (r: Vec<usize>)
        ensures
            r@ == positions_of(self@, kind),
    {
        let mut r: Vec<usize> = Vec::new();
        let mut i: usize = 0;
        while i < self.modules.len()
            invariant
                i <= self.modules@.len(),
                r@ == positions_of(self.modules@.take(i as int), kind),
            decreases self.modules.len() - i,
        {
            let ghost before = self.modules@.take(i as int);
            assert(self.modules@.take(i + 1).drop_last() =~= before);
            if self.modules[i].is(kind) {
                r.push(i);
            }
            i += 1;
        }
        assert(self.modules@.take(self.modules.len() as int) =~= self.modules@);
        r
    }

    /// The number of registered modules.
    pub fn len(&self) -> (r: usize)
        ensures
            r == self@.len(),
    {
        self.modules.len()
    }

    /// The registered module at position `i`.
    pub fn get(&self, i: usize) -> (r: Module)
        requires
            i < self@.len(),
        ensures
            r == self@[i as int],
    {
        self.modules[i]
    }
}

/// Disabling a kind selects exactly the registered modules of that kind:
/// every selected position is in range and holds a module of that kind,
/// the positions increase, and every module of that kind is selected.
pub proof fn law_disable_selects_exactly(modules: Seq<Module>, kind: ModuleKind)
    requires
        modules.len() <= usize::MAX,
    ensures
        ({
            let p = positions_of(modules, kind);
            &&& forall|i: int| 0 <= i < p.len() ==> #[trigger] p[i] < modules.len()
                && modules[p[i] as int].kind == kind
            &&& forall|i: int, j: int| 0 <= i < j < p.len() ==> p[i] < p[j]
            &&& forall|k: int| 0 <= k < modules.len() && modules[k].kind == kind ==> p.contains(
                k as usize,
            )
        }),
    decreases modules.len(),
{
    if modules.len() > 0 {
        let init = modules.drop_last();
        law_disable_selects_exactly(init, kind);
        let p0 = positions_of(init, kind);
        let p = positions_of(modules, kind);
        assert forall|k: int| 0 <= k < modules.len() && modules[k].kind == kind implies p.contains(
            k as usize,
        ) by {
            if k < init.len() {
                assert(init[k] == modules[k]);
                let w = choose|w: int| 0 <= w < p0.len() && p0[w] == k as usize;
                assert(p[w] == p0[w]);
            } else {
                assert(p[p.len() - 1] == k as usize);
            }
        }
        assert forall|i: int| 0 <= i < p.len() implies #[trigger] p[i] < modules.len()
            && modules[p[i] as int].kind == kind by {
            if i < p0.len() {
                assert(p[i] == p0[i]);
                assert(init[p0[i] as int] == modules[p0[i] as int]);
            }
        }
    }
}

/// Enabling a module leaves the selection of the modules enabled before
/// it unchanged; the new module is selected, after them, exactly when it
/// is of the kind being disabled.
pub proof fn law_enable_then_disable(modules: Seq<Module>, module: Module, kind: ModuleKind)
    ensures
        positions_of(modules.push(module), kind) == if module.kind == kind {
            positions_of(modules, kind).push(modules.len() as usize)
        } else {
            positions_of(modules, kind)
        },
{
    assert(modules.push(module).drop_last() =~= modules);
}

} // verus!
