//! The functions of the runtime support library, as the compiled code sees
//! them: declared in the module and called by kind.

use crate::allocation::lemma_register;
use crate::context::{runtime_function_type, GenerationContext};
use crate::ir::{FunctionKind, RuntimeFunctions};
use crate::state::{
    advanced, lemma_advanced_frame, lemma_advanced_keeps, lemma_advanced_trans, registered,
    registry_kept, runtime_type, State,
};
use vstd::prelude::*;

verus! {

impl State {
    /// The state after the runtime function `func` was declared and
    /// registered, unless it was registered already.
    pub open spec fn declare(self, func: RuntimeFunctions) -> State {
        if registered(self.runtimes, func) {
            self
        } else {
            let (declared, function) = self.add_function(
                FunctionKind::Runtime(func),
                runtime_type(func),
            );
            declared.register(func, function)
        }
    }

    /// The state after every runtime function was declared.
    pub open spec fn with_runtime(self) -> State {
        self.declare(RuntimeFunctions::RetainObj).declare(RuntimeFunctions::ReleaseObj).declare(
            RuntimeFunctions::ReportMalloc,
        ).declare(RuntimeFunctions::CheckLeak).declare(RuntimeFunctions::ArrayNew).declare(
            RuntimeFunctions::ArrayRead,
        ).declare(RuntimeFunctions::ArrayWrite).declare(RuntimeFunctions::ArrayWriteUnique)
    }
}

/// Declares one runtime function and registers it, unless it is registered
/// already.
fn declare_runtime(func: RuntimeFunctions, gc: &mut GenerationContext)
    requires
        !(func is Dtor),
    ensures
        final(gc)@ == old(gc)@.declare(func),
        advanced(old(gc)@, final(gc)@),
        registered(final(gc)@.runtimes, func),
        final(gc)@.scope == old(gc)@.scope,
        final(gc)@.cursor == old(gc)@.cursor,
        final(gc)@.code == old(gc)@.code,
        final(gc)@.blocks == old(gc)@.blocks,
{
    if gc.runtime(func).is_some() {
        proof {
            lemma_advanced_frame(old(gc)@, gc@);
        }
        return ;
    }
    let function = gc.add_function(FunctionKind::Runtime(func), runtime_function_type(func));
    let ghost declared = gc@;
    gc.register_runtime(func, function);
    proof {
        lemma_register(declared, func, function);
        reveal(registry_kept);
        crate::state::lemma_function_added(
            old(gc)@,
            declared,
            crate::ir::Function {
                kind: FunctionKind::Runtime(func),
                ty: runtime_type(func),
            },
        );
        crate::state::lemma_runtime_registered(declared, gc@, func, function);
        lemma_advanced_trans(old(gc)@, declared, gc@);
    }
}

/// Declares the functions of the runtime support library that are not
/// declared yet.
pub fn build_runtime(gc: &mut GenerationContext)
    ensures
        final(gc)@ == old(gc)@.with_runtime(),
        final(gc)@.has_runtime(),
        advanced(old(gc)@, final(gc)@),
        final(gc)@.scope == old(gc)@.scope,
        final(gc)@.cursor == old(gc)@.cursor,
        final(gc)@.code == old(gc)@.code,
        final(gc)@.blocks == old(gc)@.blocks,
{
    let ghost s0 = gc@;
    declare_runtime(RuntimeFunctions::RetainObj, gc);
    let ghost s1 = gc@;
    declare_runtime(RuntimeFunctions::ReleaseObj, gc);
    let ghost s2 = gc@;
    declare_runtime(RuntimeFunctions::ReportMalloc, gc);
    let ghost s3 = gc@;
    declare_runtime(RuntimeFunctions::CheckLeak, gc);
    let ghost s4 = gc@;
    declare_runtime(RuntimeFunctions::ArrayNew, gc);
    let ghost s5 = gc@;
    declare_runtime(RuntimeFunctions::ArrayRead, gc);
    let ghost s6 = gc@;
    declare_runtime(RuntimeFunctions::ArrayWrite, gc);
    let ghost s7 = gc@;
    declare_runtime(RuntimeFunctions::ArrayWriteUnique, gc);
    proof {
        lemma_advanced_keeps(s1, s2);
        lemma_advanced_keeps(s2, s3);
        lemma_advanced_keeps(s3, s4);
        lemma_advanced_keeps(s4, s5);
        lemma_advanced_keeps(s5, s6);
        lemma_advanced_keeps(s6, s7);
        lemma_advanced_keeps(s7, gc@);
        lemma_advanced_trans(s0, s1, s2);
        lemma_advanced_trans(s0, s2, s3);
        lemma_advanced_trans(s0, s3, s4);
        lemma_advanced_trans(s0, s4, s5);
        lemma_advanced_trans(s0, s5, s6);
        lemma_advanced_trans(s0, s6, s7);
        lemma_advanced_trans(s0, s7, gc@);
    }
}

} // verus!
