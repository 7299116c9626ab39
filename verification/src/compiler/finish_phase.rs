use vstd::prelude::*;

use crate::module::ModuleName;
use crate::program::{module_position, Module, Program};
use crate::struct_info::StructInfo;

verus! {

/// Adds the compiled module to the program: its name, the function that runs its top level,
/// its exports and the struct it defines.
pub fn finish_phase(
    module_name: &ModuleName,
    function: usize,
    exports: Vec<String>,
    struct_info: Option<StructInfo>,
    program: &mut Program,
)
    requires
        module_position(old(program).modules@, module_name.0@) is None,
    ensures
        final(program).modules@ == old(program).modules@.push(
            Module { name: *module_name, function, exports, struct_info },
        ),
{
    let module = Module { name: ModuleName(module_name.0.clone()), function, exports, struct_info };
    program.insert_module(module);
}

} // verus!
