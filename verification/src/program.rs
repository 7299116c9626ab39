use vstd::prelude::*;

use crate::module::ModuleName;
use crate::struct_info::StructInfo;

verus! {

/// A compiled module, as the rest of the program sees it: its name, the function that runs its
/// top level (its position in the program's function table), the names it exports, and the
/// struct it defines, if any.
#[derive(Debug)]
pub struct Module {
    pub name: ModuleName,
    pub function: usize,
    pub exports: Vec<String>,
    pub struct_info: Option<StructInfo>,
}

/// The modules compiled so far, in the order they were compiled.
#[derive(Debug)]
pub struct Program {
    pub modules: Vec<Module>,
}

/// The position of the module named `name`, the first such.
pub open spec fn module_position(ms: Seq<Module>, name: Seq<char>) -> Option<int> {
    if exists|i: int| 0 <= i < ms.len() && ms[i].name.0@ == name {
        Some(
            choose|i: int|
                0 <= i < ms.len() && ms[i].name.0@ == name && forall|j: int|
                    0 <= j < i ==> ms[j].name.0@ != name,
        )
    } else {
        None
    }
}

impl Program {
    pub fn new() -> (r: Program)
        ensures
            r.modules@.len() == 0,
    {
        Program { modules: Vec::new() }
    }

    /// The names of the modules, in the order they were compiled.
    pub fn module_names(&self) -> (r: Vec<String>)
        ensures
            r@.len() == self.modules@.len(),
            forall|i: int| 0 <= i < r@.len() ==> #[trigger] r@[i]@ == self.modules@[i].name.0@,
    {
        let mut out: Vec<String> = Vec::new();
        let mut i: usize = 0;
        while i < self.modules.len()
            invariant
                i <= self.modules@.len(),
                out@.len() == i,
                forall|k: int| 0 <= k < i ==> #[trigger] out@[k]@ == self.modules@[k].name.0@,
            decreases self.modules.len() - i,
        {
            out.push(self.modules[i].name.0.clone());
            i = i + 1;
        }
        out
    }

    /// The module named `module_name`, if it was compiled.
    pub fn get_module(&self, module_name: &str) -> (r: Option<&Module>)
        ensures
            match module_position(self.modules@, module_name@) {
                Some(i) => r == Some(&self.modules@[i]),
                None => r is None,
            },
    {
        let target = module_name.to_owned();
        let mut i: usize = 0;
        while i < self.modules.len()
            invariant
                i <= self.modules@.len(),
                target@ == module_name@,
                forall|j: int| 0 <= j < i ==> self.modules@[j].name.0@ != module_name@,
            decreases self.modules.len() - i,
        {
            if self.modules[i].name.0 == target {
                proof {
                    let k = choose|k: int|
                        0 <= k < self.modules@.len() && self.modules@[k].name.0@ == module_name@
                            && forall|j: int|
                            0 <= j < k ==> self.modules@[j].name.0@ != module_name@;
                    assert(k == i) by {
                        if k < i {
                        } else if k > i {
                            assert(self.modules@[i as int].name.0@ == module_name@);
                        }
                    }
                }
                return Some(&self.modules[i]);
            }
            i = i + 1;
        }
        None
    }

    /// Adds a module that was not compiled before.
    pub fn insert_module(&mut self, module: Module)
        requires
            module_position(old(self).modules@, module.name.0@) is None,
        ensures
            final(self).modules@ == old(self).modules@.push(module),
    {
        self.modules.push(module);
    }
}

} // verus!
