//! Modules: the functions of one contract.

use crate::mir::function::{function_wf, Function, FunctionView};
use crate::mir::parser::layout::{interned, same_abi_types, share};
use crate::mir::parser::state::{abi_views, storage_views};
use crate::mir::types::{
    AbiLayoutRef, AbiTypeView, FunctionId, MirType, StorageLayoutRef, StorageLayoutView,
};
use vstd::prelude::*;

verus! {

/// The functions of one contract.
#[derive(Debug)]
pub struct Module {
    /// Its name.
    pub name: String,
    /// The compilation phase it is in, where it is not the first.
    pub phase: Option<String>,
    /// Its functions.
    pub functions: Vec<Function>,
    /// Whether it is an interface.
    pub is_interface: bool,
    /// The ABI layouts its functions use, each once.
    pub abi_layouts: Vec<AbiLayoutRef>,
    /// The aggregate storage layouts its functions use, each once.
    pub aggregate_layouts: Vec<StorageLayoutRef>,
    /// The types of its immutables, in order of their offsets.
    pub immutables: Vec<MirType>,
}

/// The mathematical value of a [`Module`].
#[verifier::ext_equal]
pub struct ModuleView {
    /// Its name.
    pub name: Seq<char>,
    /// The compilation phase it is in, where it is not the first.
    pub phase: Option<Seq<char>>,
    /// Its functions.
    pub functions: Seq<FunctionView>,
    /// Whether it is an interface.
    pub is_interface: bool,
    /// The ABI layouts its functions use, each once.
    pub abi_layouts: Seq<Seq<AbiTypeView>>,
    /// The aggregate storage layouts its functions use, each once.
    pub aggregate_layouts: Seq<StorageLayoutView>,
    /// The types of its immutables, in order of their offsets.
    pub immutables: Seq<MirType>,
}

/// The mathematical values of functions.
pub open spec fn function_views(functions: Seq<Function>) -> Seq<FunctionView> {
    functions.map_values(|func: Function| func@)
}

/// The mathematical value of an optional name.
pub open spec fn name_view(name: Option<String>) -> Option<Seq<char>> {
    match name {
        Some(text) => Some(text@),
        None => None,
    }
}

impl View for Module {
    type V = ModuleView;

    open spec fn view(&self) -> ModuleView {
        ModuleView {
            name: self.name@,
            phase: name_view(self.phase),
            functions: function_views(self.functions@),
            is_interface: self.is_interface,
            abi_layouts: abi_views(self.abi_layouts@),
            aggregate_layouts: storage_views(self.aggregate_layouts@),
            immutables: self.immutables@,
        }
    }
}

/// The module of the given name with nothing in it.
pub open spec fn empty_module(name: Seq<char>) -> ModuleView {
    ModuleView {
        name,
        phase: None,
        functions: Seq::empty(),
        is_interface: false,
        abi_layouts: Seq::empty(),
        aggregate_layouts: Seq::empty(),
        immutables: Seq::empty(),
    }
}

/// Whether every function of a list is well-formed.
pub open spec fn functions_wf(functions: Seq<FunctionView>) -> bool {
    forall|i: int| 0 <= i < functions.len() ==> function_wf(#[trigger] functions[i])
}

impl Module {
    /// The module of the given name with nothing in it.
    pub fn new(name: String) -> (r: Module)
        ensures
            r@ == empty_module(name@),
    {
        let module = Module {
            name,
            phase: None,
            functions: Vec::new(),
            is_interface: false,
            abi_layouts: Vec::new(),
            aggregate_layouts: Vec::new(),
            immutables: Vec::new(),
        };
        assert(module@ =~= empty_module(name@));
        module
    }

    /// Adds a function.
    pub fn add_function(&mut self, func: Function) -> (r: FunctionId)
        ensures
            final(self)@ == (ModuleView {
                functions: old(self)@.functions.push(func@),
                ..old(self)@
            }),
            r == FunctionId(old(self)@.functions.len() as usize),
            r.0 == old(self)@.functions.len(),
    {
        let id = FunctionId(self.functions.len());
        self.functions.push(func);
        assert(self@ =~= (ModuleView {
            functions: old(self)@.functions.push(func@),
            ..old(self)@
        }));
        id
    }

    /// Replaces a function.
    pub fn set_function(&mut self, id: FunctionId, func: Function)
        requires
            id.0 < old(self)@.functions.len(),
        ensures
            final(self)@ == (ModuleView {
                functions: old(self)@.functions.update(id.0 as int, func@),
                ..old(self)@
            }),
    {
        self.functions.set(id.0, func);
        assert(self@ =~= (ModuleView {
            functions: old(self)@.functions.update(id.0 as int, func@),
            ..old(self)@
        }));
    }

    /// Adds an immutable, a full word.
    pub fn add_immutable(&mut self)
        ensures
            final(self)@ == (ModuleView {
                immutables: old(self)@.immutables.push(MirType::uint256()),
                ..old(self)@
            }),
    {
        self.immutables.push(MirType::uint256());
        assert(self@ =~= (ModuleView {
            immutables: old(self)@.immutables.push(MirType::uint256()),
            ..old(self)@
        }));
    }

    /// The recorded layout of the given structure, recorded now if it was not.
    pub fn intern_abi_layout(&mut self, layout: AbiLayoutRef) -> (r: AbiLayoutRef)
        ensures
            r@ == layout@,
            final(self)@ == (ModuleView {
                abi_layouts: interned(old(self)@.abi_layouts, layout@),
                ..old(self)@
            }),
    {
        let mut i: usize = 0;
        while i < self.abi_layouts.len()
            invariant
                i <= self.abi_layouts@.len(),
                *self == *old(self),
                forall|k: int| 0 <= k < i ==> (#[trigger] self.abi_layouts@[k])@ != layout@,
            decreases self.abi_layouts@.len() - i,
        {
            if same_abi_types(&self.abi_layouts[i].types, &layout.types) {
                assert(self@.abi_layouts[i as int] == layout@);
                assert(self@.abi_layouts.contains(layout@));
                return share(&self.abi_layouts[i]);
            }
            i = i + 1;
        }
        proof {
            if self@.abi_layouts.contains(layout@) {
                let k = choose|k: int|
                    0 <= k < self@.abi_layouts.len() && self@.abi_layouts[k] == layout@;
                assert(self.abi_layouts@[k]@ == layout@);
            }
        }
        self.abi_layouts.push(share(&layout));
        assert(self@.abi_layouts =~= old(self)@.abi_layouts.push(layout@));
        assert(self@ =~= (ModuleView {
            abi_layouts: interned(old(self)@.abi_layouts, layout@),
            ..old(self)@
        }));
        layout
    }
}

} // verus!
