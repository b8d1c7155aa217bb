//! Value types and the read-only view of the surrounding module.

use vstd::prelude::*;

verus! {

/// A WebAssembly value type: the closed sum of all types a stack operand
/// can have.
#[derive(Clone, Copy, Debug, PartialEq, Eq, Structural, Hash)]
pub enum ValType {
    I32,
    I64,
    F32,
    F64,
    V128,
    Funcref,
    Externref,
}

/// A function type: parameter and result type vectors.
#[derive(Clone, Debug)]
pub struct FuncType {
    pub params: Vec<ValType>,
    pub results: Vec<ValType>,
}

/// The read-only module tables the validator consults.  Entities are
/// addressed by ids: an id is an index into the table that owns it.
pub struct ModuleInfo {
    /// Type id -> function type.
    pub types: Vec<FuncType>,
    /// Function id -> type id of that function.
    pub funcs: Vec<usize>,
    /// Local id -> declared value type.
    pub locals: Vec<ValType>,
    /// Global id -> declared value type.
    pub globals: Vec<ValType>,
    /// Table id -> element type.
    pub tables: Vec<ValType>,
    /// Number of memories in the module.
    pub memories: usize,
    /// Number of data segments in the module.
    pub data_count: usize,
    /// Element segment id -> element type.
    pub elements: Vec<ValType>,
}

impl ModuleInfo {
    /// Every function's type id points into the type table.
    pub open spec fn wf(self) -> bool {
        forall|i: int| 0 <= i < self.funcs@.len() ==> self.funcs@[i] < self.types@.len()
    }
}

/// The per-module index resolver: maps wire indices, as decoded from the
/// binary, to ids.  Locals are resolved per function.
pub struct Indices {
    pub types: Vec<usize>,
    pub funcs: Vec<usize>,
    pub tables: Vec<usize>,
    pub memories: Vec<usize>,
    pub globals: Vec<usize>,
    pub data: Vec<usize>,
    pub elements: Vec<usize>,
    /// Function id -> the ids of that function's locals, by wire index.
    pub locals: Vec<Vec<usize>>,
}

impl Indices {
    /// Every id the resolver can hand out points into the table of the
    /// module that owns the entity.
    pub open spec fn wf(self, m: ModuleInfo) -> bool {
        &&& forall|i: int| 0 <= i < self.types@.len() ==> self.types@[i] < m.types@.len()
        &&& forall|i: int| 0 <= i < self.funcs@.len() ==> self.funcs@[i] < m.funcs@.len()
        &&& forall|i: int| 0 <= i < self.tables@.len() ==> self.tables@[i] < m.tables@.len()
        &&& forall|i: int| 0 <= i < self.memories@.len() ==> self.memories@[i] < m.memories
        &&& forall|i: int| 0 <= i < self.globals@.len() ==> self.globals@[i] < m.globals@.len()
        &&& forall|i: int| 0 <= i < self.data@.len() ==> self.data@[i] < m.data_count
        &&& forall|i: int| 0 <= i < self.elements@.len() ==> self.elements@[i] < m.elements@.len()
        &&& forall|f: int, i: int|
                0 <= f < self.locals@.len() && 0 <= i < self.locals@[f]@.len()
                    ==> self.locals@[f]@[i] < m.locals@.len()
    }

    /// Resolves a type index.
    pub fn get_type(&self, idx: u32) -> (r: Result<usize, crate::err::ErrorKind>)
        ensures
            r is Ok <==> (idx as int) < self.types@.len(),
            r is Ok ==> r->Ok_0 == self.types@[idx as int],
            r is Err ==> r->Err_0 == crate::err::ErrorKind::UnknownIndex,
    {
        if (idx as usize) < self.types.len() {
            Ok(self.types[idx as usize])
        } else {
            Err(crate::err::ErrorKind::UnknownIndex)
        }
    }

    /// Resolves a function index.
    pub fn get_func(&self, idx: u32) -> (r: Result<usize, crate::err::ErrorKind>)
        ensures
            r is Ok <==> (idx as int) < self.funcs@.len(),
            r is Ok ==> r->Ok_0 == self.funcs@[idx as int],
            r is Err ==> r->Err_0 == crate::err::ErrorKind::UnknownIndex,
    {
        if (idx as usize) < self.funcs.len() {
            Ok(self.funcs[idx as usize])
        } else {
            Err(crate::err::ErrorKind::UnknownIndex)
        }
    }

    /// Resolves a table index.
    pub fn get_table(&self, idx: u32) -> (r: Result<usize, crate::err::ErrorKind>)
        ensures
            r is Ok <==> (idx as int) < self.tables@.len(),
            r is Ok ==> r->Ok_0 == self.tables@[idx as int],
            r is Err ==> r->Err_0 == crate::err::ErrorKind::UnknownIndex,
    {
        if (idx as usize) < self.tables.len() {
            Ok(self.tables[idx as usize])
        } else {
            Err(crate::err::ErrorKind::UnknownIndex)
        }
    }

    /// Resolves a memory index.
    pub fn get_memory(&self, idx: u32) -> (r: Result<usize, crate::err::ErrorKind>)
        ensures
            r is Ok <==> (idx as int) < self.memories@.len(),
            r is Ok ==> r->Ok_0 == self.memories@[idx as int],
            r is Err ==> r->Err_0 == crate::err::ErrorKind::UnknownIndex,
    {
        if (idx as usize) < self.memories.len() {
            Ok(self.memories[idx as usize])
        } else {
            Err(crate::err::ErrorKind::UnknownIndex)
        }
    }

    /// Resolves a global index.
    pub fn get_global(&self, idx: u32) -> (r: Result<usize, crate::err::ErrorKind>)
        ensures
            r is Ok <==> (idx as int) < self.globals@.len(),
            r is Ok ==> r->Ok_0 == self.globals@[idx as int],
            r is Err ==> r->Err_0 == crate::err::ErrorKind::UnknownIndex,
    {
        if (idx as usize) < self.globals.len() {
            Ok(self.globals[idx as usize])
        } else {
            Err(crate::err::ErrorKind::UnknownIndex)
        }
    }

    /// Resolves a data segment index.
    pub fn get_data(&self, idx: u32) -> (r: Result<usize, crate::err::ErrorKind>)
        ensures
            r is Ok <==> (idx as int) < self.data@.len(),
            r is Ok ==> r->Ok_0 == self.data@[idx as int],
            r is Err ==> r->Err_0 == crate::err::ErrorKind::UnknownIndex,
    {
        if (idx as usize) < self.data.len() {
            Ok(self.data[idx as usize])
        } else {
            Err(crate::err::ErrorKind::UnknownIndex)
        }
    }

    /// Resolves an element segment index.
    pub fn get_element(&self, idx: u32) -> (r: Result<usize, crate::err::ErrorKind>)
        ensures
            r is Ok <==> (idx as int) < self.elements@.len(),
            r is Ok ==> r->Ok_0 == self.elements@[idx as int],
            r is Err ==> r->Err_0 == crate::err::ErrorKind::UnknownIndex,
    {
        if (idx as usize) < self.elements.len() {
            Ok(self.elements[idx as usize])
        } else {
            Err(crate::err::ErrorKind::UnknownIndex)
        }
    }

    /// Resolves a local index of the given function.
    pub fn get_local(&self, func: usize, idx: u32) -> (r: Result<usize, crate::err::ErrorKind>)
        ensures
            r is Ok <==> (func < self.locals@.len() && (idx as int) < self.locals@[func as int]@.len()),
            r is Ok ==> r->Ok_0 == self.locals@[func as int]@[idx as int],
            r is Err ==> r->Err_0 == crate::err::ErrorKind::UnknownIndex,
    {
        if func < self.locals.len() && (idx as usize) < self.locals[func].len() {
            Ok(self.locals[func][idx as usize])
        } else {
            Err(crate::err::ErrorKind::UnknownIndex)
        }
    }
}

/// The reverse resolver used when re-emitting: maps ids back to the wire
/// indices the emitted module will use.
pub struct IdsToIndices {
    pub types: Vec<u32>,
    pub funcs: Vec<u32>,
    pub tables: Vec<u32>,
    pub globals: Vec<u32>,
    pub data: Vec<u32>,
    pub elements: Vec<u32>,
}

/// Copies a vector of value types.
pub fn copy_types(v: &Vec<ValType>) -> (r: Vec<ValType>)
    ensures r@ == v@,
{
    let mut r: Vec<ValType> = Vec::new();
    let mut i: usize = 0;
    while i < v.len()
        invariant
            i <= v.len(),
            r@ == v@.subrange(0, i as int),
        decreases v.len() - i,
    {
        r.push(v[i]);
        i += 1;
        proof {
            assert(r@ =~= v@.subrange(0, i as int));
        }
    }
    proof {
        assert(v@.subrange(0, v@.len() as int) =~= v@);
    }
    r
}

/// Compares two vectors of value types.
pub fn types_eq(a: &Vec<ValType>, b: &Vec<ValType>) -> (r: bool)
    ensures r <==> a@ == b@,
{
    if a.len() != b.len() {
        proof {
            assert(a@ != b@) by {
                if a@ == b@ {
                    assert(a@.len() == b@.len());
                }
            }
        }
        return false;
    }
    let mut i: usize = 0;
    while i < a.len()
        invariant
            i <= a.len(),
            a@.len() == b@.len(),
            forall|j: int| 0 <= j < i ==> a@[j] == b@[j],
        decreases a.len() - i,
    {
        if a[i] != b[i] {
            proof {
                assert(a@ != b@) by {
                    if a@ == b@ {
                        assert(a@[i as int] == b@[i as int]);
                    }
                }
            }
            return false;
        }
        i += 1;
    }
    proof {
        assert(a@ =~= b@);
    }
    true
}

} // verus!
