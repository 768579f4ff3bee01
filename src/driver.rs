use vstd::prelude::*;
use vstd::string::StrSliceExecFns;
use crate::concrete::{ConcreteType, TypeRegistry};
use crate::error::NativeError;
use crate::lowering::{lowered, IrShape, IrType};

verus! {

/// The environment variable that turns on IR dumps.
pub const DEBUG_DUMP_VAR: &'static str = "NATIVE_DEBUG_DUMP";

/// Dumps written before the pass pipeline runs.
pub const DUMP_PREPASS: &'static str = "dump-prepass.mlir";
pub const DUMP_PREPASS_DEBUG_VALID: &'static str = "dump-prepass-debug-valid.mlir";
pub const DUMP_PREPASS_DEBUG_PRETTY: &'static str = "dump-prepass-debug-pretty.mlir";

/// Dumps written after the pass pipeline runs.
pub const DUMP_POSTPASS: &'static str = "dump.mlir";
pub const DUMP_POSTPASS_DEBUG_PRETTY: &'static str = "dump-debug-pretty.mlir";
pub const DUMP_POSTPASS_DEBUG: &'static str = "dump-debug.mlir";

/// The source file that module locations and debug info name.
pub const SOURCE_FILE: &'static str = "program.sierra";
/// The producer recorded in the debug-info compile unit.
pub const PRODUCER: &'static str = "cairo-native";
/// The DWARF language tag recorded in the compile unit.
pub const DI_LANGUAGE: u32 = 0x1c;
/// The name of the debug-info module.
pub const DI_MODULE_NAME: &'static str = "LLVMDialectModule";
/// The string from which the distinct compile-unit id is made.
pub const COMPILE_UNIT_ID: &'static str = "compile_unit_id";

/// Whether the value of the dump variable turns dumps on: `"1"` or `"true"`.
pub open spec fn dump_on(value: Seq<char>) -> bool {
    value == seq!['1'] || value == seq!['t', 'r', 'u', 'e']
}

/// Whether dumps are written, given the dump variable's value if it is set.
pub fn dump_requested(value: Option<&str>) -> (r: bool)
    ensures
        r == (value is Some && dump_on(value->Some_0@)),
{
    match value {
        None => false,
        Some(s) => {
            let n = s.unicode_len();
            if n == 1 {
                let c = s.get_char(0);
                proof {
                    if c == '1' {
                        assert(s@ =~= seq!['1']);
                    }
                }
                c == '1'
            } else if n == 4 {
                let a = s.get_char(0);
                let b = s.get_char(1);
                let c = s.get_char(2);
                let d = s.get_char(3);
                proof {
                    if a == 't' && b == 'r' && c == 'u' && d == 'e' {
                        assert(s@ =~= seq!['t', 'r', 'u', 'e']);
                    }
                }
                a == 't' && b == 'r' && c == 'u' && d == 'e'
            } else {
                false
            }
        },
    }
}

/// The lowering of the type declared with id `i`.
#[verifier::opaque]
pub open spec fn lowered_at(reg: Seq<ConcreteType>, i: int) -> Result<IrShape, NativeError> {
    lowered(reg, reg[i])
}

impl TypeRegistry {
    fn build_at(&self, i: usize) -> (r: Result<IrType, NativeError>)
        requires
            self.wf(),
            i < self.types@.len(),
        ensures
            r is Ok ==> lowered_at(self.types@, i as int) == Ok::<IrShape, NativeError>(r->Ok_0@),
            r is Err ==> lowered_at(self.types@, i as int) == Err::<IrShape, NativeError>(r->Err_0),
    {
        reveal(lowered_at);
        assert(self.types@[i as int].rank() <= i);
        self.types[i].build(self)
    }

    /// Lowers every declared type once, in declaration order: entry `i` of
    /// the result is the lowered type of id `i`. Fails with the first error.
    pub fn lower_all(&self) -> (r: Result<Vec<IrType>, NativeError>)
        requires
            self.wf(),
        ensures
            r is Ok ==> r->Ok_0@.len() == self.types@.len() && forall|i: int|
                0 <= i < self.types@.len() ==> #[trigger] lowered_at(self.types@, i)
                    == Ok::<IrShape, NativeError>(r->Ok_0@[i]@),
            r is Err ==> exists|i: int|
                0 <= i < self.types@.len() && #[trigger] lowered_at(self.types@, i)
                    == Err::<IrShape, NativeError>(r->Err_0) && forall|j: int|
                    0 <= j < i ==> #[trigger] lowered_at(self.types@, j) is Ok,
    {
        let mut out: Vec<IrType> = Vec::new();
        let mut i: usize = 0;
        while i < self.types.len()
            invariant
                self.wf(),
                0 <= i <= self.types@.len(),
                out@.len() == i,
                forall|j: int|
                    0 <= j < i ==> #[trigger] lowered_at(self.types@, j)
                        == Ok::<IrShape, NativeError>(out@[j]@),
            decreases self.types.len() - i,
        {
            match self.build_at(i) {
                Ok(t) => {
                    out.push(t);
                },
                Err(e) => {
                    assert(forall|j: int| 0 <= j < i ==> #[trigger] lowered_at(self.types@, j) is Ok);
                    return Err(e);
                },
            }
            i = i + 1;
        }
        Ok(out)
    }
}

} // verus!
