//! Choosing the compiled form of a class.
//!
//! A Cairo class is executable as it is.  A Sierra class needs compiled
//! bytes: those of the local compiler where it succeeded, else those that the
//! gateway returned for the class hash, else the class cannot be stored.
//! Compiling and fetching are the caller's work; which of the two results is
//! used is decided here.

use vstd::prelude::*;
use crate::class::{Class, ClassDefinition, ClassHash, CompiledClass, CompiledClassDefinition, PeerData};
use crate::error::{SyncError, SyncError2};

verus! {

/// The compiled form of `class`, given what the local compiler made of it
/// (`local`) and what the gateway returned for its hash (`fetched`); `None`
/// stands for a failure, or for an attempt that was not made.
pub open spec fn compiled(
    class: Class,
    local: Option<Vec<u8>>,
    fetched: Option<Vec<u8>>,
) -> Result<CompiledClass, SyncError2> {
    match class.definition {
        ClassDefinition::Cairo(definition) => Ok(
            CompiledClass {
                block_number: class.block_number,
                hash: class.hash,
                definition: CompiledClassDefinition::Cairo(definition),
            },
        ),
        ClassDefinition::Sierra(sierra_definition) => match local {
            Some(casm_definition) => Ok(
                CompiledClass {
                    block_number: class.block_number,
                    hash: class.hash,
                    definition: CompiledClassDefinition::Sierra {
                        sierra_definition,
                        casm_definition,
                    },
                },
            ),
            None => match fetched {
                Some(casm_definition) => Ok(
                    CompiledClass {
                        block_number: class.block_number,
                        hash: class.hash,
                        definition: CompiledClassDefinition::Sierra {
                            sierra_definition,
                            casm_definition,
                        },
                    },
                ),
                None => Err(SyncError2::CompilationFailure),
            },
        },
    }
}

/// The bytes to hand to the local compiler: those of a Sierra class.  A
/// Cairo class is not compiled.
pub fn sierra_to_compile(class: &Class) -> (r: Option<&Vec<u8>>)
    ensures
        r == match class.definition {
            ClassDefinition::Cairo(_) => None::<&Vec<u8>>,
            ClassDefinition::Sierra(sierra_definition) => Some(&sierra_definition),
        },
{
    match &class.definition {
        ClassDefinition::Cairo(_) => None,
        ClassDefinition::Sierra(sierra_definition) => Some(sierra_definition),
    }
}

/// The hash to ask the gateway for: that of a Sierra class which the local
/// compiler failed on.  In every other case the gateway is left alone.
pub fn casm_to_fetch(class: &Class, local: &Option<Vec<u8>>) -> (r: Option<ClassHash>)
    ensures
        r == if class.definition is Sierra && local is None {
            Some(class.hash)
        } else {
            None
        },
{
    match &class.definition {
        ClassDefinition::Cairo(_) => None,
        ClassDefinition::Sierra(_) => match local {
            Some(_) => None,
            None => Some(class.hash),
        },
    }
}

/// The stage that turns a hashed class into a storable one.
pub struct CompileSierraToCasm;

impl CompileSierraToCasm {
    /// The stage; it keeps nothing between two classes.
    pub fn new() -> Self {
        CompileSierraToCasm
    }

    /// Puts the class in its stored form, see [`compiled`].
    pub fn map(
        &mut self,
        input: Class,
        local: Option<Vec<u8>>,
        fetched: Option<Vec<u8>>,
    ) -> (r: Result<CompiledClass, SyncError2>)
        ensures
            r == compiled(input, local, fetched),
    {
        let Class { block_number, hash, definition } = input;
        let definition = match definition {
            ClassDefinition::Cairo(c) => CompiledClassDefinition::Cairo(c),
            ClassDefinition::Sierra(sierra_definition) => {
                let casm_definition = match local {
                    Some(x) => x,
                    None => match fetched {
                        Some(x) => x,
                        None => {
                            return Err(SyncError2::CompilationFailure);
                        },
                    },
                };
                CompiledClassDefinition::Sierra { sierra_definition, casm_definition }
            },
        };
        Ok(CompiledClass { block_number, hash, definition })
    }
}

/// A class of a batch with the outcomes of the two attempts to compile it.
#[derive(Clone, Debug, PartialEq, Eq)]
pub struct CompileInput {
    pub class: PeerData<Class>,
    pub local: Option<Vec<u8>>,
    pub fetched: Option<Vec<u8>>,
}

impl CompileInput {
    /// What the stage makes of this one class.
    pub open spec fn outcome(self) -> Result<CompiledClass, SyncError2> {
        compiled(self.class.data, self.local, self.fetched)
    }
}

/// Puts a batch of classes in their stored form, in the order of the batch.
/// One class without compiled bytes fails the whole batch.
pub fn compile_sierra_to_casm_or_fetch(inputs: Vec<CompileInput>) -> (r: Result<
    Vec<PeerData<CompiledClass>>,
    SyncError,
>)
    ensures
        match r {
            Ok(classes) => {
                &&& classes@.len() == inputs@.len()
                &&& forall|i: int|
                    0 <= i < inputs@.len() ==> inputs@[i].outcome() == Ok::<CompiledClass, SyncError2>(
                        (#[trigger] classes@[i]).data,
                    ) && classes@[i].peer == inputs@[i].class.peer
            },
            Err(e) => {
                &&& e == SyncError::CompilationFailure
                &&& exists|i: int| 0 <= i < inputs@.len() && (#[trigger] inputs@[i]).outcome() is Err
            },
        },
{
    let mut classes: Vec<PeerData<CompiledClass>> = Vec::new();
    let mut stage = CompileSierraToCasm::new();
    for input in it: inputs
        invariant
            it.seq() == inputs@,
            classes@.len() == it.index(),
            forall|i: int|
                0 <= i < it.index() ==> inputs@[i].outcome() == Ok::<CompiledClass, SyncError2>(
                    (#[trigger] classes@[i]).data,
                ) && classes@[i].peer == inputs@[i].class.peer,
    {
        let CompileInput { class, local, fetched } = input;
        let PeerData { peer, data } = class;
        match stage.map(data, local, fetched) {
            Ok(compiled_class) => {
                classes.push(PeerData::new(peer, compiled_class));
            },
            Err(error) => {
                assert(inputs@[it.index() as int].outcome() is Err);
                return Err(SyncError::from_v2(peer, error));
            },
        }
    }
    Ok(classes)
}

} // verus!
