use class_sync::class::{
    BlockNumber, Class, ClassDefinition, ClassHash, CompiledClass, CompiledClassDefinition,
    PeerData, PeerId,
};
use class_sync::compile::{
    casm_to_fetch, compile_sierra_to_casm_or_fetch, sierra_to_compile, CompileInput,
    CompileSierraToCasm,
};
use class_sync::error::{SyncError, SyncError2};
use class_sync::felt::Felt;

fn hash(n: u64) -> ClassHash {
    ClassHash(Felt::from_u64(n))
}

fn cairo(n: u64) -> Class {
    Class {
        block_number: BlockNumber(n),
        hash: hash(n),
        definition: ClassDefinition::Cairo(vec![0xca, n as u8]),
    }
}

fn sierra(n: u64) -> Class {
    Class {
        block_number: BlockNumber(n),
        hash: hash(n),
        definition: ClassDefinition::Sierra(vec![0x51, n as u8]),
    }
}

fn stored_sierra(n: u64, casm: &[u8]) -> CompiledClass {
    CompiledClass {
        block_number: BlockNumber(n),
        hash: hash(n),
        definition: CompiledClassDefinition::Sierra {
            sierra_definition: vec![0x51, n as u8],
            casm_definition: casm.to_vec(),
        },
    }
}

fn stored_cairo(n: u64) -> CompiledClass {
    CompiledClass {
        block_number: BlockNumber(n),
        hash: hash(n),
        definition: CompiledClassDefinition::Cairo(vec![0xca, n as u8]),
    }
}

#[test]
fn cairo_class_passes_as_it_is() {
    let mut stage = CompileSierraToCasm::new();
    assert_eq!(stage.map(cairo(1), None, None), Ok(stored_cairo(1)));
    assert_eq!(stage.map(cairo(1), Some(vec![1]), Some(vec![2])), Ok(stored_cairo(1)));
}

#[test]
fn local_compilation_is_preferred() {
    let mut stage = CompileSierraToCasm::new();
    assert_eq!(stage.map(sierra(2), Some(vec![7, 7]), None), Ok(stored_sierra(2, &[7, 7])));
    assert_eq!(
        stage.map(sierra(2), Some(vec![7, 7]), Some(vec![8])),
        Ok(stored_sierra(2, &[7, 7]))
    );
}

#[test]
fn gateway_stands_in_for_a_failed_compilation() {
    let mut stage = CompileSierraToCasm::new();
    assert_eq!(stage.map(sierra(3), None, Some(vec![9, 8, 7])), Ok(stored_sierra(3, &[9, 8, 7])));
    assert_eq!(stage.map(sierra(3), None, Some(vec![])), Ok(stored_sierra(3, &[])));
}

#[test]
fn class_without_compiled_form_fails() {
    let mut stage = CompileSierraToCasm::new();
    assert_eq!(stage.map(sierra(4), None, None), Err(SyncError2::CompilationFailure));
}

#[test]
fn only_sierra_classes_are_compiled() {
    assert_eq!(sierra_to_compile(&cairo(1)), None);
    assert_eq!(sierra_to_compile(&sierra(2)), Some(&vec![0x51, 2]));
}

#[test]
fn gateway_is_asked_only_after_a_failed_compilation() {
    assert_eq!(casm_to_fetch(&cairo(1), &None), None);
    assert_eq!(casm_to_fetch(&cairo(1), &Some(vec![])), None);
    assert_eq!(casm_to_fetch(&sierra(2), &Some(vec![1])), None);
    assert_eq!(casm_to_fetch(&sierra(2), &None), Some(hash(2)));
}

fn input(peer: u8, class: Class, local: Option<&[u8]>, fetched: Option<&[u8]>) -> CompileInput {
    CompileInput {
        class: PeerData::new(PeerId(vec![peer]), class),
        local: local.map(|bytes| bytes.to_vec()),
        fetched: fetched.map(|bytes| bytes.to_vec()),
    }
}

#[test]
fn batch_is_compiled_in_order() {
    let outcome = compile_sierra_to_casm_or_fetch(vec![
        input(1, sierra(1), Some(&[1]), None),
        input(2, cairo(2), None, None),
        input(3, sierra(3), None, Some(&[3])),
    ]);
    assert_eq!(
        outcome,
        Ok(vec![
            PeerData::new(PeerId(vec![1]), stored_sierra(1, &[1])),
            PeerData::new(PeerId(vec![2]), stored_cairo(2)),
            PeerData::new(PeerId(vec![3]), stored_sierra(3, &[3])),
        ])
    );
    assert_eq!(compile_sierra_to_casm_or_fetch(vec![]), Ok(vec![]));
}

#[test]
fn one_failure_fails_the_batch() {
    let outcome = compile_sierra_to_casm_or_fetch(vec![
        input(1, sierra(1), Some(&[1]), None),
        input(2, sierra(2), None, None),
        input(3, cairo(3), None, None),
    ]);
    assert_eq!(outcome, Err(SyncError::CompilationFailure));
}
