use class_sync::class::{
    BlockNumber, CasmHash, Class, ClassHash, CompiledClass, CompiledClassDefinition,
    P2PClassDefinition, PeerData, PeerId, SierraHash,
};
use class_sync::compile::{
    casm_to_fetch, compile_sierra_to_casm_or_fetch, sierra_to_compile, CompileInput,
};
use class_sync::error::{SyncError, SyncError2};
use class_sync::expected::{expected_declarations_stream, Declared};
use class_sync::felt::Felt;
use class_sync::hash::{compute_hash, HashInput};
use class_sync::layout::verify_layout;
use class_sync::store::{persist, Step, StorageReply, StorageRequest};
use class_sync::verify_declared::{verify_declared_at, Chunk};

const A: u64 = 0xa;
const B: u64 = 0xb;
const C: u64 = 0xc;

fn hash(n: u64) -> ClassHash {
    ClassHash(Felt::from_u64(n))
}

fn legacy_text(n: u64) -> Vec<u8> {
    format!(
        r#"{{"abi": [{n}], "program": {{"data": []}}, "entry_points_by_type": {{"EXTERNAL": [], "L1_HANDLER": [], "CONSTRUCTOR": []}}}}"#
    )
    .into_bytes()
}

fn intermediate_text(n: u64) -> Vec<u8> {
    format!(
        r#"{{"abi": "{n}", "sierra_program": ["0x{n:x}"], "contract_class_version": "0.1.0", "entry_points_by_type": {{"EXTERNAL": [], "L1_HANDLER": [], "CONSTRUCTOR": []}}}}"#
    )
    .into_bytes()
}

fn legacy(block: u64, n: u64) -> P2PClassDefinition {
    P2PClassDefinition::Cairo { block_number: BlockNumber(block), definition: legacy_text(n) }
}

fn intermediate(block: u64, n: u64) -> P2PClassDefinition {
    P2PClassDefinition::Sierra {
        block_number: BlockNumber(block),
        sierra_definition: intermediate_text(n),
    }
}

/// The rows of the storage.  A transaction works on a copy that replaces the
/// rows when it is committed.
#[derive(Clone, Debug, Default, PartialEq)]
struct Storage {
    headers: Vec<(u64, Vec<ClassHash>)>,
    casm_hashes: Vec<(ClassHash, CasmHash)>,
    cairo: Vec<(ClassHash, Vec<u8>)>,
    sierra: Vec<(SierraHash, Vec<u8>, CasmHash, Vec<u8>)>,
}

impl Storage {
    fn rows(&self) -> usize {
        self.cairo.len() + self.sierra.len()
    }

    fn declared_at(&self, block: u64) -> Declared {
        match self.headers.iter().find(|header| header.0 == block) {
            Some(header) => Declared::Classes(header.1.clone()),
            None => Declared::NoHeader,
        }
    }

    fn run(&mut self, mut step: Step<class_sync::store::Store>) -> Result<BlockNumber, SyncError2> {
        let mut open: Option<Storage> = None;
        loop {
            let (request, store) = match step {
                Step::Finished(outcome) => return outcome,
                Step::Request(request, store) => (request, store),
            };
            let reply = match request {
                StorageRequest::Begin => {
                    open = Some(self.clone());
                    StorageReply::Done
                }
                StorageRequest::UpdateCairoClass { hash, definition } => {
                    open.as_mut().unwrap().cairo.push((hash, definition));
                    StorageReply::Done
                }
                StorageRequest::CasmHash { hash } => StorageReply::CasmHash(
                    self.casm_hashes.iter().find(|row| row.0 == hash).map(|row| row.1),
                ),
                StorageRequest::UpdateSierraClass {
                    hash,
                    sierra_definition,
                    casm_hash,
                    casm_definition,
                } => {
                    open.as_mut().unwrap().sierra.push((
                        hash,
                        sierra_definition,
                        casm_hash,
                        casm_definition,
                    ));
                    StorageReply::Done
                }
                StorageRequest::Commit => {
                    *self = open.take().unwrap();
                    StorageReply::Done
                }
            };
            step = store.resume(reply);
        }
    }
}

/// The collaborators of a run: the digest of a class stands in its own
/// text, the compiler fails for the classes in `uncompilable`, and the
/// gateway knows the classes in `gateway`.
struct World {
    storage: Storage,
    uncompilable: Vec<ClassHash>,
    gateway: Vec<(ClassHash, Vec<u8>)>,
}

fn digest(definition: &[u8]) -> Option<ClassHash> {
    let text = String::from_utf8(definition.to_vec()).ok()?;
    let n = if let Some(rest) = text.strip_prefix(r#"{"abi": ["#) {
        rest.split(']').next()?.parse::<u64>().ok()?
    } else {
        text.strip_prefix(r#"{"abi": ""#)?.split('"').next()?.parse::<u64>().ok()?
    };
    Some(hash(n))
}

fn compiled_locally(definition: &[u8]) -> Vec<u8> {
    let mut casm = b"casm of ".to_vec();
    casm.extend_from_slice(definition);
    casm
}

fn sync(
    world: &mut World,
    start: u64,
    stop: u64,
    delivered: Vec<(u8, Vec<P2PClassDefinition>)>,
) -> Result<BlockNumber, SyncError> {
    let answers = (start..=stop).map(|block| world.storage.declared_at(block)).collect();
    let expected = expected_declarations_stream(BlockNumber(start), BlockNumber(stop), answers);

    let chunks: Vec<Chunk> = delivered
        .into_iter()
        .map(|(peer, classes)| {
            let mut inputs = Vec::new();
            for class in classes {
                let checked = verify_layout(PeerData::new(PeerId(vec![peer]), class))?;
                let computed = digest(checked.data.definition_bytes());
                inputs.push(HashInput { class: checked, computed });
            }
            compute_hash(inputs)
        })
        .collect();

    let mut classes: Vec<PeerData<Class>> = Vec::new();
    for item in verify_declared_at(expected, chunks) {
        classes.push(item?);
    }

    let inputs = classes
        .into_iter()
        .map(|class| {
            let local = sierra_to_compile(&class.data)
                .filter(|_| !world.uncompilable.contains(&class.data.hash))
                .map(|definition| compiled_locally(definition));
            let fetched = casm_to_fetch(&class.data, &local).and_then(|hash| {
                world.gateway.iter().find(|known| known.0 == hash).map(|known| known.1.clone())
            });
            CompileInput { class, local, fetched }
        })
        .collect();
    let compiled = compile_sierra_to_casm_or_fetch(inputs)?;

    world.storage.run(persist(compiled)).map_err(|error| SyncError::from_v2(PeerId(vec![]), error))
}

trait DefinitionBytes {
    fn definition_bytes(&self) -> &[u8];
}

impl DefinitionBytes for class_sync::layout::ClassWithLayout {
    fn definition_bytes(&self) -> &[u8] {
        match &self.definition {
            class_sync::class::ClassDefinition::Cairo(bytes) => bytes,
            class_sync::class::ClassDefinition::Sierra(bytes) => bytes,
        }
    }
}

fn world() -> World {
    World {
        storage: Storage {
            headers: vec![(100, vec![hash(A)]), (101, vec![]), (102, vec![hash(B), hash(C)])],
            casm_hashes: vec![
                (hash(B), CasmHash(Felt::from_u64(0xbb))),
                (hash(C), CasmHash(Felt::from_u64(0xcc))),
            ],
            ..Storage::default()
        },
        uncompilable: vec![],
        gateway: vec![],
    }
}

#[test]
fn happy_path() {
    let mut world = world();
    let outcome = sync(
        &mut world,
        100,
        102,
        vec![(1, vec![legacy(100, A)]), (2, vec![intermediate(102, B), intermediate(102, C)])],
    );
    assert_eq!(outcome, Ok(BlockNumber(102)));
    assert_eq!(world.storage.rows(), 3);
    assert_eq!(world.storage.cairo, vec![(hash(A), legacy_text(A))]);
    assert_eq!(
        world.storage.sierra,
        vec![
            (
                SierraHash(Felt::from_u64(B)),
                intermediate_text(B),
                CasmHash(Felt::from_u64(0xbb)),
                compiled_locally(&intermediate_text(B)),
            ),
            (
                SierraHash(Felt::from_u64(C)),
                intermediate_text(C),
                CasmHash(Felt::from_u64(0xcc)),
                compiled_locally(&intermediate_text(C)),
            ),
        ]
    );
}

#[test]
fn split_chunks() {
    let mut whole = world();
    let mut split = world();
    let outcome_of_whole = sync(
        &mut whole,
        100,
        102,
        vec![(1, vec![legacy(100, A)]), (2, vec![intermediate(102, B), intermediate(102, C)])],
    );
    let outcome_of_split = sync(
        &mut split,
        100,
        102,
        vec![
            (1, vec![legacy(100, A)]),
            (2, vec![intermediate(102, B)]),
            (2, vec![intermediate(102, C)]),
        ],
    );
    assert_eq!(outcome_of_split, Ok(BlockNumber(102)));
    assert_eq!(outcome_of_split, outcome_of_whole);
    assert_eq!(split.storage, whole.storage);
    assert_eq!(split.storage.rows(), 3);
}

#[test]
fn wrong_block() {
    let mut world = world();
    let before = world.storage.clone();
    let outcome = sync(&mut world, 100, 102, vec![(7, vec![legacy(101, A)])]);
    assert_eq!(outcome, Err(SyncError::UnexpectedClass(PeerId(vec![7]))));
    assert_eq!(world.storage, before);
}

#[test]
fn bad_layout() {
    let mut world = world();
    let before = world.storage.clone();
    let broken = P2PClassDefinition::Cairo {
        block_number: BlockNumber(100),
        definition: b"{\"abi\": [10], \"program\"".to_vec(),
    };
    let outcome = sync(&mut world, 100, 102, vec![(9, vec![broken])]);
    assert_eq!(outcome, Err(SyncError::BadClassLayout(PeerId(vec![9]))));
    assert_eq!(world.storage, before);
}

#[test]
fn gateway_fallback() {
    let mut world = world();
    world.uncompilable = vec![hash(B)];
    world.gateway = vec![(hash(B), b"G".to_vec())];
    let outcome = sync(
        &mut world,
        100,
        102,
        vec![(1, vec![legacy(100, A)]), (2, vec![intermediate(102, B), intermediate(102, C)])],
    );
    assert_eq!(outcome, Ok(BlockNumber(102)));
    assert_eq!(world.storage.cairo, vec![(hash(A), legacy_text(A))]);
    assert_eq!(
        world.storage.sierra,
        vec![
            (
                SierraHash(Felt::from_u64(B)),
                intermediate_text(B),
                CasmHash(Felt::from_u64(0xbb)),
                b"G".to_vec(),
            ),
            (
                SierraHash(Felt::from_u64(C)),
                intermediate_text(C),
                CasmHash(Felt::from_u64(0xcc)),
                compiled_locally(&intermediate_text(C)),
            ),
        ]
    );
}

#[test]
fn compiler_and_gateway_both_fail() {
    let mut world = world();
    world.uncompilable = vec![hash(C)];
    let before = world.storage.clone();
    let outcome = sync(
        &mut world,
        100,
        102,
        vec![(1, vec![legacy(100, A)]), (2, vec![intermediate(102, B), intermediate(102, C)])],
    );
    assert_eq!(outcome, Err(SyncError::CompilationFailure));
    assert_eq!(world.storage, before);
}

#[test]
fn missing_mapping() {
    let mut world = world();
    world.storage.casm_hashes.retain(|row| row.0 != hash(C));
    let before = world.storage.clone();
    let outcome = sync(
        &mut world,
        100,
        102,
        vec![(1, vec![legacy(100, A)]), (2, vec![intermediate(102, B), intermediate(102, C)])],
    );
    assert_eq!(outcome, Err(SyncError::MissingCompiledHashMapping));
    assert_eq!(world.storage, before);
    assert_eq!(world.storage.rows(), 0);
}

#[test]
fn missing_header() {
    let mut world = world();
    world.storage.headers.retain(|header| header.0 != 101);
    let before = world.storage.clone();
    let outcome = sync(
        &mut world,
        100,
        102,
        vec![(1, vec![legacy(100, A)]), (2, vec![intermediate(102, B), intermediate(102, C)])],
    );
    assert_eq!(outcome, Err(SyncError::MissingBlockHeader));
    assert_eq!(world.storage, before);
}

#[test]
fn class_out_of_the_compiled_form_is_what_was_received() {
    let compiled: CompiledClass = CompiledClass {
        block_number: BlockNumber(1),
        hash: hash(1),
        definition: CompiledClassDefinition::Cairo(legacy_text(1)),
    };
    let mut storage = Storage::default();
    let outcome = storage.run(persist(vec![PeerData::new(PeerId(vec![3]), compiled)]));
    assert_eq!(outcome, Ok(BlockNumber(1)));
    assert_eq!(storage.cairo, vec![(hash(1), legacy_text(1))]);
}
