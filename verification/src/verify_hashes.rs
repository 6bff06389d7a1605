//! Matching the classes of one block against the block's declarations.

use vstd::prelude::*;
use crate::class::{ClassHash, CompiledClass, CompiledClassDefinition, SierraHash};
use crate::declared::DeclaredClasses;
use crate::error::SyncError2;

verus! {

/// Why the classes of a block do not match its declarations.
#[derive(Clone, Debug, PartialEq, Eq)]
pub enum Mismatch {
    /// There are no declarations to hold the classes against.
    NoDeclarations,
    /// A class is not declared in its form, or came a second time.
    NotDeclared(ClassHash),
    /// Every class is declared, but these declared classes did not come.
    Missing(Vec<ClassHash>),
}

impl Mismatch {
    /// The error that ends the sync attempt.
    pub fn error(&self) -> (r: SyncError2)
        ensures
            r == if *self is NoDeclarations {
                SyncError2::ExpectationsExhausted
            } else {
                SyncError2::ClassDefinitionsDeclarationsMismatch
            },
    {
        match self {
            Mismatch::NoDeclarations => SyncError2::ExpectationsExhausted,
            _ => SyncError2::ClassDefinitionsDeclarationsMismatch,
        }
    }
}

/// The class is declared, in the form in which it came.
pub open spec fn declared_for(declared: DeclaredClasses, class: CompiledClass) -> bool {
    match class.definition {
        CompiledClassDefinition::Cairo(_) => declared.cairo@.contains(class.hash),
        CompiledClassDefinition::Sierra { .. } => declared.sierra@.dom().contains(
            SierraHash(class.hash.0),
        ),
    }
}

/// Among the first `n` classes there is a Cairo class with this hash.
pub open spec fn has_cairo(classes: Seq<CompiledClass>, n: int, hash: ClassHash) -> bool {
    exists|i: int|
        0 <= i < n && i < classes.len() && (#[trigger] classes[i]).definition is Cairo
            && classes[i].hash == hash
}

/// Among the first `n` classes there is a Sierra class with this hash.
pub open spec fn has_sierra(classes: Seq<CompiledClass>, n: int, hash: SierraHash) -> bool {
    exists|i: int|
        0 <= i < n && i < classes.len() && (#[trigger] classes[i]).definition is Sierra
            && SierraHash(classes[i].hash.0) == hash
}

/// The class at `at` is declared and did not come before.
pub open spec fn accepted(declared: DeclaredClasses, classes: Seq<CompiledClass>, at: int) -> bool {
    let class = classes[at];
    &&& declared_for(declared, class)
    &&& match class.definition {
        CompiledClassDefinition::Cairo(_) => !has_cairo(classes, at, class.hash),
        CompiledClassDefinition::Sierra { .. } => !has_sierra(
            classes,
            at,
            SierraHash(class.hash.0),
        ),
    }
}

/// The declared classes that are not among `classes`.
pub open spec fn missing(declared: DeclaredClasses, classes: Seq<CompiledClass>) -> Set<
    ClassHash,
> {
    Set::new(
        |hash: ClassHash|
            {
                ||| declared.cairo@.contains(hash) && !has_cairo(
                    classes,
                    classes.len() as int,
                    hash,
                )
                ||| declared.sierra@.dom().contains(SierraHash(hash.0)) && !has_sierra(
                    classes,
                    classes.len() as int,
                    SierraHash(hash.0),
                )
            },
    )
}

/// Classes and declarations match one to one: every class is declared in
/// its form, none came twice, and every declared class came.
pub open spec fn match_one_to_one(declared: DeclaredClasses, classes: Seq<CompiledClass>) -> bool {
    &&& forall|i: int| 0 <= i < classes.len() ==> accepted(declared, classes, i)
    &&& missing(declared, classes) == Set::<ClassHash>::empty()
}

/// The stage that holds the classes of a block against its declarations.
pub struct VerifyClassHashes;

impl VerifyClassHashes {
    /// Checks the classes of one block against the block's declarations
    /// (`None`: the source of declarations has ended).  The classes are
    /// handed back as they came exactly when they match the declarations one
    /// to one.  Otherwise the error names the first class that is not
    /// declared, or else the declared classes that are missing.
    pub fn map(&mut self, declared: Option<DeclaredClasses>, input: Vec<CompiledClass>) -> (r:
        Result<Vec<CompiledClass>, Mismatch>)
        ensures
            match declared {
                None => r == Err::<Vec<CompiledClass>, Mismatch>(Mismatch::NoDeclarations),
                Some(d) => (r is Ok <==> match_one_to_one(d, input@)) && match r {
                    Ok(classes) => classes == input,
                    Err(Mismatch::NotDeclared(hash)) => exists|k: int|
                        {
                            &&& 0 <= k < input@.len()
                            &&& !accepted(d, input@, k)
                            &&& (#[trigger] input@[k]).hash == hash
                            &&& forall|i: int| 0 <= i < k ==> accepted(d, input@, i)
                        },
                    Err(Mismatch::Missing(hashes)) => {
                        &&& forall|i: int| 0 <= i < input@.len() ==> accepted(d, input@, i)
                        &&& hashes@.len() > 0
                        &&& hashes@.to_set() == missing(d, input@)
                    },
                    Err(Mismatch::NoDeclarations) => false,
                },
            },
    {
        let ghost d = declared->0;
        let DeclaredClasses { mut sierra, mut cairo } = match declared {
            None => {
                return Err(Mismatch::NoDeclarations);
            },
            Some(d) => d,
        };
        let mut n: usize = 0;
        while n < input.len()
            invariant
                n <= input@.len(),
                declared == Some(d),
                forall|i: int| 0 <= i < n ==> accepted(d, input@, i),
                forall|h: ClassHash|
                    cairo@.contains(h) <==> d.cairo@.contains(h) && !has_cairo(input@, n as int, h),
                forall|k: SierraHash|
                    sierra@.dom().contains(k) <==> d.sierra@.dom().contains(k) && !has_sierra(
                        input@,
                        n as int,
                        k,
                    ),
            decreases input@.len() - n,
        {
            let ghost cairo_before = cairo@;
            let ghost sierra_before = sierra@;
            let hash = input[n].hash;
            let found = match &input[n].definition {
                CompiledClassDefinition::Cairo(_) => cairo.remove(&hash),
                CompiledClassDefinition::Sierra { .. } => sierra.remove(&SierraHash(hash.0)).is_some(),
            };
            if !found {
                proof {
                    assert(!accepted(d, input@, n as int));
                    assert(input@[n as int].hash == hash);
                    assert(!match_one_to_one(d, input@));
                }
                return Err(Mismatch::NotDeclared(hash));
            }
            proof {
                let classes = input@;
                assert(accepted(d, classes, n as int));
                assert forall|h: ClassHash|
                    cairo@.contains(h) <==> d.cairo@.contains(h) && !has_cairo(
                        classes,
                        n + 1,
                        h,
                    ) by {
                    if has_cairo(classes, n + 1, h) && !has_cairo(classes, n as int, h) {
                        let i = choose|i: int|
                            0 <= i < n + 1 && i < classes.len() && (
                            #[trigger] classes[i]).definition is Cairo && classes[i].hash == h;
                        assert(i == n);
                    }
                    if classes[n as int].definition is Cairo && classes[n as int].hash == h {
                        assert(has_cairo(classes, n + 1, h));
                    }
                    if has_cairo(classes, n as int, h) {
                        let i = choose|i: int|
                            0 <= i < n && i < classes.len() && (
                            #[trigger] classes[i]).definition is Cairo && classes[i].hash == h;
                        assert(classes[i].definition is Cairo);
                        assert(has_cairo(classes, n + 1, h));
                    }
                }
                assert forall|k: SierraHash|
                    sierra@.dom().contains(k) <==> d.sierra@.dom().contains(k) && !has_sierra(
                        classes,
                        n + 1,
                        k,
                    ) by {
                    if has_sierra(classes, n + 1, k) && !has_sierra(classes, n as int, k) {
                        let i = choose|i: int|
                            0 <= i < n + 1 && i < classes.len() && (
                            #[trigger] classes[i]).definition is Sierra && SierraHash(
                                classes[i].hash.0,
                            ) == k;
                        assert(i == n);
                    }
                    if classes[n as int].definition is Sierra && SierraHash(
                        classes[n as int].hash.0,
                    ) == k {
                        assert(has_sierra(classes, n + 1, k));
                    }
                    if has_sierra(classes, n as int, k) {
                        let i = choose|i: int|
                            0 <= i < n && i < classes.len() && (
                            #[trigger] classes[i]).definition is Sierra && SierraHash(
                                classes[i].hash.0,
                            ) == k;
                        assert(classes[i].definition is Sierra);
                        assert(has_sierra(classes, n + 1, k));
                    }
                }
            }
            n += 1;
        }
        if cairo.is_empty() && sierra.is_empty() {
            proof {
                assert(missing(d, input@) =~= Set::<ClassHash>::empty()) by {
                    assert forall|h: ClassHash| !missing(d, input@).contains(h) by {
                        assert(!cairo@.contains(h));
                        assert(!sierra@.dom().contains(SierraHash(h.0)));
                    }
                }
            }
            Ok(input)
        } else {
            let mut hashes = cairo.to_vec();
            let keys = sierra.keys();
            let ghost listed = hashes@;
            let mut i: usize = 0;
            while i < keys.len()
                invariant
                    i <= keys@.len(),
                    hashes@.len() == listed.len() + i,
                    forall|j: int| 0 <= j < listed.len() ==> hashes@[j] == listed[j],
                    forall|j: int| 0 <= j < i ==> hashes@[listed.len() + j] == ClassHash(keys@[j].0),
                decreases keys@.len() - i,
            {
                hashes.push(ClassHash(keys[i].0));
                i += 1;
            }
            proof {
                assert forall|h: ClassHash| hashes@.to_set().contains(h) == missing(
                    d,
                    input@,
                ).contains(h) by {
                    if hashes@.contains(h) {
                        let j = hashes@.index_of(h);
                        if j < listed.len() {
                            assert(listed[j] == h);
                            assert(listed.to_set().contains(h));
                        } else {
                            let k = keys@[j - listed.len()];
                            assert(keys@.to_set().contains(k));
                            assert(SierraHash(h.0) == k);
                        }
                    }
                    if cairo@.contains(h) {
                        assert(listed.to_set().contains(h));
                        let j = listed.index_of(h);
                        assert(hashes@[j] == h);
                    }
                    if sierra@.dom().contains(SierraHash(h.0)) {
                        assert(keys@.to_set().contains(SierraHash(h.0)));
                        let j = keys@.index_of(SierraHash(h.0));
                        assert(hashes@[listed.len() + j] == h);
                    }
                }
                assert(hashes@.to_set() =~= missing(d, input@));
                if !(cairo@ == Set::<ClassHash>::empty()) {
                    assert(listed.len() > 0) by {
                        if listed.len() == 0 {
                            assert(listed.to_set() =~= Set::<ClassHash>::empty());
                        }
                    }
                } else {
                    assert(keys@.len() > 0) by {
                        if keys@.len() == 0 {
                            assert(keys@.to_set() =~= Set::<SierraHash>::empty());
                            assert(sierra@.dom() =~= Set::<SierraHash>::empty());
                            assert(sierra@ =~= Map::<SierraHash, crate::class::CasmHash>::empty());
                        }
                    }
                }
            }
            proof {
                assert(hashes@.to_set().contains(hashes@[0]));
                assert(!match_one_to_one(d, input@));
            }
            Err(Mismatch::Missing(hashes))
        }
    }
}

} // verus!
