//! The structure of a class definition, and the check that a blob has it.

use vstd::prelude::*;
use crate::class::{BlockNumber, ClassDefinition, P2PClassDefinition, PeerData};
use crate::error::{SyncError, SyncError2};
use crate::felt::{felt_from_hex, felt_from_u64, Felt};
use crate::json::{
    json_array, json_object, json_string, json_u64, members_view, parse_array, parse_object,
    parse_string, parse_u64, texts_view,
};

verus! {

/// The selector of an entry point.
#[derive(Clone, Copy, Debug, PartialEq, Eq, Hash)]
pub struct EntryPoint(pub Felt);

/// The offset of an entry point in the bytecode of a Cairo class.
#[derive(Clone, Copy, Debug, PartialEq, Eq, Hash)]
pub struct ByteCodeOffset(pub Felt);

/// An entry point of a Cairo class.
#[derive(Clone, Copy, Debug, PartialEq, Eq, Hash)]
pub struct SelectorAndOffset {
    pub selector: EntryPoint,
    pub offset: ByteCodeOffset,
}

/// An entry point of a Sierra class.
#[derive(Clone, Copy, Debug, PartialEq, Eq, Hash)]
pub struct SelectorAndFunctionIndex {
    pub selector: EntryPoint,
    pub function_idx: u64,
}

/// The entry points of a Cairo class, by kind.
#[derive(Clone, Debug, PartialEq, Eq)]
pub struct CairoEntryPoints {
    pub external: Vec<SelectorAndOffset>,
    pub l1_handler: Vec<SelectorAndOffset>,
    pub constructor: Vec<SelectorAndOffset>,
}

/// The entry points of a Sierra class, by kind.
#[derive(Clone, Debug, PartialEq, Eq)]
pub struct SierraEntryPoints {
    pub external: Vec<SelectorAndFunctionIndex>,
    pub l1_handler: Vec<SelectorAndFunctionIndex>,
    pub constructor: Vec<SelectorAndFunctionIndex>,
}

/// What the class hash of a Cairo class is computed from.
#[derive(Clone, Debug, PartialEq, Eq)]
pub struct Cairo {
    /// The JSON text of the ABI, as it stands in the definition.
    pub abi: Vec<u8>,
    /// The JSON text of the program, as it stands in the definition.
    pub program: Vec<u8>,
    pub entry_points_by_type: CairoEntryPoints,
}

/// What the class hash of a Sierra class is computed from.
#[derive(Clone, Debug, PartialEq, Eq)]
pub struct Sierra {
    pub abi: String,
    pub sierra_program: Vec<Felt>,
    pub contract_class_version: String,
    pub entry_points_by_type: SierraEntryPoints,
}

/// The parsed view of a class definition.
#[derive(Clone, Debug, PartialEq, Eq)]
pub enum Layout {
    Cairo(Cairo),
    Sierra(Sierra),
}

/// A class whose bytes were found to have the layout of their form.  The
/// bytes are kept beside the parsed view, so that later stages store the
/// encoding that was received.
#[derive(Clone, Debug, PartialEq, Eq)]
pub struct ClassWithLayout {
    pub block_number: BlockNumber,
    pub definition: ClassDefinition,
    pub layout: Layout,
}

impl View for SelectorAndOffset {
    type V = (Seq<u8>, Seq<u8>);

    open spec fn view(&self) -> (Seq<u8>, Seq<u8>) {
        (self.selector.0@, self.offset.0@)
    }
}

impl View for SelectorAndFunctionIndex {
    type V = (Seq<u8>, u64);

    open spec fn view(&self) -> (Seq<u8>, u64) {
        (self.selector.0@, self.function_idx)
    }
}

/// A Cairo class definition as a mathematical value.
pub struct CairoView {
    pub abi: Seq<u8>,
    pub program: Seq<u8>,
    pub external: Seq<(Seq<u8>, Seq<u8>)>,
    pub l1_handler: Seq<(Seq<u8>, Seq<u8>)>,
    pub constructor: Seq<(Seq<u8>, Seq<u8>)>,
}

/// A Sierra class definition as a mathematical value.
pub struct SierraView {
    pub abi: Seq<char>,
    pub sierra_program: Seq<Seq<u8>>,
    pub contract_class_version: Seq<char>,
    pub external: Seq<(Seq<u8>, u64)>,
    pub l1_handler: Seq<(Seq<u8>, u64)>,
    pub constructor: Seq<(Seq<u8>, u64)>,
}

/// A class definition as a mathematical value.
pub enum LayoutView {
    Cairo(CairoView),
    Sierra(SierraView),
}

impl View for Cairo {
    type V = CairoView;

    open spec fn view(&self) -> CairoView {
        CairoView {
            abi: self.abi@,
            program: self.program@,
            external: views(self.entry_points_by_type.external@),
            l1_handler: views(self.entry_points_by_type.l1_handler@),
            constructor: views(self.entry_points_by_type.constructor@),
        }
    }
}

impl View for Sierra {
    type V = SierraView;

    open spec fn view(&self) -> SierraView {
        SierraView {
            abi: self.abi@,
            sierra_program: views(self.sierra_program@),
            contract_class_version: self.contract_class_version@,
            external: views(self.entry_points_by_type.external@),
            l1_handler: views(self.entry_points_by_type.l1_handler@),
            constructor: views(self.entry_points_by_type.constructor@),
        }
    }
}

impl View for Layout {
    type V = LayoutView;

    open spec fn view(&self) -> LayoutView {
        match *self {
            Layout::Cairo(c) => LayoutView::Cairo(c@),
            Layout::Sierra(s) => LayoutView::Sierra(s@),
        }
    }
}

/// The views of the items of a sequence.
pub open spec fn views<T: View>(items: Seq<T>) -> Seq<T::V> {
    Seq::new(items.len(), |i: int| items[i]@)
}

/// The text of the first member with this name.
pub open spec fn member(members: Seq<(Seq<char>, Seq<u8>)>, name: Seq<char>) -> Option<Seq<u8>>
    decreases members.len(),
{
    if members.len() == 0 {
        None
    } else if members[0].0 == name {
        Some(members[0].1)
    } else {
        member(members.drop_first(), name)
    }
}

/// The members of the JSON object in `text`, if it has exactly `count` of
/// them.
pub open spec fn object_of(text: Seq<u8>, count: nat) -> Option<Seq<(Seq<char>, Seq<u8>)>> {
    match json_object(text) {
        Some(members) => if members.len() == count {
            Some(members)
        } else {
            None
        },
        None => None,
    }
}

/// The values of all the items; none where one of them is missing.
pub open spec fn all_some<T>(items: Seq<Option<T>>) -> Option<Seq<T>> {
    if forall|i: int| 0 <= i < items.len() ==> (#[trigger] items[i]) is Some {
        Some(Seq::new(items.len(), |i: int| items[i]->0))
    } else {
        None
    }
}

/// A field element written as a JSON string that holds a hexadecimal
/// literal.
pub open spec fn felt_of(text: Seq<u8>) -> Option<Seq<u8>> {
    match json_string(text) {
        Some(s) => felt_from_hex(s),
        None => None,
    }
}

/// A bytecode offset: a hexadecimal literal in a JSON string, or a JSON
/// number.
pub open spec fn offset_of(text: Seq<u8>) -> Option<Seq<u8>> {
    match json_string(text) {
        Some(s) => felt_from_hex(s),
        None => match json_u64(text) {
            Some(n) => Some(felt_from_u64(n)),
            None => None,
        },
    }
}

/// An entry point of a Cairo class: an object with the two members
/// `selector` and `offset`.
pub open spec fn cairo_entry_point(text: Seq<u8>) -> Option<(Seq<u8>, Seq<u8>)> {
    match object_of(text, 2) {
        Some(members) => match (member(members, "selector"@), member(members, "offset"@)) {
            (Some(selector), Some(offset)) => match (felt_of(selector), offset_of(offset)) {
                (Some(selector), Some(offset)) => Some((selector, offset)),
                _ => None,
            },
            _ => None,
        },
        None => None,
    }
}

/// An entry point of a Sierra class: an object with the two members
/// `selector` and `function_idx`.
pub open spec fn sierra_entry_point(text: Seq<u8>) -> Option<(Seq<u8>, u64)> {
    match object_of(text, 2) {
        Some(members) => match (member(members, "selector"@), member(members, "function_idx"@)) {
            (Some(selector), Some(index)) => match (felt_of(selector), json_u64(index)) {
                (Some(selector), Some(index)) => Some((selector, index)),
                _ => None,
            },
            _ => None,
        },
        None => None,
    }
}

/// A JSON array of entry points of a Cairo class.
pub open spec fn cairo_entry_points(text: Seq<u8>) -> Option<Seq<(Seq<u8>, Seq<u8>)>> {
    match json_array(text) {
        Some(texts) => all_some(Seq::new(texts.len(), |i: int| cairo_entry_point(texts[i]))),
        None => None,
    }
}

/// A JSON array of entry points of a Sierra class.
pub open spec fn sierra_entry_points(text: Seq<u8>) -> Option<Seq<(Seq<u8>, u64)>> {
    match json_array(text) {
        Some(texts) => all_some(Seq::new(texts.len(), |i: int| sierra_entry_point(texts[i]))),
        None => None,
    }
}

/// A JSON array of field elements.
pub open spec fn felts_of(text: Seq<u8>) -> Option<Seq<Seq<u8>>> {
    match json_array(text) {
        Some(texts) => all_some(Seq::new(texts.len(), |i: int| felt_of(texts[i]))),
        None => None,
    }
}

/// The three members of the object that lists entry points by kind.
pub open spec fn by_kind(text: Seq<u8>) -> Option<(Seq<u8>, Seq<u8>, Seq<u8>)> {
    match object_of(text, 3) {
        Some(kinds) => match (
            member(kinds, "EXTERNAL"@),
            member(kinds, "L1_HANDLER"@),
            member(kinds, "CONSTRUCTOR"@),
        ) {
            (Some(external), Some(l1_handler), Some(constructor)) => Some(
                (external, l1_handler, constructor),
            ),
            _ => None,
        },
        None => None,
    }
}

/// The layout of a Cairo class: a JSON object with exactly the members
/// `abi` and `program`, each any JSON value, and `entry_points_by_type`,
/// which holds the entry points under `EXTERNAL`, `L1_HANDLER` and
/// `CONSTRUCTOR` and nothing else.
pub open spec fn cairo_layout(text: Seq<u8>) -> Option<CairoView> {
    match object_of(text, 3) {
        Some(members) => match (
            member(members, "abi"@),
            member(members, "program"@),
            member(members, "entry_points_by_type"@),
        ) {
            (Some(abi), Some(program), Some(entry_points)) => match by_kind(entry_points) {
                Some((external, l1_handler, constructor)) => match (
                    cairo_entry_points(external),
                    cairo_entry_points(l1_handler),
                    cairo_entry_points(constructor),
                ) {
                    (Some(external), Some(l1_handler), Some(constructor)) => Some(
                        CairoView { abi, program, external, l1_handler, constructor },
                    ),
                    _ => None,
                },
                None => None,
            },
            _ => None,
        },
        None => None,
    }
}

/// The layout of a Sierra class: a JSON object with exactly the members
/// `abi` and `contract_class_version`, both strings, `sierra_program`, an
/// array of field elements, and `entry_points_by_type`, which holds the entry
/// points under `EXTERNAL`, `L1_HANDLER` and `CONSTRUCTOR` and nothing else.
pub open spec fn sierra_layout(text: Seq<u8>) -> Option<SierraView> {
    match object_of(text, 4) {
        Some(members) => match (
            member(members, "abi"@),
            member(members, "sierra_program"@),
            member(members, "contract_class_version"@),
            member(members, "entry_points_by_type"@),
        ) {
            (Some(abi), Some(program), Some(version), Some(entry_points)) => match (
                json_string(abi),
                felts_of(program),
                json_string(version),
                by_kind(entry_points),
            ) {
                (
                    Some(abi),
                    Some(sierra_program),
                    Some(contract_class_version),
                    Some((external, l1_handler, constructor)),
                ) => match (
                    sierra_entry_points(external),
                    sierra_entry_points(l1_handler),
                    sierra_entry_points(constructor),
                ) {
                    (Some(external), Some(l1_handler), Some(constructor)) => Some(
                        SierraView {
                            abi,
                            sierra_program,
                            contract_class_version,
                            external,
                            l1_handler,
                            constructor,
                        },
                    ),
                    _ => None,
                },
                _ => None,
            },
            _ => None,
        },
        None => None,
    }
}

/// The parsed view of a class as a peer sent it, in the form that the
/// transport says it has; none where the bytes do not have that layout.
pub open spec fn layout_of(input: P2PClassDefinition) -> Option<LayoutView> {
    match input {
        P2PClassDefinition::Cairo { definition, .. } => match cairo_layout(definition@) {
            Some(cairo) => Some(LayoutView::Cairo(cairo)),
            None => None,
        },
        P2PClassDefinition::Sierra { sierra_definition, .. } => match sierra_layout(
            sierra_definition@,
        ) {
            Some(sierra) => Some(LayoutView::Sierra(sierra)),
            None => None,
        },
    }
}

/// The text of the member with this name, the first one where the name
/// comes more than once.
pub fn find_member<'a>(members: &'a Vec<(String, Vec<u8>)>, name: &str) -> (r: Option<&'a Vec<u8>>)
    ensures
        member(members_view(members@), name@) == match r {
            Some(text) => Some(text@),
            None => None,
        },
{
    let wanted = name.to_owned();
    let ghost all = members_view(members@);
    let mut i: usize = 0;
    assert(all.skip(0) =~= all);
    while i < members.len()
        invariant
            i <= members@.len(),
            all == members_view(members@),
            wanted@ == name@,
            member(all, name@) == member(all.skip(i as int), name@),
        decreases members@.len() - i,
    {
        proof {
            assert(all.skip(i as int)[0] == all[i as int]);
            assert(all.skip(i as int).drop_first() =~= all.skip(i + 1));
        }
        if members[i].0 == wanted {
            return Some(&members[i].1);
        }
        i += 1;
    }
    None
}

fn read_object(text: &[u8], count: usize) -> (r: Option<Vec<(String, Vec<u8>)>>)
    ensures
        object_of(text@, count as nat) == match r {
            Some(members) => Some(members_view(members@)),
            None => None,
        },
{
    match parse_object(text) {
        Some(members) => if members.len() == count {
            Some(members)
        } else {
            None
        },
        None => None,
    }
}

fn read_felt(text: &[u8]) -> (r: Option<Felt>)
    ensures
        felt_of(text@) == match r {
            Some(felt) => Some(felt@),
            None => None,
        },
{
    match parse_string(text) {
        Some(s) => Felt::from_hex_str(s.as_str()),
        None => None,
    }
}

fn read_offset(text: &[u8]) -> (r: Option<Felt>)
    ensures
        offset_of(text@) == match r {
            Some(felt) => Some(felt@),
            None => None,
        },
{
    match parse_string(text) {
        Some(s) => Felt::from_hex_str(s.as_str()),
        None => match parse_u64(text) {
            Some(n) => Some(Felt::from_u64(n)),
            None => None,
        },
    }
}

fn read_cairo_entry_point(text: &[u8]) -> (r: Option<SelectorAndOffset>)
    ensures
        cairo_entry_point(text@) == match r {
            Some(entry) => Some(entry@),
            None => None,
        },
{
    let members = read_object(text, 2)?;
    let selector = read_felt(find_member(&members, "selector")?.as_slice())?;
    let offset = read_offset(find_member(&members, "offset")?.as_slice())?;
    Some(SelectorAndOffset { selector: EntryPoint(selector), offset: ByteCodeOffset(offset) })
}

fn read_sierra_entry_point(text: &[u8]) -> (r: Option<SelectorAndFunctionIndex>)
    ensures
        sierra_entry_point(text@) == match r {
            Some(entry) => Some(entry@),
            None => None,
        },
{
    let members = read_object(text, 2)?;
    let selector = read_felt(find_member(&members, "selector")?.as_slice())?;
    let function_idx = parse_u64(find_member(&members, "function_idx")?.as_slice())?;
    Some(SelectorAndFunctionIndex { selector: EntryPoint(selector), function_idx })
}

fn read_cairo_entry_points(text: &[u8]) -> (r: Option<Vec<SelectorAndOffset>>)
    ensures
        cairo_entry_points(text@) == match r {
            Some(entries) => Some(views(entries@)),
            None => None,
        },
{
    let texts = parse_array(text)?;
    let ghost items = Seq::new(texts@.len(), |i: int| cairo_entry_point(texts_view(texts@)[i]));
    let mut entries: Vec<SelectorAndOffset> = Vec::new();
    let mut i: usize = 0;
    while i < texts.len()
        invariant
            i <= texts@.len(),
            json_array(text@) == Some(texts_view(texts@)),
            entries@.len() == i,
            items == Seq::new(texts@.len(), |i: int| cairo_entry_point(texts_view(texts@)[i])),
            forall|j: int| 0 <= j < i ==> items[j] == Some((#[trigger] entries@[j])@),
        decreases texts@.len() - i,
    {
        match read_cairo_entry_point(texts[i].as_slice()) {
            Some(entry) => {
                entries.push(entry);
            },
            None => {
                assert(items[i as int] is None);
                return None;
            },
        }
        i += 1;
    }
    proof {
        assert forall|j: int| 0 <= j < items.len() implies (#[trigger] items[j]) is Some by {
            assert(items[j] == Some(entries@[j]@));
        }
        assert(all_some(items)->0 =~= views(entries@));
    }
    Some(entries)
}

fn read_sierra_entry_points(text: &[u8]) -> (r: Option<Vec<SelectorAndFunctionIndex>>)
    ensures
        sierra_entry_points(text@) == match r {
            Some(entries) => Some(views(entries@)),
            None => None,
        },
{
    let texts = parse_array(text)?;
    let ghost items = Seq::new(texts@.len(), |i: int| sierra_entry_point(texts_view(texts@)[i]));
    let mut entries: Vec<SelectorAndFunctionIndex> = Vec::new();
    let mut i: usize = 0;
    while i < texts.len()
        invariant
            i <= texts@.len(),
            json_array(text@) == Some(texts_view(texts@)),
            entries@.len() == i,
            items == Seq::new(texts@.len(), |i: int| sierra_entry_point(texts_view(texts@)[i])),
            forall|j: int| 0 <= j < i ==> items[j] == Some((#[trigger] entries@[j])@),
        decreases texts@.len() - i,
    {
        match read_sierra_entry_point(texts[i].as_slice()) {
            Some(entry) => {
                entries.push(entry);
            },
            None => {
                assert(items[i as int] is None);
                return None;
            },
        }
        i += 1;
    }
    proof {
        assert forall|j: int| 0 <= j < items.len() implies (#[trigger] items[j]) is Some by {
            assert(items[j] == Some(entries@[j]@));
        }
        assert(all_some(items)->0 =~= views(entries@));
    }
    Some(entries)
}

fn read_felts(text: &[u8]) -> (r: Option<Vec<Felt>>)
    ensures
        felts_of(text@) == match r {
            Some(felts) => Some(views(felts@)),
            None => None,
        },
{
    let texts = parse_array(text)?;
    let ghost items = Seq::new(texts@.len(), |i: int| felt_of(texts_view(texts@)[i]));
    let mut felts: Vec<Felt> = Vec::new();
    let mut i: usize = 0;
    while i < texts.len()
        invariant
            i <= texts@.len(),
            json_array(text@) == Some(texts_view(texts@)),
            felts@.len() == i,
            items == Seq::new(texts@.len(), |i: int| felt_of(texts_view(texts@)[i])),
            forall|j: int| 0 <= j < i ==> items[j] == Some((#[trigger] felts@[j])@),
        decreases texts@.len() - i,
    {
        match read_felt(texts[i].as_slice()) {
            Some(felt) => {
                felts.push(felt);
            },
            None => {
                assert(items[i as int] is None);
                return None;
            },
        }
        i += 1;
    }
    proof {
        assert forall|j: int| 0 <= j < items.len() implies (#[trigger] items[j]) is Some by {
            assert(items[j] == Some(felts@[j]@));
        }
        assert(all_some(items)->0 =~= views(felts@));
    }
    Some(felts)
}

fn copy_text(text: &Vec<u8>) -> (r: Vec<u8>)
    ensures
        r@ == text@,
{
    let r = text.clone();
    assert(r@ =~= text@);
    r
}

fn read_cairo(text: &[u8]) -> (r: Option<Cairo>)
    ensures
        cairo_layout(text@) == match r {
            Some(cairo) => Some(cairo@),
            None => None,
        },
{
    let members = read_object(text, 3)?;
    let abi = find_member(&members, "abi")?;
    let program = find_member(&members, "program")?;
    let entry_points = find_member(&members, "entry_points_by_type")?;
    let kinds = read_object(entry_points.as_slice(), 3)?;
    let external = find_member(&kinds, "EXTERNAL")?;
    let l1_handler = find_member(&kinds, "L1_HANDLER")?;
    let constructor = find_member(&kinds, "CONSTRUCTOR")?;
    let external = read_cairo_entry_points(external.as_slice())?;
    let l1_handler = read_cairo_entry_points(l1_handler.as_slice())?;
    let constructor = read_cairo_entry_points(constructor.as_slice())?;
    Some(
        Cairo {
            abi: copy_text(abi),
            program: copy_text(program),
            entry_points_by_type: CairoEntryPoints { external, l1_handler, constructor },
        },
    )
}

fn read_sierra(text: &[u8]) -> (r: Option<Sierra>)
    ensures
        sierra_layout(text@) == match r {
            Some(sierra) => Some(sierra@),
            None => None,
        },
{
    let members = read_object(text, 4)?;
    let abi = find_member(&members, "abi")?;
    let program = find_member(&members, "sierra_program")?;
    let version = find_member(&members, "contract_class_version")?;
    let entry_points = find_member(&members, "entry_points_by_type")?;
    let abi = parse_string(abi.as_slice())?;
    let sierra_program = read_felts(program.as_slice())?;
    let contract_class_version = parse_string(version.as_slice())?;
    let kinds = read_object(entry_points.as_slice(), 3)?;
    let external = find_member(&kinds, "EXTERNAL")?;
    let l1_handler = find_member(&kinds, "L1_HANDLER")?;
    let constructor = find_member(&kinds, "CONSTRUCTOR")?;
    let external = read_sierra_entry_points(external.as_slice())?;
    let l1_handler = read_sierra_entry_points(l1_handler.as_slice())?;
    let constructor = read_sierra_entry_points(constructor.as_slice())?;
    Some(
        Sierra {
            abi,
            sierra_program,
            contract_class_version,
            entry_points_by_type: SierraEntryPoints { external, l1_handler, constructor },
        },
    )
}

/// The stage that checks the layout of a class, one class at a time.
pub struct VerifyLayout;

impl VerifyLayout {
    /// Parses the structure of a class in the form that the transport says
    /// it has.  The bytes are neither changed nor interpreted beyond their
    /// structure, and they stay with the class.  Bytes without the layout of
    /// their form are rejected.
    pub fn map(&mut self, input: P2PClassDefinition) -> (r: Result<ClassWithLayout, SyncError2>)
        ensures
            match r {
                Ok(class) => {
                    &&& layout_of(input) == Some(class.layout@)
                    &&& class.block_number == input.block_number()
                    &&& class.definition == match input {
                        P2PClassDefinition::Cairo { definition, .. } => ClassDefinition::Cairo(
                            definition,
                        ),
                        P2PClassDefinition::Sierra {
                            sierra_definition,
                            ..
                        } => ClassDefinition::Sierra(sierra_definition),
                    }
                },
                Err(error) => error == SyncError2::BadClassLayout && layout_of(input) is None,
            },
    {
        match input {
            P2PClassDefinition::Cairo { block_number, definition } => {
                match read_cairo(definition.as_slice()) {
                    Some(cairo) => Ok(
                        ClassWithLayout {
                            block_number,
                            definition: ClassDefinition::Cairo(definition),
                            layout: Layout::Cairo(cairo),
                        },
                    ),
                    None => Err(SyncError2::BadClassLayout),
                }
            },
            P2PClassDefinition::Sierra { block_number, sierra_definition } => {
                match read_sierra(sierra_definition.as_slice()) {
                    Some(sierra) => Ok(
                        ClassWithLayout {
                            block_number,
                            definition: ClassDefinition::Sierra(sierra_definition),
                            layout: Layout::Sierra(sierra),
                        },
                    ),
                    None => Err(SyncError2::BadClassLayout),
                }
            },
        }
    }
}

/// Checks the layout of a class that a peer sent, see [`VerifyLayout::map`].
/// The class keeps its peer; a rejection names the peer.
pub fn verify_layout(peer_data: PeerData<P2PClassDefinition>) -> (r: Result<
    PeerData<ClassWithLayout>,
    SyncError,
>)
    ensures
        match r {
            Ok(checked) => {
                &&& checked.peer == peer_data.peer
                &&& layout_of(peer_data.data) == Some(checked.data.layout@)
                &&& checked.data.block_number == peer_data.data.block_number()
                &&& checked.data.definition == match peer_data.data {
                    P2PClassDefinition::Cairo { definition, .. } => ClassDefinition::Cairo(
                        definition,
                    ),
                    P2PClassDefinition::Sierra {
                        sierra_definition,
                        ..
                    } => ClassDefinition::Sierra(sierra_definition),
                }
            },
            Err(error) => error == SyncError::BadClassLayout(peer_data.peer) && layout_of(
                peer_data.data,
            ) is None,
        },
{
    let PeerData { peer, data } = peer_data;
    let mut stage = VerifyLayout;
    match stage.map(data) {
        Ok(class) => Ok(PeerData::new(peer, class)),
        Err(error) => Err(SyncError::from_v2(peer, error)),
    }
}

} // verus!
