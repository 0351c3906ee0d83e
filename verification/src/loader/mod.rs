//! The loader: it takes a module in, checks that it can be run, and knows
//! how an execution of it is cut to the size of the circuit.

use vstd::prelude::*;
use vstd::arithmetic::power2::lemma_pow2_strictly_increases;
use vstd::arithmetic::power2::lemma_pow2_unfold;
use vstd::arithmetic::power2::pow2;
use vstd::string::StringExecFns;
use crate::circuits::etable::EVENT_TABLE_ENTRY_ROWS;
use crate::continuation::slice::sliceable;
use crate::continuation::slice::SliceError;
use crate::continuation::slice::Slices;
use crate::loader::err::LoadError;
use crate::loader::err::PreCheckErr;
use crate::loader::err::VerificationFailure;
use crate::runtime::wasmi_interpreter::ExecutionResult;
use crate::specs::tables::CompilationTable;
use crate::specs::tables::ExecutionTable;
use crate::specs::tables::Tables;

pub mod err;

verus! {

/// The name under which a module exports its entry function.
pub const ENTRY: &'static str = "zkmain";

/// The name of the column of the circuit that holds the program image.
pub const IMAGE_COL_NAME: &'static str = "img_col";

/// How many rows of the circuit are kept free of steps.
pub const RESERVED_ROWS: usize = 200;

/// What a run is given.
#[derive(Debug, PartialEq, Eq)]
pub struct ExecutionArg {
    /// Public inputs for `wasm_input(1)`
    pub public_inputs: Vec<u64>,
    /// Private inputs for `wasm_input(0)`
    pub private_inputs: Vec<u64>,
    /// Context inputs for `wasm_read_context()`
    pub context_inputs: Vec<u64>,
    /// Context outputs for `wasm_write_context()`
    pub context_outputs: Vec<u64>,
    /// Where the tables of the run are written to, if anywhere.
    pub output_dir: Option<String>,
    /// Whether the table of every slice is written while the run goes on.
    pub dump_table: bool,
}

pub struct ExecutionReturn {
    pub context_output: Vec<u64>,
}

/// What an export of a module refers to.
#[derive(Clone, Copy, Debug, PartialEq, Eq, Structural, Hash)]
pub enum ExportKind {
    Function(u32),
    Table(u32),
    Memory(u32),
    Global(u32),
}

/// One export of a module.
#[derive(Debug, PartialEq, Eq)]
pub struct ExportEntry {
    pub name: String,
    pub kind: ExportKind,
}

/// An `ExportEntry` as a value.
pub ghost struct ExportEntryView {
    pub name: Seq<char>,
    pub kind: ExportKind,
}

impl View for ExportEntry {
    type V = ExportEntryView;

    open spec fn view(&self) -> ExportEntryView {
        ExportEntryView { name: self.name@, kind: self.kind }
    }
}

/// The exports as values.
pub open spec fn export_views(exports: Seq<ExportEntry>) -> Seq<ExportEntryView> {
    Seq::new(exports.len(), |i: int| exports[i]@)
}

/// What the first export under `name` refers to.
pub open spec fn find_export(exports: Seq<ExportEntryView>, name: Seq<char>) -> Option<ExportKind>
    decreases exports.len(),
{
    if exports.len() == 0 {
        None
    } else if exports[0].name == name {
        Some(exports[0].kind)
    } else {
        find_export(exports.skip(1), name)
    }
}

/// Whether a module with these exports can be run: it must export the entry
/// function, and as a function.
pub open spec fn precheck_of(exports: Seq<ExportEntryView>) -> Result<(), PreCheckErr> {
    match find_export(exports, ENTRY@) {
        Some(ExportKind::Function(_)) => Ok(()),
        Some(_) => Err(PreCheckErr::ZkmainIsNotFunction),
        None => Err(PreCheckErr::ZkmainNotExists),
    }
}

/// Checks that the entry function is among the exports.
pub fn check_zkmain_exists(exports: &Vec<ExportEntry>) -> (r: Result<(), PreCheckErr>)
    ensures
        r == precheck_of(export_views(exports@)),
{
    let entry = String::from_str(ENTRY);
    let ghost views = export_views(exports@);
    let mut i: usize = 0;
    proof {
        assert(views.skip(0) =~= views);
    }
    while i < exports.len()
        invariant
            i <= exports.len(),
            entry@ == ENTRY@,
            views == export_views(exports@),
            find_export(views, ENTRY@) == find_export(views.skip(i as int), ENTRY@),
        decreases exports.len() - i,
    {
        proof {
            assert(views.skip(i as int)[0] == exports@[i as int]@);
            assert(views.skip(i as int).skip(1) =~= views.skip(i + 1));
        }
        if exports[i].name == entry {
            return match exports[i].kind {
                ExportKind::Function(_) => Ok(()),
                _ => Err(PreCheckErr::ZkmainIsNotFunction),
            };
        }
        i += 1;
    }
    Err(PreCheckErr::ZkmainNotExists)
}

/// The error with which `parity_wasm` refuses bytes that are no module.
#[verifier::external_type_specification]
#[verifier::external_body]
pub struct ExDecodeError(parity_wasm::elements::Error);

/// What parsing `image` as a module in binary form gives: `None` where
/// `image` is no module; else the entries of the module's export section in
/// their order, or `None` inside where the module has no such section.
pub uninterp spec fn wasm_exports(image: Seq<u8>) -> Option<Option<Seq<ExportEntryView>>>;

/// Runs `parity_wasm::deserialize_buffer` on the image and hands out what
/// `Module::export_section` gives: the entries of the section, each with
/// the name that `ExportEntry::field` and the reference that
/// `ExportEntry::internal` give, or `None` where the module has no export
/// section. The contract gives the outcome a name; it tells nothing of what
/// bytes make a module.
#[verifier::external_body]
fn parse_exports(image: &[u8]) -> (r: Result<
    Option<Vec<ExportEntry>>,
    parity_wasm::elements::Error,
>)
    ensures
        match r {
            Ok(Some(exports)) => wasm_exports(image@) == Some(Some(export_views(exports@))),
            Ok(None) => wasm_exports(image@) == Some(None::<Seq<ExportEntryView>>),
            Err(_) => wasm_exports(image@) is None,
        },
{
    let module: parity_wasm::elements::Module = parity_wasm::deserialize_buffer(image)?;
    Ok(module.export_section().map(|section| section.entries().iter().map(|entry| ExportEntry {
        name: entry.field().to_string(),
        kind: match entry.internal() {
            parity_wasm::elements::Internal::Function(index) => ExportKind::Function(*index),
            parity_wasm::elements::Internal::Table(index) => ExportKind::Table(*index),
            parity_wasm::elements::Internal::Memory(index) => ExportKind::Memory(*index),
            parity_wasm::elements::Internal::Global(index) => ExportKind::Global(*index),
        },
    }).collect()))
}

/// Whether a loader can be set up for an image. A module without an export
/// section exports nothing, the entry function neither.
pub open spec fn loadable(image: Seq<u8>) -> Result<(), LoadError> {
    match wasm_exports(image) {
        None => Err(LoadError::InvalidImage),
        Some(None) => Err(LoadError::PreCheck(PreCheckErr::ZkmainNotExists)),
        Some(Some(exports)) => match precheck_of(exports) {
            Ok(_) => Ok(()),
            Err(e) => Err(LoadError::PreCheck(e)),
        },
    }
}

/// The number of steps that fit a circuit of `2^k` rows.
pub open spec fn slice_capability(k: u32) -> int {
    (pow2(k as nat) - RESERVED_ROWS) / (EVENT_TABLE_ENTRY_ROWS as int)
}

/// The rows that a circuit of `2^k` rows has for steps: all but the
/// reserved ones. `None` where the circuit has fewer rows than are reserved,
/// or more rows for steps than 32 bits can count.
pub open spec fn rows_for_steps(k: u32) -> Option<u32> {
    if RESERVED_ROWS <= pow2(k as nat) && pow2(k as nat) - RESERVED_ROWS <= u32::MAX {
        Some((pow2(k as nat) - RESERVED_ROWS) as u32)
    } else {
        None
    }
}

/// Computes `rows_for_steps`.
pub fn compute_rows_for_steps(k: u32) -> (r: Option<u32>)
    ensures
        r == rows_for_steps(k),
{
    proof {
        vstd::arithmetic::power2::lemma2_to64();
    }
    if k < 8 {
        proof {
            if k < 7 {
                lemma_pow2_strictly_increases(k as nat, 7);
            }
        }
        return None;
    }
    if k > 32 {
        proof {
            lemma_pow2_unfold(33);
            if k > 33 {
                lemma_pow2_strictly_increases(33, k as nat);
            }
        }
        return None;
    }
    let mut rows: u64 = 1;
    let mut i: u32 = 0;
    while i < k
        invariant
            i <= k <= 32,
            rows == pow2(i as nat),
            rows <= 0x1_0000_0000,
        decreases k - i,
    {
        proof {
            lemma_pow2_unfold((i + 1) as nat);
            vstd::arithmetic::power2::lemma2_to64();
            if i + 1 < 32 {
                lemma_pow2_strictly_increases((i + 1) as nat, 32);
            }
        }
        rows = rows * 2;
        i += 1;
    }
    proof {
        if 8 < k {
            lemma_pow2_strictly_increases(8, k as nat);
        }
    }
    Some((rows - RESERVED_ROWS as u64) as u32)
}

pub struct ZkWasmLoader {
    pub k: u32,
    image: Vec<u8>,
    phantom_functions: Vec<String>,
}

impl ZkWasmLoader {
    /// The size of the circuit, as the power of two of its rows.
    pub closed spec fn spec_k(&self) -> u32 {
        self.k
    }

    /// The image the loader was set up for.
    pub closed spec fn spec_image(&self) -> Seq<u8> {
        self.image@
    }

    /// The image can be run.
    pub closed spec fn wf(&self) -> bool {
        loadable(self.image@) is Ok
    }

    /// The steps that fit one slice.
    pub fn compute_slice_capability(&self) -> (r: usize)
        requires
            8 <= self.spec_k(),
            pow2(self.spec_k() as nat) <= usize::MAX,
        ensures
            r == slice_capability(self.spec_k()),
            r > 0,
    {
        let mut rows: usize = 1;
        let mut i: u32 = 0;
        proof {
            vstd::arithmetic::power2::lemma2_to64();
        }
        while i < self.k
            invariant
                i <= self.k,
                rows == pow2(i as nat),
                pow2(self.k as nat) <= usize::MAX,
            decreases self.k - i,
        {
            proof {
                lemma_pow2_unfold((i + 1) as nat);
                if i + 1 < self.k {
                    lemma_pow2_strictly_increases((i + 1) as nat, self.k as nat);
                }
            }
            rows = rows * 2;
            i += 1;
        }
        proof {
            vstd::arithmetic::power2::lemma2_to64();
            if 8 < self.k {
                lemma_pow2_strictly_increases(8, self.k as nat);
            }
        }
        (rows - RESERVED_ROWS) / EVENT_TABLE_ENTRY_ROWS
    }

    /// The steps that fit one slice, where `k` is a size that a circuit can
    /// have on this machine: its rows must leave room for the reserved ones,
    /// and their number must fit the machine's word.
    pub fn try_compute_slice_capability(&self) -> (r: Option<usize>)
        ensures
            r == if 8 <= self.spec_k() && pow2(self.spec_k() as nat) <= usize::MAX {
                Some(slice_capability(self.spec_k()) as usize)
            } else {
                None
            },
    {
        if self.k < 8 {
            return None;
        }
        let mut rows: usize = 1;
        let mut i: u32 = 0;
        proof {
            vstd::arithmetic::power2::lemma2_to64();
        }
        while i < self.k
            invariant
                i <= self.k,
                rows == pow2(i as nat),
            decreases self.k - i,
        {
            proof {
                lemma_pow2_unfold((i + 1) as nat);
                if i + 1 < self.k {
                    lemma_pow2_strictly_increases((i + 1) as nat, self.k as nat);
                }
            }
            if rows > usize::MAX / 2 {
                return None;
            }
            rows = rows * 2;
            i += 1;
        }
        proof {
            if 8 < self.k {
                lemma_pow2_strictly_increases(8, self.k as nat);
            }
        }
        Some((rows - RESERVED_ROWS) / EVENT_TABLE_ENTRY_ROWS)
    }

    /// Checks that the module can be run, before any step of it is.
    pub fn precheck(&self) -> (r: Result<(), LoadError>)
        ensures
            r == loadable(self.spec_image()),
    {
        precheck_image(self.image.as_slice())
    }

    /// Sets up the loader of an image for circuits of `2^k` rows. Fails
    /// where the image is no module or the module cannot be run.
    pub fn new(k: u32, image: Vec<u8>, phantom_functions: Vec<String>) -> (r: Result<Self, LoadError>)
        ensures
            match r {
                Ok(loader) => loadable(image@) is Ok && loader.wf() && loader.spec_k() == k
                    && loader.spec_image() == image@ && loader.spec_phantom_functions()
                    == phantom_functions@,
                Err(e) => loadable(image@) == Err::<(), LoadError>(e),
            },
    {
        let loader = Self { k, image, phantom_functions };
        match loader.precheck() {
            Ok(_) => Ok(loader),
            Err(e) => Err(e),
        }
    }

    pub fn k(&self) -> (r: u32)
        ensures
            r == self.spec_k(),
    {
        self.k
    }

    pub fn image(&self) -> (r: &Vec<u8>)
        ensures
            r@ == self.spec_image(),
    {
        &self.image
    }

    /// The functions whose bodies are left out of the trace.
    pub closed spec fn spec_phantom_functions(&self) -> Seq<String> {
        self.phantom_functions@
    }

    pub fn phantom_functions(&self) -> (r: &Vec<String>)
        ensures
            r@ == self.spec_phantom_functions(),
    {
        &self.phantom_functions
    }

    /// The tables of a circuit that holds no run: they fix the shape of the
    /// circuit before there is a witness.
    pub fn circuit_without_witness(
        &self,
        compilation_tables: CompilationTable,
        last_slice_circuit: bool,
    ) -> (r: Tables)
        ensures
            r@.compilation_tables == compilation_tables@,
            r@.post_image_table == compilation_tables@,
            r@.execution_tables.etable.len() == 0,
            r@.execution_tables.mtable.len() == 0,
            r@.execution_tables.jtable.len() == 0,
            r.is_last_slice == last_slice_circuit,
    {
        let post_image_table = compilation_tables.clone();
        Tables {
            compilation_tables,
            execution_tables: ExecutionTable::default(),
            post_image_table,
            is_last_slice: last_slice_circuit,
        }
    }

    /// Cuts what a run left behind into slices that fit the circuit.
    pub fn slice(&self, execution_result: ExecutionResult) -> (r: Result<Slices, SliceError>)
        requires
            8 <= self.spec_k(),
            pow2(self.spec_k() as nat) <= usize::MAX,
        ensures
            r is Ok <==> sliceable(execution_result.tables@, slice_capability(self.spec_k()) as nat),
            r matches Ok(slices) ==> {
                &&& slices.wf()
                &&& slices.origin() == execution_result.tables@
                &&& slices.index() == 0
                &&& slices.spec_capability() == slice_capability(self.spec_k())
            },
    {
        Slices::new(execution_result.tables, self.compute_slice_capability())
    }
}

/// Whether a module in binary form can be run.
pub fn precheck_image(image: &[u8]) -> (r: Result<(), LoadError>)
    ensures
        r == loadable(image@),
{
    match parse_exports(image) {
        Err(_) => Err(LoadError::InvalidImage),
        Ok(None) => Err(LoadError::PreCheck(PreCheckErr::ZkmainNotExists)),
        Ok(Some(exports)) => match check_zkmain_exists(&exports) {
            Ok(_) => Ok(()),
            Err(e) => Err(LoadError::PreCheck(e)),
        },
    }
}

/// One column that the verifying key names.
#[derive(Debug, PartialEq, Eq)]
pub struct NamedColumn {
    pub name: String,
    pub index: u32,
}

/// The index of the first column under `name`.
pub open spec fn find_column(columns: Seq<NamedColumn>, name: Seq<char>) -> Option<u32>
    decreases columns.len(),
{
    if columns.len() == 0 {
        None
    } else if columns[0].name@ == name {
        Some(columns[0].index)
    } else {
        find_column(columns.skip(1), name)
    }
}

/// What the check of a proof against a program comes to: the commitment to
/// the image column, as the transcript holds it, must be the checksum of the
/// program.
pub open spec fn image_check(
    columns: Seq<NamedColumn>,
    commitments: Seq<Vec<u8>>,
    checksum: Seq<u8>,
) -> Result<(), VerificationFailure> {
    match find_column(columns, IMAGE_COL_NAME@) {
        None => Err(VerificationFailure::ImageColumnMissing),
        Some(index) => if index >= commitments.len() {
            Err(VerificationFailure::CommitmentMissing)
        } else if commitments[index as int]@ == checksum {
            Ok(())
        } else {
            Err(VerificationFailure::ChecksumMismatch)
        },
    }
}

/// Checks that a proof was built for the expected program: the commitment
/// to the image column, read from the transcript of the proof, must equal
/// the checksum computed from the program's compilation table. Commitments
/// and checksum are compared byte by byte.
pub fn verify_image_commitment(
    named_advices: &Vec<NamedColumn>,
    commitments: &Vec<Vec<u8>>,
    checksum: &Vec<u8>,
) -> (r: Result<(), VerificationFailure>)
    ensures
        r == image_check(named_advices@, commitments@, checksum@),
{
    let name = String::from_str(IMAGE_COL_NAME);
    let mut i: usize = 0;
    proof {
        assert(named_advices@.skip(0) =~= named_advices@);
    }
    while i < named_advices.len()
        invariant
            i <= named_advices.len(),
            name@ == IMAGE_COL_NAME@,
            find_column(named_advices@, IMAGE_COL_NAME@) == find_column(
                named_advices@.skip(i as int),
                IMAGE_COL_NAME@,
            ),
        decreases named_advices.len() - i,
    {
        proof {
            assert(named_advices@.skip(i as int)[0] == named_advices@[i as int]);
            assert(named_advices@.skip(i as int).skip(1) =~= named_advices@.skip(i + 1));
        }
        if named_advices[i].name == name {
            let index = named_advices[i].index as usize;
            if index >= commitments.len() {
                return Err(VerificationFailure::CommitmentMissing);
            }
            return if same_bytes(&commitments[index], checksum) {
                Ok(())
            } else {
                Err(VerificationFailure::ChecksumMismatch)
            };
        }
        i += 1;
    }
    Err(VerificationFailure::ImageColumnMissing)
}

/// Whether two byte strings are the same.
pub fn same_bytes(a: &Vec<u8>, b: &Vec<u8>) -> (r: bool)
    ensures
        r == (a@ == b@),
{
    if a.len() != b.len() {
        return false;
    }
    let mut i: usize = 0;
    while i < a.len()
        invariant
            i <= a.len(),
            a.len() == b.len(),
            forall|j: int| 0 <= j < i ==> a@[j] == b@[j],
        decreases a.len() - i,
    {
        if a[i] != b[i] {
            return false;
        }
        i += 1;
    }
    proof {
        assert(a@ =~= b@);
    }
    true
}

} // verus!
