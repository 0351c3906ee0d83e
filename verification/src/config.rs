//! The record of a configuration and the checks that tie the artifacts on
//! disk to it: an artifact is used only if its digest is the one recorded
//! at setup.

use vstd::prelude::*;
use vstd::string::StringExecFns;
use crate::names::circuit_data_suffix;
use crate::names::decimal;
use crate::names::name_of_circuit_data;
use crate::names::name_of_instance;
use crate::names::name_of_transcript;
use crate::names::name_of_witness;

verus! {

/// The execution environment that serves the host functions of the guest.
#[derive(Clone, Copy, Debug, PartialEq, Eq, Structural, Hash)]
pub enum HostMode {
    /// Trivial Wasm Host Environment
    DEFAULT,
    /// Wasm Host Environment with more Zk plugins
    STANDARD,
}

#[derive(Debug, PartialEq, Eq)]
pub struct CircuitDataMd5 {
    pub circuit_data_md5: String,
    pub verifying_key_md5: String,
}

/// The digests of the circuits of a configuration. `on_going_circuit` is
/// that of the slices before the last and is kept only where an execution
/// may be split.
#[derive(Debug, PartialEq, Eq)]
pub struct CircuitDataConfig {
    pub on_going_circuit: Option<CircuitDataMd5>,
    pub finalized_circuit: CircuitDataMd5,
}

#[derive(Debug, PartialEq, Eq)]
pub struct Config {
    pub name: String,
    pub is_uniform_circuit: bool,
    pub k: u32,
    pub params: String,
    pub params_md5: String,
    pub wasm_image_md5: Option<String>,
    pub circuit_datas: CircuitDataConfig,
    pub checksum: (String, String),
    pub phantom_functions: Vec<String>,
    pub host_mode: HostMode,
}

/// An artifact that is not the one the configuration was set up with.
#[derive(Clone, Copy, Debug, PartialEq, Eq, Structural, Hash)]
pub enum ConsistencyError {
    WasmImage,
    Params,
    CircuitData,
    VerifyingKey,
}

impl ConsistencyError {
    pub fn message(&self) -> (r: String)
        ensures
            r@ == match self {
                ConsistencyError::WasmImage => "Wasm image is inconsistent with the one used to build the circuit. Maybe you have changed the Wasm image after setup the circuit?"@,
                ConsistencyError::Params => "Params is inconsistent with the one used to build the circuit. Maybe you have changed the params after setup the circuit?"@,
                ConsistencyError::CircuitData => "Circuit data is inconsistent with the one used to build the circuit. Maybe you have changed the circuit data after setup the circuit?"@,
                ConsistencyError::VerifyingKey => "Verifying key is inconsistent with the one used to build the circuit. Maybe you have changed the circuit data after setup the circuit?"@,
            },
    {
        match self {
            ConsistencyError::WasmImage => String::from_str(
                "Wasm image is inconsistent with the one used to build the circuit. Maybe you have changed the Wasm image after setup the circuit?",
            ),
            ConsistencyError::Params => String::from_str(
                "Params is inconsistent with the one used to build the circuit. Maybe you have changed the params after setup the circuit?",
            ),
            ConsistencyError::CircuitData => String::from_str(
                "Circuit data is inconsistent with the one used to build the circuit. Maybe you have changed the circuit data after setup the circuit?",
            ),
            ConsistencyError::VerifyingKey => String::from_str(
                "Verifying key is inconsistent with the one used to build the circuit. Maybe you have changed the circuit data after setup the circuit?",
            ),
        }
    }
}

/// The MD5 digest of `data` as 32 lower-case hexadecimal digits.
pub uninterp spec fn md5_hex(data: Seq<u8>) -> Seq<char>;

/// Computes the digest with `md5::compute` and renders it with `{:x}`, two
/// digits for each of its 16 bytes. The contract gives the text a name and
/// tells nothing of its characters.
#[verifier::external_body]
fn md5_digest(data: &[u8]) -> (r: String)
    ensures
        r@ == md5_hex(data@),
{
    format!("{:x}", md5::compute(data))
}

/// What comparing a digest with the recorded one comes to.
pub open spec fn digest_check(actual: Seq<char>, expected: Seq<char>, what: ConsistencyError) -> Result<
    (),
    ConsistencyError,
> {
    if actual == expected {
        Ok(())
    } else {
        Err(what)
    }
}

/// Accepts a digest that is the recorded one, and names the artifact where
/// it is not.
pub fn check_digest(actual: &String, expected: &String, what: ConsistencyError) -> (r: Result<
    (),
    ConsistencyError,
>)
    ensures
        r == digest_check(actual@, expected@, what),
{
    if *actual == *expected {
        Ok(())
    } else {
        Err(what)
    }
}

/// The digest of an artifact.
pub fn digest_of(data: &[u8]) -> (r: String)
    ensures
        r@ == md5_hex(data@),
{
    md5_digest(data)
}

impl Config {
    /// Whether the configuration is one of an execution that may be split.
    pub open spec fn spec_continuation(&self) -> bool {
        self.circuit_datas.on_going_circuit is Some
    }

    #[verifier::when_used_as_spec(spec_continuation)]
    pub fn continuation(&self) -> (r: bool)
        ensures
            r == self.spec_continuation(),
    {
        self.circuit_datas.on_going_circuit.is_some()
    }

    /// Checks the image against the digest recorded at setup. A
    /// configuration that recorded none accepts every image.
    pub fn image_consistent_check(&self, wasm_image: &[u8]) -> (r: Result<(), ConsistencyError>)
        ensures
            r == match self.wasm_image_md5 {
                Some(expected) => digest_check(
                    md5_hex(wasm_image@),
                    expected@,
                    ConsistencyError::WasmImage,
                ),
                None => Ok(()),
            },
    {
        match &self.wasm_image_md5 {
            Some(expected_wasm_image_md5) => {
                let wasm_image_md5 = md5_digest(wasm_image);
                check_digest(&wasm_image_md5, expected_wasm_image_md5, ConsistencyError::WasmImage)
            },
            None => Ok(()),
        }
    }

    /// Checks the commitment parameters against the digest recorded at
    /// setup.
    pub fn params_consistent_check(&self, params: &[u8]) -> (r: Result<(), ConsistencyError>)
        ensures
            r == digest_check(md5_hex(params@), self.params_md5@, ConsistencyError::Params),
    {
        let params_md5 = md5_digest(params);
        check_digest(&params_md5, &self.params_md5, ConsistencyError::Params)
    }

    /// Checks a verifying key against a recorded digest.
    pub fn veryfying_key_consistent_check(&self, verifying_key: &[u8], expected_md5: &String) -> (r:
        Result<(), ConsistencyError>)
        ensures
            r == digest_check(
                md5_hex(verifying_key@),
                expected_md5@,
                ConsistencyError::VerifyingKey,
            ),
    {
        let verifying_key_md5 = md5_digest(verifying_key);
        check_digest(&verifying_key_md5, expected_md5, ConsistencyError::VerifyingKey)
    }

    /// Checks the data of a circuit against a recorded digest.
    pub fn circuit_data_consistent_check(&self, circuit_data: &[u8], expected_md5: &String) -> (r:
        Result<(), ConsistencyError>)
        ensures
            r == digest_check(
                md5_hex(circuit_data@),
                expected_md5@,
                ConsistencyError::CircuitData,
            ),
    {
        let circuit_data_md5 = md5_digest(circuit_data);
        check_digest(&circuit_data_md5, expected_md5, ConsistencyError::CircuitData)
    }

    /// The digests of the circuit that proves a slice: the last slice has
    /// the finalized circuit, and so has every slice of an execution that is
    /// not split; the slices before the last have the on-going circuit.
    pub fn circuit_of_slice(&self, is_last_slice: bool) -> (r: &CircuitDataMd5)
        ensures
            *r == match self.circuit_datas.on_going_circuit {
                Some(on_going) if !is_last_slice => on_going,
                _ => self.circuit_datas.finalized_circuit,
            },
    {
        match &self.circuit_datas.on_going_circuit {
            Some(on_going) => if is_last_slice {
                &self.circuit_datas.finalized_circuit
            } else {
                on_going
            },
            None => &self.circuit_datas.finalized_circuit,
        }
    }

    /// The files of the proof of slice `index`.
    pub fn proof_piece(&self, index: usize, is_last_slice: bool, instance_size: u32) -> (r:
        ProofPieceInfo)
        ensures
            r.circuit@ == self.name@ + circuit_data_suffix(self.spec_continuation(), is_last_slice),
            r.instance_size == instance_size,
            r.witness@ == self.name@ + "."@ + decimal(index as nat) + ".witness.json"@,
            r.instance@ == self.name@ + "."@ + decimal(index as nat) + ".instance.data"@,
            r.transcript@ == self.name@ + "."@ + decimal(index as nat) + ".transcript.data"@,
    {
        ProofPieceInfo {
            circuit: name_of_circuit_data(self.name.as_str(), self.continuation(), is_last_slice),
            instance_size,
            witness: name_of_witness(self.name.as_str(), index),
            instance: name_of_instance(self.name.as_str(), index),
            transcript: name_of_transcript(self.name.as_str(), index),
        }
    }
}

/// The files that hold the proof of one slice.
#[derive(Debug, PartialEq, Eq)]
pub struct ProofPieceInfo {
    pub circuit: String,
    pub instance_size: u32,
    pub witness: String,
    pub instance: String,
    pub transcript: String,
}

/// The largest of `sizes`; 0 where there are none.
pub open spec fn largest(sizes: Seq<usize>) -> usize
    decreases sizes.len(),
{
    if sizes.len() == 0 {
        0
    } else {
        let before = largest(sizes.drop_last());
        if sizes.last() > before {
            sizes.last()
        } else {
            before
        }
    }
}

/// The number of public inputs that the verifier must be prepared for: the
/// length of the longest instance column of a proof.
pub fn public_inputs_size(instance_lengths: &Vec<usize>) -> (r: usize)
    ensures
        r == largest(instance_lengths@),
{
    let mut acc: usize = 0;
    let mut i: usize = 0;
    while i < instance_lengths.len()
        invariant
            i <= instance_lengths.len(),
            acc == largest(instance_lengths@.take(i as int)),
        decreases instance_lengths.len() - i,
    {
        proof {
            assert(instance_lengths@.take(i + 1).drop_last() =~= instance_lengths@.take(i as int));
            assert(instance_lengths@.take(i + 1).last() == instance_lengths@[i as int]);
        }
        if instance_lengths[i] > acc {
            acc = instance_lengths[i];
        }
        i += 1;
    }
    proof {
        assert(instance_lengths@.take(i as int) =~= instance_lengths@);
    }
    acc
}

} // verus!
