//! The names of the files that hold the artifacts of a configuration.

use vstd::prelude::*;
use vstd::string::StringExecFns;

verus! {

/// The character of a decimal digit.
pub open spec fn digit_char(d: nat) -> char {
    if d == 0 {
        '0'
    } else if d == 1 {
        '1'
    } else if d == 2 {
        '2'
    } else if d == 3 {
        '3'
    } else if d == 4 {
        '4'
    } else if d == 5 {
        '5'
    } else if d == 6 {
        '6'
    } else if d == 7 {
        '7'
    } else if d == 8 {
        '8'
    } else {
        '9'
    }
}

/// A number in decimal notation, without leading zeros.
pub open spec fn decimal(n: nat) -> Seq<char>
    decreases n,
{
    if n < 10 {
        seq![digit_char(n)]
    } else {
        decimal(n / 10).push(digit_char(n % 10))
    }
}

fn digit_str(d: u64) -> (r: &'static str)
    requires
        d < 10,
    ensures
        r@ == seq![digit_char(d as nat)],
{
    proof {
        reveal_strlit("0");
        reveal_strlit("1");
        reveal_strlit("2");
        reveal_strlit("3");
        reveal_strlit("4");
        reveal_strlit("5");
        reveal_strlit("6");
        reveal_strlit("7");
        reveal_strlit("8");
        reveal_strlit("9");
    }
    let r = if d == 0 {
        "0"
    } else if d == 1 {
        "1"
    } else if d == 2 {
        "2"
    } else if d == 3 {
        "3"
    } else if d == 4 {
        "4"
    } else if d == 5 {
        "5"
    } else if d == 6 {
        "6"
    } else if d == 7 {
        "7"
    } else if d == 8 {
        "8"
    } else {
        "9"
    };
    proof {
        assert(r@ =~= seq![digit_char(d as nat)]);
    }
    r
}

/// Appends a number in decimal notation.
pub fn push_decimal(out: &mut String, n: u64)
    ensures
        final(out)@ == old(out)@ + decimal(n as nat),
    decreases n,
{
    if n >= 10 {
        push_decimal(out, n / 10);
    }
    out.append(digit_str(n % 10));
    proof {
        if n >= 10 {
            assert(out@ =~= old(out)@ + decimal(n as nat));
        } else {
            assert(out@ =~= old(out)@ + decimal(n as nat));
        }
    }
}

/// The file of the commitment parameters of circuits with `2^k` rows.
pub fn name_of_params(k: u32) -> (r: String)
    ensures
        r@ == "K"@ + decimal(k as nat) + ".params"@,
{
    let mut name = String::from_str("K");
    push_decimal(&mut name, k as u64);
    name.append(".params");
    name
}

/// The file of the configuration `name`.
pub fn name_of_config(name: &str) -> (r: String)
    ensures
        r@ == name@ + ".zkwasm.config"@,
{
    let mut r = String::from_str(name);
    r.append(".zkwasm.config");
    r
}

/// What a circuit data file name ends in. An execution that is not split has
/// one circuit; one that is split has a circuit for the last slice and
/// another for the slices before it.
pub open spec fn circuit_data_suffix(continuation: bool, is_last_circuit: bool) -> Seq<char> {
    if !continuation {
        ".circuit.data"@
    } else if is_last_circuit {
        ".circuit.finalized.data"@
    } else {
        ".circuit.ongoing.data"@
    }
}

/// The file of the keys of a circuit of the configuration `name`.
pub fn name_of_circuit_data(name: &str, continuation: bool, is_last_circuit: bool) -> (r: String)
    ensures
        r@ == name@ + circuit_data_suffix(continuation, is_last_circuit),
{
    let mut r = String::from_str(name);
    if !continuation {
        r.append(".circuit.data");
    } else if is_last_circuit {
        r.append(".circuit.finalized.data");
    } else {
        r.append(".circuit.ongoing.data");
    }
    r
}

/// The file that lists the proofs of the configuration `name`.
pub fn name_of_loadinfo(name: &str) -> (r: String)
    ensures
        r@ == name@ + ".loadinfo.json"@,
{
    let mut r = String::from_str(name);
    r.append(".loadinfo.json");
    r
}

fn name_of_piece(name: &str, index: usize, suffix: &str) -> (r: String)
    ensures
        r@ == name@ + "."@ + decimal(index as nat) + suffix@,
{
    let mut r = String::from_str(name);
    r.append(".");
    push_decimal(&mut r, index as u64);
    r.append(suffix);
    r
}

/// The file of the witness of slice `index`.
pub fn name_of_witness(name: &str, index: usize) -> (r: String)
    ensures
        r@ == name@ + "."@ + decimal(index as nat) + ".witness.json"@,
{
    name_of_piece(name, index, ".witness.json")
}

/// The file of the public instance of slice `index`.
pub fn name_of_instance(name: &str, index: usize) -> (r: String)
    ensures
        r@ == name@ + "."@ + decimal(index as nat) + ".instance.data"@,
{
    name_of_piece(name, index, ".instance.data")
}

/// The file of the transcript of the proof of slice `index`.
pub fn name_of_transcript(name: &str, index: usize) -> (r: String)
    ensures
        r@ == name@ + "."@ + decimal(index as nat) + ".transcript.data"@,
{
    name_of_piece(name, index, ".transcript.data")
}

/// The file of the trace of slice `index`.
pub fn name_of_etable_slice(name: &str, index: usize) -> (r: String)
    ensures
        r@ == name@ + "."@ + decimal(index as nat) + ".etable.data"@,
{
    name_of_piece(name, index, ".etable.data")
}

} // verus!
