use crate::graph::TensorId;
use vstd::prelude::*;
use vstd::string::StringExecFns;

verus! {

/// The decimal digit for a value below ten.
pub open spec fn digit(d: int) -> char {
    if d == 0 {
        '0'
    } else if d == 1 {
        '1'
    } else if d == 2 {
        '2'
    } else if d == 3 {
        '3'
    } else if d == 4 {
        '4'
    } else if d == 5 {
        '5'
    } else if d == 6 {
        '6'
    } else if d == 7 {
        '7'
    } else if d == 8 {
        '8'
    } else {
        '9'
    }
}

/// The decimal numeral of `n`, without leading zeros.
pub open spec fn decimal(n: nat) -> Seq<char>
    decreases n,
{
    if n < 10 {
        seq![digit(n as int)]
    } else {
        decimal(n / 10).push(digit((n % 10) as int))
    }
}

/// Name of the file that holds the tensor `id`.
pub open spec fn tensor_file_name(id: nat) -> Seq<char> {
    "tensor_"@ + decimal(id) + ".dat"@
}

/// Name of the file that holds the optimizer state.
pub open spec fn optimizer_file_name() -> Seq<char> {
    "optimizer.dat"@
}

/// The numeral of one digit.
fn digit_str(d: usize) -> (s: &'static str)
    requires
        d < 10,
    ensures
        s@ == seq![digit(d as int)],
{
    proof {
        reveal_strlit("0");
        reveal_strlit("1");
        reveal_strlit("2");
        reveal_strlit("3");
        reveal_strlit("4");
        reveal_strlit("5");
        reveal_strlit("6");
        reveal_strlit("7");
        reveal_strlit("8");
        reveal_strlit("9");
    }
    let s: &'static str = if d == 0 {
        "0"
    } else if d == 1 {
        "1"
    } else if d == 2 {
        "2"
    } else if d == 3 {
        "3"
    } else if d == 4 {
        "4"
    } else if d == 5 {
        "5"
    } else if d == 6 {
        "6"
    } else if d == 7 {
        "7"
    } else if d == 8 {
        "8"
    } else {
        "9"
    };
    assert(s@ =~= seq![digit(d as int)]);
    s
}

/// Appends the decimal numeral of `n` to `s`.
fn append_decimal(s: &mut String, n: usize)
    ensures
        final(s)@ == old(s)@ + decimal(n as nat),
    decreases n,
{
    if n >= 10 {
        append_decimal(s, n / 10);
    }
    s.append(digit_str(n % 10));
    assert(s@ =~= old(s)@ + decimal(n as nat));
}

/// Name of the file that holds the tensor `id`.
pub fn tensor_file(id: TensorId) -> (name: String)
    ensures
        name@ == tensor_file_name(id as nat),
{
    let mut name = String::from_str("tensor_");
    append_decimal(&mut name, id);
    name.append(".dat");
    name
}

/// Name of the file that holds the optimizer state.
pub fn optimizer_file() -> (name: String)
    ensures
        name@ == optimizer_file_name(),
{
    String::from_str("optimizer.dat")
}

/// The file of one learnable tensor.
pub struct TensorFile {
    pub id: TensorId,
    pub name: String,
}

/// The files of a checkpoint: one per learnable tensor, keyed by its id,
/// and one for the optimizer state.
pub struct Checkpoint {
    pub tensors: Vec<TensorFile>,
    pub optimizer: String,
}

impl Checkpoint {
    /// Whether the checkpoint is the one of the learnable tensors `params`:
    /// their files in the same order, and the optimizer's file.
    pub open spec fn covers(&self, params: Seq<usize>) -> bool {
        &&& self.tensors@.len() == params.len()
        &&& forall|k: int|
            0 <= k < params.len() ==> (#[trigger] self.tensors@[k]).id == params[k]
                && self.tensors@[k].name@ == tensor_file_name(params[k] as nat)
        &&& self.optimizer@ == optimizer_file_name()
    }

    /// The checkpoint of the learnable tensors `params`.
    pub fn of(params: &Vec<TensorId>) -> (c: Checkpoint)
        ensures
            c.covers(params@),
    {
        let mut tensors: Vec<TensorFile> = Vec::new();
        let mut k: usize = 0;
        while k < params.len()
            invariant
                k <= params@.len(),
                tensors@.len() == k,
                forall|j: int|
                    0 <= j < k ==> (#[trigger] tensors@[j]).id == params@[j] && tensors@[j].name@
                        == tensor_file_name(params@[j] as nat),
            decreases params@.len() - k,
        {
            let id: usize = params[k];
            tensors.push(TensorFile { id, name: tensor_file(id) });
            k += 1;
        }
        Checkpoint { tensors, optimizer: optimizer_file() }
    }
}

/// Different tensors are kept in different files.
pub proof fn lemma_file_names_differ(a: nat, b: nat)
    requires
        a != b,
    ensures
        tensor_file_name(a) != tensor_file_name(b),
{
    lemma_decimal_injective(a, b);
    let x = tensor_file_name(a);
    let y = tensor_file_name(b);
    if x == y {
        let p = "tensor_"@;
        let q = ".dat"@;
        assert(decimal(a).len() == decimal(b).len()) by {
            assert(x.len() == p.len() + decimal(a).len() + q.len());
            assert(y.len() == p.len() + decimal(b).len() + q.len());
        }
        assert(decimal(a) =~= decimal(b)) by {
            assert forall|i: int| 0 <= i < decimal(a).len() implies decimal(a)[i] == decimal(
                b,
            )[i] by {
                assert(x[p.len() + i] == decimal(a)[i]);
                assert(y[p.len() + i] == decimal(b)[i]);
            }
        }
    }
}

/// Different numbers have different numerals.
pub proof fn lemma_decimal_injective(a: nat, b: nat)
    requires
        a != b,
    ensures
        decimal(a) != decimal(b),
    decreases a,
{
    if a >= 10 && b >= 10 {
        if a / 10 != b / 10 {
            lemma_decimal_injective(a / 10, b / 10);
            assert(decimal(a).drop_last() =~= decimal(a / 10));
            assert(decimal(b).drop_last() =~= decimal(b / 10));
        } else {
            assert(a % 10 != b % 10);
            assert(decimal(a).last() == digit((a % 10) as int));
            assert(decimal(b).last() == digit((b % 10) as int));
        }
    } else if a < 10 && b < 10 {
        assert(decimal(a)[0] == digit(a as int));
        assert(decimal(b)[0] == digit(b as int));
    } else if a < 10 {
        lemma_decimal_len(b);
    } else {
        lemma_decimal_len(a);
    }
}

/// A number of two or more digits has a numeral of two or more characters.
pub proof fn lemma_decimal_len(n: nat)
    ensures
        decimal(n).len() >= 1,
        n >= 10 ==> decimal(n).len() >= 2,
    decreases n,
{
    if n >= 10 {
        lemma_decimal_len(n / 10);
    }
}

} // verus!
