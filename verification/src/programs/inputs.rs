use vstd::prelude::*;

verus! {

/// Maximum number of public inputs of a program.
pub const MAX_PUBLIC_INPUTS: usize = 8usize;

/// The inputs of a program: a tape of public inputs and two tapes of secret inputs.
#[derive(Clone, Debug)]
pub struct ProgramInputs {
    public: Vec<u128>,
    secret: [Vec<u128>; 2],
}

impl ProgramInputs {
    /// The public input tape.
    pub closed spec fn public_tape(&self) -> Seq<u128> {
        self.public@
    }

    /// Secret input tape `i` (0 or 1).
    pub closed spec fn secret_tape(&self, i: int) -> Seq<u128> {
        self.secret[i]@
    }

    /// Returns inputs with the given public and secret tapes; there can be at most
    /// `MAX_PUBLIC_INPUTS` public inputs and the first secret tape cannot be shorter than the
    /// second.
    pub fn new(public: &[u128], secret_a: &[u128], secret_b: &[u128]) -> (r: ProgramInputs)
        requires
            public@.len() <= MAX_PUBLIC_INPUTS,
            secret_a@.len() >= secret_b@.len(),
        ensures
            r.public_tape() == public@,
            r.secret_tape(0) == secret_a@,
            r.secret_tape(1) == secret_b@,
    {
        ProgramInputs { public: vstd::slice::slice_to_vec(public), secret: [vstd::slice::slice_to_vec(secret_a), vstd::slice::slice_to_vec(secret_b)] }
    }

    /// Returns inputs whose three tapes are empty.
    pub fn none() -> (r: ProgramInputs)
        ensures
            r.public_tape() == Seq::<u128>::empty(),
            r.secret_tape(0) == Seq::<u128>::empty(),
            r.secret_tape(1) == Seq::<u128>::empty(),
    {
        ProgramInputs { public: Vec::new(), secret: [Vec::new(), Vec::new()] }
    }

    /// Returns inputs with the given public tape and empty secret tapes.
    pub fn from_public(public: &[u128]) -> (r: ProgramInputs)
        ensures
            r.public_tape() == public@,
            r.secret_tape(0) == Seq::<u128>::empty(),
            r.secret_tape(1) == Seq::<u128>::empty(),
    {
        ProgramInputs { public: vstd::slice::slice_to_vec(public), secret: [Vec::new(), Vec::new()] }
    }

    /// Returns the public input tape.
    pub fn get_public_inputs(&self) -> (r: &[u128])
        ensures
            r@ == self.public_tape(),
    {
        self.public.as_slice()
    }

    /// Returns the two secret input tapes.
    pub fn get_secret_inputs(&self) -> (r: &[Vec<u128>; 2])
        ensures
            r[0]@ == self.secret_tape(0),
            r[1]@ == self.secret_tape(1),
    {
        &self.secret
    }
}

} // verus!
