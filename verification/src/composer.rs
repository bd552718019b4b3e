//! The standard composer: a columnar append-log of gates.
//!
//! A gate is one row across eleven selector columns and four wire columns;
//! the composer grows strictly append-only, keeps every column at the same
//! length, and records each wire's variable in the copy-constraint map. Rows
//! carrying a public input are remembered by position so that prover and
//! verifier substitute the same entries.

use vstd::prelude::*;
use ark_bls12_381::Fr;
use crate::error::Error;
use crate::permutation::Permutation;
use crate::permutation::Variable;
use crate::permutation::WireData;
use crate::permutation::occurrences_wf;
use crate::permutation::with_gate_occurrences;
use crate::permutation::lemma_gate_occurrences_wf;
use crate::scalar::fr_from;
use crate::scalar::scalar_one;
use crate::scalar::scalar_zero;

verus! {

/// `diff` copies of the zero scalar.
pub open spec fn zero_scalars(diff: nat) -> Seq<Fr> {
    Seq::new(diff, |i: int| fr_from(0))
}

/// `diff` copies of the wire variable `w`.
pub open spec fn repeated_var(w: Variable, diff: nat) -> Seq<Variable> {
    Seq::new(diff, |i: int| w)
}

/// The mathematical state of a composer: each column as a sequence, the
/// witness values, the copy-constraint map and the public-input bookkeeping.
#[verifier::ext_equal]
pub struct ComposerView {
    /// Gate count.
    pub n: usize,
    /// Multiplication selector.
    pub q_m: Seq<Fr>,
    /// Left-wire selector.
    pub q_l: Seq<Fr>,
    /// Right-wire selector.
    pub q_r: Seq<Fr>,
    /// Output-wire selector.
    pub q_o: Seq<Fr>,
    /// Constant selector.
    pub q_c: Seq<Fr>,
    /// Fourth-wire selector.
    pub q_4: Seq<Fr>,
    /// Arithmetic-gate selector.
    pub q_arith: Seq<Fr>,
    /// Range-gate selector.
    pub q_range: Seq<Fr>,
    /// Logic-gate selector.
    pub q_logic: Seq<Fr>,
    /// Fixed-base group-addition selector.
    pub q_fixed_group_add: Seq<Fr>,
    /// Variable-base group-addition selector.
    pub q_variable_group_add: Seq<Fr>,
    /// Left wires.
    pub w_l: Seq<Variable>,
    /// Right wires.
    pub w_r: Seq<Variable>,
    /// Output wires.
    pub w_o: Seq<Variable>,
    /// Fourth wires.
    pub w_4: Seq<Variable>,
    /// Witness values, indexed by variable.
    pub variables: Seq<Fr>,
    /// Occurrence lists of the copy-constraint map, indexed by variable.
    pub perm: Seq<Seq<WireData>>,
    /// Rows whose constant selector carries a public input, in order.
    pub pi_positions: Seq<usize>,
    /// The public-input values, aligned with `pi_positions`.
    pub pi_values: Seq<Fr>,
    /// The designated variable holding the zero witness.
    pub zero_var: Variable,
}

impl ComposerView {
    /// All fifteen columns have the same length as the multiplication
    /// selector.
    pub open spec fn cols_same_len(self) -> bool {
        &&& self.q_l.len() == self.q_m.len()
        &&& self.q_r.len() == self.q_m.len()
        &&& self.q_o.len() == self.q_m.len()
        &&& self.q_c.len() == self.q_m.len()
        &&& self.q_4.len() == self.q_m.len()
        &&& self.q_arith.len() == self.q_m.len()
        &&& self.q_range.len() == self.q_m.len()
        &&& self.q_logic.len() == self.q_m.len()
        &&& self.q_fixed_group_add.len() == self.q_m.len()
        &&& self.q_variable_group_add.len() == self.q_m.len()
        &&& self.w_l.len() == self.q_m.len()
        &&& self.w_r.len() == self.q_m.len()
        &&& self.w_o.len() == self.q_m.len()
        &&& self.w_4.len() == self.q_m.len()
    }

    /// The bookkeeping part of well-formedness: the multiplication selector
    /// has one entry per gate, the copy-constraint map is well formed, the
    /// zero variable is registered and public-input rows exist. This is what
    /// preprocessing itself relies on; whether the remaining columns agree
    /// in length is what its consistency check decides at run time.
    pub open spec fn wf_core(self) -> bool {
        &&& self.q_m.len() == self.n
        &&& self.perm.len() == self.variables.len()
        &&& occurrences_wf(self.perm, self.n as nat)
        &&& self.zero_var.0 == 0
        &&& self.variables.len() >= 1
        &&& self.pi_positions.len() == self.pi_values.len()
        &&& forall|i: int|
            0 <= i < self.pi_positions.len() ==> (#[trigger] self.pi_positions[i]) < self.n
    }

    /// Well-formedness: every column has exactly one entry per gate, the
    /// copy-constraint map is well formed, wires point at registered
    /// witnesses and public-input rows exist.
    pub open spec fn wf(self) -> bool {
        &&& self.wf_core()
        &&& self.cols_same_len()
        &&& forall|i: int|
            0 <= i < self.n ==> (#[trigger] self.w_l[i]).0 < self.variables.len()
        &&& forall|i: int|
            0 <= i < self.n ==> (#[trigger] self.w_r[i]).0 < self.variables.len()
        &&& forall|i: int|
            0 <= i < self.n ==> (#[trigger] self.w_o[i]).0 < self.variables.len()
        &&& forall|i: int|
            0 <= i < self.n ==> (#[trigger] self.w_4[i]).0 < self.variables.len()
    }

    /// Every column can grow by `diff` rows without exceeding the machine:
    /// the only precondition padding itself needs.
    pub open spec fn can_pad(self, diff: nat) -> bool {
        &&& self.n + diff <= usize::MAX
        &&& self.q_m.len() + diff <= usize::MAX
        &&& self.q_l.len() + diff <= usize::MAX
        &&& self.q_r.len() + diff <= usize::MAX
        &&& self.q_o.len() + diff <= usize::MAX
        &&& self.q_c.len() + diff <= usize::MAX
        &&& self.q_4.len() + diff <= usize::MAX
        &&& self.q_arith.len() + diff <= usize::MAX
        &&& self.q_range.len() + diff <= usize::MAX
        &&& self.q_logic.len() + diff <= usize::MAX
        &&& self.q_fixed_group_add.len() + diff <= usize::MAX
        &&& self.q_variable_group_add.len() + diff <= usize::MAX
        &&& self.w_l.len() + diff <= usize::MAX
        &&& self.w_r.len() + diff <= usize::MAX
        &&& self.w_o.len() + diff <= usize::MAX
        &&& self.w_4.len() + diff <= usize::MAX
    }

    /// The state after appending `diff` rows of the zero selector and the
    /// zero variable: the padding transform. It touches no witness value, no
    /// copy-constraint binding and no public-input position.
    pub open spec fn padded(self, diff: nat) -> ComposerView {
        (ComposerView {
            n: (self.n + diff) as usize,
            q_m: self.q_m + zero_scalars(diff),
            q_l: self.q_l + zero_scalars(diff),
            q_r: self.q_r + zero_scalars(diff),
            q_o: self.q_o + zero_scalars(diff),
            q_c: self.q_c + zero_scalars(diff),
            q_4: self.q_4 + zero_scalars(diff),
            q_arith: self.q_arith + zero_scalars(diff),
            q_range: self.q_range + zero_scalars(diff),
            q_logic: self.q_logic + zero_scalars(diff),
            q_fixed_group_add: self.q_fixed_group_add + zero_scalars(diff),
            q_variable_group_add: self.q_variable_group_add + zero_scalars(diff),
            w_l: self.w_l + repeated_var(self.zero_var, diff),
            w_r: self.w_r + repeated_var(self.zero_var, diff),
            w_o: self.w_o + repeated_var(self.zero_var, diff),
            w_4: self.w_4 + repeated_var(self.zero_var, diff),
            ..self
        })
    }

    /// The state after appending one gate row: selector values as given, the
    /// arithmetic selector raised, the custom-gate selectors at zero, wires
    /// recorded in the copy-constraint map, and the row remembered as a
    /// public-input position when a public input is attached.
    pub open spec fn with_gate(
        self,
        wl: Variable,
        wr: Variable,
        wo: Variable,
        w4: Variable,
        q_m_v: Fr,
        q_l_v: Fr,
        q_r_v: Fr,
        q_o_v: Fr,
        q_4_v: Fr,
        q_c_v: Fr,
        pi: Option<Fr>,
    ) -> ComposerView {
        (ComposerView {
            n: (self.n + 1) as usize,
            q_m: self.q_m.push(q_m_v),
            q_l: self.q_l.push(q_l_v),
            q_r: self.q_r.push(q_r_v),
            q_o: self.q_o.push(q_o_v),
            q_c: self.q_c.push(q_c_v),
            q_4: self.q_4.push(q_4_v),
            q_arith: self.q_arith.push(fr_from(1)),
            q_range: self.q_range.push(fr_from(0)),
            q_logic: self.q_logic.push(fr_from(0)),
            q_fixed_group_add: self.q_fixed_group_add.push(fr_from(0)),
            q_variable_group_add: self.q_variable_group_add.push(fr_from(0)),
            w_l: self.w_l.push(wl),
            w_r: self.w_r.push(wr),
            w_o: self.w_o.push(wo),
            w_4: self.w_4.push(w4),
            perm: with_gate_occurrences(
                self.perm,
                wl.0 as int,
                wr.0 as int,
                wo.0 as int,
                w4.0 as int,
                self.n,
            ),
            pi_positions: if pi is Some {
                self.pi_positions.push(self.n)
            } else {
                self.pi_positions
            },
            pi_values: if pi is Some {
                self.pi_values.push(pi->Some_0)
            } else {
                self.pi_values
            },
            ..self
        })
    }

    /// The state after registering one fresh witness value.
    pub open spec fn with_input(self, value: Fr) -> ComposerView {
        (ComposerView {
            variables: self.variables.push(value),
            perm: self.perm.push(Seq::empty()),
            ..self
        })
    }
}

/// The state of a freshly created composer: one registered zero witness and
/// one arithmetic gate constraining it to zero.
pub open spec fn initial_composer() -> ComposerView {
    (ComposerView {
        n: 0,
        q_m: Seq::empty(),
        q_l: Seq::empty(),
        q_r: Seq::empty(),
        q_o: Seq::empty(),
        q_c: Seq::empty(),
        q_4: Seq::empty(),
        q_arith: Seq::empty(),
        q_range: Seq::empty(),
        q_logic: Seq::empty(),
        q_fixed_group_add: Seq::empty(),
        q_variable_group_add: Seq::empty(),
        w_l: Seq::empty(),
        w_r: Seq::empty(),
        w_o: Seq::empty(),
        w_4: Seq::empty(),
        variables: Seq::empty(),
        perm: Seq::empty(),
        pi_positions: Seq::empty(),
        pi_values: Seq::empty(),
        zero_var: Variable(0),
    }).with_input(fr_from(0)).with_gate(
        Variable(0),
        Variable(0),
        Variable(0),
        Variable(0),
        fr_from(0),
        fr_from(1),
        fr_from(0),
        fr_from(0),
        fr_from(0),
        fr_from(0),
        None,
    )
}

/// Padding the empty amount changes nothing: a composer already at its
/// target size is left exactly as it was. Determinism of padding is
/// immediate from `pad`'s contract, which pins the padded state as a
/// function of the input state alone.
pub proof fn lemma_padding_idempotent(m: ComposerView)
    ensures
        m.padded(0) == m,
{
    assert(m.padded(0) =~~= m);
}

/// The composer: accumulates one circuit's constraint system and its
/// copy-constraint graph, strictly append-only.
pub struct StandardComposer {
    pub(crate) n: usize,
    pub(crate) q_m: Vec<Fr>,
    pub(crate) q_l: Vec<Fr>,
    pub(crate) q_r: Vec<Fr>,
    pub(crate) q_o: Vec<Fr>,
    pub(crate) q_c: Vec<Fr>,
    pub(crate) q_4: Vec<Fr>,
    pub(crate) q_arith: Vec<Fr>,
    pub(crate) q_range: Vec<Fr>,
    pub(crate) q_logic: Vec<Fr>,
    pub(crate) q_fixed_group_add: Vec<Fr>,
    pub(crate) q_variable_group_add: Vec<Fr>,
    pub(crate) w_l: Vec<Variable>,
    pub(crate) w_r: Vec<Variable>,
    pub(crate) w_o: Vec<Variable>,
    pub(crate) w_4: Vec<Variable>,
    pub(crate) variables: Vec<Fr>,
    pub(crate) perm: Permutation,
    pub(crate) pi_positions: Vec<usize>,
    pub(crate) pi_values: Vec<Fr>,
    pub(crate) zero_var: Variable,
}

impl View for StandardComposer {
    type V = ComposerView;

    closed spec fn view(&self) -> ComposerView {
        ComposerView {
            n: self.n,
            q_m: self.q_m@,
            q_l: self.q_l@,
            q_r: self.q_r@,
            q_o: self.q_o@,
            q_c: self.q_c@,
            q_4: self.q_4@,
            q_arith: self.q_arith@,
            q_range: self.q_range@,
            q_logic: self.q_logic@,
            q_fixed_group_add: self.q_fixed_group_add@,
            q_variable_group_add: self.q_variable_group_add@,
            w_l: self.w_l@,
            w_r: self.w_r@,
            w_o: self.w_o@,
            w_4: self.w_4@,
            variables: self.variables@,
            perm: self.perm@,
            pi_positions: self.pi_positions@,
            pi_values: self.pi_values@,
            zero_var: self.zero_var,
        }
    }
}

impl StandardComposer {
    /// The view, spelled out over the fields, for use inside the crate.
    pub(crate) open spec fn fields_view(&self) -> ComposerView {
        ComposerView {
            n: self.n,
            q_m: self.q_m@,
            q_l: self.q_l@,
            q_r: self.q_r@,
            q_o: self.q_o@,
            q_c: self.q_c@,
            q_4: self.q_4@,
            q_arith: self.q_arith@,
            q_range: self.q_range@,
            q_logic: self.q_logic@,
            q_fixed_group_add: self.q_fixed_group_add@,
            q_variable_group_add: self.q_variable_group_add@,
            w_l: self.w_l@,
            w_r: self.w_r@,
            w_o: self.w_o@,
            w_4: self.w_4@,
            variables: self.variables@,
            perm: self.perm@,
            pi_positions: self.pi_positions@,
            pi_values: self.pi_values@,
            zero_var: self.zero_var,
        }
    }

    /// The abstract view is exactly the fields view.
    pub(crate) proof fn lemma_view(&self)
        ensures
            self@ == self.fields_view(),
    {
    }

    /// A fresh composer holding the designated zero variable, constrained to
    /// zero by one arithmetic gate.
    pub fn new() -> (r: Self)
        ensures
            r@ == initial_composer(),
            r@.wf(),
    {
        let mut c = StandardComposer {
            n: 0,
            q_m: Vec::new(),
            q_l: Vec::new(),
            q_r: Vec::new(),
            q_o: Vec::new(),
            q_c: Vec::new(),
            q_4: Vec::new(),
            q_arith: Vec::new(),
            q_range: Vec::new(),
            q_logic: Vec::new(),
            q_fixed_group_add: Vec::new(),
            q_variable_group_add: Vec::new(),
            w_l: Vec::new(),
            w_r: Vec::new(),
            w_o: Vec::new(),
            w_4: Vec::new(),
            variables: Vec::new(),
            perm: Permutation::new(),
            pi_positions: Vec::new(),
            pi_values: Vec::new(),
            zero_var: Variable(0),
        };
        proof {
            assert(c@.perm =~~= Seq::<Seq<WireData>>::empty());
        }
        let zero = scalar_zero();
        let zv = c.add_input_inner(zero);
        let ghost perm1 = c@.perm;
        let one = scalar_one();
        let zero2 = scalar_zero();
        c.poly_gate_inner(zv, zv, zv, zv, zero2, one, zero2, zero2, zero2, zero2, None);
        proof {
            lemma_gate_occurrences_wf(perm1, 0, 0, 0, 0, 0);
            assert(c@ =~~= initial_composer());
        }
        c
    }

    /// A fresh composer; the expected gate count is only a capacity hint and
    /// does not change the initial state.
    pub fn with_expected_size(_expected_size: usize) -> (r: Self)
        ensures
            r@ == initial_composer(),
            r@.wf(),
    {
        Self::new()
    }

    /// The current (unpadded) gate count.
    pub fn circuit_size(&self) -> (r: usize)
        ensures
            r == self@.n,
    {
        self.n
    }

    /// The designated variable holding the zero witness.
    pub fn zero_var(&self) -> (r: Variable)
        ensures
            r == self@.zero_var,
    {
        self.zero_var
    }

    /// Registers a fresh witness value and hands back its handle.
    pub fn add_input(&mut self, value: Fr) -> (r: Variable)
        requires
            old(self)@.wf(),
            old(self)@.variables.len() < usize::MAX,
        ensures
            final(self)@ == old(self)@.with_input(value),
            final(self)@.wf(),
            r.0 == old(self)@.variables.len(),
    {
        let r = self.add_input_inner(value);
        proof {
            assert(self@ =~~= old(self)@.with_input(value));
        }
        r
    }

    fn add_input_inner(&mut self, value: Fr) -> (r: Variable)
        requires
            old(self)@.variables.len() < usize::MAX,
        ensures
            final(self)@ == old(self)@.with_input(value),
            r.0 == old(self)@.variables.len(),
    {
        let idx = self.variables.len();
        self.variables.push(value);
        self.perm.add_variable();
        proof {
            assert(self@ =~~= old(self)@.with_input(value));
        }
        Variable(idx)
    }

    /// Appends one arithmetic gate row with the given selector values, the
    /// four wires, and an optional public input attached to the row. Returns
    /// the row index.
    #[allow(clippy::too_many_arguments)]
    pub fn poly_gate(
        &mut self,
        wl: Variable,
        wr: Variable,
        wo: Variable,
        w4: Variable,
        q_m_v: Fr,
        q_l_v: Fr,
        q_r_v: Fr,
        q_o_v: Fr,
        q_4_v: Fr,
        q_c_v: Fr,
        pi: Option<Fr>,
    ) -> (row: usize)
        requires
            old(self)@.wf(),
            old(self)@.n < usize::MAX,
            wl.0 < old(self)@.variables.len(),
            wr.0 < old(self)@.variables.len(),
            wo.0 < old(self)@.variables.len(),
            w4.0 < old(self)@.variables.len(),
        ensures
            final(self)@ == old(self)@.with_gate(
                wl,
                wr,
                wo,
                w4,
                q_m_v,
                q_l_v,
                q_r_v,
                q_o_v,
                q_4_v,
                q_c_v,
                pi,
            ),
            final(self)@.wf(),
            row == old(self)@.n,
    {
        let row = self.poly_gate_inner(wl, wr, wo, w4, q_m_v, q_l_v, q_r_v, q_o_v, q_4_v, q_c_v, pi);
        proof {
            lemma_gate_occurrences_wf(
                old(self)@.perm,
                wl.0 as int,
                wr.0 as int,
                wo.0 as int,
                w4.0 as int,
                old(self)@.n,
            );
        }
        row
    }

    fn poly_gate_inner(
        &mut self,
        wl: Variable,
        wr: Variable,
        wo: Variable,
        w4: Variable,
        q_m_v: Fr,
        q_l_v: Fr,
        q_r_v: Fr,
        q_o_v: Fr,
        q_4_v: Fr,
        q_c_v: Fr,
        pi: Option<Fr>,
    ) -> (row: usize)
        requires
            old(self)@.n < usize::MAX,
            old(self)@.n == old(self)@.q_m.len(),
            old(self)@.cols_same_len(),
            old(self)@.perm.len() == old(self)@.variables.len(),
            wl.0 < old(self)@.variables.len(),
            wr.0 < old(self)@.variables.len(),
            wo.0 < old(self)@.variables.len(),
            w4.0 < old(self)@.variables.len(),
            old(self)@.pi_positions.len() == old(self)@.pi_values.len(),
        ensures
            final(self)@ == old(self)@.with_gate(
                wl,
                wr,
                wo,
                w4,
                q_m_v,
                q_l_v,
                q_r_v,
                q_o_v,
                q_4_v,
                q_c_v,
                pi,
            ),
            row == old(self)@.n,
    {
        let row = self.n;
        self.q_m.push(q_m_v);
        self.q_l.push(q_l_v);
        self.q_r.push(q_r_v);
        self.q_o.push(q_o_v);
        self.q_c.push(q_c_v);
        self.q_4.push(q_4_v);
        let one = scalar_one();
        let z0 = scalar_zero();
        let z1 = scalar_zero();
        let z2 = scalar_zero();
        let z3 = scalar_zero();
        self.q_arith.push(one);
        self.q_range.push(z0);
        self.q_logic.push(z1);
        self.q_fixed_group_add.push(z2);
        self.q_variable_group_add.push(z3);
        self.w_l.push(wl);
        self.w_r.push(wr);
        self.w_o.push(wo);
        self.w_4.push(w4);
        self.perm.add_variables_to_map(wl, wr, wo, w4, row);
        match pi {
            Option::Some(v) => {
                self.pi_positions.push(row);
                self.pi_values.push(v);
            },
            Option::None => {},
        }
        self.n = self.n + 1;
        proof {
            assert(self@ =~~= old(self)@.with_gate(
                wl,
                wr,
                wo,
                w4,
                q_m_v,
                q_l_v,
                q_r_v,
                q_o_v,
                q_4_v,
                q_c_v,
                pi,
            ));
        }
        row
    }

    /// The rows carrying a public input, in the order they were added.
    pub fn pi_positions(&self) -> (r: Vec<usize>)
        ensures
            r@ == self@.pi_positions,
    {
        let mut r: Vec<usize> = Vec::new();
        proof {
            assert(r@ =~= self.pi_positions@.subrange(0, 0));
        }
        let mut i: usize = 0;
        while i < self.pi_positions.len()
            invariant
                i <= self.pi_positions@.len(),
                r@ == self.pi_positions@.subrange(0, i as int),
            decreases self.pi_positions@.len() - i,
        {
            r.push(self.pi_positions[i]);
            proof {
                assert(r@ =~= self.pi_positions@.subrange(0, i + 1));
            }
            i = i + 1;
        }
        proof {
            assert(r@ =~= self.pi_positions@);
        }
        r
    }

    /// The lengths of all fifteen columns, selectors first, in declaration
    /// order.
    pub fn column_lengths(&self) -> (r: Vec<usize>)
        ensures
            r@ =~= seq![
                self@.q_m.len() as usize,
                self@.q_l.len() as usize,
                self@.q_r.len() as usize,
                self@.q_o.len() as usize,
                self@.q_c.len() as usize,
                self@.q_4.len() as usize,
                self@.q_arith.len() as usize,
                self@.q_range.len() as usize,
                self@.q_logic.len() as usize,
                self@.q_fixed_group_add.len() as usize,
                self@.q_variable_group_add.len() as usize,
                self@.w_l.len() as usize,
                self@.w_r.len() as usize,
                self@.w_o.len() as usize,
                self@.w_4.len() as usize,
            ],
    {
        let mut r: Vec<usize> = Vec::new();
        r.push(self.q_m.len());
        r.push(self.q_l.len());
        r.push(self.q_r.len());
        r.push(self.q_o.len());
        r.push(self.q_c.len());
        r.push(self.q_4.len());
        r.push(self.q_arith.len());
        r.push(self.q_range.len());
        r.push(self.q_logic.len());
        r.push(self.q_fixed_group_add.len());
        r.push(self.q_variable_group_add.len());
        r.push(self.w_l.len());
        r.push(self.w_r.len());
        r.push(self.w_o.len());
        r.push(self.w_4.len());
        r
    }

    /// Checks that every selector and wire column has the same length; the
    /// structural precondition of preprocessing.
    pub fn check_poly_same_len(&self) -> (r: Result<(), Error>)
        ensures
            r is Ok <==> self@.cols_same_len(),
            r is Err ==> r == Result::<(), Error>::Err(Error::MismatchedPolyLen),
    {
        let k = self.q_m.len();
        if self.q_o.len() == k && self.q_l.len() == k && self.q_r.len() == k && self.q_c.len() == k
            && self.q_4.len() == k && self.q_arith.len() == k && self.q_range.len() == k
            && self.q_logic.len() == k && self.q_fixed_group_add.len() == k
            && self.q_variable_group_add.len() == k && self.w_l.len() == k && self.w_r.len() == k
            && self.w_o.len() == k && self.w_4.len() == k {
            Ok(())
        } else {
            Err(Error::MismatchedPolyLen)
        }
    }

    /// Pads the circuit with `diff` rows of the zero selector and the zero
    /// variable. Witness values, copy-constraint bindings and public-input
    /// positions are untouched.
    pub fn pad(&mut self, diff: usize)
        requires
            old(self)@.can_pad(diff as nat),
        ensures
            final(self)@ == old(self)@.padded(diff as nat),
            old(self)@.wf() ==> final(self)@.wf(),
            old(self)@.wf_core() ==> final(self)@.wf_core(),
    {
        extend_zero_scalars(&mut self.q_m, diff);
        extend_zero_scalars(&mut self.q_l, diff);
        extend_zero_scalars(&mut self.q_r, diff);
        extend_zero_scalars(&mut self.q_o, diff);
        extend_zero_scalars(&mut self.q_c, diff);
        extend_zero_scalars(&mut self.q_4, diff);
        extend_zero_scalars(&mut self.q_arith, diff);
        extend_zero_scalars(&mut self.q_range, diff);
        extend_zero_scalars(&mut self.q_logic, diff);
        extend_zero_scalars(&mut self.q_fixed_group_add, diff);
        extend_zero_scalars(&mut self.q_variable_group_add, diff);
        extend_repeated_var(&mut self.w_l, self.zero_var, diff);
        extend_repeated_var(&mut self.w_r, self.zero_var, diff);
        extend_repeated_var(&mut self.w_o, self.zero_var, diff);
        extend_repeated_var(&mut self.w_4, self.zero_var, diff);
        self.n = self.n + diff;
        proof {
            assert(self@ =~~= old(self)@.padded(diff as nat));
        }
    }
}

/// Appends `diff` zero scalars to a column.
fn extend_zero_scalars(v: &mut Vec<Fr>, diff: usize)
    requires
        old(v)@.len() + diff <= usize::MAX,
    ensures
        final(v)@ == old(v)@ + zero_scalars(diff as nat),
{
    let mut i: usize = 0;
    while i < diff
        invariant
            i <= diff,
            v@.len() + (diff - i) <= usize::MAX,
            v@ == old(v)@ + zero_scalars(i as nat),
        decreases diff - i,
    {
        let z = scalar_zero();
        v.push(z);
        proof {
            assert(v@ =~= old(v)@ + zero_scalars((i + 1) as nat));
        }
        i = i + 1;
    }
    proof {
        assert(v@ =~= old(v)@ + zero_scalars(diff as nat));
    }
}

/// Appends `diff` copies of the wire variable `w` to a column.
fn extend_repeated_var(v: &mut Vec<Variable>, w: Variable, diff: usize)
    requires
        old(v)@.len() + diff <= usize::MAX,
    ensures
        final(v)@ == old(v)@ + repeated_var(w, diff as nat),
{
    let mut i: usize = 0;
    while i < diff
        invariant
            i <= diff,
            v@.len() + (diff - i) <= usize::MAX,
            v@ == old(v)@ + repeated_var(w, i as nat),
        decreases diff - i,
    {
        v.push(w);
        proof {
            assert(v@ =~= old(v)@ + repeated_var(w, (i + 1) as nat));
        }
        i = i + 1;
    }
    proof {
        assert(v@ =~= old(v)@ + repeated_var(w, diff as nat));
    }
}

} // verus!
