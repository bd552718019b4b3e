//! The copy-constraint (permutation) structure.
//!
//! Every variable remembers the ordered list of wire positions it occupies.
//! From those occurrence lists the four sigma permutations are derived: each
//! position is sent to the next occurrence of the same variable in cyclic
//! order, and every position that no variable occupies stays fixed. The
//! proving protocol turns this permutation into four polynomials whose grand
//! product enforces "same variable, same value" across the whole circuit.

use vstd::prelude::*;
use ark_bls12_381::Fr;
use crate::domain::domain_gen;
use crate::domain::domain_generator;
use crate::domain::domain_ifft;
use crate::domain::ifft_of;
use crate::domain::is_pow2;
use crate::scalar::fr_from;
use crate::scalar::fr_mul;
use crate::scalar::fr_pow;
use crate::scalar::scalar_from_u64;
use crate::scalar::scalar_mul;
use crate::scalar::scalar_pow;

verus! {

/// The coset shift of the right-wire column in the permutation encoding.
pub const COSET_K1: u64 = 7;

/// The coset shift of the output-wire column in the permutation encoding.
pub const COSET_K2: u64 = 13;

/// The coset shift of the fourth-wire column in the permutation encoding.
pub const COSET_K3: u64 = 17;

/// A witness handle: the index of one witness value inside the composer that
/// created it.
#[derive(Clone, Copy, Debug, PartialEq, Eq, Structural)]
pub struct Variable(pub usize);

/// One wire position of the constraint system: which of the four wire columns
/// and which gate row.
#[derive(Clone, Copy, Debug, PartialEq, Eq, Structural)]
pub enum WireData {
    /// The left wire of a gate row.
    Left(usize),
    /// The right wire of a gate row.
    Right(usize),
    /// The output wire of a gate row.
    Output(usize),
    /// The fourth wire of a gate row.
    Fourth(usize),
}

impl WireData {
    /// The row index where the occurrence sits.
    pub open spec fn row(self) -> usize {
        match self {
            WireData::Left(i) => i,
            WireData::Right(i) => i,
            WireData::Output(i) => i,
            WireData::Fourth(i) => i,
        }
    }

    /// The wire column of this position, numbered left, right, output,
    /// fourth.
    pub open spec fn col(self) -> int {
        match self {
            WireData::Left(_) => 0,
            WireData::Right(_) => 1,
            WireData::Output(_) => 2,
            WireData::Fourth(_) => 3,
        }
    }
}

/// The wire position in column `j` at row `i`.
pub open spec fn wire_at(j: int, i: usize) -> WireData {
    if j == 0 {
        WireData::Left(i)
    } else if j == 1 {
        WireData::Right(i)
    } else if j == 2 {
        WireData::Output(i)
    } else {
        WireData::Fourth(i)
    }
}

/// An occurrence map is well formed for a circuit of `n` gates when every
/// recorded position lies in a row below `n` and no position is recorded
/// twice.
pub open spec fn occurrences_wf(pm: Seq<Seq<WireData>>, n: nat) -> bool {
    &&& forall|v: int, k: int|
        0 <= v < pm.len() && 0 <= k < pm[v].len() ==> (#[trigger] pm[v][k]).row() < n
    &&& forall|v1: int, k1: int, v2: int, k2: int|
        0 <= v1 < pm.len() && 0 <= k1 < pm[v1].len() && 0 <= v2 < pm.len() && 0 <= k2
            < pm[v2].len() && #[trigger] pm[v1][k1] == #[trigger] pm[v2][k2] ==> v1 == v2 && k1
            == k2
}

/// `pm` with the position `w` appended to variable `v`'s occurrence list.
pub open spec fn with_occurrence(pm: Seq<Seq<WireData>>, v: int, w: WireData) -> Seq<
    Seq<WireData>,
> {
    pm.update(v, pm[v].push(w))
}

/// `pm` after one gate at row `n` recorded its four wires `a`, `b`, `c`, `d`.
pub open spec fn with_gate_occurrences(
    pm: Seq<Seq<WireData>>,
    a: int,
    b: int,
    c: int,
    d: int,
    n: usize,
) -> Seq<Seq<WireData>> {
    with_occurrence(
        with_occurrence(
            with_occurrence(with_occurrence(pm, a, WireData::Left(n)), b, WireData::Right(n)),
            c,
            WireData::Output(n),
        ),
        d,
        WireData::Fourth(n),
    )
}

/// The position `w` occurs somewhere in the occurrence map `pm`.
pub open spec fn occurs(pm: Seq<Seq<WireData>>, w: WireData) -> bool {
    exists|v: int, k: int| 0 <= v < pm.len() && 0 <= k < pm[v].len() && pm[v][k] == w
}

/// `s` (four columns of length `n`) is the sigma permutation derived from the
/// occurrence map `pm`: every recorded position is sent to the next
/// occurrence of the same variable in cyclic order, and every other position
/// stays fixed.
pub open spec fn is_sigma_mapping(pm: Seq<Seq<WireData>>, n: nat, s: Seq<Seq<WireData>>) -> bool {
    &&& s.len() == 4
    &&& forall|j: int| 0 <= j < 4 ==> (#[trigger] s[j]).len() == n
    &&& forall|v: int, k: int|
        0 <= v < pm.len() && 0 <= k < pm[v].len() ==> #[trigger] sigma_sends(s, pm, v, k)
    &&& forall|j: int, i: usize|
        0 <= j < 4 && i < n && !occurs(pm, #[trigger] wire_at(j, i)) ==> s[j][i as int] == wire_at(
            j,
            i,
        )
}

/// The copy-constraint bookkeeping: for every variable, the ordered list of
/// wire positions where it appears.
pub struct Permutation {
    variable_map: Vec<Vec<WireData>>,
}

impl View for Permutation {
    type V = Seq<Seq<WireData>>;

    closed spec fn view(&self) -> Seq<Seq<WireData>> {
        Seq::new(self.variable_map@.len(), |v: int| self.variable_map@[v]@)
    }
}

impl Permutation {
    /// An empty permutation structure with no variables.
    pub fn new() -> (r: Self)
        ensures
            r@ =~= Seq::<Seq<WireData>>::empty(),
    {
        Permutation { variable_map: Vec::new() }
    }

    /// Registers one fresh variable with no occurrences yet.
    pub fn add_variable(&mut self)
        ensures
            final(self)@ =~= old(self)@.push(Seq::empty()),
    {
        self.variable_map.push(Vec::new());
    }

    /// Records that a gate at row `n` uses variable `a` on its left wire,
    /// `b` on its right wire, `c` on its output wire and `d` on its fourth
    /// wire.
    pub fn add_variables_to_map(
        &mut self,
        a: Variable,
        b: Variable,
        c: Variable,
        d: Variable,
        n: usize,
    )
        requires
            a.0 < old(self)@.len(),
            b.0 < old(self)@.len(),
            c.0 < old(self)@.len(),
            d.0 < old(self)@.len(),
        ensures
            final(self)@ == with_gate_occurrences(
                old(self)@,
                a.0 as int,
                b.0 as int,
                c.0 as int,
                d.0 as int,
                n,
            ),
    {
        self.variable_map[a.0].push(WireData::Left(n));
        self.variable_map[b.0].push(WireData::Right(n));
        self.variable_map[c.0].push(WireData::Output(n));
        self.variable_map[d.0].push(WireData::Fourth(n));
        proof {
            assert(self@ =~~= with_gate_occurrences(
                old(self)@,
                a.0 as int,
                b.0 as int,
                c.0 as int,
                d.0 as int,
                n,
            ));
        }
    }
}

/// The four sigma permutation columns, one entry per gate row.
pub struct SigmaPermutations {
    /// Where each left-wire position is sent.
    pub left: Vec<WireData>,
    /// Where each right-wire position is sent.
    pub right: Vec<WireData>,
    /// Where each output-wire position is sent.
    pub out: Vec<WireData>,
    /// Where each fourth-wire position is sent.
    pub fourth: Vec<WireData>,
}

impl View for SigmaPermutations {
    type V = Seq<Seq<WireData>>;

    open spec fn view(&self) -> Seq<Seq<WireData>> {
        seq![self.left@, self.right@, self.out@, self.fourth@]
    }
}

/// The position `w` occurs in `pm` strictly before the traversal point
/// `(v, k)` (variables in order, occurrences of one variable in order).
pub open spec fn occurs_before(pm: Seq<Seq<WireData>>, v: int, k: int, w: WireData) -> bool {
    exists|v2: int, k2: int|
        0 <= v2 < pm.len() && 0 <= k2 < pm[v2].len() && (v2 < v || (v2 == v && k2 < k)) && pm[v2][k2]
            == w
}

impl Permutation {
    /// Derives the four sigma permutation columns for a circuit of `n` gates:
    /// every recorded wire position is mapped to the next occurrence of the
    /// same variable in cyclic order, and unused positions stay fixed.
    pub fn compute_sigma_permutations(&self, n: usize) -> (r: SigmaPermutations)
        requires
            occurrences_wf(self@, n as nat),
        ensures
            is_sigma_mapping(self@, n as nat, r@),
            forall|j: int, t: int|
                0 <= j < 4 && 0 <= t < n ==> (#[trigger] r@[j][t]).row() < n,
    {
        let ghost pm = self@;
        let mut left: Vec<WireData> = Vec::new();
        let mut right: Vec<WireData> = Vec::new();
        let mut out: Vec<WireData> = Vec::new();
        let mut fourth: Vec<WireData> = Vec::new();
        let mut i: usize = 0;
        while i < n
            invariant
                i <= n,
                left@.len() == i,
                right@.len() == i,
                out@.len() == i,
                fourth@.len() == i,
                forall|t: int| 0 <= t < i ==> left@[t] == WireData::Left(t as usize),
                forall|t: int| 0 <= t < i ==> right@[t] == WireData::Right(t as usize),
                forall|t: int| 0 <= t < i ==> out@[t] == WireData::Output(t as usize),
                forall|t: int| 0 <= t < i ==> fourth@[t] == WireData::Fourth(t as usize),
            decreases n - i,
        {
            left.push(WireData::Left(i));
            right.push(WireData::Right(i));
            out.push(WireData::Output(i));
            fourth.push(WireData::Fourth(i));
            i = i + 1;
        }
        let num_vars = self.variable_map.len();
        let mut v: usize = 0;
        while v < num_vars
            invariant
                occurrences_wf(pm, n as nat),
                pm == self@,
                num_vars == pm.len(),
                v <= num_vars,
                left@.len() == n,
                right@.len() == n,
                out@.len() == n,
                fourth@.len() == n,
                forall|t: int| 0 <= t < n ==> (#[trigger] left@[t]).row() < n,
                forall|t: int| 0 <= t < n ==> (#[trigger] right@[t]).row() < n,
                forall|t: int| 0 <= t < n ==> (#[trigger] out@[t]).row() < n,
                forall|t: int| 0 <= t < n ==> (#[trigger] fourth@[t]).row() < n,
                forall|v2: int, k2: int|
                    0 <= v2 < v && 0 <= k2 < pm[v2].len() ==> sigma_sends(
                        seq![left@, right@, out@, fourth@],
                        pm,
                        v2,
                        k2,
                    ),
                forall|j: int, t: usize|
                    0 <= j < 4 && t < n && !occurs_before(pm, v as int, 0, #[trigger] wire_at(j, t))
                        ==> seq![left@, right@, out@, fourth@][j][t as int] == wire_at(j, t),
            decreases num_vars - v,
        {
            let l = self.variable_map[v].len();
            let mut k: usize = 0;
            while k < l
                invariant
                    occurrences_wf(pm, n as nat),
                    pm == self@,
                    num_vars == pm.len(),
                    v < num_vars,
                    l == pm[v as int].len(),
                    k <= l,
                    left@.len() == n,
                    right@.len() == n,
                    out@.len() == n,
                    fourth@.len() == n,
                    forall|t: int| 0 <= t < n ==> (#[trigger] left@[t]).row() < n,
                    forall|t: int| 0 <= t < n ==> (#[trigger] right@[t]).row() < n,
                    forall|t: int| 0 <= t < n ==> (#[trigger] out@[t]).row() < n,
                    forall|t: int| 0 <= t < n ==> (#[trigger] fourth@[t]).row() < n,
                    forall|v2: int, k2: int|
                        0 <= v2 < pm.len() && 0 <= k2 < pm[v2].len() && (v2 < v || (v2 == v as int
                            && k2 < k)) ==> sigma_sends(
                            seq![left@, right@, out@, fourth@],
                            pm,
                            v2,
                            k2,
                        ),
                    forall|j: int, t: usize|
                        0 <= j < 4 && t < n && !occurs_before(
                            pm,
                            v as int,
                            k as int,
                            #[trigger] wire_at(j, t),
                        ) ==> seq![left@, right@, out@, fourth@][j][t as int] == wire_at(j, t),
                decreases l - k,
            {
                let cur = self.variable_map[v][k];
                let nxt_idx = if k + 1 == l {
                    0
                } else {
                    k + 1
                };
                let nxt = self.variable_map[v][nxt_idx];
                proof {
                    assert(cur == pm[v as int][k as int]);
                    assert(cur.row() < n);
                    assert(nxt_idx as int == (k + 1) % (pm[v as int].len() as int)) by {
                        if k + 1 == l {
                            vstd::arithmetic::div_mod::lemma_mod_self_0(l as int);
                        } else {
                            vstd::arithmetic::div_mod::lemma_small_mod((k + 1) as nat, l as nat);
                        }
                    }
                }
                let ghost s_old = seq![left@, right@, out@, fourth@];
                match cur {
                    WireData::Left(t) => {
                        left[t] = nxt;
                    },
                    WireData::Right(t) => {
                        right[t] = nxt;
                    },
                    WireData::Output(t) => {
                        out[t] = nxt;
                    },
                    WireData::Fourth(t) => {
                        fourth[t] = nxt;
                    },
                }
                proof {
                    let s_new = seq![left@, right@, out@, fourth@];
                    assert(s_new[cur.col()][cur.row() as int] == nxt);
                    assert forall|j: int, t: int|
                        0 <= j < 4 && 0 <= t < n && !(j == cur.col() && t == cur.row() as int)
                            implies s_new[j][t] == s_old[j][t] by {}
                    assert forall|v2: int, k2: int|
                        0 <= v2 < pm.len() && 0 <= k2 < pm[v2].len() && (v2 < v || (v2 == v as int
                            && k2 < k + 1)) implies sigma_sends(s_new, pm, v2, k2) by {
                        let w2 = pm[v2][k2];
                        if v2 == v as int && k2 == k as int {
                            assert(sigma_sends(s_new, pm, v2, k2));
                        } else {
                            assert(w2 == pm[v2][k2] && cur == pm[v as int][k as int]);
                            assert(w2 != cur);
                            assert(w2.col() != cur.col() || w2.row() != cur.row());
                            assert(sigma_sends(s_old, pm, v2, k2));
                            assert(s_new[w2.col()][w2.row() as int] == s_old[w2.col()][w2.row() as int]);
                        }
                    }
                    assert forall|j: int, t: usize|
                        0 <= j < 4 && t < n && !occurs_before(
                            pm,
                            v as int,
                            k + 1,
                            #[trigger] wire_at(j, t),
                        ) implies s_new[j][t as int] == wire_at(j, t) by {
                        assert(!occurs_before(pm, v as int, k as int, wire_at(j, t)));
                        assert(wire_at(j, t) != cur) by {
                            if wire_at(j, t) == cur {
                                assert(occurs_before(pm, v as int, (k + 1) as int, wire_at(j, t)));
                            }
                        }
                        assert(j != cur.col() || t != cur.row());
                    }
                }
                k = k + 1;
            }
            proof {
                assert forall|v2: int, k2: int|
                    0 <= v2 < v + 1 && 0 <= k2 < pm[v2].len() implies sigma_sends(
                    seq![left@, right@, out@, fourth@],
                    pm,
                    v2,
                    k2,
                ) by {
                    assert(v2 < v as int || (v2 == v as int && k2 < l));
                }
                assert forall|j: int, t: usize|
                    0 <= j < 4 && t < n && !occurs_before(
                        pm,
                        v + 1,
                        0,
                        #[trigger] wire_at(j, t),
                    ) implies seq![left@, right@, out@, fourth@][j][t as int] == wire_at(j, t) by {
                    assert(!occurs_before(pm, v as int, l as int, wire_at(j, t)));
                }
            }
            v = v + 1;
        }
        let r = SigmaPermutations { left, right, out, fourth };
        proof {
            assert forall|v2: int, k2: int|
                0 <= v2 < pm.len() && 0 <= k2 < pm[v2].len() implies sigma_sends(r@, pm, v2, k2) by {}
            assert forall|j: int, t: usize|
                0 <= j < 4 && t < n && !occurs(pm, #[trigger] wire_at(j, t)) implies r@[j][t as int]
                == wire_at(j, t) by {
                assert(!occurs_before(pm, pm.len() as int, 0, wire_at(j, t)));
            }
            assert forall|j: int, t: int| 0 <= j < 4 && 0 <= t < n implies (#[trigger] r@[j][t]).row()
                < n by {
                if j == 0 {
                    assert(r@[j] == left@);
                } else if j == 1 {
                    assert(r@[j] == right@);
                } else if j == 2 {
                    assert(r@[j] == out@);
                } else {
                    assert(r@[j] == fourth@);
                }
            }
        }
        r
    }
}

/// Position `(v, k)` of the occurrence map is sent by `s` to the next
/// occurrence of the same variable in cyclic order.
pub open spec fn sigma_sends(s: Seq<Seq<WireData>>, pm: Seq<Seq<WireData>>, v: int, k: int) -> bool {
    s[pm[v][k].col()][pm[v][k].row() as int] == pm[v][(k + 1) % (pm[v].len() as int)]
}

/// A well-formed occurrence map determines its sigma permutation uniquely:
/// every recorded position is pinned to the next occurrence of its variable,
/// and every other position is pinned to itself.
pub proof fn lemma_sigma_mapping_unique(
    pm: Seq<Seq<WireData>>,
    n: nat,
    s1: Seq<Seq<WireData>>,
    s2: Seq<Seq<WireData>>,
)
    requires
        occurrences_wf(pm, n),
        n <= usize::MAX,
        is_sigma_mapping(pm, n, s1),
        is_sigma_mapping(pm, n, s2),
    ensures
        s1 == s2,
{
    assert forall|j: int| 0 <= j < 4 implies s1[j] =~= s2[j] by {
        assert forall|i: int| 0 <= i < n implies s1[j][i] == s2[j][i] by {
            let w = wire_at(j, i as usize);
            assert(w.col() == j && w.row() == i);
            if occurs(pm, w) {
                let (v, k) = choose|v: int, k: int|
                    0 <= v < pm.len() && 0 <= k < pm[v].len() && pm[v][k] == w;
                assert(sigma_sends(s1, pm, v, k));
                assert(sigma_sends(s2, pm, v, k));
            }
        }
    }
    assert(s1 =~~= s2);
}

/// The field encoding of a wire position for the permutation argument: a row
/// becomes the matching power of the domain generator, and each wire column
/// is shifted onto its own coset so positions across columns stay globally
/// distinguishable.
pub open spec fn sigma_field(w: WireData, n: nat) -> Fr {
    match w {
        WireData::Left(i) => fr_pow(domain_gen(n), i as u64),
        WireData::Right(i) => fr_mul(fr_from(COSET_K1), fr_pow(domain_gen(n), i as u64)),
        WireData::Output(i) => fr_mul(fr_from(COSET_K2), fr_pow(domain_gen(n), i as u64)),
        WireData::Fourth(i) => fr_mul(fr_from(COSET_K3), fr_pow(domain_gen(n), i as u64)),
    }
}

/// One sigma column under the field encoding, entry by entry.
pub open spec fn sigma_field_col(col: Seq<WireData>, n: nat) -> Seq<Fr> {
    Seq::new(col.len(), |t: int| sigma_field(col[t], n))
}

/// Interpolates one sigma permutation column into a polynomial: each entry is
/// encoded into the field and the column is carried through the inverse FFT
/// over the size-`n` domain.
pub fn sigma_polynomial(col: &Vec<WireData>, n: usize) -> (r: Vec<Fr>)
    requires
        is_pow2(n as nat),
        n <= 0x8000_0000,
        col@.len() == n,
        forall|t: int| 0 <= t < n ==> (#[trigger] col@[t]).row() < n,
    ensures
        r@ == ifft_of(n as nat, sigma_field_col(col@, n as nat)),
        r@.len() == n,
{
    let gen = domain_generator(n);
    let k1 = scalar_from_u64(COSET_K1);
    let k2 = scalar_from_u64(COSET_K2);
    let k3 = scalar_from_u64(COSET_K3);
    let mut evals: Vec<Fr> = Vec::new();
    let mut t: usize = 0;
    while t < n
        invariant
            t <= n,
            n <= 0x8000_0000,
            col@.len() == n,
            forall|u: int| 0 <= u < n ==> (#[trigger] col@[u]).row() < n,
            gen == domain_gen(n as nat),
            k1 == fr_from(COSET_K1),
            k2 == fr_from(COSET_K2),
            k3 == fr_from(COSET_K3),
            evals@ == sigma_field_col(col@, n as nat).subrange(0, t as int),
        decreases n - t,
    {
        let w = col[t];
        let e = match w {
            WireData::Left(i) => scalar_pow(&gen, i as u64),
            WireData::Right(i) => {
                let p = scalar_pow(&gen, i as u64);
                scalar_mul(&k1, &p)
            },
            WireData::Output(i) => {
                let p = scalar_pow(&gen, i as u64);
                scalar_mul(&k2, &p)
            },
            WireData::Fourth(i) => {
                let p = scalar_pow(&gen, i as u64);
                scalar_mul(&k3, &p)
            },
        };
        evals.push(e);
        proof {
            assert(evals@ =~= sigma_field_col(col@, n as nat).subrange(0, t + 1));
        }
        t = t + 1;
    }
    proof {
        assert(evals@ =~= sigma_field_col(col@, n as nat));
    }
    domain_ifft(n, &evals)
}

/// Recording a gate whose row `n` lies at or above every row already present
/// keeps the occurrence map well formed for `n + 1` gates.
pub proof fn lemma_gate_occurrences_wf(
    pm: Seq<Seq<WireData>>,
    a: int,
    b: int,
    c: int,
    d: int,
    n: usize,
)
    requires
        occurrences_wf(pm, n as nat),
        0 <= a < pm.len(),
        0 <= b < pm.len(),
        0 <= c < pm.len(),
        0 <= d < pm.len(),
        n < usize::MAX,
    ensures
        occurrences_wf(with_gate_occurrences(pm, a, b, c, d, n), n as nat + 1),
        with_gate_occurrences(pm, a, b, c, d, n).len() == pm.len(),
{
    let r = with_gate_occurrences(pm, a, b, c, d, n);
    assert forall|v: int, k: int| 0 <= v < r.len() && 0 <= k < r[v].len() implies (#[trigger] r[v][k]).row()
        < n as nat + 1 by {
        if k < pm[v].len() {
            assert(r[v][k] == pm[v][k]);
        }
    }
    assert forall|v1: int, k1: int, v2: int, k2: int|
        0 <= v1 < r.len() && 0 <= k1 < r[v1].len() && 0 <= v2 < r.len() && 0 <= k2 < r[v2].len()
            && #[trigger] r[v1][k1] == #[trigger] r[v2][k2] implies v1 == v2 && k1 == k2 by {
        let w1 = r[v1][k1];
        let w2 = r[v2][k2];
        if k1 < pm[v1].len() && k2 < pm[v2].len() {
            assert(pm[v1][k1] == pm[v2][k2]);
        } else if k1 < pm[v1].len() {
            assert(w1.row() < n as nat);
            assert(w2.row() == n);
        } else if k2 < pm[v2].len() {
            assert(w1.row() == n);
            assert(w2.row() < n as nat);
        }
    }
}

} // verus!
