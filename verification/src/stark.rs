//! Chip composition: the closed set of constraint chips that make up one
//! provable machine, and the machine that binds them to a backend
//! configuration under a public-value budget.
//!
//! The enumeration of chip variants is a fixed sequence, so proof and
//! verification agree on trace ordering and public-value layout by
//! construction. A machine is immutable once built, and building it fails
//! immediately when the chips declare more public values than the budget
//! allows.

use vstd::prelude::*;

verus! {

/// The maximum number of public values one proof may expose.
pub const PROOF_MAX_NUM_PVS: usize = 32;

/// The chip carrying the program ROM constraints.
#[derive(Clone, Copy, Debug, PartialEq, Eq, Structural)]
pub struct ProgramChip;

/// The chip carrying the CPU transition constraints; the machine's public
/// values are committed through its trace.
#[derive(Clone, Copy, Debug, PartialEq, Eq, Structural)]
pub struct CpuChip;

impl Default for CpuChip {
    /// The CPU chip takes no construction parameters.
    fn default() -> (r: CpuChip)
        ensures
            r == CpuChip,
    {
        CpuChip
    }
}

/// The memory phase a global memory chip handles.
#[derive(Clone, Copy, Debug, PartialEq, Eq, Structural)]
pub enum MemoryChipKind {
    /// The initial memory image.
    Init,
    /// The final memory image.
    Finalize,
}

/// The chip carrying global memory consistency constraints for one phase.
#[derive(Clone, Copy, Debug, PartialEq, Eq, Structural)]
pub struct MemoryGlobalChip {
    pub kind: MemoryChipKind,
}

/// One variant of the closed chip set of the recursion machine.
#[derive(Clone, Copy, Debug, PartialEq, Eq, Structural)]
pub enum RecursionAir {
    Program(ProgramChip),
    Cpu(CpuChip),
    MemoryInit(MemoryGlobalChip),
    MemoryFinalize(MemoryGlobalChip),
}

/// The combined public-value count a sequence of chips declares.
pub open spec fn spec_pv_sum(chips: Seq<RecursionAir>) -> int
    decreases chips.len(),
{
    if chips.len() == 0 {
        0
    } else {
        spec_pv_sum(chips.drop_last()) + chips.last().spec_public_value_count()
    }
}

impl RecursionAir {
    /// The number of public values this chip declares; fixed per variant.
    pub open spec fn spec_public_value_count(self) -> int {
        match self {
            RecursionAir::Cpu(_) => PROOF_MAX_NUM_PVS as int,
            _ => 0,
        }
    }

    /// The number of public values this chip declares; fixed per variant.
    pub fn public_value_count(&self) -> (n: usize)
        ensures
            n as int == self.spec_public_value_count(),
    {
        match self {
            RecursionAir::Cpu(_) => PROOF_MAX_NUM_PVS,
            _ => 0,
        }
    }

    /// The complete chip set of one recursion machine, in its fixed order.
    pub open spec fn spec_all_chips() -> Seq<RecursionAir> {
        seq![
            RecursionAir::Program(ProgramChip),
            RecursionAir::Cpu(CpuChip),
            RecursionAir::MemoryInit(MemoryGlobalChip { kind: MemoryChipKind::Init }),
            RecursionAir::MemoryFinalize(MemoryGlobalChip { kind: MemoryChipKind::Finalize }),
        ]
    }

    /// Instantiates every chip variant of the machine, in the fixed order
    /// that trace commitment and public-value layout rely on.
    pub fn get_all() -> (chips: Vec<RecursionAir>)
        ensures
            chips@ =~= Self::spec_all_chips(),
    {
        let mut chips: Vec<RecursionAir> = Vec::new();
        let program = ProgramChip;
        chips.push(RecursionAir::Program(program));
        let cpu = CpuChip::default();
        chips.push(RecursionAir::Cpu(cpu));
        let memory_init = MemoryGlobalChip { kind: MemoryChipKind::Init };
        chips.push(RecursionAir::MemoryInit(memory_init));
        let memory_finalize = MemoryGlobalChip { kind: MemoryChipKind::Finalize };
        chips.push(RecursionAir::MemoryFinalize(memory_finalize));
        chips
    }

    /// Builds the recursion machine over the full chip set, bound to
    /// `config` and to the machine-wide public-value budget.
    pub fn machine<SC>(config: SC) -> (m: StarkMachine<SC>)
        ensures
            m.spec_chips() =~= Self::spec_all_chips(),
            m.spec_num_pv_elts() == PROOF_MAX_NUM_PVS as int,
            m.spec_config() == config,
    {
        let chips = Self::get_all();
        proof {
            lemma_all_chips_pv_sum();
        }
        let result = StarkMachine::new(config, chips, PROOF_MAX_NUM_PVS);
        match result {
            Ok(m) => m,
            Err(_) => vstd::pervasive::unreached(),
        }
    }
}

/// The full chip set declares exactly the machine-wide budget of public
/// values.
proof fn lemma_all_chips_pv_sum()
    ensures
        spec_pv_sum(RecursionAir::spec_all_chips()) == PROOF_MAX_NUM_PVS as int,
{
    let s = RecursionAir::spec_all_chips();
    let s3 = s.drop_last();
    let s2 = s3.drop_last();
    let s1 = s2.drop_last();
    let s0 = s1.drop_last();
    assert(s1[0] == s[0]);
    assert(s2[1] == s[1]);
    assert(s3[2] == s[2]);
    assert(s0.len() == 0);
    assert(spec_pv_sum(s0) == 0);
    assert(s1.len() == 1 && s1.last() == s[0]);
    assert(spec_pv_sum(s1) == 0);
    assert(spec_pv_sum(s2) == PROOF_MAX_NUM_PVS as int);
    assert(spec_pv_sum(s3) == PROOF_MAX_NUM_PVS as int);
    assert(spec_pv_sum(s) == PROOF_MAX_NUM_PVS as int);
}

/// Determinism of the enumeration: any two chip sequences satisfying the
/// contract of `get_all` — in the same process or another — are identical,
/// element for element and in order.
pub proof fn lemma_enumeration_deterministic(
    first: Seq<RecursionAir>,
    second: Seq<RecursionAir>,
)
    requires
        first =~= RecursionAir::spec_all_chips(),
        second =~= RecursionAir::spec_all_chips(),
    ensures
        first =~= second,
{
}

/// A chip composition the machine rejects at construction.
#[derive(Clone, Copy, Debug, PartialEq, Eq, Structural)]
pub enum MachineError {
    /// The chips' combined declared public-value count exceeds the budget.
    PublicValueBudgetExceeded,
}

/// An immutable aggregate of a backend configuration, an ordered chip list,
/// and a maximum public-value count that the chips' declarations respect.
#[derive(Debug)]
pub struct StarkMachine<SC> {
    config: SC,
    chips: Vec<RecursionAir>,
    num_pv_elts: usize,
}

impl<SC> StarkMachine<SC> {
    #[verifier::type_invariant]
    spec fn inv(self) -> bool {
        spec_pv_sum(self.chips@) <= self.num_pv_elts
    }

    /// The machine's chip list.
    pub closed spec fn spec_chips(&self) -> Seq<RecursionAir> {
        self.chips@
    }

    /// The machine's public-value budget.
    pub closed spec fn spec_num_pv_elts(&self) -> int {
        self.num_pv_elts as int
    }

    /// The machine's backend configuration.
    pub closed spec fn spec_config(&self) -> SC {
        self.config
    }

    /// Builds a machine from a backend configuration, an ordered chip list
    /// and a public-value budget. Fails — immediately, never at proving time
    /// — exactly when the chips declare more public values than the budget
    /// allows.
    pub fn new(config: SC, chips: Vec<RecursionAir>, num_pv_elts: usize) -> (r: Result<
        StarkMachine<SC>,
        MachineError,
    >)
        ensures
            r is Ok <==> spec_pv_sum(chips@) <= num_pv_elts as int,
            r matches Ok(m) ==> {
                &&& m.spec_chips() =~= chips@
                &&& m.spec_num_pv_elts() == num_pv_elts as int
                &&& m.spec_config() == config
            },
            r is Err ==> r == Result::<StarkMachine<SC>, MachineError>::Err(
                MachineError::PublicValueBudgetExceeded,
            ),
    {
        let mut declared: u128 = 0;
        let mut i: usize = 0;
        while i < chips.len()
            invariant
                i <= chips.len(),
                declared as int == spec_pv_sum(chips@.subrange(0, i as int)),
                declared <= (PROOF_MAX_NUM_PVS as u128) * (i as u128),
            decreases chips.len() - i,
        {
            let count = chips[i].public_value_count();
            proof {
                assert(chips@.subrange(0, i + 1).drop_last() =~= chips@.subrange(0, i as int));
                assert(chips@.subrange(0, i + 1).last() == chips@[i as int]);
                assert(chips@[i as int].spec_public_value_count() <= PROOF_MAX_NUM_PVS as int);
                assert((PROOF_MAX_NUM_PVS as u128) * ((i + 1) as u128) == (PROOF_MAX_NUM_PVS
                    as u128) * (i as u128) + PROOF_MAX_NUM_PVS as u128) by (nonlinear_arith);
            }
            declared = declared + count as u128;
            i = i + 1;
        }
        proof {
            assert(chips@.subrange(0, chips@.len() as int) =~= chips@);
        }
        if declared <= num_pv_elts as u128 {
            Ok(StarkMachine { config, chips, num_pv_elts })
        } else {
            Err(MachineError::PublicValueBudgetExceeded)
        }
    }

    /// The ordered chip list; its combined declared public-value count stays
    /// within the machine's budget.
    pub fn chips(&self) -> (r: &Vec<RecursionAir>)
        ensures
            r@ =~= self.spec_chips(),
            spec_pv_sum(r@) <= self.spec_num_pv_elts(),
    {
        proof {
            use_type_invariant(self);
        }
        &self.chips
    }

    /// The machine's public-value budget.
    pub fn num_pv_elts(&self) -> (r: usize)
        ensures
            r as int == self.spec_num_pv_elts(),
    {
        self.num_pv_elts
    }

    /// The machine's backend configuration.
    pub fn config(&self) -> (r: &SC)
        ensures
            *r == self.spec_config(),
    {
        &self.config
    }
}

} // verus!
